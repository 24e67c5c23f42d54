use alpha_proxy::error::AuthError;
use alpha_proxy::socks::{SessionAction, SessionEnd, Socks5Session, Socks5Stage};
use alpha_proxy::addr::SocketAddress;
use alpha_proxy::socks::{reply_for_connect_error, REPLY_ADDRESS_TYPE_NOT_SUPPORTED};
use std::io::{Error, ErrorKind};
use alpha_proxy::error::ProxyError;
use alpha_proxy::socks::{
    auth_status_reply, check_command, encode_reply, method_reply, parse_auth_request,
    parse_greeting, parse_request, reply_for_failure, select_auth_method, ConnectFailure,
    ParseStep, SocksAddr, SocksCommand, ADDR_TYPE_DOMAIN, ADDR_TYPE_IPV4, ADDR_TYPE_IPV6, AUTH_METHOD_NONE,
    AUTH_METHOD_PASSWORD, AUTH_METHOD_UNACCEPTABLE, REPLY_CONNECTION_REFUSED,
    REPLY_GENERAL_FAILURE, REPLY_SUCCESS, REPLY_TTL_EXPIRED,
};

#[test]
fn test_socks_addr_ipv4() {
    let addr = SocksAddr::Ipv4([127, 0, 0, 1]);
    let bytes = addr.to_bytes();
    assert_eq!(bytes[0], ADDR_TYPE_IPV4);
    assert_eq!(&bytes[1..], &[127, 0, 0, 1]);
}

#[test]
fn test_socks_addr_ipv6() {
    let addr = SocksAddr::Ipv6([0, 0, 0, 0, 0, 0, 0, 0, 0, 0, 0, 0, 0, 0, 0, 1]);
    let bytes = addr.to_bytes();
    assert_eq!(bytes[0], ADDR_TYPE_IPV6);
    assert_eq!(&bytes[1..], &[0, 0, 0, 0, 0, 0, 0, 0, 0, 0, 0, 0, 0, 0, 0, 1]);
}

#[test]
fn test_socks_addr_domain() {
    let addr = SocksAddr::Domain("example.com".to_string());
    let bytes = addr.to_bytes();
    assert_eq!(bytes[0], ADDR_TYPE_DOMAIN);
    assert_eq!(bytes[1], 11); // length of "example.com"
    assert_eq!(&bytes[2..], b"example.com");
}

#[test]
fn greeting_needs_bytes_then_completes() {
    assert!(matches!(parse_greeting(&[5]), ParseStep::NeedBytes(2)));
    assert!(matches!(parse_greeting(&[5, 2, 0]), ParseStep::NeedBytes(4)));
    match parse_greeting(&[5, 2, 0, 2, 99]) {
        ParseStep::Done(methods, used) => {
            assert_eq!(methods, vec![0, 2]);
            assert_eq!(used, 4);
        }
        other => panic!("unexpected {:?}", other),
    }
    match parse_greeting(&[4, 1, 0]) {
        ParseStep::Failed(ProxyError::Protocol(m)) => assert_eq!(m, "Unsupported SOCKS version"),
        other => panic!("unexpected {:?}", other),
    }
}

#[test]
fn auth_method_choice() {
    assert_eq!(select_auth_method(true, &[0, 2]), AUTH_METHOD_PASSWORD);
    assert_eq!(select_auth_method(true, &[0]), AUTH_METHOD_UNACCEPTABLE);
    assert_eq!(select_auth_method(false, &[2, 0]), AUTH_METHOD_NONE);
    assert_eq!(select_auth_method(false, &[2]), AUTH_METHOD_UNACCEPTABLE);
    assert_eq!(method_reply(AUTH_METHOD_PASSWORD), vec![5, 2]);
}

#[test]
fn auth_sub_negotiation() {
    let mut msg = vec![1, 8];
    msg.extend_from_slice(b"testuser");
    msg.push(8);
    msg.extend_from_slice(b"testpass");
    assert!(matches!(parse_auth_request(&msg[..5]), ParseStep::NeedBytes(11)));
    assert!(matches!(parse_auth_request(&msg[..12]), ParseStep::NeedBytes(19)));
    match parse_auth_request(&msg) {
        ParseStep::Done(req, used) => {
            assert_eq!(req.username, "testuser");
            assert_eq!(req.password, "testpass");
            assert_eq!(used, 19);
        }
        other => panic!("unexpected {:?}", other),
    }
    match parse_auth_request(&[2, 0, 0]) {
        ParseStep::Failed(ProxyError::Protocol(m)) => assert_eq!(m, "Invalid auth version"),
        other => panic!("unexpected {:?}", other),
    }
    // Bytes that are not UTF-8 are read with replacement characters.
    match parse_auth_request(&[1, 1, 0xff, 0]) {
        ParseStep::Done(req, 4) => {
            assert_eq!(req.username, "\u{fffd}");
            assert_eq!(req.password, "");
        }
        other => panic!("unexpected {:?}", other),
    }
    assert_eq!(auth_status_reply(true), vec![1, 0]);
    assert_eq!(auth_status_reply(false), vec![1, 1]);
}

#[test]
fn connect_requests_of_each_address_type() {
    match parse_request(&[5, 1, 0, 1, 127, 0, 0, 1, 0x1f, 0x90]) {
        ParseStep::Done(req, 10) => {
            assert_eq!(req.command, 1);
            assert_eq!(req.address, SocksAddr::Ipv4([127, 0, 0, 1]));
            assert_eq!(req.port, 8080);
        }
        other => panic!("unexpected {:?}", other),
    }
    let mut v6 = vec![5, 1, 0, 4];
    v6.extend_from_slice(&[0; 15]);
    v6.push(1);
    v6.extend_from_slice(&[0, 80]);
    match parse_request(&v6) {
        ParseStep::Done(req, 22) => {
            let mut ip = [0u8; 16];
            ip[15] = 1;
            assert_eq!(req.address, SocksAddr::Ipv6(ip));
            assert_eq!(req.port, 80);
        }
        other => panic!("unexpected {:?}", other),
    }
    let mut dom = vec![5, 1, 0, 3, 11];
    dom.extend_from_slice(b"example.com");
    dom.extend_from_slice(&[1, 187]);
    assert!(matches!(parse_request(&dom[..5]), ParseStep::NeedBytes(18)));
    match parse_request(&dom) {
        ParseStep::Done(req, 18) => {
            assert_eq!(req.address, SocksAddr::Domain("example.com".to_string()));
            assert_eq!(req.port, 443);
        }
        other => panic!("unexpected {:?}", other),
    }
    match parse_request(&[5, 1, 0, 9]) {
        ParseStep::Failed(ProxyError::Protocol(m)) => assert_eq!(m, "Unsupported address type"),
        other => panic!("unexpected {:?}", other),
    }
    match parse_request(&[4, 1, 0, 1]) {
        ParseStep::Failed(ProxyError::Protocol(m)) => assert_eq!(m, "Invalid SOCKS version"),
        other => panic!("unexpected {:?}", other),
    }
    assert!(matches!(parse_request(&[5, 1, 0]), ParseStep::NeedBytes(4)));
}

#[test]
fn request_round_trip_through_wire_form() {
    let addr = SocksAddr::Domain("proxy.local".to_string());
    let mut wire = vec![5, 1, 0];
    wire.extend_from_slice(&addr.to_bytes());
    wire.extend_from_slice(&[0x04, 0x38]);
    match parse_request(&wire) {
        ParseStep::Done(req, used) => {
            assert_eq!(used, wire.len());
            assert_eq!(req.address, addr);
            assert_eq!(req.port, 1080);
        }
        other => panic!("unexpected {:?}", other),
    }
}

#[test]
fn connect_and_bind_are_served() {
    assert_eq!(check_command(1).unwrap(), SocksCommand::Connect);
    assert_eq!(check_command(2).unwrap(), SocksCommand::Bind);
    match check_command(3) {
        Err(ProxyError::Protocol(m)) => assert_eq!(m, "UDP ASSOCIATE not supported"),
        other => panic!("unexpected {:?}", other),
    }
    match check_command(9) {
        Err(ProxyError::Protocol(m)) => assert_eq!(m, "Unknown command"),
        other => panic!("unexpected {:?}", other),
    }
}

#[test]
fn replies_carry_bound_address() {
    let v4 = SocketAddress::V4 { ip: [10, 0, 0, 2], port: 1080 };
    assert_eq!(encode_reply(REPLY_SUCCESS, &v4), vec![5, 0, 0, 1, 10, 0, 0, 2, 0x04, 0x38]);
    let v6 = SocketAddress::V6 { ip: [0; 16], port: 1 };
    let r = encode_reply(REPLY_GENERAL_FAILURE, &v6);
    assert_eq!(r.len(), 22);
    assert_eq!(&r[..4], &[5, 1, 0, 4]);
    assert_eq!(&r[20..], &[0, 1]);
    assert_eq!(reply_for_failure(ConnectFailure::ConnectionRefused), REPLY_CONNECTION_REFUSED);
    assert_eq!(reply_for_failure(ConnectFailure::TimedOut), REPLY_TTL_EXPIRED);
    assert_eq!(reply_for_failure(ConnectFailure::Other), REPLY_GENERAL_FAILURE);
}

#[test]
fn connect_errors_choose_reply_codes() {
    assert_eq!(
        reply_for_connect_error(&Error::from(ErrorKind::ConnectionRefused)),
        REPLY_CONNECTION_REFUSED
    );
    assert_eq!(
        reply_for_connect_error(&Error::from(ErrorKind::AddrNotAvailable)),
        REPLY_ADDRESS_TYPE_NOT_SUPPORTED
    );
    assert_eq!(reply_for_connect_error(&Error::from(ErrorKind::TimedOut)), REPLY_TTL_EXPIRED);
    assert_eq!(
        reply_for_connect_error(&Error::from(ErrorKind::PermissionDenied)),
        REPLY_GENERAL_FAILURE
    );
}

#[test]
fn session_without_provider_reads_request_after_greeting() {
    let mut s = Socks5Session::new(false);
    assert_eq!(s.stage(), Socks5Stage::Greeting);
    match s.on_greeting(&[0]) {
        SessionAction::Continue(reply) => assert_eq!(reply, vec![5, 0]),
        other => panic!("unexpected {:?}", other),
    }
    assert_eq!(s.stage(), Socks5Stage::Request);
    // The BIND request of a client gets served.
    let req = match parse_request(&[5, 2, 0, 1, 127, 0, 0, 1, 0, 80]) {
        ParseStep::Done(r, 10) => r,
        other => panic!("unexpected {:?}", other),
    };
    match s.on_request(req) {
        SessionAction::Serve(SocksCommand::Bind, r) => assert_eq!(r.port, 80),
        other => panic!("unexpected {:?}", other),
    }
    assert_eq!(s.stage(), Socks5Stage::Finished);
}

#[test]
fn session_with_provider_authenticates_first() {
    let mut s = Socks5Session::new(true);
    match s.on_greeting(&[0, 2]) {
        SessionAction::Continue(reply) => assert_eq!(reply, vec![5, 2]),
        other => panic!("unexpected {:?}", other),
    }
    assert_eq!(s.stage(), Socks5Stage::Authentication);
    match s.on_authentication(Err(AuthError::InvalidCredentials)) {
        SessionAction::End(reply, SessionEnd::Auth(AuthError::InvalidCredentials)) => {
            assert_eq!(reply, vec![1, 1])
        }
        other => panic!("unexpected {:?}", other),
    }
    assert_eq!(s.stage(), Socks5Stage::Finished);

    let mut s = Socks5Session::new(true);
    let _ = s.on_greeting(&[2]);
    match s.on_authentication(Ok(())) {
        SessionAction::Continue(reply) => assert_eq!(reply, vec![1, 0]),
        other => panic!("unexpected {:?}", other),
    }
    assert_eq!(s.stage(), Socks5Stage::Request);

    // No acceptable method: the connection ends with the auth error.
    let mut s = Socks5Session::new(true);
    match s.on_greeting(&[0]) {
        SessionAction::End(reply, SessionEnd::Proxy(ProxyError::Auth(m))) => {
            assert_eq!(reply, vec![5, 0xff]);
            assert_eq!(m, "No acceptable auth method");
        }
        other => panic!("unexpected {:?}", other),
    }
}
