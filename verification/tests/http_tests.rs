use alpha_proxy::http_proxy::credentials_from_decoded;
use alpha_proxy::addr::{destination_from_network_order, SocketAddress};
use alpha_proxy::http_proxy::{
    after_authentication, auth_gate, parse_proxy_auth_header, AuthGate, AuthHeaderError,
    ConnectionTracker,
};

#[test]
fn proxy_auth_header_with_basic_credentials() {
    // "testuser:testpass" in standard Base64.
    let header = b"Basic dGVzdHVzZXI6dGVzdHBhc3M=";
    let creds = parse_proxy_auth_header(Some(&header[..])).unwrap().unwrap();
    assert_eq!(creds.username, "testuser");
    assert_eq!(creds.password, "testpass");

    // Surrounding blanks are trimmed; the password keeps later colons.
    let header = b"Basic  dXNlcjpwYTpzcw== ";
    let creds = parse_proxy_auth_header(Some(&header[..])).unwrap().unwrap();
    assert_eq!(creds.username, "user");
    assert_eq!(creds.password, "pa:ss");
}

#[test]
fn proxy_auth_header_without_credentials() {
    assert_eq!(parse_proxy_auth_header(None), Ok(None));
    assert_eq!(parse_proxy_auth_header(Some(&b"Bearer abc"[..])), Ok(None));
    // "nocolon" has no colon to split at.
    assert_eq!(parse_proxy_auth_header(Some(&b"Basic bm9jb2xvbg=="[..])), Ok(None));
}

#[test]
fn proxy_auth_header_errors() {
    assert_eq!(
        parse_proxy_auth_header(Some(&b"Basic \x01abc"[..])),
        Err(AuthHeaderError::NotVisibleAscii)
    );
    assert_eq!(
        parse_proxy_auth_header(Some(&b"Basic !!!"[..])),
        Err(AuthHeaderError::InvalidBase64)
    );
    // "/w==" decodes to the single byte 0xff.
    assert_eq!(
        parse_proxy_auth_header(Some(&b"Basic /w=="[..])),
        Err(AuthHeaderError::InvalidUtf8)
    );
}

#[test]
fn auth_gate_steps() {
    assert!(matches!(auth_gate(false, None), AuthGate::Forward));
    assert!(matches!(auth_gate(true, None), AuthGate::Challenge));
    match auth_gate(true, Some(&b"Basic dGVzdHVzZXI6dGVzdHBhc3M="[..])) {
        AuthGate::Authenticate(c) => assert_eq!(c.username, "testuser"),
        other => panic!("unexpected {:?}", other),
    }
    assert!(matches!(
        auth_gate(true, Some(&b"Basic !!!"[..])),
        AuthGate::Fail(AuthHeaderError::InvalidBase64)
    ));
    assert!(matches!(after_authentication(true), AuthGate::Forward));
    assert!(matches!(after_authentication(false), AuthGate::Challenge));
}

#[test]
fn connection_tracker_limits_and_releases() {
    let a = SocketAddress::V4 { ip: [10, 0, 0, 1], port: 5000 };
    let b = SocketAddress::V4 { ip: [10, 0, 0, 2], port: 5000 };
    let c = SocketAddress::V6 { ip: [0; 16], port: 5000 };
    let mut t = ConnectionTracker::new(2);
    assert!(t.try_register(&a));
    assert!(t.try_register(&b));
    assert_eq!(t.active_count(), 2);
    assert!(!t.try_register(&c));
    t.release(&a);
    assert_eq!(t.active_count(), 1);
    assert!(t.try_register(&c));
    t.set_max_connections(3);
    // The same peer twice is held once.
    assert!(t.try_register(&c));
    assert_eq!(t.active_count(), 2);
}

#[test]
fn redirected_destination_bytes() {
    let d = destination_from_network_order([192, 168, 1, 20], [0x1f, 0x90]);
    assert_eq!(d, SocketAddress::V4 { ip: [192, 168, 1, 20], port: 8080 });
    assert_eq!(d.port(), 8080);
}

#[test]
fn connections_over_the_limit_get_503() {
    let a = SocketAddress::V4 { ip: [10, 0, 0, 1], port: 1 };
    let b = SocketAddress::V4 { ip: [10, 0, 0, 2], port: 1 };
    let mut t = ConnectionTracker::new(1);
    assert_eq!(t.admit_connection(&a), Ok(()));
    assert_eq!(t.admit_connection(&b), Err(503));
    t.release(&a);
    assert_eq!(t.admit_connection(&b), Ok(()));
}

#[test]
fn decoded_credentials_split_at_first_colon() {
    let c = credentials_from_decoded(b"user:pa:ss".to_vec()).unwrap().unwrap();
    assert_eq!(c.username, "user");
    assert_eq!(c.password, "pa:ss");
    assert_eq!(credentials_from_decoded(b"nocolon".to_vec()), Ok(None));
    assert_eq!(credentials_from_decoded(vec![0xff]), Err(AuthHeaderError::InvalidUtf8));
}
