//! SOCKS5 wire format: the client greeting, the username/password
//! sub-negotiation, the connection request, and the server's replies.
use crate::addr::SocketAddress;
use crate::error::{AuthError, ProxyError};
use vstd::prelude::*;
use vstd::utf8::*;

verus! {

// SOCKS protocol version
pub const SOCKS5_VERSION: u8 = 0x05;

// Authentication methods
pub const AUTH_METHOD_NONE: u8 = 0x00;
pub const AUTH_METHOD_GSSAPI: u8 = 0x01;
pub const AUTH_METHOD_PASSWORD: u8 = 0x02;
pub const AUTH_METHOD_UNACCEPTABLE: u8 = 0xFF;

// Command types
pub const COMMAND_CONNECT: u8 = 0x01;
pub const COMMAND_BIND: u8 = 0x02;
pub const COMMAND_UDP_ASSOCIATE: u8 = 0x03;

// Address types
pub const ADDR_TYPE_IPV4: u8 = 0x01;
pub const ADDR_TYPE_DOMAIN: u8 = 0x03;
pub const ADDR_TYPE_IPV6: u8 = 0x04;

// Reply codes
pub const REPLY_SUCCESS: u8 = 0x00;
pub const REPLY_GENERAL_FAILURE: u8 = 0x01;
pub const REPLY_CONNECTION_NOT_ALLOWED: u8 = 0x02;
pub const REPLY_NETWORK_UNREACHABLE: u8 = 0x03;
pub const REPLY_HOST_UNREACHABLE: u8 = 0x04;
pub const REPLY_CONNECTION_REFUSED: u8 = 0x05;
pub const REPLY_TTL_EXPIRED: u8 = 0x06;
pub const REPLY_COMMAND_NOT_SUPPORTED: u8 = 0x07;
pub const REPLY_ADDRESS_TYPE_NOT_SUPPORTED: u8 = 0x08;

// Version of the username/password sub-negotiation
pub const AUTH_SUBNEGOTIATION_VERSION: u8 = 0x01;

#[verifier::external_type_specification]
#[verifier::external_body]
pub struct ExBytes(bytes::Bytes);

/// The bytes that a `bytes::Bytes` buffer holds.
pub uninterp spec fn bytes_content(b: bytes::Bytes) -> Seq<u8>;

/// `<bytes::Bytes as From<Vec<u8>>>::from`: the buffer takes over the
/// vector's bytes, in order.
#[verifier::external_body]
fn bytes_from_vec(v: Vec<u8>) -> (res: bytes::Bytes)
    ensures
        bytes_content(res) == v@,
{
    bytes::Bytes::from(v)
}

/// What `String::from_utf8_lossy` makes of bytes that are not valid UTF-8.
pub uninterp spec fn utf8_lossy(bytes: Seq<u8>) -> Seq<char>;

/// The text that `String::from_utf8_lossy` gives for `bytes`: their UTF-8
/// decoding where they are valid UTF-8.
pub open spec fn lossy_text(bytes: Seq<u8>) -> Seq<char> {
    if valid_utf8(bytes) {
        decode_utf8(bytes)
    } else {
        utf8_lossy(bytes)
    }
}

/// `String::from_utf8_lossy`, made owned: valid UTF-8 is decoded as it
/// stands; what it makes of other bytes (replacement characters) is left
/// to the name `utf8_lossy`.
#[verifier::external_body]
fn string_from_utf8_lossy(b: &[u8]) -> (res: String)
    ensures
        valid_utf8(b@) ==> res@ == decode_utf8(b@),
        !valid_utf8(b@) ==> res@ == utf8_lossy(b@),
{
    String::from_utf8_lossy(b).into_owned()
}

/// Appends the bytes of `s` to `v`.
pub(crate) fn push_all(v: &mut Vec<u8>, s: &[u8])
    ensures
        final(v)@ == old(v)@ + s@,
{
    let mut i: usize = 0;
    while i < s.len()
        invariant
            i <= s@.len(),
            v@ == old(v)@ + s@.take(i as int),
        decreases s@.len() - i,
    {
        v.push(s[i]);
        assert(s@.take(i as int).push(s@[i as int]) =~= s@.take(i + 1));
        i = i + 1;
    }
    assert(s@.take(s@.len() as int) =~= s@);
}

/// A SOCKS destination address.
#[derive(Debug, Clone, PartialEq)]
pub enum SocksAddr {
    Ipv4([u8; 4]),
    Ipv6([u8; 16]),
    Domain(String),
}

/// A SOCKS destination address as plain values.
pub ghost enum SocksAddrView {
    Ipv4(Seq<u8>),
    Ipv6(Seq<u8>),
    Domain(Seq<char>),
}

impl View for SocksAddr {
    type V = SocksAddrView;

    open spec fn view(&self) -> SocksAddrView {
        match self {
            SocksAddr::Ipv4(o) => SocksAddrView::Ipv4(o@),
            SocksAddr::Ipv6(o) => SocksAddrView::Ipv6(o@),
            SocksAddr::Domain(d) => SocksAddrView::Domain(d@),
        }
    }
}

/// The wire form of an address: its type byte, then the octets, or the
/// length byte and the UTF-8 bytes of the domain name.
pub open spec fn addr_wire(a: SocksAddrView) -> Seq<u8> {
    match a {
        SocksAddrView::Ipv4(o) => seq![ADDR_TYPE_IPV4] + o,
        SocksAddrView::Ipv6(o) => seq![ADDR_TYPE_IPV6] + o,
        SocksAddrView::Domain(d) => seq![ADDR_TYPE_DOMAIN, ((encode_utf8(d).len() as usize) as u8)]
            + encode_utf8(d),
    }
}

impl SocksAddr {
    /// The wire form of this address.
    pub fn to_bytes(&self) -> (res: bytes::Bytes)
        ensures
            bytes_content(res) == addr_wire(self@),
    {
        match self {
            SocksAddr::Ipv4(addr) => {
                let mut bytes: Vec<u8> = Vec::with_capacity(5);
                bytes.push(ADDR_TYPE_IPV4);
                push_all(&mut bytes, addr.as_slice());
                bytes_from_vec(bytes)
            },
            SocksAddr::Ipv6(addr) => {
                let mut bytes: Vec<u8> = Vec::with_capacity(17);
                bytes.push(ADDR_TYPE_IPV6);
                push_all(&mut bytes, addr.as_slice());
                bytes_from_vec(bytes)
            },
            SocksAddr::Domain(domain) => {
                let raw = domain.as_str().as_bytes();
                let mut bytes: Vec<u8> = Vec::new();
                bytes.push(ADDR_TYPE_DOMAIN);
                bytes.push(raw.len() as u8);
                push_all(&mut bytes, raw);
                bytes_from_vec(bytes)
            },
        }
    }
}

/// A SOCKS5 request: command, destination and port.
#[derive(Debug, Clone)]
pub struct SocksRequest {
    pub command: u8,
    pub address: SocksAddr,
    pub port: u16,
}

pub ghost struct SocksRequestView {
    pub command: u8,
    pub address: SocksAddrView,
    pub port: u16,
}

impl View for SocksRequest {
    type V = SocksRequestView;

    open spec fn view(&self) -> SocksRequestView {
        SocksRequestView { command: self.command, address: self.address@, port: self.port }
    }
}

/// Username and password of the sub-negotiation.
#[derive(Debug, Clone)]
pub struct AuthenticationRequest {
    pub username: String,
    pub password: String,
}

impl View for AuthenticationRequest {
    type V = (Seq<char>, Seq<char>);

    open spec fn view(&self) -> (Seq<char>, Seq<char>) {
        (self.username@, self.password@)
    }
}

/// Where reading a message stands: more bytes are needed (the total
/// length so far known), the bytes are no such message (with the reason),
/// or the message is complete (with its length in bytes).
pub ghost enum Scan<T> {
    Need(nat),
    Invalid(Seq<char>),
    Complete(T, nat),
}

/// The outcome of parsing a message from the bytes read so far.
#[derive(Debug)]
pub enum ParseStep<T> {
    /// Read until this many bytes in all are there, then parse again.
    NeedBytes(usize),
    /// The message, and how many bytes it took.
    Done(T, usize),
    Failed(ProxyError),
}

/// A port in network byte order.
pub open spec fn port_wire(p: u16) -> Seq<u8> {
    seq![(p / 256) as u8, (p % 256) as u8]
}

/// The port whose network-order bytes are `hi`, `lo`.
pub open spec fn be_port(hi: u8, lo: u8) -> u16 {
    (hi as int * 256 + lo as int) as u16
}

/// The client greeting: version, number of methods, the methods.
pub open spec fn scan_greeting(buf: Seq<u8>) -> Scan<Seq<u8>> {
    if buf.len() < 2 {
        Scan::Need(2)
    } else if buf[0] != SOCKS5_VERSION {
        Scan::Invalid("Unsupported SOCKS version"@)
    } else if buf.len() < 2 + buf[1] {
        Scan::Need((2 + buf[1]) as nat)
    } else {
        Scan::Complete(buf.subrange(2, 2 + buf[1]), (2 + buf[1]) as nat)
    }
}

/// The username/password sub-negotiation: version, length and bytes of
/// the username, length and bytes of the password.
pub open spec fn scan_auth(buf: Seq<u8>) -> Scan<(Seq<char>, Seq<char>)> {
    if buf.len() < 2 {
        Scan::Need(2)
    } else if buf[0] != AUTH_SUBNEGOTIATION_VERSION {
        Scan::Invalid("Invalid auth version"@)
    } else if buf.len() < 3 + buf[1] {
        Scan::Need((3 + buf[1]) as nat)
    } else if buf.len() < 3 + buf[1] + buf[2 + buf[1]] {
        Scan::Need((3 + buf[1] + buf[2 + buf[1]]) as nat)
    } else {
        let ulen = buf[1] as int;
        let plen = buf[2 + ulen] as int;
        Scan::Complete(
            (
                lossy_text(buf.subrange(2, 2 + ulen)),
                lossy_text(buf.subrange(3 + ulen, 3 + ulen + plen)),
            ),
            (3 + ulen + plen) as nat,
        )
    }
}

/// The connection request: version, command, reserved byte, address type,
/// address, port.
pub open spec fn scan_request(buf: Seq<u8>) -> Scan<SocksRequestView> {
    if buf.len() < 4 {
        Scan::Need(4)
    } else if buf[0] != SOCKS5_VERSION {
        Scan::Invalid("Invalid SOCKS version"@)
    } else if buf[3] == ADDR_TYPE_IPV4 {
        if buf.len() < 10 {
            Scan::Need(10)
        } else {
            Scan::Complete(
                SocksRequestView {
                    command: buf[1],
                    address: SocksAddrView::Ipv4(buf.subrange(4, 8)),
                    port: be_port(buf[8], buf[9]),
                },
                10,
            )
        }
    } else if buf[3] == ADDR_TYPE_IPV6 {
        if buf.len() < 22 {
            Scan::Need(22)
        } else {
            Scan::Complete(
                SocksRequestView {
                    command: buf[1],
                    address: SocksAddrView::Ipv6(buf.subrange(4, 20)),
                    port: be_port(buf[20], buf[21]),
                },
                22,
            )
        }
    } else if buf[3] == ADDR_TYPE_DOMAIN {
        if buf.len() < 5 {
            Scan::Need(5)
        } else if buf.len() < 7 + buf[4] {
            Scan::Need((7 + buf[4]) as nat)
        } else {
            let n = buf[4] as int;
            Scan::Complete(
                SocksRequestView {
                    command: buf[1],
                    address: SocksAddrView::Domain(lossy_text(buf.subrange(5, 5 + n))),
                    port: be_port(buf[5 + n], buf[6 + n]),
                },
                (7 + n) as nat,
            )
        }
    } else {
        Scan::Invalid("Unsupported address type"@)
    }
}

/// `step` reports `scan`, where `view` gives the value of a parsed message.
pub open spec fn step_reports<T, V>(step: ParseStep<T>, scan: Scan<V>, view: spec_fn(T) -> V) -> bool {
    match scan {
        Scan::Need(n) => step matches ParseStep::NeedBytes(k) && k == n,
        Scan::Invalid(m) => step matches ParseStep::Failed(ProxyError::Protocol(s)) && s@ == m,
        Scan::Complete(v, n) => step matches ParseStep::Done(t, k) && view(t) == v && k == n,
    }
}

fn protocol_error(msg: &str) -> (res: ProxyError)
    ensures
        res matches ProxyError::Protocol(s) && s@ == msg@,
{
    ProxyError::Protocol(String::from_str(msg))
}

/// Parses the client greeting from the bytes read so far.
pub fn parse_greeting(buf: &[u8]) -> (res: ParseStep<Vec<u8>>)
    ensures
        step_reports(res, scan_greeting(buf@), |v: Vec<u8>| v@),
{
    if buf.len() < 2 {
        return ParseStep::NeedBytes(2);
    }
    if buf[0] != SOCKS5_VERSION {
        return ParseStep::Failed(protocol_error("Unsupported SOCKS version"));
    }
    let total: usize = 2 + buf[1] as usize;
    if buf.len() < total {
        return ParseStep::NeedBytes(total);
    }
    let methods = vstd::slice::slice_to_vec(&buf[2..total]);
    ParseStep::Done(methods, total)
}

/// The method that the server picks from those the client offers: the
/// password method where an authentication provider is configured and the
/// client offers it, no authentication where none is configured and the
/// client offers that, else none acceptable.
pub open spec fn chosen_auth_method(has_provider: bool, methods: Seq<u8>) -> u8 {
    if has_provider && methods.contains(AUTH_METHOD_PASSWORD) {
        AUTH_METHOD_PASSWORD
    } else if !has_provider && methods.contains(AUTH_METHOD_NONE) {
        AUTH_METHOD_NONE
    } else {
        AUTH_METHOD_UNACCEPTABLE
    }
}

fn offers(methods: &[u8], m: u8) -> (res: bool)
    ensures
        res == methods@.contains(m),
{
    let mut i: usize = 0;
    while i < methods.len()
        invariant
            i <= methods@.len(),
            forall|j: int| 0 <= j < i ==> methods@[j] != m,
        decreases methods@.len() - i,
    {
        if methods[i] == m {
            assert(methods@[i as int] == m);
            return true;
        }
        i = i + 1;
    }
    false
}

/// Picks the authentication method for the methods that the client offers.
pub fn select_auth_method(has_provider: bool, methods: &[u8]) -> (res: u8)
    ensures
        res == chosen_auth_method(has_provider, methods@),
{
    if has_provider && offers(methods, AUTH_METHOD_PASSWORD) {
        AUTH_METHOD_PASSWORD
    } else if !has_provider && offers(methods, AUTH_METHOD_NONE) {
        AUTH_METHOD_NONE
    } else {
        AUTH_METHOD_UNACCEPTABLE
    }
}

/// The server's answer to the greeting: version and chosen method.
pub fn method_reply(method: u8) -> (res: Vec<u8>)
    ensures
        res@ == seq![SOCKS5_VERSION, method],
{
    let mut v: Vec<u8> = Vec::with_capacity(2);
    v.push(SOCKS5_VERSION);
    v.push(method);
    v
}

/// Parses the username/password sub-negotiation from the bytes read so far.
pub fn parse_auth_request(buf: &[u8]) -> (res: ParseStep<AuthenticationRequest>)
    ensures
        step_reports(res, scan_auth(buf@), |r: AuthenticationRequest| r@),
{
    if buf.len() < 2 {
        return ParseStep::NeedBytes(2);
    }
    if buf[0] != AUTH_SUBNEGOTIATION_VERSION {
        return ParseStep::Failed(protocol_error("Invalid auth version"));
    }
    let ulen = buf[1] as usize;
    if buf.len() < 3 + ulen {
        return ParseStep::NeedBytes(3 + ulen);
    }
    let plen = buf[2 + ulen] as usize;
    let total: usize = 3 + ulen + plen;
    if buf.len() < total {
        return ParseStep::NeedBytes(total);
    }
    let username = string_from_utf8_lossy(&buf[2..2 + ulen]);
    let password = string_from_utf8_lossy(&buf[3 + ulen..total]);
    ParseStep::Done(AuthenticationRequest { username, password }, total)
}

/// The status reply of the sub-negotiation: success or failure.
pub fn auth_status_reply(success: bool) -> (res: Vec<u8>)
    ensures
        res@ == seq![AUTH_SUBNEGOTIATION_VERSION, if success { 0u8 } else { 1u8 }],
{
    let mut v: Vec<u8> = Vec::with_capacity(2);
    v.push(AUTH_SUBNEGOTIATION_VERSION);
    v.push(if success { 0u8 } else { 1u8 });
    v
}

fn array4(b: &[u8]) -> (res: [u8; 4])
    requires
        b@.len() == 4,
    ensures
        res@ == b@,
{
    let res = [b[0], b[1], b[2], b[3]];
    assert(res@ =~= b@);
    res
}

fn array16(b: &[u8]) -> (res: [u8; 16])
    requires
        b@.len() == 16,
    ensures
        res@ == b@,
{
    let res = [
        b[0], b[1], b[2], b[3], b[4], b[5], b[6], b[7], b[8], b[9], b[10], b[11], b[12], b[13],
        b[14], b[15],
    ];
    assert(res@ =~= b@);
    res
}

fn port_from(hi: u8, lo: u8) -> (res: u16)
    ensures
        res == be_port(hi, lo),
{
    (hi as u16) * 256 + (lo as u16)
}

/// Parses the connection request from the bytes read so far.
pub fn parse_request(buf: &[u8]) -> (res: ParseStep<SocksRequest>)
    ensures
        step_reports(res, scan_request(buf@), |r: SocksRequest| r@),
{
    if buf.len() < 4 {
        return ParseStep::NeedBytes(4);
    }
    if buf[0] != SOCKS5_VERSION {
        return ParseStep::Failed(protocol_error("Invalid SOCKS version"));
    }
    let command = buf[1];
    if buf[3] == ADDR_TYPE_IPV4 {
        if buf.len() < 10 {
            return ParseStep::NeedBytes(10);
        }
        let ip = array4(&buf[4..8]);
        let port = port_from(buf[8], buf[9]);
        ParseStep::Done(SocksRequest { command, address: SocksAddr::Ipv4(ip), port }, 10)
    } else if buf[3] == ADDR_TYPE_IPV6 {
        if buf.len() < 22 {
            return ParseStep::NeedBytes(22);
        }
        let ip = array16(&buf[4..20]);
        let port = port_from(buf[20], buf[21]);
        ParseStep::Done(SocksRequest { command, address: SocksAddr::Ipv6(ip), port }, 22)
    } else if buf[3] == ADDR_TYPE_DOMAIN {
        if buf.len() < 5 {
            return ParseStep::NeedBytes(5);
        }
        let n = buf[4] as usize;
        if buf.len() < 7 + n {
            return ParseStep::NeedBytes(7 + n);
        }
        let domain = string_from_utf8_lossy(&buf[5..5 + n]);
        let port = port_from(buf[5 + n], buf[6 + n]);
        ParseStep::Done(SocksRequest { command, address: SocksAddr::Domain(domain), port }, 7 + n)
    } else {
        ParseStep::Failed(protocol_error("Unsupported address type"))
    }
}

/// A command that the proxy serves.
#[derive(Debug, Clone, Copy, PartialEq, Eq)]
pub enum SocksCommand {
    /// Connect to the destination and relay.
    Connect,
    /// Listen for one connection from the destination and relay it; the
    /// first reply carries the address listened on.
    Bind,
}

/// What the proxy does with a request's command: it serves CONNECT and
/// BIND, and refuses UDP ASSOCIATE and unknown commands.
pub fn check_command(command: u8) -> (res: Result<SocksCommand, ProxyError>)
    ensures
        command == COMMAND_CONNECT <==> res == Ok::<SocksCommand, ProxyError>(SocksCommand::Connect),
        command == COMMAND_BIND <==> res == Ok::<SocksCommand, ProxyError>(SocksCommand::Bind),
        command == COMMAND_UDP_ASSOCIATE ==> (res matches Err(ProxyError::Protocol(m)) && m@
            == "UDP ASSOCIATE not supported"@),
        command != COMMAND_CONNECT && command != COMMAND_BIND && command != COMMAND_UDP_ASSOCIATE
            ==> (res matches Err(ProxyError::Protocol(m)) && m@ == "Unknown command"@),
{
    if command == COMMAND_CONNECT {
        Ok(SocksCommand::Connect)
    } else if command == COMMAND_BIND {
        Ok(SocksCommand::Bind)
    } else if command == COMMAND_UDP_ASSOCIATE {
        Err(protocol_error("UDP ASSOCIATE not supported"))
    } else {
        Err(protocol_error("Unknown command"))
    }
}

/// Which message of a SOCKS5 conversation is read next.
#[derive(Debug, Clone, Copy, PartialEq, Eq)]
pub enum Socks5Stage {
    Greeting,
    Authentication,
    Request,
    Finished,
}

/// Why a conversation ends without a request being served.
#[derive(Debug)]
pub enum SessionEnd {
    Proxy(ProxyError),
    Auth(AuthError),
}

/// What to do after a message.
#[derive(Debug)]
pub enum SessionAction {
    /// Send these bytes, then read the message of the new stage.
    Continue(Vec<u8>),
    /// Send these bytes, then close the connection with this error.
    End(Vec<u8>, SessionEnd),
    /// Serve the request with this command.
    Serve(SocksCommand, SocksRequest),
}

/// The stage after the greeting: the sub-negotiation where the password
/// method was chosen, the request where no authentication is needed, and
/// the end where no offered method is acceptable.
pub open spec fn stage_after_greeting(has_provider: bool, methods: Seq<u8>) -> Socks5Stage {
    let m = chosen_auth_method(has_provider, methods);
    if m == AUTH_METHOD_PASSWORD {
        Socks5Stage::Authentication
    } else if m == AUTH_METHOD_NONE {
        Socks5Stage::Request
    } else {
        Socks5Stage::Finished
    }
}

/// The stage after the sub-negotiation: the request where the credentials
/// were accepted, else the end.
pub open spec fn stage_after_authentication(accepted: bool) -> Socks5Stage {
    if accepted {
        Socks5Stage::Request
    } else {
        Socks5Stage::Finished
    }
}

/// With an authentication provider, a greeting never leads straight to the
/// request: the request is reached only through a sub-negotiation whose
/// credentials were accepted.
pub proof fn lemma_request_only_after_authentication(methods: Seq<u8>)
    ensures
        stage_after_greeting(true, methods) != Socks5Stage::Request,
        stage_after_authentication(false) == Socks5Stage::Finished,
{
}

/// The decisions of one SOCKS5 conversation, message by message.
pub struct Socks5Session {
    has_provider: bool,
    stage: Socks5Stage,
}

impl Socks5Session {
    pub closed spec fn spec_stage(&self) -> Socks5Stage {
        self.stage
    }

    pub closed spec fn spec_has_provider(&self) -> bool {
        self.has_provider
    }

    /// A conversation that waits for the greeting; `has_provider` says
    /// whether clients must authenticate.
    pub fn new(has_provider: bool) -> (res: Self)
        ensures
            res.spec_stage() == Socks5Stage::Greeting,
            res.spec_has_provider() == has_provider,
    {
        Socks5Session { has_provider, stage: Socks5Stage::Greeting }
    }

    /// Which message is read next.
    pub fn stage(&self) -> (res: Socks5Stage)
        ensures
            res == self.spec_stage(),
    {
        self.stage
    }

    /// Takes in the methods that the greeting offers: answers with the
    /// method chosen, and ends the conversation with an authentication
    /// error where none is acceptable.
    pub fn on_greeting(&mut self, methods: &[u8]) -> (res: SessionAction)
        requires
            old(self).spec_stage() == Socks5Stage::Greeting,
        ensures
            final(self).spec_has_provider() == old(self).spec_has_provider(),
            final(self).spec_stage() == stage_after_greeting(old(self).spec_has_provider(), methods@),
            ({
                let m = chosen_auth_method(old(self).spec_has_provider(), methods@);
                if m == AUTH_METHOD_UNACCEPTABLE {
                    res matches SessionAction::End(bytes, SessionEnd::Proxy(ProxyError::Auth(msg)))
                        && bytes@ == seq![SOCKS5_VERSION, AUTH_METHOD_UNACCEPTABLE] && msg@
                        == "No acceptable auth method"@
                } else {
                    res matches SessionAction::Continue(bytes) && bytes@ == seq![SOCKS5_VERSION, m]
                }
            }),
    {
        let m = select_auth_method(self.has_provider, methods);
        let reply = method_reply(m);
        if m == AUTH_METHOD_UNACCEPTABLE {
            self.stage = Socks5Stage::Finished;
            SessionAction::End(
                reply,
                SessionEnd::Proxy(ProxyError::Auth(String::from_str("No acceptable auth method"))),
            )
        } else if m == AUTH_METHOD_PASSWORD {
            self.stage = Socks5Stage::Authentication;
            SessionAction::Continue(reply)
        } else {
            self.stage = Socks5Stage::Request;
            SessionAction::Continue(reply)
        }
    }

    /// Takes in whether the provider accepted the sub-negotiation's
    /// credentials: answers with the status, and on refusal ends the
    /// conversation with the provider's error.
    pub fn on_authentication(&mut self, outcome: Result<(), AuthError>) -> (res: SessionAction)
        requires
            old(self).spec_stage() == Socks5Stage::Authentication,
        ensures
            final(self).spec_has_provider() == old(self).spec_has_provider(),
            final(self).spec_stage() == stage_after_authentication(outcome is Ok),
            match outcome {
                Ok(()) => res matches SessionAction::Continue(bytes) && bytes@ == seq![
                    AUTH_SUBNEGOTIATION_VERSION,
                    0u8,
                ],
                Err(e) => res matches SessionAction::End(bytes, SessionEnd::Auth(f)) && bytes@
                    == seq![AUTH_SUBNEGOTIATION_VERSION, 1u8] && f == e,
            },
    {
        match outcome {
            Ok(()) => {
                self.stage = Socks5Stage::Request;
                SessionAction::Continue(auth_status_reply(true))
            },
            Err(e) => {
                self.stage = Socks5Stage::Finished;
                SessionAction::End(auth_status_reply(false), SessionEnd::Auth(e))
            },
        }
    }

    /// Takes in the request: serves CONNECT and BIND, and ends the
    /// conversation with the refusal of any other command.
    pub fn on_request(&mut self, request: SocksRequest) -> (res: SessionAction)
        requires
            old(self).spec_stage() == Socks5Stage::Request,
        ensures
            final(self).spec_has_provider() == old(self).spec_has_provider(),
            final(self).spec_stage() == Socks5Stage::Finished,
            request.command == COMMAND_CONNECT ==> (res matches SessionAction::Serve(c, r) && c
                == SocksCommand::Connect && r@ == request@),
            request.command == COMMAND_BIND ==> (res matches SessionAction::Serve(c, r) && c
                == SocksCommand::Bind && r@ == request@),
            request.command == COMMAND_UDP_ASSOCIATE ==> (res matches SessionAction::End(
                bytes,
                SessionEnd::Proxy(ProxyError::Protocol(m)),
            ) && bytes@.len() == 0 && m@ == "UDP ASSOCIATE not supported"@),
            request.command != COMMAND_CONNECT && request.command != COMMAND_BIND
                && request.command != COMMAND_UDP_ASSOCIATE ==> (res matches SessionAction::End(
                bytes,
                SessionEnd::Proxy(ProxyError::Protocol(m)),
            ) && bytes@.len() == 0 && m@ == "Unknown command"@),
    {
        self.stage = Socks5Stage::Finished;
        match check_command(request.command) {
            Ok(c) => SessionAction::Serve(c, request),
            Err(e) => SessionAction::End(Vec::new(), SessionEnd::Proxy(e)),
        }
    }
}

/// The reply to a request: version, reply code, reserved byte, then the
/// bound address with its type byte and the port in network order.
pub open spec fn reply_wire(reply: u8, addr: SocketAddress) -> Seq<u8> {
    seq![SOCKS5_VERSION, reply, 0u8] + match addr {
        SocketAddress::V4 { ip, port } => seq![ADDR_TYPE_IPV4] + ip@ + port_wire(port),
        SocketAddress::V6 { ip, port } => seq![ADDR_TYPE_IPV6] + ip@ + port_wire(port),
    }
}

/// Encodes the reply to a request.
pub fn encode_reply(reply: u8, addr: &SocketAddress) -> (res: Vec<u8>)
    ensures
        res@ == reply_wire(reply, *addr),
{
    let mut response: Vec<u8> = Vec::with_capacity(22);
    response.push(SOCKS5_VERSION);
    response.push(reply);
    response.push(0x00);
    let port = match addr {
        SocketAddress::V4 { ip, port } => {
            response.push(ADDR_TYPE_IPV4);
            push_all(&mut response, ip.as_slice());
            *port
        },
        SocketAddress::V6 { ip, port } => {
            response.push(ADDR_TYPE_IPV6);
            push_all(&mut response, ip.as_slice());
            *port
        },
    };
    response.push((port / 256) as u8);
    response.push((port % 256) as u8);
    assert(response@ =~= reply_wire(reply, *addr));
    response
}

/// How connecting to the destination failed.
#[derive(Debug, Clone, Copy, PartialEq, Eq)]
pub enum ConnectFailure {
    ConnectionRefused,
    AddrNotAvailable,
    TimedOut,
    Other,
}

/// Which of the failures that the reply code tells apart an I/O error is,
/// by its `std::io::Error::kind`: `ConnectionRefused`, `AddrNotAvailable`,
/// `TimedOut`, or any other kind.
pub uninterp spec fn io_error_class(e: std::io::Error) -> ConnectFailure;

/// `std::io::Error::kind`, told apart for the kinds that the reply code
/// depends on.
#[verifier::external_body]
fn connect_failure_of(e: &std::io::Error) -> (res: ConnectFailure)
    ensures
        res == io_error_class(*e),
{
    match e.kind() {
        std::io::ErrorKind::ConnectionRefused => ConnectFailure::ConnectionRefused,
        std::io::ErrorKind::AddrNotAvailable => ConnectFailure::AddrNotAvailable,
        std::io::ErrorKind::TimedOut => ConnectFailure::TimedOut,
        _ => ConnectFailure::Other,
    }
}

/// The reply code for a failed connection.
pub open spec fn failure_reply_code(f: ConnectFailure) -> u8 {
    match f {
        ConnectFailure::ConnectionRefused => REPLY_CONNECTION_REFUSED,
        ConnectFailure::AddrNotAvailable => REPLY_ADDRESS_TYPE_NOT_SUPPORTED,
        ConnectFailure::TimedOut => REPLY_TTL_EXPIRED,
        ConnectFailure::Other => REPLY_GENERAL_FAILURE,
    }
}

/// The reply code for a failure of the given kind.
pub fn reply_for_failure(f: ConnectFailure) -> (res: u8)
    ensures
        res == failure_reply_code(f),
{
    match f {
        ConnectFailure::ConnectionRefused => REPLY_CONNECTION_REFUSED,
        ConnectFailure::AddrNotAvailable => REPLY_ADDRESS_TYPE_NOT_SUPPORTED,
        ConnectFailure::TimedOut => REPLY_TTL_EXPIRED,
        ConnectFailure::Other => REPLY_GENERAL_FAILURE,
    }
}

/// The reply code for the error with which connecting to the destination
/// failed.
pub fn reply_for_connect_error(e: &std::io::Error) -> (res: u8)
    ensures
        res == failure_reply_code(io_error_class(*e)),
{
    reply_for_failure(connect_failure_of(e))
}

/// The bytes of a connection request: version, command, reserved byte,
/// the address in the form of `SocksAddr::to_bytes`, the port.
pub open spec fn request_wire(r: SocksRequestView) -> Seq<u8> {
    seq![SOCKS5_VERSION, r.command, 0u8] + addr_wire(r.address) + port_wire(r.port)
}

/// The address has the octets of its kind, or a domain name of at most 255
/// bytes, so that its length fits the length byte.
pub open spec fn addr_fits_wire(a: SocksAddrView) -> bool {
    match a {
        SocksAddrView::Ipv4(o) => o.len() == 4,
        SocksAddrView::Ipv6(o) => o.len() == 16,
        SocksAddrView::Domain(d) => encode_utf8(d).len() <= 255,
    }
}

proof fn lemma_port_wire(p: u16)
    ensures
        port_wire(p).len() == 2,
        be_port(port_wire(p)[0], port_wire(p)[1]) == p,
{
}

proof fn lemma_text_roundtrip(d: Seq<char>)
    ensures
        lossy_text(encode_utf8(d)) == d,
{
    broadcast use encode_utf8_valid_utf8, encode_utf8_decode_utf8;

}

/// A connection request written in the wire form (its address as
/// `SocksAddr::to_bytes` writes it) reads back as the same request, taking
/// all of its bytes.
pub proof fn lemma_request_roundtrip(r: SocksRequestView)
    requires
        addr_fits_wire(r.address),
    ensures
        scan_request(request_wire(r)) == Scan::Complete(r, request_wire(r).len()),
{
    let w = request_wire(r);
    lemma_port_wire(r.port);
    match r.address {
        SocksAddrView::Ipv4(o) => {
            assert(w.subrange(4, 8) =~= o);
        },
        SocksAddrView::Ipv6(o) => {
            assert(w.subrange(4, 20) =~= o);
        },
        SocksAddrView::Domain(d) => {
            let e = encode_utf8(d);
            assert(w[4] == e.len());
            assert(w.subrange(5, 5 + e.len() as int) =~= e);
            lemma_text_roundtrip(d);
        },
    }
}

/// The bytes of a username/password sub-negotiation.
pub open spec fn auth_wire(username: Seq<char>, password: Seq<char>) -> Seq<u8> {
    seq![AUTH_SUBNEGOTIATION_VERSION, (encode_utf8(username).len() as u8)] + encode_utf8(username)
        + seq![(encode_utf8(password).len() as u8)] + encode_utf8(password)
}

/// A username and password of at most 255 bytes each, written in the wire
/// form, read back as the same username and password.
pub proof fn lemma_auth_roundtrip(username: Seq<char>, password: Seq<char>)
    requires
        encode_utf8(username).len() <= 255,
        encode_utf8(password).len() <= 255,
    ensures
        scan_auth(auth_wire(username, password)) == Scan::Complete(
            (username, password),
            auth_wire(username, password).len(),
        ),
{
    let w = auth_wire(username, password);
    let u = encode_utf8(username);
    let p = encode_utf8(password);
    let ul = u.len() as int;
    let pl = p.len() as int;
    assert(w[1] == ul);
    assert(w[2 + ul] == pl);
    assert(w.subrange(2, 2 + ul) =~= u);
    assert(w.subrange(3 + ul, 3 + ul + pl) =~= p);
    lemma_text_roundtrip(username);
    lemma_text_roundtrip(password);
}

/// The bytes of a client greeting offering `methods`.
pub open spec fn greeting_wire(methods: Seq<u8>) -> Seq<u8> {
    seq![SOCKS5_VERSION, (methods.len() as u8)] + methods
}

/// A greeting offering at most 255 methods reads back as the same methods.
pub proof fn lemma_greeting_roundtrip(methods: Seq<u8>)
    requires
        methods.len() <= 255,
    ensures
        scan_greeting(greeting_wire(methods)) == Scan::Complete(methods, methods.len() + 2),
{
    let w = greeting_wire(methods);
    assert(w.subrange(2, 2 + methods.len() as int) =~= methods);
}

/// Bytes after a message do not change it: where the bytes read so far make
/// a complete message, or no such message, more bytes give the same
/// outcome; where more are needed, the length asked for is more than what
/// was read.
pub proof fn lemma_request_prefix_stable(buf: Seq<u8>, extra: Seq<u8>)
    ensures
        scan_request(buf) is Need ==> scan_request(buf)->Need_0 > buf.len(),
        !(scan_request(buf) is Need) ==> scan_request(buf + extra) == scan_request(buf),
{
    let b2 = buf + extra;
    if !(scan_request(buf) is Need) {
        assert(buf.len() >= 4);
        assert(b2[0] == buf[0] && b2[1] == buf[1] && b2[3] == buf[3]);
        if buf[3] == ADDR_TYPE_IPV4 && buf[0] == SOCKS5_VERSION {
            assert(b2.subrange(4, 8) =~= buf.subrange(4, 8));
            assert(b2[8] == buf[8] && b2[9] == buf[9]);
        } else if buf[3] == ADDR_TYPE_IPV6 && buf[0] == SOCKS5_VERSION {
            assert(b2.subrange(4, 20) =~= buf.subrange(4, 20));
            assert(b2[20] == buf[20] && b2[21] == buf[21]);
        } else if buf[3] == ADDR_TYPE_DOMAIN && buf[0] == SOCKS5_VERSION {
            let n = buf[4] as int;
            assert(b2[4] == buf[4]);
            assert(b2.subrange(5, 5 + n) =~= buf.subrange(5, 5 + n));
            assert(b2[5 + n] == buf[5 + n] && b2[6 + n] == buf[6 + n]);
        }
    }
}

/// The same for the sub-negotiation.
pub proof fn lemma_auth_prefix_stable(buf: Seq<u8>, extra: Seq<u8>)
    ensures
        scan_auth(buf) is Need ==> scan_auth(buf)->Need_0 > buf.len(),
        !(scan_auth(buf) is Need) ==> scan_auth(buf + extra) == scan_auth(buf),
{
    let b2 = buf + extra;
    if !(scan_auth(buf) is Need) && buf[0] == AUTH_SUBNEGOTIATION_VERSION {
        let ulen = buf[1] as int;
        let plen = buf[2 + ulen] as int;
        assert(b2[1] == buf[1]);
        assert(b2[2 + ulen] == buf[2 + ulen]);
        assert(b2.subrange(2, 2 + ulen) =~= buf.subrange(2, 2 + ulen));
        assert(b2.subrange(3 + ulen, 3 + ulen + plen) =~= buf.subrange(3 + ulen, 3 + ulen + plen));
    }
}

/// The same for the greeting.
pub proof fn lemma_greeting_prefix_stable(buf: Seq<u8>, extra: Seq<u8>)
    ensures
        scan_greeting(buf) is Need ==> scan_greeting(buf)->Need_0 > buf.len(),
        !(scan_greeting(buf) is Need) ==> scan_greeting(buf + extra) == scan_greeting(buf),
{
    let b2 = buf + extra;
    if !(scan_greeting(buf) is Need) && buf[0] == SOCKS5_VERSION {
        assert(b2[1] == buf[1]);
        assert(b2.subrange(2, 2 + buf[1]) =~= buf.subrange(2, 2 + buf[1]));
    }
}

} // verus!
