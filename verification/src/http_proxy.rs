//! The decisions of the HTTP proxy: reading Basic credentials from a
//! `Proxy-Authorization` header, and admitting connections up to a limit.
use crate::addr::SocketAddress;
use crate::auth_types::Credentials;
use crate::text::{str_chars, string_from_chars};
use base64::Engine;
use vstd::prelude::*;
use vstd::utf8::{decode_utf8, valid_utf8};

verus! {

/// What `base64`'s standard engine decodes from `input`, if it is valid
/// padded standard Base64.
pub uninterp spec fn base64_standard_decode(input: Seq<u8>) -> Option<Seq<u8>>;

/// `base64::engine::general_purpose::STANDARD.decode(input)`, with its
/// error dropped: the decoded bytes, or `None` where the input is not
/// valid Base64. The decoding itself is left to the name.
#[verifier::external_body]
fn base64_decode(input: &[u8]) -> (res: Option<Vec<u8>>)
    ensures
        match res {
            Some(v) => base64_standard_decode(input@) == Some(v@),
            None => base64_standard_decode(input@) is None,
        },
{
    base64::engine::general_purpose::STANDARD.decode(input).ok()
}

/// `String::from_utf8`, with its error dropped: the text where the bytes
/// are valid UTF-8.
#[verifier::external_body]
fn string_from_utf8(bytes: Vec<u8>) -> (res: Option<String>)
    ensures
        res is Some <==> valid_utf8(bytes@),
        res matches Some(s) ==> s@ == decode_utf8(bytes@),
{
    String::from_utf8(bytes).ok()
}

/// Why a `Proxy-Authorization` header could not be read.
#[derive(Debug, Clone, Copy, PartialEq, Eq)]
pub enum AuthHeaderError {
    /// The value holds a byte other than visible ASCII or tab.
    NotVisibleAscii,
    /// The credentials are not valid Base64.
    InvalidBase64,
    /// The decoded credentials are not valid UTF-8.
    InvalidUtf8,
}

/// What a `Proxy-Authorization` header gives.
pub ghost enum HeaderCredentials {
    /// No Basic credentials: no header, another scheme, or no `:`.
    NoCredentials,
    Found(Seq<char>, Seq<char>),
    Invalid(AuthHeaderError),
}

/// Visible ASCII or tab (`HeaderValue::to_str` accepts these).
pub open spec fn visible_ascii(b: u8) -> bool {
    (32 <= b && b < 127) || b == 9
}

/// White space among ASCII bytes (what `str::trim` removes from ASCII text).
pub open spec fn ascii_white(b: u8) -> bool {
    (9 <= b && b <= 13) || b == 32
}

/// `s` without white space at either end.
pub open spec fn trim_bytes(s: Seq<u8>) -> Seq<u8>
    decreases s.len(),
{
    if s.len() > 0 && ascii_white(s[0]) {
        trim_bytes(s.drop_first())
    } else if s.len() > 0 && ascii_white(s.last()) {
        trim_bytes(s.drop_last())
    } else {
        s
    }
}

/// The bytes of the scheme prefix `Basic `.
pub open spec fn basic_prefix() -> Seq<u8> {
    seq![66u8, 97, 115, 105, 99, 32]
}

/// The index of the first `c` in `s`.
pub open spec fn first_index_of(s: Seq<char>, c: char) -> Option<int>
    decreases s.len(),
{
    if s.len() == 0 {
        None
    } else if s[0] == c {
        Some(0)
    } else {
        match first_index_of(s.drop_first(), c) {
            Some(i) => Some(i + 1),
            None => None,
        }
    }
}

/// The credentials in the decoded bytes of a Basic header: they must be
/// UTF-8, and the text splits at its first colon into user name and
/// password; text without a colon holds no credentials.
pub open spec fn decoded_credentials(d: Seq<u8>) -> HeaderCredentials {
    if !valid_utf8(d) {
        HeaderCredentials::Invalid(AuthHeaderError::InvalidUtf8)
    } else {
        let text = decode_utf8(d);
        match first_index_of(text, ':') {
            None => HeaderCredentials::NoCredentials,
            Some(k) => HeaderCredentials::Found(
                text.subrange(0, k),
                text.subrange(k + 1, text.len() as int),
            ),
        }
    }
}

/// What a header value (its bytes, if the header is there) gives: the
/// value must be visible ASCII; a value starting with `Basic ` holds
/// Base64 after it (spaces around it ignored) that decodes to UTF-8 text
/// `username:password`, split at the first `:`.
pub open spec fn header_credentials(value: Option<Seq<u8>>) -> HeaderCredentials {
    match value {
        None => HeaderCredentials::NoCredentials,
        Some(v) => if !(forall|i: int| 0 <= i < v.len() ==> visible_ascii(#[trigger] v[i])) {
            HeaderCredentials::Invalid(AuthHeaderError::NotVisibleAscii)
        } else if !(v.len() >= 6 && v.subrange(0, 6) == basic_prefix()) {
            HeaderCredentials::NoCredentials
        } else {
            match base64_standard_decode(trim_bytes(v.subrange(6, v.len() as int))) {
                None => HeaderCredentials::Invalid(AuthHeaderError::InvalidBase64),
                Some(d) => decoded_credentials(d),
            }
        },
    }
}

fn is_ascii_white(b: u8) -> (res: bool)
    ensures
        res == ascii_white(b),
{
    (9 <= b && b <= 13) || b == 32
}

fn trim(s: &[u8]) -> (res: Vec<u8>)
    ensures
        res@ == trim_bytes(s@),
{
    let mut start: usize = 0;
    let mut end: usize = s.len();
    assert(s@.subrange(0, s@.len() as int) =~= s@);
    while start < end && is_ascii_white(s[start])
        invariant
            start <= end == s@.len(),
            trim_bytes(s@) == trim_bytes(s@.subrange(start as int, end as int)),
        decreases end - start,
    {
        assert(s@.subrange(start as int, end as int).drop_first() =~= s@.subrange(
            start + 1,
            end as int,
        ));
        start = start + 1;
    }
    while start < end && is_ascii_white(s[end - 1])
        invariant
            start <= end <= s@.len(),
            start < end ==> !ascii_white(s@[start as int]),
            trim_bytes(s@) == trim_bytes(s@.subrange(start as int, end as int)),
        decreases end - start,
    {
        let ghost sub = s@.subrange(start as int, end as int);
        assert(sub.drop_last() =~= s@.subrange(start as int, end - 1));
        assert(sub[0] == s@[start as int]);
        end = end - 1;
    }
    assert(start < end ==> s@.subrange(start as int, end as int)[0] == s@[start as int]);
    assert(start < end ==> s@.subrange(start as int, end as int).last() == s@[end - 1]);
    vstd::slice::slice_to_vec(&s[start..end])
}

fn find_colon(s: &[char]) -> (res: Option<usize>)
    ensures
        match res {
            Some(k) => k < s@.len() && first_index_of(s@, ':') == Some(k as int),
            None => first_index_of(s@, ':') is None,
        },
{
    let mut i: usize = 0;
    assert(s@.skip(0) =~= s@);
    while i < s.len()
        invariant
            i <= s@.len(),
            first_index_of(s@, ':') == match first_index_of(s@.skip(i as int), ':') {
                Some(k) => Some(k + i),
                None => None,
            },
        decreases s@.len() - i,
    {
        assert(s@.skip(i as int)[0] == s@[i as int]);
        if s[i] == ':' {
            return Some(i);
        }
        assert(s@.skip(i as int).drop_first() =~= s@.skip(i + 1));
        i = i + 1;
    }
    assert(s@.skip(i as int).len() == 0);
    None
}

fn all_visible(v: &[u8]) -> (res: bool)
    ensures
        res == forall|i: int| 0 <= i < v@.len() ==> visible_ascii(#[trigger] v@[i]),
{
    let mut i: usize = 0;
    while i < v.len()
        invariant
            i <= v@.len(),
            forall|j: int| 0 <= j < i ==> visible_ascii(#[trigger] v@[j]),
        decreases v@.len() - i,
    {
        let b = v[i];
        if !((32 <= b && b < 127) || b == 9) {
            assert(!visible_ascii(v@[i as int]));
            return false;
        }
        i = i + 1;
    }
    true
}

/// Reads Basic credentials from the value of a `Proxy-Authorization`
/// header, if there is one.
pub fn parse_proxy_auth_header(value: Option<&[u8]>) -> (res: Result<
    Option<Credentials>,
    AuthHeaderError,
>)
    ensures
        match header_credentials(
            match value {
                Some(v) => Some(v@),
                None => None,
            },
        ) {
            HeaderCredentials::NoCredentials => res == Ok::<Option<Credentials>, AuthHeaderError>(
                None,
            ),
            HeaderCredentials::Found(u, p) => res matches Ok(Some(c)) && c.username@ == u
                && c.password@ == p,
            HeaderCredentials::Invalid(e) => res == Err::<Option<Credentials>, AuthHeaderError>(e),
        },
{
    let v = match value {
        None => return Ok(None),
        Some(v) => v,
    };
    if !all_visible(v) {
        return Err(AuthHeaderError::NotVisibleAscii);
    }
    if !(v.len() >= 6 && v[0] == 66 && v[1] == 97 && v[2] == 115 && v[3] == 105 && v[4] == 99
        && v[5] == 32) {
        assert(v@.len() >= 6 ==> (v@.subrange(0, 6) == basic_prefix() ==> v@[0] == 66 && v@[1] == 97
            && v@[2] == 115 && v@[3] == 105 && v@[4] == 99 && v@[5] == 32));
        return Ok(None);
    }
    assert(v@.subrange(0, 6) =~= basic_prefix());
    let encoded = trim(&v[6..v.len()]);
    let decoded = match base64_decode(encoded.as_slice()) {
        None => return Err(AuthHeaderError::InvalidBase64),
        Some(d) => d,
    };
    credentials_from_decoded(decoded)
}

/// Reads the credentials from the decoded bytes of a Basic
/// `Proxy-Authorization` header: the UTF-8 text split at its first colon.
pub fn credentials_from_decoded(decoded: Vec<u8>) -> (res: Result<
    Option<Credentials>,
    AuthHeaderError,
>)
    ensures
        match decoded_credentials(decoded@) {
            HeaderCredentials::NoCredentials => res == Ok::<Option<Credentials>, AuthHeaderError>(
                None,
            ),
            HeaderCredentials::Found(u, p) => res matches Ok(Some(c)) && c.username@ == u
                && c.password@ == p,
            HeaderCredentials::Invalid(e) => res == Err::<Option<Credentials>, AuthHeaderError>(e),
        },
{
    let text = match string_from_utf8(decoded) {
        None => return Err(AuthHeaderError::InvalidUtf8),
        Some(t) => t,
    };
    let chars = str_chars(text.as_str());
    let cs = chars.as_slice();
    let n = cs.len();
    match find_colon(cs) {
        None => Ok(None),
        Some(k) => {
            assert(k < n);
            let username = string_from_chars(&cs[0..k]);
            let password = string_from_chars(&cs[k + 1..n]);
            Ok(Some(Credentials { username, password }))
        },
    }
}

/// What the proxy does with a request before forwarding it.
#[derive(Debug)]
pub enum AuthGate {
    /// No authentication is required: forward the request.
    Forward,
    /// Answer 407 Proxy Authentication Required.
    Challenge,
    /// Authenticate these credentials first.
    Authenticate(Credentials),
    /// The header could not be read: fail the request.
    Fail(AuthHeaderError),
}

/// The step before forwarding a request: where authentication is
/// required, the request's Basic credentials are authenticated, a request
/// without them is answered with a challenge, and an unreadable header
/// fails the request.
pub fn auth_gate(auth_required: bool, header: Option<&[u8]>) -> (res: AuthGate)
    ensures
        !auth_required ==> res is Forward,
        auth_required ==> match header_credentials(
            match header {
                Some(v) => Some(v@),
                None => None,
            },
        ) {
            HeaderCredentials::NoCredentials => res is Challenge,
            HeaderCredentials::Found(u, p) => res matches AuthGate::Authenticate(c)
                && c.username@ == u && c.password@ == p,
            HeaderCredentials::Invalid(e) => res == AuthGate::Fail(e),
        },
{
    if !auth_required {
        return AuthGate::Forward;
    }
    match parse_proxy_auth_header(header) {
        Ok(Some(c)) => AuthGate::Authenticate(c),
        Ok(None) => AuthGate::Challenge,
        Err(e) => AuthGate::Fail(e),
    }
}

/// The step after authenticating: forward on success, else challenge.
pub fn after_authentication(authenticated: bool) -> (res: AuthGate)
    ensures
        authenticated ==> res is Forward,
        !authenticated ==> res is Challenge,
{
    if authenticated {
        AuthGate::Forward
    } else {
        AuthGate::Challenge
    }
}

/// The HTTP status with which a connection over the limit is answered.
pub const STATUS_SERVICE_UNAVAILABLE: u16 = 503;

/// The peers with an open connection, and how many may be open at once.
pub struct ConnectionTracker {
    active: Vec<SocketAddress>,
    max_connections: usize,
}

pub open spec fn addr_views(v: Seq<SocketAddress>) -> Seq<(bool, Seq<u8>, u16)> {
    v.map_values(|a: SocketAddress| a.addr_view())
}

impl ConnectionTracker {
    /// The peers with an open connection, each once.
    pub closed spec fn spec_active(&self) -> Set<(bool, Seq<u8>, u16)> {
        addr_views(self.active@).to_set()
    }

    /// How many connections are open.
    pub closed spec fn spec_count(&self) -> nat {
        self.active@.len()
    }

    pub closed spec fn spec_max(&self) -> usize {
        self.max_connections
    }

    /// Each peer is held once.
    pub closed spec fn wf(&self) -> bool {
        addr_views(self.active@).no_duplicates()
    }

    /// In a well-formed tracker the count of open connections is the
    /// number of peers held.
    pub proof fn lemma_count_is_peers(&self)
        requires
            self.wf(),
        ensures
            self.spec_active().finite(),
            self.spec_count() == self.spec_active().len(),
    {
        vstd::seq_lib::seq_to_set_is_finite(addr_views(self.active@));
        addr_views(self.active@).unique_seq_to_set();
    }

    /// A tracker with no open connections.
    pub fn new(max_connections: usize) -> (res: Self)
        ensures
            res.wf(),
            res.spec_count() == 0,
            res.spec_active() == Set::<(bool, Seq<u8>, u16)>::empty(),
            res.spec_max() == max_connections,
    {
        let res = ConnectionTracker { active: Vec::new(), max_connections };
        assert(addr_views(res.active@) =~= Seq::<(bool, Seq<u8>, u16)>::empty());
        assert(addr_views(res.active@).to_set() =~= Set::<(bool, Seq<u8>, u16)>::empty());
        res
    }

    /// Changes how many connections may be open at once.
    pub fn set_max_connections(&mut self, max: usize)
        requires
            old(self).wf(),
        ensures
            final(self).wf(),
            final(self).spec_max() == max,
            final(self).spec_active() == old(self).spec_active(),
            final(self).spec_count() == old(self).spec_count(),
    {
        self.max_connections = max;
    }

    /// How many connections are open.
    pub fn active_count(&self) -> (res: usize)
        ensures
            res == self.spec_count(),
    {
        self.active.len()
    }

    fn position(&self, peer: &SocketAddress) -> (res: Option<usize>)
        ensures
            match res {
                Some(i) => i < self.active@.len() && self.active@[i as int].addr_view()
                    == peer.addr_view(),
                None => !addr_views(self.active@).contains(peer.addr_view()),
            },
    {
        let mut i: usize = 0;
        while i < self.active.len()
            invariant
                i <= self.active@.len(),
                forall|j: int| 0 <= j < i ==> #[trigger] self.active@[j].addr_view() != peer.addr_view(),
            decreases self.active@.len() - i,
        {
            if self.active[i].same_as(peer) {
                return Some(i);
            }
            i = i + 1;
        }
        proof {
            if addr_views(self.active@).contains(peer.addr_view()) {
                let k = choose|k: int|
                    0 <= k < addr_views(self.active@).len() && addr_views(self.active@)[k]
                        == peer.addr_view();
                assert(self.active@[k].addr_view() != peer.addr_view());
            }
        }
        None
    }

    /// Admits a connection from `peer` where fewer than the maximum are
    /// open, and records the peer; refuses it otherwise.
    pub fn try_register(&mut self, peer: &SocketAddress) -> (res: bool)
        requires
            old(self).wf(),
        ensures
            final(self).wf(),
            res == (old(self).spec_count() < old(self).spec_max()),
            res ==> final(self).spec_active() == old(self).spec_active().insert(peer.addr_view()),
            !res ==> final(self).spec_active() == old(self).spec_active() && final(self).spec_count()
                == old(self).spec_count(),
            res ==> final(self).spec_count() <= old(self).spec_count() + 1,
            old(self).spec_count() <= old(self).spec_max() ==> final(self).spec_count()
                <= final(self).spec_max(),
            final(self).spec_max() == old(self).spec_max(),
    {
        if self.active.len() >= self.max_connections {
            return false;
        }
        match self.position(peer) {
            Some(i) => {
                proof {
                    assert(addr_views(self.active@)[i as int] == peer.addr_view());
                    assert(addr_views(self.active@).to_set().insert(peer.addr_view())
                        =~= addr_views(self.active@).to_set());
                }
            },
            None => {
                let ghost before = addr_views(self.active@);
                self.active.push(*peer);
                proof {
                    assert(addr_views(self.active@) =~= before.push(peer.addr_view()));
                    assert forall|x| before.push(peer.addr_view()).contains(x) <==> before.to_set().insert(
                        peer.addr_view(),
                    ).contains(x) by {
                        if before.push(peer.addr_view()).contains(x) {
                            let k = choose|k: int| 0 <= k < before.len() + 1 && before.push(peer.addr_view())[k] == x;
                            if k < before.len() {
                                assert(before[k] == x);
                            }
                        }
                        if before.contains(x) {
                            let k = choose|k: int| 0 <= k < before.len() && before[k] == x;
                            assert(before.push(peer.addr_view())[k] == x);
                        }
                        if x == peer.addr_view() {
                            assert(before.push(peer.addr_view())[before.len() as int] == x);
                        }
                    }
                    assert(before.push(peer.addr_view()).to_set() =~= before.to_set().insert(
                        peer.addr_view(),
                    ));
                    let after = addr_views(self.active@);
                    assert forall|a: int, b: int|
                        0 <= a < after.len() && 0 <= b < after.len() && a != b implies after[a]
                        != after[b] by {
                        if a < before.len() && b < before.len() {
                        } else if a < before.len() {
                            assert(before.contains(after[a]));
                        } else {
                            assert(before.contains(after[b]));
                        }
                    }
                }
            },
        }
        true
    }

    /// Admits a connection from `peer` as `try_register` does, or answers
    /// one over the limit with the status 503 Service Unavailable.
    pub fn admit_connection(&mut self, peer: &SocketAddress) -> (res: Result<(), u16>)
        requires
            old(self).wf(),
        ensures
            final(self).wf(),
            res is Ok <==> old(self).spec_count() < old(self).spec_max(),
            res is Ok ==> final(self).spec_active() == old(self).spec_active().insert(
                peer.addr_view(),
            ),
            res is Ok ==> final(self).spec_count() <= old(self).spec_count() + 1,
            old(self).spec_count() <= old(self).spec_max() ==> final(self).spec_count()
                <= final(self).spec_max(),
            res matches Err(status) ==> status == STATUS_SERVICE_UNAVAILABLE,
            res is Err ==> final(self).spec_active() == old(self).spec_active(),
            res is Err ==> final(self).spec_count() == old(self).spec_count(),
            final(self).spec_max() == old(self).spec_max(),
    {
        if self.try_register(peer) {
            Ok(())
        } else {
            Err(STATUS_SERVICE_UNAVAILABLE)
        }
    }

    /// The connection limit holds across admissions and releases: while the
    /// maximum is not lowered, a tracker within it stays within it, and the
    /// open connections are a finite set of peers, counted once each.
    pub proof fn lemma_connection_limit(before: Self, after_admit: Self, after_release: Self)
        requires
            before.wf(),
            after_admit.wf(),
            after_release.wf(),
            before.spec_count() <= before.spec_max(),
            after_admit.spec_max() == before.spec_max(),
            after_admit.spec_count() <= before.spec_count() + 1,
            after_admit.spec_count() > before.spec_count() ==> before.spec_count()
                < before.spec_max(),
            after_release.spec_max() == after_admit.spec_max(),
            after_release.spec_count() <= after_admit.spec_count(),
        ensures
            after_admit.spec_count() <= after_admit.spec_max(),
            after_release.spec_count() <= after_release.spec_max(),
            after_release.spec_active().finite(),
            after_release.spec_count() == after_release.spec_active().len(),
    {
        after_release.lemma_count_is_peers();
    }

    /// Forgets the connection from `peer`.
    pub fn release(&mut self, peer: &SocketAddress)
        requires
            old(self).wf(),
        ensures
            final(self).wf(),
            final(self).spec_active() == old(self).spec_active().remove(peer.addr_view()),
            final(self).spec_count() <= old(self).spec_count(),
            final(self).spec_max() == old(self).spec_max(),
    {
        match self.position(peer) {
            Some(i) => {
                let ghost before = addr_views(self.active@);
                let _ = self.active.remove(i);
                proof {
                    let after = addr_views(self.active@);
                    assert(after =~= before.remove(i as int));
                    assert forall|x| after.to_set().contains(x) <==> before.to_set().remove(
                        peer.addr_view(),
                    ).contains(x) by {
                        if after.contains(x) {
                            let k = choose|k: int| 0 <= k < after.len() && after[k] == x;
                            if k < i {
                                assert(before[k] == x);
                                assert(before[i as int] == peer.addr_view());
                            } else {
                                assert(before[k + 1] == x);
                                assert(before[i as int] == peer.addr_view());
                            }
                        }
                        if before.contains(x) && x != peer.addr_view() {
                            let k = choose|k: int| 0 <= k < before.len() && before[k] == x;
                            assert(k != i);
                            if k < i {
                                assert(after[k] == x);
                            } else {
                                assert(after[k - 1] == x);
                            }
                        }
                    }
                    assert(after.to_set() =~= before.to_set().remove(peer.addr_view()));
                    assert forall|a: int, b: int|
                        0 <= a < after.len() && 0 <= b < after.len() && a != b implies after[a]
                        != after[b] by {
                        let a2 = if a < i { a } else { a + 1 };
                        let b2 = if b < i { b } else { b + 1 };
                        assert(after[a] == before[a2] && after[b] == before[b2]);
                    }
                }
            },
            None => {
                proof {
                    assert(addr_views(self.active@).to_set().remove(peer.addr_view())
                        =~= addr_views(self.active@).to_set());
                }
            },
        }
    }
}

} // verus!
