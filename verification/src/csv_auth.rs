//! The CSV authentication backend: the users kept in a text file, one
//! comma-separated line per user, and the decisions made over them.
//!
//! A line holds the username, the password, `1` or `0` for enabled, the
//! seconds until the account expires (empty for never), the maximum number
//! of connections, the bandwidth limit and the allowed IP addresses
//! separated by `;`. Only the first two fields are required.
use crate::auth_types::{copy_users, user_views, Credentials, Session, User, UserView};
use crate::error::AuthError;
use crate::text::{
    all_digits, blank, decimal, decimal_chars, free_of, is_blank, is_digit, is_white, join_with,
    lemma_decimal_roundtrip, lemma_split_join, parse_u32, parse_u64, parsed_u32, parsed_u64,
    push_chars, split_chars, split_on, str_chars, string_from_chars, views,
};
use crate::time::SysTime;
use vstd::prelude::*;

verus! {

// ---------------------------------------------------------------------
// Finding a user by name

/// The index of the first user with the given name.
pub open spec fn find_user(users: Seq<UserView>, name: Seq<char>) -> Option<int>
    decreases users.len(),
{
    if users.len() == 0 {
        None
    } else if users[0].username == name {
        Some(0)
    } else {
        match find_user(users.drop_first(), name) {
            Some(i) => Some(i + 1),
            None => None,
        }
    }
}

/// `find_user` gives the first index with that name, or `None` where no
/// user has it.
pub proof fn lemma_find_user(users: Seq<UserView>, name: Seq<char>)
    ensures
        match find_user(users, name) {
            Some(i) => 0 <= i < users.len() && users[i].username == name && forall|j: int|
                0 <= j < i ==> #[trigger] users[j].username != name,
            None => forall|j: int| 0 <= j < users.len() ==> #[trigger] users[j].username != name,
        },
    decreases users.len(),
{
    if users.len() > 0 && users[0].username != name {
        lemma_find_user(users.drop_first(), name);
        let rest = users.drop_first();
        match find_user(rest, name) {
            Some(i) => {
                assert forall|j: int| 0 <= j < i + 1 implies #[trigger] users[j].username
                    != name by {
                    if j > 0 {
                        assert(users[j] == rest[j - 1]);
                    }
                }
            },
            None => {
                assert forall|j: int| 0 <= j < users.len() implies #[trigger] users[j].username
                    != name by {
                    if j > 0 {
                        assert(users[j] == rest[j - 1]);
                    }
                }
            },
        }
    }
}

proof fn lemma_find_user_at(users: Seq<UserView>, name: Seq<char>, i: int)
    requires
        0 <= i < users.len(),
        users[i].username == name,
        forall|j: int| 0 <= j < i ==> #[trigger] users[j].username != name,
    ensures
        find_user(users, name) == Some(i),
{
    lemma_find_user(users, name);
    match find_user(users, name) {
        Some(k) => {
            if k < i {
                assert(users[k].username != name);
            } else if k > i {
                assert(users[i].username != name);
            }
        },
        None => {
            assert(users[i].username != name);
        },
    }
}

fn find_index(users: &Vec<User>, name: &String) -> (res: Option<usize>)
    ensures
        match res {
            Some(i) => i < users@.len() && find_user(user_views(users@), name@) == Some(i as int),
            None => find_user(user_views(users@), name@) is None,
        },
{
    let ghost us = user_views(users@);
    let mut i: usize = 0;
    while i < users.len()
        invariant
            i <= users@.len(),
            us == user_views(users@),
            forall|j: int| 0 <= j < i ==> #[trigger] us[j].username != name@,
        decreases users@.len() - i,
    {
        if users[i].username == *name {
            assert(us[i as int].username == name@);
            proof {
                lemma_find_user_at(us, name@, i as int);
            }
            return Some(i);
        }
        assert(us[i as int].username != name@);
        i = i + 1;
    }
    proof {
        lemma_find_user(us, name@);
        if let Some(k) = find_user(us, name@) {
            assert(us[k].username != name@);
        }
    }
    None
}

// ---------------------------------------------------------------------
// Decisions over the users

/// Whether an account has expired at `now`.
pub open spec fn expired(u: UserView, now: SysTime) -> bool {
    u.expires_at matches Some(t) && t.before(now)
}

/// The outcome of authenticating `name` with `password` at `now`: the
/// first user of that name must exist, be enabled, not have expired, and
/// have that password.
pub open spec fn auth_outcome(
    users: Seq<UserView>,
    name: Seq<char>,
    password: Seq<char>,
    now: SysTime,
) -> Result<UserView, AuthError> {
    match find_user(users, name) {
        None => Err(AuthError::InvalidCredentials),
        Some(i) => {
            let u = users[i];
            if !u.enabled {
                Err(AuthError::AccountDisabled)
            } else if expired(u, now) {
                Err(AuthError::AccountExpired)
            } else if u.password_hash == password {
                Ok(u)
            } else {
                Err(AuthError::InvalidCredentials)
            }
        },
    }
}

/// Whether a session of the user `name` is still valid at `now`: the user
/// exists, is enabled and has not expired.
pub open spec fn session_valid(users: Seq<UserView>, name: Seq<char>, now: SysTime) -> bool {
    match find_user(users, name) {
        None => false,
        Some(i) => users[i].enabled && !expired(users[i], now),
    }
}

/// The users after storing `u`: it replaces the first user of its name, or
/// comes last where there is none.
pub open spec fn upserted(users: Seq<UserView>, u: UserView) -> Seq<UserView> {
    match find_user(users, u.username) {
        Some(i) => users.update(i, u),
        None => users.push(u),
    }
}

/// The users after deleting the first user named `name`, or `None` where
/// there is no such user.
pub open spec fn removed(users: Seq<UserView>, name: Seq<char>) -> Option<Seq<UserView>> {
    match find_user(users, name) {
        Some(i) => Some(users.remove(i)),
        None => None,
    }
}

/// Whether the users must be read again at `now`: at least
/// `reload_interval` whole seconds have passed since the last reading, or
/// the clock has gone back.
pub open spec fn reload_due(last_reload: SysTime, reload_interval: u64, now: SysTime) -> bool {
    match now.whole_secs_since(last_reload) {
        None => true,
        Some(d) => d >= reload_interval,
    }
}

// ---------------------------------------------------------------------
// Reading the file

/// Whether a line is skipped: blank, or a comment.
pub open spec fn skipped_line(line: Seq<char>) -> bool {
    is_blank(line) || (line.len() > 0 && line[0] == '#')
}

/// The optional field at `k`, where the line has that many.
pub open spec fn field(parts: Seq<Seq<char>>, k: int) -> Option<Seq<char>> {
    if k < parts.len() {
        Some(parts[k])
    } else {
        None
    }
}

/// The account that a line's fields describe (at least two fields), with
/// the expiry counted from `now`.
pub open spec fn user_from_fields(parts: Seq<Seq<char>>, now: SysTime) -> UserView {
    UserView {
        username: parts[0],
        password_hash: parts[1],
        enabled: match field(parts, 2) {
            Some(f) => f == seq!['1'],
            None => true,
        },
        expires_at: match field(parts, 3) {
            Some(f) => if f.len() == 0 {
                None
            } else {
                now.plus_secs(
                    match parsed_u64(f) {
                        Some(v) => v,
                        None => 0,
                    },
                )
            },
            None => None,
        },
        max_connections: match field(parts, 4) {
            Some(f) => match parsed_u32(f) {
                Some(v) => v,
                None => 10,
            },
            None => 10,
        },
        bandwidth_limit: match field(parts, 5) {
            Some(f) => parsed_u64(f),
            None => None,
        },
        allowed_ips: match field(parts, 6) {
            Some(f) => split_on(f, ';'),
            None => Seq::empty(),
        },
    }
}

/// The account that one line of the file describes, if any: skipped lines
/// and lines of fewer than two fields describe none.
pub open spec fn parse_user_line(line: Seq<char>, now: SysTime) -> Option<UserView> {
    if skipped_line(line) {
        None
    } else if split_on(line, ',').len() < 2 {
        None
    } else {
        Some(user_from_fields(split_on(line, ','), now))
    }
}

/// The accounts that the lines describe, in order.
pub open spec fn parse_lines(lines: Seq<Seq<char>>, now: SysTime) -> Seq<UserView>
    decreases lines.len(),
{
    if lines.len() == 0 {
        Seq::empty()
    } else {
        parse_lines(lines.drop_last(), now) + match parse_user_line(lines.last(), now) {
            Some(u) => seq![u],
            None => Seq::empty(),
        }
    }
}

/// A line without its trailing carriage return.
pub open spec fn strip_cr(line: Seq<char>) -> Seq<char> {
    if line.len() > 0 && line.last() == '\r' {
        line.drop_last()
    } else {
        line
    }
}

/// The lines of a text as `BufRead::lines` gives them: split at each
/// newline, without a last empty line after a final newline, and without
/// the carriage return of a CRLF ending (a last line that no newline ends
/// keeps a carriage return at its end).
pub open spec fn text_lines(text: Seq<char>) -> Seq<Seq<char>> {
    let ps = split_on(text, '\n');
    let kept = if ps.len() > 0 && ps.last().len() == 0 {
        ps.len() - 1
    } else {
        ps.len() as int
    };
    Seq::new(
        kept as nat,
        |i: int|
            if i + 1 < ps.len() {
                strip_cr(ps[i])
            } else {
                ps[i]
            },
    )
}

/// The accounts that a file's text describes.
pub open spec fn parse_text(text: Seq<char>, now: SysTime) -> Seq<UserView> {
    parse_lines(text_lines(text), now)
}

// ---------------------------------------------------------------------
// Writing the file

/// The enabled field.
pub open spec fn enabled_field(enabled: bool) -> Seq<char> {
    if enabled {
        seq!['1']
    } else {
        seq!['0']
    }
}

/// The seconds from `now` until `t`, or 0 where `t` is not later
/// (`t.duration_since(now).unwrap_or_default().as_secs()`).
pub open spec fn secs_until(t: SysTime, now: SysTime) -> u64 {
    match t.whole_secs_since(now) {
        Some(d) => d,
        None => 0,
    }
}

/// The expiry field: empty for no expiry, else the seconds left.
pub open spec fn expiry_field(expires_at: Option<SysTime>, now: SysTime) -> Seq<char> {
    match expires_at {
        None => Seq::empty(),
        Some(t) => decimal(secs_until(t, now) as nat),
    }
}

/// The line that the file holds for an account, written at `now`.
pub open spec fn user_line(u: UserView, now: SysTime) -> Seq<char> {
    u.username + seq![','] + u.password_hash + seq![','] + enabled_field(u.enabled) + seq![',']
        + expiry_field(u.expires_at, now) + seq![','] + decimal(u.max_connections as nat) + seq![
        ',',
    ] + decimal(
        match u.bandwidth_limit {
            Some(b) => b as nat,
            None => 0,
        },
    ) + seq![','] + join_with(u.allowed_ips, ';')
}

/// Lines, each ended by a newline.
pub open spec fn lines_text(lines: Seq<Seq<char>>) -> Seq<char>
    decreases lines.len(),
{
    if lines.len() == 0 {
        Seq::empty()
    } else {
        lines[0] + seq!['\n'] + lines_text(lines.drop_first())
    }
}

/// The text of the file that holds the accounts, written at `now`.
pub open spec fn file_text(users: Seq<UserView>, now: SysTime) -> Seq<char> {
    lines_text(users.map_values(|u: UserView| user_line(u, now)))
}

// ---------------------------------------------------------------------
// Executable reading and writing

fn is_one(f: &Vec<char>) -> (res: bool)
    ensures
        res == (f@ == seq!['1']),
{
    if f.len() == 1 && f[0] == '1' {
        assert(f@ =~= seq!['1']);
        true
    } else {
        false
    }
}

/// The strings with the characters of each vector.
fn strings_from(vs: &Vec<Vec<char>>) -> (res: Vec<String>)
    ensures
        crate::auth_types::string_views(res@) == views(vs@),
{
    let mut res: Vec<String> = Vec::new();
    let mut i: usize = 0;
    while i < vs.len()
        invariant
            i <= vs@.len(),
            res@.len() == i,
            crate::auth_types::string_views(res@) =~= views(vs@.take(i as int)),
        decreases vs@.len() - i,
    {
        let ghost before = res@;
        let s = string_from_chars(vs[i].as_slice());
        res.push(s);
        assert(vs@.take(i + 1) =~= vs@.take(i as int).push(vs@[i as int]));
        assert forall|k: int| 0 <= k < res@.len() implies #[trigger] crate::auth_types::string_views(
            res@,
        )[k] == views(vs@.take(i + 1))[k] by {
            if k < before.len() {
                assert(crate::auth_types::string_views(before)[k] == views(vs@.take(i as int))[k]);
            }
        }
        i = i + 1;
    }
    assert(vs@.take(vs@.len() as int) =~= vs@);
    res
}

/// Reads the account that one line of the file describes.
pub fn parse_line(line: &[char], now: SysTime) -> (res: Option<User>)
    ensures
        match res {
            Some(u) => parse_user_line(line@, now) == Some(u@),
            None => parse_user_line(line@, now) is None,
        },
{
    if blank(line) || (line.len() > 0 && line[0] == '#') {
        return None;
    }
    let parts = split_chars(line, ',');
    if parts.len() < 2 {
        return None;
    }
    let ghost ps = views(parts@);
    assert(ps == split_on(line@, ','));
    let username = string_from_chars(parts[0].as_slice());
    let password_hash = string_from_chars(parts[1].as_slice());
    let enabled = if parts.len() > 2 {
        is_one(&parts[2])
    } else {
        true
    };
    let expires_at = if parts.len() > 3 {
        if parts[3].len() == 0 {
            None
        } else {
            let n = match parse_u64(parts[3].as_slice()) {
                Some(v) => v,
                None => 0,
            };
            now.checked_add_secs(n)
        }
    } else {
        None
    };
    let max_connections = if parts.len() > 4 {
        match parse_u32(parts[4].as_slice()) {
            Some(v) => v,
            None => 10,
        }
    } else {
        10
    };
    let bandwidth_limit = if parts.len() > 5 {
        parse_u64(parts[5].as_slice())
    } else {
        None
    };
    let allowed_ips = if parts.len() > 6 {
        strings_from(&split_chars(parts[6].as_slice(), ';'))
    } else {
        Vec::new()
    };
    let u = User {
        username,
        password_hash,
        enabled,
        expires_at,
        max_connections,
        bandwidth_limit,
        allowed_ips,
    };
    assert(u@.allowed_ips =~= user_from_fields(ps, now).allowed_ips);
    assert(u@ == user_from_fields(ps, now));
    Some(u)
}

proof fn lemma_parse_lines_step(lines: Seq<Seq<char>>, i: int, now: SysTime)
    requires
        0 <= i < lines.len(),
    ensures
        parse_lines(lines.take(i + 1), now) == parse_lines(lines.take(i), now) + match parse_user_line(
            lines[i],
            now,
        ) {
            Some(u) => seq![u],
            None => Seq::empty(),
        },
{
    assert(lines.take(i + 1).drop_last() =~= lines.take(i));
    assert(lines.take(i + 1).last() == lines[i]);
}

/// Reads the accounts from the text of the file.
pub fn parse_users_text(text: &str, now: SysTime) -> (res: Vec<User>)
    ensures
        user_views(res@) == parse_text(text@, now),
{
    let chars = str_chars(text);
    let pieces = split_chars(chars.as_slice(), '\n');
    let ghost ps = views(pieces@);
    let total = pieces.len();
    let kept = if total > 0 && pieces[total - 1].len() == 0 {
        total - 1
    } else {
        total
    };
    let ghost lines = text_lines(text@);
    assert(lines.len() == kept);
    let mut res: Vec<User> = Vec::new();
    let mut i: usize = 0;
    while i < kept
        invariant
            i <= kept <= pieces@.len(),
            total == pieces@.len(),
            views(pieces@) == ps,
            ps == split_on(text@, '\n'),
            lines == text_lines(text@),
            lines.len() == kept,
            user_views(res@) == parse_lines(lines.take(i as int), now),
        decreases kept - i,
    {
        let piece = &pieces[i];
        let n = piece.len();
        let line: &[char] = if i + 1 < total && n > 0 && piece[n - 1] == '\r' {
            &piece.as_slice()[0..n - 1]
        } else {
            piece.as_slice()
        };
        assert(line@ == lines[i as int]) by {
            assert(ps[i as int] == piece@);
            if i + 1 < total && n > 0 && piece@[n - 1] == '\r' {
                assert(line@ =~= piece@.drop_last());
            }
        }
        proof {
            lemma_parse_lines_step(lines, i as int, now);
        }
        let ghost before = res@;
        match parse_line(line, now) {
            Some(u) => {
                res.push(u);
                assert(user_views(res@) =~= user_views(before) + seq![u@]);
            },
            None => {
                assert(user_views(before) + Seq::<UserView>::empty() =~= user_views(before));
            },
        }
        i = i + 1;
    }
    assert(lines.take(kept as int) =~= lines);
    res
}

proof fn lemma_join_push(ps: Seq<Seq<char>>, x: Seq<char>, sep: char)
    requires
        ps.len() >= 1,
    ensures
        join_with(ps.push(x), sep) == join_with(ps, sep) + seq![sep] + x,
    decreases ps.len(),
{
    if ps.len() == 1 {
        assert(ps.push(x).drop_first() =~= seq![x]);
        assert(join_with(seq![x], sep) == x);
    } else {
        lemma_join_push(ps.drop_first(), x, sep);
        assert(ps.push(x).drop_first() =~= ps.drop_first().push(x));
        assert(ps.push(x)[0] == ps[0]);
    }
}

/// The strings joined with `sep` between them.
fn join_strings(v: &Vec<String>, sep: char) -> (res: Vec<char>)
    ensures
        res@ == join_with(crate::auth_types::string_views(v@), sep),
{
    let ghost sv = crate::auth_types::string_views(v@);
    let mut res: Vec<char> = Vec::new();
    let mut i: usize = 0;
    while i < v.len()
        invariant
            i <= v@.len(),
            sv == crate::auth_types::string_views(v@),
            res@ == join_with(sv.take(i as int), sep),
        decreases v@.len() - i,
    {
        let cs = str_chars(v[i].as_str());
        assert(cs@ == sv[i as int]);
        if i == 0 {
            push_chars(&mut res, cs.as_slice());
            assert(sv.take(1) =~= seq![sv[0]]);
            assert(res@ =~= join_with(sv.take(1), sep));
        } else {
            res.push(sep);
            push_chars(&mut res, cs.as_slice());
            proof {
                lemma_join_push(sv.take(i as int), sv[i as int], sep);
                assert(sv.take(i as int).push(sv[i as int]) =~= sv.take(i + 1));
            }
        }
        i = i + 1;
    }
    assert(sv.take(v@.len() as int) =~= sv);
    res
}

/// The characters of the line that the file holds for `u`, written at `now`.
pub fn user_line_chars(u: &User, now: SysTime) -> (res: Vec<char>)
    ensures
        res@ == user_line(u@, now),
{
    let mut line = str_chars(u.username.as_str());
    line.push(',');
    let hash = str_chars(u.password_hash.as_str());
    push_chars(&mut line, hash.as_slice());
    line.push(',');
    line.push(if u.enabled { '1' } else { '0' });
    line.push(',');
    match u.expires_at {
        Some(t) => {
            let secs = match t.secs_since(&now) {
                Some(d) => d,
                None => 0,
            };
            let digits = decimal_chars(secs);
            push_chars(&mut line, digits.as_slice());
        },
        None => {},
    }
    line.push(',');
    let mc = decimal_chars(u.max_connections as u64);
    push_chars(&mut line, mc.as_slice());
    line.push(',');
    let bw = decimal_chars(
        match u.bandwidth_limit {
            Some(b) => b,
            None => 0,
        },
    );
    push_chars(&mut line, bw.as_slice());
    line.push(',');
    let ips = join_strings(&u.allowed_ips, ';');
    push_chars(&mut line, ips.as_slice());
    assert(line@ =~= user_line(u@, now));
    line
}

proof fn lemma_lines_text_push(ls: Seq<Seq<char>>, x: Seq<char>)
    ensures
        lines_text(ls.push(x)) == lines_text(ls) + x + seq!['\n'],
    decreases ls.len(),
{
    if ls.len() == 0 {
        assert(ls.push(x) =~= seq![x]);
        assert(seq![x].drop_first() =~= Seq::<Seq<char>>::empty());
        assert(lines_text(Seq::<Seq<char>>::empty()) =~= Seq::<char>::empty());
        assert(lines_text(seq![x]) =~= x + seq!['\n'] + Seq::<char>::empty());
        assert(ls =~= Seq::<Seq<char>>::empty());
    } else {
        lemma_lines_text_push(ls.drop_first(), x);
        assert(ls.push(x).drop_first() =~= ls.drop_first().push(x));
        assert(ls.push(x)[0] == ls[0]);
    }
}

/// The text of the file holding `users`, written at `now`.
pub fn users_text(users: &Vec<User>, now: SysTime) -> (res: String)
    ensures
        res@ == file_text(user_views(users@), now),
{
    let ghost ls = user_views(users@).map_values(|u: UserView| user_line(u, now));
    let mut text: Vec<char> = Vec::new();
    let mut i: usize = 0;
    while i < users.len()
        invariant
            i <= users@.len(),
            ls == user_views(users@).map_values(|u: UserView| user_line(u, now)),
            text@ == lines_text(ls.take(i as int)),
        decreases users@.len() - i,
    {
        let line = user_line_chars(&users[i], now);
        push_chars(&mut text, line.as_slice());
        text.push('\n');
        proof {
            lemma_lines_text_push(ls.take(i as int), ls[i as int]);
            assert(ls.take(i as int).push(ls[i as int]) =~= ls.take(i + 1));
        }
        i = i + 1;
    }
    assert(ls.take(users@.len() as int) =~= ls);
    string_from_chars(text.as_slice())
}

// ---------------------------------------------------------------------
// The provider

/// The CSV authentication backend: the accounts read from its file, when
/// they were read, and how often they are read again.
pub struct CsvAuthProvider {
    file_path: String,
    users: Vec<User>,
    last_reload: SysTime,
    reload_interval: u64,
}

impl CsvAuthProvider {
    /// The accounts held, in file order.
    pub closed spec fn spec_users(&self) -> Seq<UserView> {
        user_views(self.users@)
    }

    /// When the accounts were last read.
    pub closed spec fn spec_last_reload(&self) -> SysTime {
        self.last_reload
    }

    /// Seconds between readings of the file.
    pub closed spec fn spec_reload_interval(&self) -> u64 {
        self.reload_interval
    }

    /// The path of the file.
    pub closed spec fn spec_file_path(&self) -> Seq<char> {
        self.file_path@
    }

    /// A provider for the file at `file_path`, holding no accounts yet, last
    /// read at `now`.
    pub fn new(file_path: String, reload_interval: u64, now: SysTime) -> (res: Self)
        ensures
            res.spec_users() == Seq::<UserView>::empty(),
            res.spec_last_reload() == now,
            res.spec_reload_interval() == reload_interval,
            res.spec_file_path() == file_path@,
    {
        let res = CsvAuthProvider { file_path, users: Vec::new(), last_reload: now, reload_interval };
        assert(user_views(res.users@) =~= Seq::<UserView>::empty());
        res
    }

    /// The name of this backend.
    pub fn name(&self) -> (res: &'static str)
        ensures
            res@ == "csv"@,
    {
        "csv"
    }

    /// The path of the file.
    pub fn file_path(&self) -> (res: &str)
        ensures
            res@ == self.spec_file_path(),
    {
        self.file_path.as_str()
    }

    /// Whether the accounts must be read again at `now`.
    pub fn needs_reload(&self, now: SysTime) -> (res: bool)
        ensures
            res == reload_due(self.spec_last_reload(), self.spec_reload_interval(), now),
    {
        match now.secs_since(&self.last_reload) {
            None => true,
            Some(d) => d >= self.reload_interval,
        }
    }

    /// Replaces the accounts with those of the file's text, read at `now`.
    pub fn reload_from_text(&mut self, text: &str, now: SysTime)
        ensures
            final(self).spec_users() == parse_text(text@, now),
            final(self).spec_last_reload() == now,
            final(self).spec_reload_interval() == old(self).spec_reload_interval(),
            final(self).spec_file_path() == old(self).spec_file_path(),
    {
        self.users = parse_users_text(text, now);
        self.last_reload = now;
    }

    /// Authenticates `credentials` at `now`.
    pub fn authenticate(&self, credentials: &Credentials, now: SysTime) -> (res: Result<
        User,
        AuthError,
    >)
        ensures
            match (res, auth_outcome(
                self.spec_users(),
                credentials.username@,
                credentials.password@,
                now,
            )) {
                (Ok(u), Ok(v)) => u@ == v,
                (Err(e), Err(f)) => e == f,
                _ => false,
            },
    {
        let ghost us = self.spec_users();
        match find_index(&self.users, &credentials.username) {
            None => Err(AuthError::InvalidCredentials),
            Some(i) => {
                let user = &self.users[i];
                assert(us[i as int] == user@);
                if !user.enabled {
                    return Err(AuthError::AccountDisabled);
                }
                if let Some(expires_at) = user.expires_at {
                    if now.is_after(&expires_at) {
                        return Err(AuthError::AccountExpired);
                    }
                }
                if user.password_hash == credentials.password {
                    Ok(user.copy())
                } else {
                    Err(AuthError::InvalidCredentials)
                }
            },
        }
    }

    /// Stores `user`: it replaces the first account of its name, or is added
    /// last.
    pub fn update_user(&mut self, user: &User)
        ensures
            final(self).spec_users() == upserted(old(self).spec_users(), user@),
            final(self).spec_last_reload() == old(self).spec_last_reload(),
            final(self).spec_reload_interval() == old(self).spec_reload_interval(),
            final(self).spec_file_path() == old(self).spec_file_path(),
    {
        let ghost us = user_views(self.users@);
        match find_index(&self.users, &user.username) {
            Some(i) => {
                self.users.set(i, user.copy());
                assert(user_views(self.users@) =~= us.update(i as int, user@));
            },
            None => {
                self.users.push(user.copy());
                assert(user_views(self.users@) =~= us.push(user@));
            },
        }
    }

    /// Deletes the first account named `username`.
    pub fn delete_user(&mut self, username: &str) -> (res: Result<(), AuthError>)
        ensures
            match removed(old(self).spec_users(), username@) {
                Some(us) => res is Ok && final(self).spec_users() == us,
                None => (res matches Err(AuthError::BackendError(m)) && m@ == "User not found"@)
                    && final(self).spec_users() == old(self).spec_users(),
            },
            final(self).spec_last_reload() == old(self).spec_last_reload(),
            final(self).spec_reload_interval() == old(self).spec_reload_interval(),
            final(self).spec_file_path() == old(self).spec_file_path(),
    {
        let ghost us = user_views(self.users@);
        let name = String::from_str(username);
        match find_index(&self.users, &name) {
            Some(i) => {
                let _ = self.users.remove(i);
                assert(user_views(self.users@) =~= us.remove(i as int));
                Ok(())
            },
            None => Err(AuthError::BackendError(String::from_str("User not found"))),
        }
    }

    /// Copies of all accounts, in file order.
    pub fn list_users(&self) -> (res: Vec<User>)
        ensures
            user_views(res@) == self.spec_users(),
    {
        copy_users(&self.users)
    }

    /// Whether `session` is still valid at `now`.
    pub fn validate_session(&self, session: &Session, now: SysTime) -> (res: bool)
        ensures
            res == session_valid(self.spec_users(), session.user.username@, now),
    {
        let ghost us = self.spec_users();
        match find_index(&self.users, &session.user.username) {
            None => false,
            Some(i) => {
                let user = &self.users[i];
                assert(us[i as int] == user@);
                if !user.enabled {
                    return false;
                }
                if let Some(expires_at) = user.expires_at {
                    if now.is_after(&expires_at) {
                        return false;
                    }
                }
                true
            },
        }
    }

    /// The text of the file holding the accounts, written at `now`.
    pub fn file_contents(&self, now: SysTime) -> (res: String)
        ensures
            res@ == file_text(self.spec_users(), now),
    {
        users_text(&self.users, now)
    }
}

// ---------------------------------------------------------------------
// Laws

/// A character `c` occurs in neither `a` nor `b` exactly when it does not
/// occur in `a + b`.
proof fn lemma_free_concat(a: Seq<char>, b: Seq<char>, c: char)
    ensures
        free_of(a + b, c) == (free_of(a, c) && free_of(b, c)),
{
    if !free_of(a, c) {
        let k = choose|k: int| 0 <= k < a.len() && a[k] == c;
        assert((a + b)[k] == c);
    }
    if !free_of(b, c) {
        let k = choose|k: int| 0 <= k < b.len() && b[k] == c;
        assert((a + b)[a.len() + k] == c);
    }
    if !free_of(a + b, c) {
        let k = choose|k: int| 0 <= k < (a + b).len() && (a + b)[k] == c;
        if k < a.len() {
            assert(a[k] == c);
        } else {
            assert(b[k - a.len()] == c);
        }
    }
}

proof fn lemma_digits_free(s: Seq<char>, c: char)
    requires
        all_digits(s),
        !is_digit(c),
    ensures
        free_of(s, c),
{
    if !free_of(s, c) {
        let k = choose|k: int| 0 <= k < s.len() && s[k] == c;
        assert(is_digit(s[k]));
    }
}

proof fn lemma_single_free(x: char, c: char)
    requires
        x != c,
    ensures
        free_of(seq![x], c),
{
    if !free_of(seq![x], c) {
        let k = choose|k: int| 0 <= k < 1 && seq![x][k] == c;
    }
}

proof fn lemma_join_free(ps: Seq<Seq<char>>, sep: char, c: char)
    requires
        sep != c,
        forall|i: int| 0 <= i < ps.len() ==> free_of(#[trigger] ps[i], c),
    ensures
        free_of(join_with(ps, sep), c),
    decreases ps.len(),
{
    if ps.len() == 0 {
        assert(free_of(Seq::<char>::empty(), c));
    } else if ps.len() > 1 {
        let rest = ps.drop_first();
        assert forall|i: int| 0 <= i < rest.len() implies free_of(#[trigger] rest[i], c) by {
            assert(rest[i] == ps[i + 1]);
        }
        lemma_join_free(rest, sep, c);
        assert(free_of(ps[0], c));
        lemma_single_free(sep, c);
        lemma_free_concat(ps[0], seq![sep], c);
        lemma_free_concat(ps[0] + seq![sep], join_with(rest, sep), c);
    } else {
        assert(free_of(ps[0], c));
    }
}

/// An account that a line can hold and give back unchanged: no field
/// holds a comma, a newline or a carriage return, the IP addresses hold no
/// `;` and there is at least one, the bandwidth limit is set, the name
/// does not start a comment, and an expiry is a whole number of seconds
/// from `now`, not before it.
pub open spec fn csv_safe(u: UserView, now: SysTime) -> bool {
    &&& free_of(u.username, ',') && free_of(u.username, '\n') && free_of(u.username, '\r')
    &&& free_of(u.password_hash, ',') && free_of(u.password_hash, '\n') && free_of(
        u.password_hash,
        '\r',
    )
    &&& u.allowed_ips.len() >= 1
    &&& forall|i: int|
        0 <= i < u.allowed_ips.len() ==> {
            &&& free_of(#[trigger] u.allowed_ips[i], ',')
            &&& free_of(u.allowed_ips[i], ';')
            &&& free_of(u.allowed_ips[i], '\n')
            &&& free_of(u.allowed_ips[i], '\r')
        }
    &&& u.bandwidth_limit is Some
    &&& !(u.username.len() > 0 && u.username[0] == '#')
    &&& match u.expires_at {
        None => true,
        Some(t) => now.wf() && t.wf() && !t.before(now) && t.nanos == now.nanos,
    }
}

/// The seven fields of an account's line.
pub open spec fn line_fields(u: UserView, now: SysTime) -> Seq<Seq<char>> {
    seq![
        u.username,
        u.password_hash,
        enabled_field(u.enabled),
        expiry_field(u.expires_at, now),
        decimal(u.max_connections as nat),
        decimal(
            match u.bandwidth_limit {
                Some(b) => b as nat,
                None => 0,
            },
        ),
        join_with(u.allowed_ips, ';'),
    ]
}

proof fn lemma_line_is_join(u: UserView, now: SysTime)
    ensures
        user_line(u, now) == join_with(line_fields(u, now), ','),
{
    let f = line_fields(u, now);
    let s1 = seq![f[0]];
    assert(join_with(s1, ',') == f[0]);
    lemma_join_push(s1, f[1], ',');
    let s2 = s1.push(f[1]);
    lemma_join_push(s2, f[2], ',');
    let s3 = s2.push(f[2]);
    lemma_join_push(s3, f[3], ',');
    let s4 = s3.push(f[3]);
    lemma_join_push(s4, f[4], ',');
    let s5 = s4.push(f[4]);
    lemma_join_push(s5, f[5], ',');
    let s6 = s5.push(f[5]);
    lemma_join_push(s6, f[6], ',');
    let s7 = s6.push(f[6]);
    assert(s7 =~= f);
    assert(user_line(u, now) =~= join_with(s7, ','));
}

proof fn lemma_field_free(u: UserView, now: SysTime, c: char)
    requires
        csv_safe(u, now),
        c == ',' || c == '\n' || c == '\r',
    ensures
        forall|i: int| 0 <= i < 7 ==> free_of(#[trigger] line_fields(u, now)[i], c),
{
    let f = line_fields(u, now);
    lemma_single_free('1', c);
    lemma_single_free('0', c);
    assert(free_of(f[2], c));
    match u.expires_at {
        None => {
            assert(free_of(Seq::<char>::empty(), c));
        },
        Some(t) => {
            lemma_decimal_roundtrip(secs_until(t, now) as nat);
            lemma_digits_free(f[3], c);
        },
    }
    lemma_decimal_roundtrip(u.max_connections as nat);
    lemma_digits_free(f[4], c);
    lemma_decimal_roundtrip(f5_value(u));
    lemma_digits_free(f[5], c);
    assert(forall|i: int| 0 <= i < u.allowed_ips.len() ==> free_of(#[trigger] u.allowed_ips[i], c));
    lemma_join_free(u.allowed_ips, ';', c);
}

spec fn f5_value(u: UserView) -> nat {
    match u.bandwidth_limit {
        Some(b) => b as nat,
        None => 0,
    }
}

/// The line written for an account that a line can hold reads back as the
/// same account, when read at the time it was written.
pub proof fn lemma_user_line_roundtrip(u: UserView, now: SysTime)
    requires
        csv_safe(u, now),
    ensures
        parse_user_line(user_line(u, now), now) == Some(u),
{
    let f = line_fields(u, now);
    let line = user_line(u, now);
    lemma_line_is_join(u, now);
    lemma_field_free(u, now, ',');
    lemma_split_join(f, ',');
    assert(split_on(line, ',') == f);
    // not skipped
    let k = u.username.len() as int;
    assert(line[k] == ',');
    assert(!is_blank(line)) by {
        assert(!crate::text::is_white(line[k]));
    }
    if u.username.len() > 0 {
        assert(line[0] == u.username[0]);
    } else {
        assert(line[0] == ',');
    }
    // the fields read back
    let v = user_from_fields(f, now);
    assert(seq!['0'] != seq!['1']) by {
        assert(seq!['0'][0] != seq!['1'][0]);
    }
    assert(v.enabled == u.enabled);
    match u.expires_at {
        None => {
            assert(f[3] =~= Seq::<char>::empty());
        },
        Some(t) => {
            let d = secs_until(t, now);
            assert(d == t.secs - now.secs);
            lemma_decimal_roundtrip(d as nat);
            assert(parsed_u64(f[3]) == Some(d));
            assert(now.plus_secs(d) == Some(t));
        },
    }
    assert(v.expires_at == u.expires_at);
    lemma_decimal_roundtrip(u.max_connections as nat);
    assert(parsed_u32(f[4]) == Some(u.max_connections));
    lemma_decimal_roundtrip(f5_value(u));
    assert(parsed_u64(f[5]) == u.bandwidth_limit);
    assert(forall|i: int| 0 <= i < u.allowed_ips.len() ==> free_of(#[trigger] u.allowed_ips[i], ';'));
    lemma_split_join(u.allowed_ips, ';');
    assert(v.allowed_ips == u.allowed_ips);
    assert(v == u);
}

proof fn lemma_lines_text_join(ls: Seq<Seq<char>>)
    ensures
        lines_text(ls) == join_with(ls.push(Seq::empty()), '\n'),
    decreases ls.len(),
{
    if ls.len() == 0 {
        assert(ls.push(Seq::empty()) =~= seq![Seq::<char>::empty()]);
    } else {
        lemma_lines_text_join(ls.drop_first());
        assert(ls.push(Seq::empty()).drop_first() =~= ls.drop_first().push(Seq::empty()));
        assert(ls.push(Seq::empty())[0] == ls[0]);
    }
}

/// Lines free of newlines and carriage returns, each written with a
/// newline after it, are read back as the same lines.
pub proof fn lemma_text_lines_roundtrip(ls: Seq<Seq<char>>)
    requires
        forall|i: int| 0 <= i < ls.len() ==> free_of(#[trigger] ls[i], '\n') && free_of(ls[i], '\r'),
    ensures
        text_lines(lines_text(ls)) == ls,
{
    lemma_lines_text_join(ls);
    let ps = ls.push(Seq::empty());
    assert forall|i: int| 0 <= i < ps.len() implies free_of(#[trigger] ps[i], '\n') by {
        if i == ls.len() {
            assert(free_of(Seq::<char>::empty(), '\n'));
        } else {
            assert(ps[i] == ls[i]);
        }
    }
    lemma_split_join(ps, '\n');
    assert forall|i: int| 0 <= i < ls.len() implies strip_cr(#[trigger] ls[i]) == ls[i] by {
        if ls[i].len() > 0 && ls[i].last() == '\r' {
            assert(ls[i].contains('\r'));
        }
    }
    assert forall|i: int| 0 <= i < ls.len() implies #[trigger] text_lines(lines_text(ls))[i]
        == ls[i] by {
        assert(ps[i] == ls[i]);
    }
    assert(text_lines(lines_text(ls)) =~= ls);
}

proof fn lemma_parse_lines_of(users: Seq<UserView>, now: SysTime)
    requires
        forall|i: int| 0 <= i < users.len() ==> csv_safe(#[trigger] users[i], now),
    ensures
        parse_lines(users.map_values(|u: UserView| user_line(u, now)), now) == users,
    decreases users.len(),
{
    let ls = users.map_values(|u: UserView| user_line(u, now));
    if users.len() > 0 {
        let init = users.drop_last();
        assert forall|i: int| 0 <= i < init.len() implies csv_safe(#[trigger] init[i], now) by {
            assert(init[i] == users[i]);
        }
        lemma_parse_lines_of(init, now);
        assert(ls.drop_last() =~= init.map_values(|u: UserView| user_line(u, now)));
        lemma_user_line_roundtrip(users.last(), now);
        assert(ls.last() == user_line(users.last(), now));
        assert(init + seq![users.last()] =~= users);
    } else {
        assert(ls =~= Seq::<Seq<char>>::empty());
    }
}

/// What the provider writes to its file it reads back unchanged, for
/// accounts that a line can hold, with the clock unchanged.
pub proof fn lemma_file_roundtrip(users: Seq<UserView>, now: SysTime)
    requires
        forall|i: int| 0 <= i < users.len() ==> csv_safe(#[trigger] users[i], now),
    ensures
        parse_text(file_text(users, now), now) == users,
{
    let ls = users.map_values(|u: UserView| user_line(u, now));
    assert forall|i: int| 0 <= i < ls.len() implies free_of(#[trigger] ls[i], '\n') && free_of(
        ls[i],
        '\r',
    ) by {
        let u = users[i];
        assert(csv_safe(u, now));
        lemma_line_is_join(u, now);
        lemma_field_free(u, now, '\n');
        lemma_field_free(u, now, '\r');
        lemma_join_free(line_fields(u, now), ',', '\n');
        lemma_join_free(line_fields(u, now), ',', '\r');
    }
    lemma_text_lines_roundtrip(ls);
    lemma_parse_lines_of(users, now);
}

proof fn lemma_upserted_find(users: Seq<UserView>, u: UserView)
    ensures
        find_user(upserted(users, u), u.username) matches Some(k) && upserted(users, u)[k] == u,
{
    lemma_find_user(users, u.username);
    let us2 = upserted(users, u);
    match find_user(users, u.username) {
        Some(i) => {
            assert forall|j: int| 0 <= j < i implies #[trigger] us2[j].username
                != u.username by {
                assert(us2[j] == users[j]);
            }
            lemma_find_user_at(us2, u.username, i);
        },
        None => {
            let n = users.len() as int;
            assert forall|j: int| 0 <= j < n implies #[trigger] us2[j].username != u.username by {
                assert(us2[j] == users[j]);
            }
            lemma_find_user_at(us2, u.username, n);
        },
    }
}

/// After an account is stored, authenticating with its name and password
/// gives it back, where it is enabled and has not expired.
pub proof fn lemma_update_then_authenticate(users: Seq<UserView>, u: UserView, now: SysTime)
    requires
        u.enabled,
        !expired(u, now),
    ensures
        auth_outcome(upserted(users, u), u.username, u.password_hash, now) == Ok::<
            UserView,
            AuthError,
        >(u),
        session_valid(upserted(users, u), u.username, now),
{
    lemma_upserted_find(users, u);
}

/// Storing an account keeps the names distinct.
pub open spec fn unique_names(users: Seq<UserView>) -> bool {
    forall|i: int, j: int|
        0 <= i < users.len() && 0 <= j < users.len() && i != j ==> #[trigger] users[i].username
            != #[trigger] users[j].username
}

/// Storing an account keeps distinct names distinct.
pub proof fn lemma_upsert_keeps_unique(users: Seq<UserView>, u: UserView)
    requires
        unique_names(users),
    ensures
        unique_names(upserted(users, u)),
{
    lemma_find_user(users, u.username);
    let us2 = upserted(users, u);
    match find_user(users, u.username) {
        Some(i) => {
            assert forall|a: int, b: int|
                0 <= a < us2.len() && 0 <= b < us2.len() && a != b implies #[trigger] us2[a].username
                != #[trigger] us2[b].username by {
                if a == i {
                    assert(users[i].username == u.username);
                } else if b == i {
                    assert(users[i].username == u.username);
                }
            }
        },
        None => {
        },
    }
}

/// Where names are distinct, after an account is deleted no account of that
/// name is left, so a session of that user is no longer valid.
pub proof fn lemma_delete_removes(users: Seq<UserView>, name: Seq<char>, now: SysTime)
    requires
        unique_names(users),
    ensures
        removed(users, name) matches Some(us) ==> find_user(us, name) is None && !session_valid(
            us,
            name,
            now,
        ),
{
    lemma_find_user(users, name);
    if let Some(i) = find_user(users, name) {
        let us = users.remove(i);
        lemma_find_user(us, name);
        if let Some(k) = find_user(us, name) {
            if k < i {
                assert(us[k] == users[k]);
            } else {
                assert(us[k] == users[k + 1]);
                assert(users[k + 1].username != users[i].username);
            }
        }
    }
}


/// A line of just a user name and a password (neither holding a comma, the
/// name not starting a comment) is read as an enabled account with that
/// name and password, no expiry, the default limit of 10 connections, no
/// bandwidth limit and no address restriction.
pub proof fn lemma_two_field_line(name: Seq<char>, password: Seq<char>, now: SysTime)
    requires
        free_of(name, ','),
        free_of(password, ','),
        !(name.len() > 0 && name[0] == '#'),
    ensures
        parse_user_line(name + seq![','] + password, now) matches Some(u) && u.enabled
            && u.username == name && u.password_hash == password && u.expires_at is None
            && u.max_connections == 10 && u.bandwidth_limit is None && u.allowed_ips.len() == 0,
{
    let line = name + seq![','] + password;
    let ps = seq![name, password];
    assert(join_with(ps.drop_first(), ',') == password);
    assert(join_with(ps, ',') =~= line);
    lemma_split_join(ps, ',');
    assert(line[name.len() as int] == ',');
    assert(!is_white(line[name.len() as int]));
    if name.len() > 0 {
        assert(line[0] == name[0]);
    } else {
        assert(line[0] == ',');
    }
}

/// A session is valid exactly when its user could still log in with the
/// password stored for it: never for a user that does not exist, that is
/// disabled, or whose account has expired.
pub proof fn lemma_session_validity(users: Seq<UserView>, name: Seq<char>, now: SysTime)
    ensures
        find_user(users, name) is None ==> !session_valid(users, name, now),
        find_user(users, name) matches Some(i) && !users[i].enabled ==> !session_valid(
            users,
            name,
            now,
        ),
        find_user(users, name) matches Some(i) && users[i].expires_at matches Some(t) && t.before(
            now,
        ) ==> !session_valid(users, name, now),
        session_valid(users, name, now) <==> (find_user(users, name) matches Some(i) && auth_outcome(
            users,
            name,
            users[i].password_hash,
            now,
        ) is Ok),
{
}

} // verus!
