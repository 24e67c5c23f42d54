//! Limits on authentication attempts per key (a user name or an address)
//! within a sliding window of time.
//!
//! Times are nanoseconds of a monotonic clock; the window is a length of
//! time in nanoseconds.
use vstd::prelude::*;

verus! {

/// The attempts of one key: how many, when the first and the last were.
#[derive(Debug, Clone, Copy, PartialEq, Eq)]
pub struct RateLimitEntry {
    pub attempts: u32,
    pub first_attempt: u128,
    pub last_attempt: u128,
}

/// A key with its attempts.
#[derive(Debug)]
struct KeyedEntry {
    key: String,
    entry: RateLimitEntry,
}

/// `later.duration_since(earlier)`, which is zero where `earlier` is later.
pub open spec fn elapsed(later: u128, earlier: u128) -> u128 {
    if later >= earlier {
        (later - earlier) as u128
    } else {
        0
    }
}

/// Whether an entry's first attempt lies within the window before `now`.
pub open spec fn recent(e: RateLimitEntry, now: u128, window: u128) -> bool {
    elapsed(now, e.first_attempt) <= window
}

/// The entries whose first attempt lies within the window, in order.
pub open spec fn retain_recent(s: Seq<(Seq<char>, RateLimitEntry)>, now: u128, window: u128) -> Seq<
    (Seq<char>, RateLimitEntry),
>
    decreases s.len(),
{
    if s.len() == 0 {
        Seq::empty()
    } else {
        retain_recent(s.drop_last(), now, window) + if recent(s.last().1, now, window) {
            seq![s.last()]
        } else {
            Seq::empty()
        }
    }
}

/// The index of the entry of `key`.
pub open spec fn find_key(s: Seq<(Seq<char>, RateLimitEntry)>, key: Seq<char>) -> Option<int>
    decreases s.len(),
{
    if s.len() == 0 {
        None
    } else if s[0].0 == key {
        Some(0)
    } else {
        match find_key(s.drop_first(), key) {
            Some(i) => Some(i + 1),
            None => None,
        }
    }
}

/// Whether no key has two entries.
pub open spec fn distinct_keys(s: Seq<(Seq<char>, RateLimitEntry)>) -> bool {
    forall|i: int, j: int|
        0 <= i < s.len() && 0 <= j < s.len() && i != j ==> #[trigger] s[i].0 != #[trigger] s[j].0
}

/// The outcome of an attempt by `key` at `now`: whether it is allowed, and
/// the entries after it. Entries whose first attempt has left the window
/// are dropped; a key at its limit is refused; otherwise its count goes up
/// by one, or it starts a new entry.
pub open spec fn attempt_outcome(
    s: Seq<(Seq<char>, RateLimitEntry)>,
    key: Seq<char>,
    now: u128,
    window: u128,
    max_attempts: u32,
) -> (bool, Seq<(Seq<char>, RateLimitEntry)>) {
    let r = retain_recent(s, now, window);
    match find_key(r, key) {
        Some(i) => {
            let e = r[i].1;
            if elapsed(now, e.first_attempt) > window {
                (true, r.update(i, (key, RateLimitEntry { attempts: 1, first_attempt: now, last_attempt: now })))
            } else if e.attempts >= max_attempts {
                (false, r)
            } else {
                (
                    true,
                    r.update(
                        i,
                        (
                            key,
                            RateLimitEntry {
                                attempts: (e.attempts + 1) as u32,
                                first_attempt: e.first_attempt,
                                last_attempt: now,
                            },
                        ),
                    ),
                )
            }
        },
        None => (true, r.push((key, RateLimitEntry { attempts: 1, first_attempt: now, last_attempt: now }))),
    }
}

/// Limits authentication attempts per key.
pub struct RateLimiter {
    attempts: Vec<KeyedEntry>,
    max_attempts: u32,
    window_size: u128,
}

spec fn entry_views(v: Seq<KeyedEntry>) -> Seq<(Seq<char>, RateLimitEntry)> {
    v.map_values(|k: KeyedEntry| (k.key@, k.entry))
}

proof fn lemma_find_key(s: Seq<(Seq<char>, RateLimitEntry)>, key: Seq<char>)
    ensures
        match find_key(s, key) {
            Some(i) => 0 <= i < s.len() && s[i].0 == key && forall|j: int|
                0 <= j < i ==> #[trigger] s[j].0 != key,
            None => forall|j: int| 0 <= j < s.len() ==> #[trigger] s[j].0 != key,
        },
    decreases s.len(),
{
    if s.len() > 0 && s[0].0 != key {
        lemma_find_key(s.drop_first(), key);
        let rest = s.drop_first();
        assert forall|j: int| 0 < j < s.len() implies #[trigger] s[j].0 == rest[j - 1].0 by {}
    }
}

proof fn lemma_find_key_at(s: Seq<(Seq<char>, RateLimitEntry)>, key: Seq<char>, i: int)
    requires
        0 <= i < s.len(),
        s[i].0 == key,
        forall|j: int| 0 <= j < i ==> #[trigger] s[j].0 != key,
    ensures
        find_key(s, key) == Some(i),
{
    lemma_find_key(s, key);
    match find_key(s, key) {
        Some(k) => {
            if k < i {
                assert(s[k].0 != key);
            } else if k > i {
                assert(s[i].0 != key);
            }
        },
        None => {
            assert(s[i].0 != key);
        },
    }
}

proof fn lemma_retain_subset(s: Seq<(Seq<char>, RateLimitEntry)>, now: u128, window: u128)
    ensures
        forall|i: int|
            0 <= i < retain_recent(s, now, window).len() ==> s.contains(
                #[trigger] retain_recent(s, now, window)[i],
            ),
        forall|i: int|
            0 <= i < retain_recent(s, now, window).len() ==> recent(
                #[trigger] retain_recent(s, now, window)[i].1,
                now,
                window,
            ),
        distinct_keys(s) ==> distinct_keys(retain_recent(s, now, window)),
        forall|i: int| 0 <= i < s.len() && recent(#[trigger] s[i].1, now, window)
            ==> retain_recent(s, now, window).contains(s[i]),
    decreases s.len(),
{
    if s.len() > 0 {
        let init = s.drop_last();
        lemma_retain_subset(init, now, window);
        let ri = retain_recent(init, now, window);
        let r = retain_recent(s, now, window);
        assert forall|i: int| 0 <= i < r.len() implies s.contains(#[trigger] r[i]) by {
            if i < ri.len() {
                assert(r[i] == ri[i]);
                assert(init.contains(ri[i]));
                let k = choose|k: int| 0 <= k < init.len() && init[k] == ri[i];
                assert(s[k] == init[k]);
            } else {
                assert(r[i] == s.last());
                assert(s[s.len() - 1] == s.last());
            }
        }
        assert forall|i: int| 0 <= i < r.len() implies recent(#[trigger] r[i].1, now, window) by {
            if i < ri.len() {
                assert(r[i] == ri[i]);
            }
        }
        if distinct_keys(s) {
            assert forall|a: int, b: int| 0 <= a < init.len() && 0 <= b < init.len() && a != b
                implies #[trigger] init[a].0 != #[trigger] init[b].0 by {
                assert(init[a] == s[a] && init[b] == s[b]);
            }
            assert forall|a: int, b: int| 0 <= a < r.len() && 0 <= b < r.len() && a != b
                implies #[trigger] r[a].0 != #[trigger] r[b].0 by {
                if a < ri.len() && b < ri.len() {
                    assert(r[a] == ri[a] && r[b] == ri[b]);
                } else if a < ri.len() {
                    assert(r[a] == ri[a]);
                    assert(init.contains(ri[a]));
                    let k = choose|k: int| 0 <= k < init.len() && init[k] == ri[a];
                    assert(s[k] == init[k]);
                    assert(r[b] == s[s.len() - 1]);
                } else if b < ri.len() {
                    assert(r[b] == ri[b]);
                    assert(init.contains(ri[b]));
                    let k = choose|k: int| 0 <= k < init.len() && init[k] == ri[b];
                    assert(s[k] == init[k]);
                    assert(r[a] == s[s.len() - 1]);
                }
            }
        }
        assert forall|i: int| 0 <= i < s.len() && recent(#[trigger] s[i].1, now, window) implies r.contains(
            s[i],
        ) by {
            if i < init.len() {
                assert(s[i] == init[i]);
                assert(ri.contains(init[i]));
                let k = choose|k: int| 0 <= k < ri.len() && ri[k] == init[i];
                assert(r[k] == ri[k]);
            } else {
                assert(r[ri.len() as int] == s.last());
            }
        }
    }
}

fn find_key_index(v: &Vec<KeyedEntry>, key: &String) -> (res: Option<usize>)
    ensures
        match res {
            Some(f) => f < v@.len() && find_key(entry_views(v@), key@) == Some(f as int),
            None => find_key(entry_views(v@), key@) is None,
        },
{
    let ghost r = entry_views(v@);
    let mut j: usize = 0;
    while j < v.len()
        invariant
            j <= v@.len(),
            r == entry_views(v@),
            forall|k: int| 0 <= k < j ==> #[trigger] r[k].0 != key@,
        decreases v@.len() - j,
    {
        if v[j].key == *key {
            assert(r[j as int].0 == key@);
            proof {
                lemma_find_key_at(r, key@, j as int);
            }
            return Some(j);
        }
        assert(r[j as int].0 != key@);
        j = j + 1;
    }
    proof {
        lemma_find_key(r, key@);
        if let Some(k) = find_key(r, key@) {
            assert(r[k].0 != key@);
        }
    }
    None
}

impl RateLimiter {
    /// The entries, in order, with each key's text.
    pub closed spec fn spec_entries(&self) -> Seq<(Seq<char>, RateLimitEntry)> {
        entry_views(self.attempts@)
    }

    pub closed spec fn spec_max_attempts(&self) -> u32 {
        self.max_attempts
    }

    pub closed spec fn spec_window(&self) -> u128 {
        self.window_size
    }

    /// No key has two entries.
    pub open spec fn wf(&self) -> bool {
        distinct_keys(self.spec_entries())
    }

    /// A limiter allowing `max_attempts` attempts per key within a window
    /// of `window_size` nanoseconds, with no attempts yet.
    pub fn new(max_attempts: u32, window_size: u128) -> (res: Self)
        ensures
            res.wf(),
            res.spec_entries() == Seq::<(Seq<char>, RateLimitEntry)>::empty(),
            res.spec_max_attempts() == max_attempts,
            res.spec_window() == window_size,
    {
        let res = RateLimiter { attempts: Vec::new(), max_attempts, window_size };
        assert(entry_views(res.attempts@) =~= Seq::<(Seq<char>, RateLimitEntry)>::empty());
        res
    }

    /// Records an attempt by `key` at `now` and says whether it is allowed.
    pub fn check_rate_limit(&mut self, key: &str, now: u128) -> (res: bool)
        requires
            old(self).wf(),
        ensures
            final(self).wf(),
            (res, final(self).spec_entries()) == attempt_outcome(
                old(self).spec_entries(),
                key@,
                now,
                old(self).spec_window(),
                old(self).spec_max_attempts(),
            ),
            final(self).spec_max_attempts() == old(self).spec_max_attempts(),
            final(self).spec_window() == old(self).spec_window(),
    {
        let ghost s = entry_views(self.attempts@);
        // Clean up old entries
        let mut kept: Vec<KeyedEntry> = Vec::new();
        let mut i: usize = 0;
        while i < self.attempts.len()
            invariant
                i <= self.attempts@.len(),
                s == entry_views(self.attempts@),
                entry_views(kept@) == retain_recent(s.take(i as int), now, self.window_size),
            decreases self.attempts@.len() - i,
        {
            let e = self.attempts[i].entry;
            let first = e.first_attempt;
            let age: u128 = if now >= first {
                now - first
            } else {
                0
            };
            let ghost before = entry_views(kept@);
            assert(s.take(i + 1).drop_last() =~= s.take(i as int));
            assert(s.take(i + 1).last() == s[i as int]);
            if age <= self.window_size {
                let k = KeyedEntry { key: self.attempts[i].key.clone(), entry: e };
                kept.push(k);
                assert(entry_views(kept@) =~= before + seq![s[i as int]]);
            } else {
                assert(before + Seq::<(Seq<char>, RateLimitEntry)>::empty() =~= before);
            }
            i = i + 1;
        }
        assert(s.take(s.len() as int) =~= s);
        let ghost r = retain_recent(s, now, self.window_size);
        proof {
            lemma_retain_subset(s, now, self.window_size);
        }
        self.attempts = kept;
        // Look the key up
        let key_string = String::from_str(key);
        let found = find_key_index(&self.attempts, &key_string);
        match found {
            Some(f) => {
                proof {
                    lemma_find_key(r, key@);
                }
                assert(entry_views(self.attempts@)[f as int].0 == key@);
                let e = self.attempts[f].entry;
                let age: u128 = if now >= e.first_attempt {
                    now - e.first_attempt
                } else {
                    0
                };
                if age > self.window_size {
                    // Reset if window has passed
                    let fresh = RateLimitEntry { attempts: 1, first_attempt: now, last_attempt: now };
                    let k = KeyedEntry { key: self.attempts[f].key.clone(), entry: fresh };
                    self.attempts.set(f, k);
                    assert(entry_views(self.attempts@) =~= r.update(f as int, (key@, fresh)));
                } else if e.attempts >= self.max_attempts {
                    return false;
                } else {
                    let next = RateLimitEntry {
                        attempts: e.attempts + 1,
                        first_attempt: e.first_attempt,
                        last_attempt: now,
                    };
                    let k = KeyedEntry { key: self.attempts[f].key.clone(), entry: next };
                    self.attempts.set(f, k);
                    assert(entry_views(self.attempts@) =~= r.update(f as int, (key@, next)));
                }
                proof {
                    lemma_find_key(r, key@);
                    let r2 = entry_views(self.attempts@);
                    assert forall|a: int, b: int|
                        0 <= a < r2.len() && 0 <= b < r2.len() && a != b implies #[trigger] r2[a].0
                        != #[trigger] r2[b].0 by {
                        if a != f && b != f {
                            assert(r2[a] == r[a] && r2[b] == r[b]);
                        } else if a == f {
                            assert(r2[b] == r[b]);
                        } else {
                            assert(r2[a] == r[a]);
                        }
                    }
                }
            },
            None => {
                let fresh = RateLimitEntry { attempts: 1, first_attempt: now, last_attempt: now };
                self.attempts.push(KeyedEntry { key: String::from_str(key), entry: fresh });
                assert(entry_views(self.attempts@) =~= r.push((key@, fresh)));
                proof {
                    lemma_find_key(r, key@);
                    let r2 = entry_views(self.attempts@);
                    assert forall|a: int, b: int|
                        0 <= a < r2.len() && 0 <= b < r2.len() && a != b implies #[trigger] r2[a].0
                        != #[trigger] r2[b].0 by {
                        if a < r.len() && b < r.len() {
                            assert(r2[a] == r[a] && r2[b] == r[b]);
                        } else if a < r.len() {
                            assert(r2[a] == r[a]);
                        } else {
                            assert(r2[b] == r[b]);
                        }
                    }
                }
            },
        }
        true
    }
}

/// The attempts that `key` has made within the window before `now`.
pub open spec fn recent_attempts(
    s: Seq<(Seq<char>, RateLimitEntry)>,
    key: Seq<char>,
    now: u128,
    window: u128,
) -> nat {
    let r = retain_recent(s, now, window);
    match find_key(r, key) {
        Some(i) => r[i].1.attempts as nat,
        None => 0,
    }
}

proof fn lemma_retain_all_recent(s: Seq<(Seq<char>, RateLimitEntry)>, now: u128, window: u128)
    requires
        forall|i: int| 0 <= i < s.len() ==> recent(#[trigger] s[i].1, now, window),
    ensures
        retain_recent(s, now, window) == s,
    decreases s.len(),
{
    if s.len() > 0 {
        let init = s.drop_last();
        assert forall|i: int| 0 <= i < init.len() implies recent(#[trigger] init[i].1, now, window) by {
            assert(init[i] == s[i]);
        }
        lemma_retain_all_recent(init, now, window);
        assert(recent(s[s.len() - 1].1, now, window));
        assert(init + seq![s.last()] =~= s);
    }
}

/// An attempt is allowed exactly when the key has made fewer than
/// `max_attempts` attempts within the window; an allowed attempt counts
/// one more, and a refused one leaves the count as it was.
pub proof fn lemma_attempt_counting(
    s: Seq<(Seq<char>, RateLimitEntry)>,
    key: Seq<char>,
    now: u128,
    window: u128,
    max_attempts: u32,
)
    requires
        distinct_keys(s),
        max_attempts >= 1,
    ensures
        ({
            let (allowed, s2) = attempt_outcome(s, key, now, window, max_attempts);
            &&& allowed == (recent_attempts(s, key, now, window) < max_attempts)
            &&& allowed ==> recent_attempts(s2, key, now, window) == recent_attempts(
                s,
                key,
                now,
                window,
            ) + 1
            &&& !allowed ==> recent_attempts(s2, key, now, window) == recent_attempts(
                s,
                key,
                now,
                window,
            )
            &&& distinct_keys(s2)
        }),
{
    let r = retain_recent(s, now, window);
    lemma_retain_subset(s, now, window);
    lemma_find_key(r, key);
    let (allowed, s2) = attempt_outcome(s, key, now, window, max_attempts);
    assert forall|i: int| 0 <= i < s2.len() implies recent(#[trigger] s2[i].1, now, window) by {
        match find_key(r, key) {
            Some(f) => {
                if i != f {
                    assert(s2[i] == r[i]);
                }
            },
            None => {
                if i < r.len() {
                    assert(s2[i] == r[i]);
                }
            },
        }
    }
    lemma_retain_all_recent(s2, now, window);
    assert(distinct_keys(s2)) by {
        assert forall|a: int, b: int|
            0 <= a < s2.len() && 0 <= b < s2.len() && a != b implies #[trigger] s2[a].0
            != #[trigger] s2[b].0 by {
            match find_key(r, key) {
                Some(f) => {
                    if a != f && b != f {
                        assert(s2[a] == r[a] && s2[b] == r[b]);
                    } else if a == f {
                        assert(s2[b] == r[b]);
                    } else {
                        assert(s2[a] == r[a]);
                    }
                },
                None => {
                    if a < r.len() && b < r.len() {
                        assert(s2[a] == r[a] && s2[b] == r[b]);
                    } else if a < r.len() {
                        assert(s2[a] == r[a]);
                    } else {
                        assert(s2[b] == r[b]);
                    }
                },
            }
        }
    }
    match find_key(r, key) {
        Some(f) => {
            assert(recent(r[f].1, now, window));
            assert(!(elapsed(now, r[f].1.first_attempt) > window));
            assert(recent_attempts(s, key, now, window) == r[f].1.attempts);
            if allowed {
                assert forall|j: int| 0 <= j < f implies #[trigger] s2[j].0 != key by {
                    assert(s2[j] == r[j]);
                }
                lemma_find_key_at(s2, key, f);
                assert(s2[f].1.attempts == r[f].1.attempts + 1);
                assert(recent_attempts(s2, key, now, window) == s2[f].1.attempts);
            } else {
                assert(s2 == r);
                lemma_retain_all_recent(r, now, window);
            }
        },
        None => {
            let n = r.len() as int;
            assert forall|j: int| 0 <= j < n implies #[trigger] s2[j].0 != key by {
                assert(s2[j] == r[j]);
            }
            lemma_find_key_at(s2, key, n);
            assert(recent_attempts(s2, key, now, window) == 1);
        },
    }
}

} // verus!
