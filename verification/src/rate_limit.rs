//! Token buckets: the whole-token accounting of a bucket, the errors of
//! the request limiter, and the retry policy of waiting for tokens.
//!
//! How many tokens time has added to a bucket is reckoned by the caller
//! from the bucket's refill rate and the time elapsed; the bucket here
//! decides what those tokens and each request do to it.
use crate::error::ProxyError;
use crate::keyed::{
    key_index, keys_distinct, lemma_distinct_lookup, lemma_key_index, lemma_key_index_at,
    lemma_push_value, lemma_replace_value, value_of,
};
use crate::text::concat_str;
use vstd::prelude::*;

verus! {

/// A bucket of whole tokens, never holding more than its capacity.
#[derive(Debug, Clone, Copy)]
pub struct TokenBucket {
    capacity: u32,
    tokens: u32,
}

impl TokenBucket {
    pub closed spec fn spec_capacity(&self) -> u32 {
        self.capacity
    }

    pub closed spec fn spec_tokens(&self) -> u32 {
        self.tokens
    }

    /// The bucket holds no more than its capacity.
    pub open spec fn wf(&self) -> bool {
        self.spec_tokens() <= self.spec_capacity()
    }

    /// A full bucket of `capacity` tokens.
    pub fn new(capacity: u32) -> (res: Self)
        ensures
            res.wf(),
            res.spec_capacity() == capacity,
            res.spec_tokens() == capacity,
    {
        TokenBucket { capacity, tokens: capacity }
    }

    /// The tokens in the bucket.
    pub fn tokens(&self) -> (res: u32)
        ensures
            res == self.spec_tokens(),
    {
        self.tokens
    }

    /// The capacity of the bucket.
    pub fn capacity(&self) -> (res: u32)
        ensures
            res == self.spec_capacity(),
    {
        self.capacity
    }

    /// Adds the tokens that time has brought, up to the capacity; says
    /// whether any were brought (the caller then restarts its reckoning of
    /// time from now).
    pub fn refill_by(&mut self, new_tokens: u32) -> (res: bool)
        requires
            old(self).wf(),
            old(self).spec_tokens() + new_tokens <= u32::MAX,
        ensures
            final(self).wf(),
            res == (new_tokens > 0),
            final(self).spec_capacity() == old(self).spec_capacity(),
            final(self).spec_tokens() == if new_tokens > 0 {
                if old(self).spec_tokens() + new_tokens <= old(self).spec_capacity() {
                    (old(self).spec_tokens() + new_tokens) as u32
                } else {
                    old(self).spec_capacity()
                }
            } else {
                old(self).spec_tokens()
            },
    {
        if new_tokens > 0 {
            let sum = self.tokens + new_tokens;
            self.tokens = if sum <= self.capacity {
                sum
            } else {
                self.capacity
            };
            true
        } else {
            false
        }
    }

    /// Takes `tokens` tokens where the bucket holds that many.
    pub fn try_acquire(&mut self, tokens: u32) -> (res: bool)
        requires
            old(self).wf(),
        ensures
            final(self).wf(),
            res == (tokens <= old(self).spec_tokens()),
            final(self).spec_capacity() == old(self).spec_capacity(),
            final(self).spec_tokens() == if res {
                (old(self).spec_tokens() - tokens) as u32
            } else {
                old(self).spec_tokens()
            },
    {
        if self.tokens >= tokens {
            self.tokens = self.tokens - tokens;
            true
        } else {
            false
        }
    }
}

/// The error when the global bucket refuses a request.
pub fn global_limit_error() -> (res: ProxyError)
    ensures
        res matches ProxyError::RateLimit(m) && m@ == "Global rate limit exceeded"@,
{
    ProxyError::RateLimit(String::from_str("Global rate limit exceeded"))
}

/// The error when the bucket of `key` refuses a request.
pub fn key_limit_error(key: &str) -> (res: ProxyError)
    ensures
        res matches ProxyError::RateLimit(m) && m@ == "Rate limit exceeded for "@ + key@,
{
    ProxyError::RateLimit(concat_str("Rate limit exceeded for ", key))
}

/// How many times waiting for tokens tries to acquire them.
pub const MAX_WAIT_ATTEMPTS: u32 = 10;

/// What to do after an attempt to acquire tokens.
#[derive(Debug)]
pub enum WaitStep {
    /// Stop with this outcome.
    Finished(Result<(), ProxyError>),
    /// Sleep, then try again if attempts remain.
    Sleep,
}

/// Waiting for tokens: the attempts refused so far.
#[derive(Debug)]
pub struct TokenWait {
    attempts: u32,
}

impl TokenWait {
    pub closed spec fn spec_attempts(&self) -> u32 {
        self.attempts
    }

    /// No attempt made yet.
    pub fn new() -> (res: Self)
        ensures
            res.spec_attempts() == 0,
    {
        TokenWait { attempts: 0 }
    }

    /// Whether another attempt is made.
    pub fn should_try(&self) -> (res: bool)
        ensures
            res == (self.spec_attempts() < MAX_WAIT_ATTEMPTS),
    {
        self.attempts < MAX_WAIT_ATTEMPTS
    }

    /// Takes in the outcome of an attempt: success or another error ends
    /// the wait with it; a rate-limit refusal counts and asks to sleep.
    pub fn record(&mut self, result: Result<(), ProxyError>) -> (res: WaitStep)
        requires
            old(self).spec_attempts() < MAX_WAIT_ATTEMPTS,
        ensures
            match result {
                Ok(()) => res matches WaitStep::Finished(Ok(())) && final(self).spec_attempts()
                    == old(self).spec_attempts(),
                Err(ProxyError::RateLimit(_)) => res is Sleep && final(self).spec_attempts()
                    == old(self).spec_attempts() + 1,
                Err(e) => res == WaitStep::Finished(Err(e)) && final(self).spec_attempts()
                    == old(self).spec_attempts(),
            },
    {
        match result {
            Ok(()) => WaitStep::Finished(Ok(())),
            Err(ProxyError::RateLimit(m)) => {
                self.attempts = self.attempts + 1;
                WaitStep::Sleep
            },
            Err(e) => WaitStep::Finished(Err(e)),
        }
    }

    /// The error when all attempts were refused.
    pub fn exhausted_error(&self, key: &str) -> (res: ProxyError)
        ensures
            res matches ProxyError::RateLimit(m) && m@ == "Rate limit exceeded for "@ + key@
                + " after 10 attempts"@,
    {
        let mut m = concat_str("Rate limit exceeded for ", key);
        m.append(" after 10 attempts");
        ProxyError::RateLimit(m)
    }
}


/// Whether an attempt was refused by a rate limit, so that waiting goes on.
pub open spec fn is_refusal(r: Result<(), ProxyError>) -> bool {
    r matches Err(ProxyError::RateLimit(_))
}

/// Waiting for tokens after `attempts` refused attempts, where the next
/// attempts meet `outcomes` in order, as `TokenWait` steps through it: how
/// many attempts are made, and the outcome that ends the wait (`None` where
/// every attempt allowed was refused).
pub open spec fn wait_run(attempts: nat, outcomes: Seq<Result<(), ProxyError>>) -> (
    nat,
    Option<Result<(), ProxyError>>,
)
    decreases outcomes.len(),
{
    if attempts >= MAX_WAIT_ATTEMPTS || outcomes.len() == 0 {
        (0, None)
    } else if is_refusal(outcomes[0]) {
        let (n, r) = wait_run(attempts + 1, outcomes.drop_first());
        (n + 1, r)
    } else {
        (1, Some(outcomes[0]))
    }
}

proof fn lemma_wait_run_from(a: nat, outcomes: Seq<Result<(), ProxyError>>)
    requires
        a < MAX_WAIT_ATTEMPTS,
        outcomes.len() >= MAX_WAIT_ATTEMPTS - a,
    ensures
        ({
            let (n, r) = wait_run(a, outcomes);
            &&& 1 <= n <= MAX_WAIT_ATTEMPTS - a
            &&& r is None <==> forall|i: int|
                0 <= i < MAX_WAIT_ATTEMPTS - a ==> is_refusal(#[trigger] outcomes[i])
            &&& r is None ==> n == MAX_WAIT_ATTEMPTS - a
            &&& r matches Some(x) ==> x == outcomes[n - 1] && !is_refusal(x)
            &&& forall|i: int| 0 <= i < n - 1 ==> is_refusal(#[trigger] outcomes[i])
        }),
    decreases MAX_WAIT_ATTEMPTS - a,
{
    let rest = outcomes.drop_first();
    if is_refusal(outcomes[0]) {
        if a + 1 < MAX_WAIT_ATTEMPTS {
            lemma_wait_run_from(a + 1, rest);
            let (n, r) = wait_run(a + 1, rest);
            assert forall|i: int| 1 <= i < MAX_WAIT_ATTEMPTS - a implies #[trigger] outcomes[i]
                == rest[i - 1] by {}
            if r is None {
                assert forall|i: int| 0 <= i < MAX_WAIT_ATTEMPTS - a implies is_refusal(
                    #[trigger] outcomes[i],
                ) by {
                    if i > 0 {
                        assert(outcomes[i] == rest[i - 1]);
                        assert(is_refusal(rest[i - 1]));
                    }
                }
            } else {
                let k = n - 1;
                assert(!is_refusal(rest[k]));
                assert(outcomes[k + 1] == rest[k]);
            }
        } else {
            assert(wait_run(a + 1, rest) == (0nat, None::<Result<(), ProxyError>>));
        }
    }
}

/// Waiting for tokens makes between one and `MAX_WAIT_ATTEMPTS` attempts,
/// stopping at the first that is not refused by a rate limit: it ends with
/// `Ok` exactly when one of the attempts made succeeded, with the first
/// other error where that came first, and gives up (`None`, answered with
/// `exhausted_error`) only after `MAX_WAIT_ATTEMPTS` refusals.
pub proof fn lemma_wait_for_tokens(outcomes: Seq<Result<(), ProxyError>>)
    requires
        outcomes.len() >= MAX_WAIT_ATTEMPTS,
    ensures
        ({
            let (n, r) = wait_run(0, outcomes);
            &&& 1 <= n <= MAX_WAIT_ATTEMPTS
            &&& r is None <==> forall|i: int|
                0 <= i < MAX_WAIT_ATTEMPTS ==> is_refusal(#[trigger] outcomes[i])
            &&& r is None ==> n == MAX_WAIT_ATTEMPTS
            &&& (r == Some(Ok::<(), ProxyError>(()))) <==> exists|i: int|
                0 <= i < n && #[trigger] outcomes[i] == Ok::<(), ProxyError>(())
            &&& r matches Some(x) ==> x == outcomes[n - 1] && !is_refusal(x)
        }),
{
    lemma_wait_run_from(0, outcomes);
    let (n, r) = wait_run(0, outcomes);
    if exists|i: int| 0 <= i < n && #[trigger] outcomes[i] == Ok::<(), ProxyError>(()) {
        let i = choose|i: int| 0 <= i < n && #[trigger] outcomes[i] == Ok::<(), ProxyError>(());
        if i < n - 1 {
            assert(is_refusal(outcomes[i]));
        } else if r is None {
            assert(is_refusal(outcomes[i]));
        }
    }
    if r == Some(Ok::<(), ProxyError>(())) {
        assert(outcomes[n - 1] == Ok::<(), ProxyError>(()));
    }
}

/// The tokens of a bucket holding `tokens` of `capacity` after time has
/// brought `n` more.
pub open spec fn tokens_after_refill(tokens: u32, capacity: u32, n: u32) -> u32 {
    if n > 0 {
        if tokens + n <= capacity {
            (tokens + n) as u32
        } else {
            capacity
        }
    } else {
        tokens
    }
}

/// What a request for tokens met.
#[derive(Debug, Clone, Copy, PartialEq, Eq)]
pub enum Admission {
    /// Both the global bucket and the key's bucket gave the tokens.
    Granted,
    /// The global bucket had too few; the key's bucket was not touched.
    RefusedGlobally,
    /// The global bucket gave the tokens, the key's bucket had too few.
    RefusedForKey,
}

/// A key with its bucket.
#[derive(Debug)]
struct BucketEntry {
    key: String,
    bucket: TokenBucket,
}

spec fn bucket_views(v: Seq<BucketEntry>) -> Seq<(Seq<char>, TokenBucket)> {
    v.map_values(|e: BucketEntry| (e.key@, e.bucket))
}

/// Limits requests with a global bucket and a bucket per key. A key
/// without a bucket of its own gets a full one of the default capacity on
/// its first request. How many tokens time has brought to each bucket is
/// reckoned by the caller from its refill rate.
pub struct RateLimiter {
    buckets: Vec<BucketEntry>,
    global_bucket: TokenBucket,
    default_user_capacity: u32,
}

fn bucket_index(v: &Vec<BucketEntry>, key: &str) -> (res: Option<usize>)
    ensures
        match res {
            Some(i) => i < v@.len() && key_index(bucket_views(v@), key@) == Some(i as int),
            None => key_index(bucket_views(v@), key@) is None,
        },
{
    let ghost r = bucket_views(v@);
    let wanted = String::from_str(key);
    let mut j: usize = 0;
    while j < v.len()
        invariant
            j <= v@.len(),
            r == bucket_views(v@),
            wanted@ == key@,
            forall|k: int| 0 <= k < j ==> #[trigger] r[k].0 != key@,
        decreases v@.len() - j,
    {
        if v[j].key == wanted {
            assert(r[j as int].0 == key@);
            proof {
                lemma_key_index_at(r, key@, j as int);
            }
            return Some(j);
        }
        assert(r[j as int].0 != key@);
        j = j + 1;
    }
    proof {
        lemma_key_index(r, key@);
        if let Some(k) = key_index(r, key@) {
            assert(r[k].0 != key@);
        }
    }
    None
}

impl RateLimiter {
    /// The bucket of `key`, where it has one.
    pub closed spec fn spec_bucket(&self, key: Seq<char>) -> Option<TokenBucket> {
        value_of(bucket_views(self.buckets@), key)
    }

    pub closed spec fn spec_global(&self) -> TokenBucket {
        self.global_bucket
    }

    pub closed spec fn spec_default_capacity(&self) -> u32 {
        self.default_user_capacity
    }

    /// No key has two buckets, and no bucket holds more than its capacity.
    pub closed spec fn wf(&self) -> bool {
        &&& keys_distinct(bucket_views(self.buckets@))
        &&& self.global_bucket.wf()
        &&& forall|i: int|
            0 <= i < self.buckets@.len() ==> (#[trigger] self.buckets@[i]).bucket.wf()
    }

    /// In a well-formed limiter every bucket, the global one and each key's,
    /// holds no more than its capacity.
    pub proof fn lemma_buckets_within_capacity(&self, key: Seq<char>)
        requires
            self.wf(),
        ensures
            self.spec_global().wf(),
            self.spec_bucket(key) matches Some(b) ==> b.wf(),
    {
        let s = bucket_views(self.buckets@);
        crate::keyed::lemma_key_index(s, key);
        if let Some(i) = key_index(s, key) {
            assert(s[i].1 == self.buckets@[i].bucket);
        }
    }

    /// The tokens that the bucket of `key` holds before a request that
    /// time has brought `n` tokens to: its own, or a full default bucket.
    pub open spec fn key_tokens_before(&self, key: Seq<char>) -> u32 {
        match self.spec_bucket(key) {
            Some(b) => b.spec_tokens(),
            None => self.spec_default_capacity(),
        }
    }

    /// The capacity of the bucket that serves `key`.
    pub open spec fn key_capacity(&self, key: Seq<char>) -> u32 {
        match self.spec_bucket(key) {
            Some(b) => b.spec_capacity(),
            None => self.spec_default_capacity(),
        }
    }

    /// What a request for `tokens` tokens for `key` meets, where time has
    /// brought `global_refill` tokens to the global bucket and `key_refill`
    /// to the key's: the global bucket is asked first, then the key's.
    pub open spec fn admission_of(
        &self,
        key: Seq<char>,
        tokens: u32,
        global_refill: u32,
        key_refill: u32,
    ) -> Admission {
        if tokens > tokens_after_refill(
            self.spec_global().spec_tokens(),
            self.spec_global().spec_capacity(),
            global_refill,
        ) {
            Admission::RefusedGlobally
        } else if tokens <= tokens_after_refill(
            self.key_tokens_before(key),
            self.key_capacity(key),
            key_refill,
        ) {
            Admission::Granted
        } else {
            Admission::RefusedForKey
        }
    }

    /// The limiter `after` a request as `admission_of` describes, made on
    /// `self`: the global bucket refilled and, unless it refused, less the
    /// tokens (which stay taken where the key's bucket refuses); where the
    /// global bucket gave them, the key's bucket (its own, or a new full
    /// default one, which then stays) refilled and, where it had enough,
    /// less the tokens; every other key's bucket unchanged.
    pub open spec fn state_after_request(
        &self,
        after: RateLimiter,
        key: Seq<char>,
        tokens: u32,
        global_refill: u32,
        key_refill: u32,
    ) -> bool {
        let g = tokens_after_refill(
            self.spec_global().spec_tokens(),
            self.spec_global().spec_capacity(),
            global_refill,
        );
        let kt = tokens_after_refill(self.key_tokens_before(key), self.key_capacity(key), key_refill);
        &&& after.spec_default_capacity() == self.spec_default_capacity()
        &&& after.spec_global().spec_capacity() == self.spec_global().spec_capacity()
        &&& if tokens > g {
            &&& after.spec_global().spec_tokens() == g
            &&& forall|k: Seq<char>| #[trigger] after.spec_bucket(k) == self.spec_bucket(k)
        } else {
            &&& after.spec_global().spec_tokens() == g - tokens
            &&& after.spec_bucket(key) matches Some(b) && b.spec_capacity() == self.key_capacity(key)
                && b.spec_tokens() == if tokens <= kt {
                (kt - tokens) as u32
            } else {
                kt
            }
            &&& forall|k: Seq<char>| k != key ==> #[trigger] after.spec_bucket(k) == self.spec_bucket(k)
        }
    }

    /// A limiter whose global bucket holds `global_capacity` tokens, full,
    /// and which gives each key a bucket of `default_user_capacity`.
    pub fn new(global_capacity: u32, default_user_capacity: u32) -> (res: Self)
        ensures
            res.wf(),
            res.spec_global().spec_capacity() == global_capacity,
            res.spec_global().spec_tokens() == global_capacity,
            res.spec_default_capacity() == default_user_capacity,
            forall|k: Seq<char>| #[trigger] res.spec_bucket(k) is None,
    {
        let res = RateLimiter {
            buckets: Vec::new(),
            global_bucket: TokenBucket::new(global_capacity),
            default_user_capacity,
        };
        assert(bucket_views(res.buckets@) =~= Seq::<(Seq<char>, TokenBucket)>::empty());
        res
    }

    /// The global bucket.
    pub fn global(&self) -> (res: TokenBucket)
        ensures
            res == self.spec_global(),
    {
        self.global_bucket
    }

    /// The capacity of the bucket that a key without one gets.
    pub fn default_capacity(&self) -> (res: u32)
        ensures
            res == self.spec_default_capacity(),
    {
        self.default_user_capacity
    }

    /// The bucket of `key`, where it has one.
    pub fn bucket(&self, key: &str) -> (res: Option<TokenBucket>)
        requires
            self.wf(),
        ensures
            res == self.spec_bucket(key@),
    {
        match bucket_index(&self.buckets, key) {
            Some(i) => {
                assert(bucket_views(self.buckets@)[i as int].1 == self.buckets@[i as int].bucket);
                Some(self.buckets[i].bucket)
            },
            None => None,
        }
    }

    /// Gives `key` a full bucket of `capacity` tokens, in place of any it
    /// had; the other keys keep theirs.
    pub fn add_limit(&mut self, key: &str, capacity: u32)
        requires
            old(self).wf(),
        ensures
            final(self).wf(),
            final(self).spec_bucket(key@) matches Some(b) && b.spec_capacity() == capacity
                && b.spec_tokens() == capacity,
            forall|k: Seq<char>|
                k != key@ ==> #[trigger] final(self).spec_bucket(k) == old(self).spec_bucket(k),
            final(self).spec_global() == old(self).spec_global(),
            final(self).spec_default_capacity() == old(self).spec_default_capacity(),
    {
        let ghost s = bucket_views(self.buckets@);
        let fresh = TokenBucket::new(capacity);
        match bucket_index(&self.buckets, key) {
            Some(i) => {
                let k = self.buckets[i].key.clone();
                assert(s[i as int].0 == key@) by {
                    lemma_key_index(s, key@);
                }
                self.buckets.set(i, BucketEntry { key: k, bucket: fresh });
                assert(bucket_views(self.buckets@) =~= s.update(i as int, (s[i as int].0, fresh)));
                proof {
                    lemma_replace_value(s, i as int, fresh);
                }
            },
            None => {
                self.buckets.push(BucketEntry { key: String::from_str(key), bucket: fresh });
                assert(bucket_views(self.buckets@) =~= s.push((key@, fresh)));
                proof {
                    lemma_push_value(s, key@, fresh);
                }
            },
        }
    }

    /// Takes the bucket of `key` away; the key falls back to the default
    /// on its next request, and the other keys keep theirs.
    pub fn remove_limit(&mut self, key: &str)
        requires
            old(self).wf(),
        ensures
            final(self).wf(),
            final(self).spec_bucket(key@) is None,
            forall|k: Seq<char>|
                k != key@ ==> #[trigger] final(self).spec_bucket(k) == old(self).spec_bucket(k),
            final(self).spec_global() == old(self).spec_global(),
            final(self).spec_default_capacity() == old(self).spec_default_capacity(),
    {
        let ghost s = bucket_views(self.buckets@);
        if let Some(i) = bucket_index(&self.buckets, key) {
            assert(s[i as int].0 == key@) by {
                lemma_key_index(s, key@);
            }
            let ghost before = self.buckets@;
            self.buckets.remove(i);
            assert(bucket_views(self.buckets@) =~= s.remove(i as int));
            proof {
                crate::keyed::lemma_remove_value(s, i as int);
                assert forall|j: int| 0 <= j < self.buckets@.len() implies (
                #[trigger] self.buckets@[j]).bucket.wf() by {
                    if j < i {
                        assert(self.buckets@[j] == before[j]);
                    } else {
                        assert(self.buckets@[j] == before[j + 1]);
                    }
                }
            }
        }
    }

    /// Asks for `tokens` tokens for `key`, where time has brought
    /// `global_refill` tokens to the global bucket and `key_refill` to the
    /// key's. The global bucket is refilled and asked first; where it
    /// refuses, the key's bucket is not touched. Otherwise the key's bucket
    /// (a new full default one where it had none, which then stays) is
    /// refilled and asked; tokens that the global bucket gave stay taken
    /// even where the key's bucket refuses.
    pub fn admit_request(&mut self, key: &str, tokens: u32, global_refill: u32, key_refill: u32) -> (res:
        Admission)
        requires
            old(self).wf(),
            old(self).spec_global().spec_tokens() + global_refill <= u32::MAX,
            old(self).key_tokens_before(key@) + key_refill <= u32::MAX,
        ensures
            final(self).wf(),
            res == old(self).admission_of(key@, tokens, global_refill, key_refill),
            old(self).state_after_request(*final(self), key@, tokens, global_refill, key_refill),
    {
        let ghost s = bucket_views(self.buckets@);
        self.global_bucket.refill_by(global_refill);
        if !self.global_bucket.try_acquire(tokens) {
            return Admission::RefusedGlobally;
        }
        match bucket_index(&self.buckets, key) {
            Some(i) => {
                proof {
                    lemma_key_index(s, key@);
                    assert(s[i as int].1 == self.buckets@[i as int].bucket);
                }
                let mut b = self.buckets[i].bucket;
                b.refill_by(key_refill);
                let ok = b.try_acquire(tokens);
                let k = self.buckets[i].key.clone();
                let ghost before = self.buckets@;
                self.buckets.set(i, BucketEntry { key: k, bucket: b });
                assert(bucket_views(self.buckets@) =~= s.update(i as int, (s[i as int].0, b)));
                proof {
                    lemma_replace_value(s, i as int, b);
                    assert forall|j: int| 0 <= j < self.buckets@.len() implies (
                    #[trigger] self.buckets@[j]).bucket.wf() by {
                        if j != i {
                            assert(self.buckets@[j] == before[j]);
                        }
                    }
                }
                if ok {
                    Admission::Granted
                } else {
                    Admission::RefusedForKey
                }
            },
            None => {
                let mut b = TokenBucket::new(self.default_user_capacity);
                b.refill_by(key_refill);
                let ok = b.try_acquire(tokens);
                let ghost before = self.buckets@;
                self.buckets.push(BucketEntry { key: String::from_str(key), bucket: b });
                assert(bucket_views(self.buckets@) =~= s.push((key@, b)));
                proof {
                    lemma_push_value(s, key@, b);
                    assert forall|j: int| 0 <= j < self.buckets@.len() implies (
                    #[trigger] self.buckets@[j]).bucket.wf() by {
                        if j < before.len() {
                            assert(self.buckets@[j] == before[j]);
                        }
                    }
                }
                if ok {
                    Admission::Granted
                } else {
                    Admission::RefusedForKey
                }
            },
        }
    }

    /// Asks for `tokens` tokens for `key` as `admit_request` does, and answers with
    /// the error of the bucket that refused.
    pub fn acquire(&mut self, key: &str, tokens: u32, global_refill: u32, key_refill: u32) -> (res:
        Result<(), ProxyError>)
        requires
            old(self).wf(),
            old(self).spec_global().spec_tokens() + global_refill <= u32::MAX,
            old(self).key_tokens_before(key@) + key_refill <= u32::MAX,
        ensures
            final(self).wf(),
            admission_result_holds(
                res,
                key@,
                old(self).admission_of(key@, tokens, global_refill, key_refill),
            ),
            old(self).state_after_request(*final(self), key@, tokens, global_refill, key_refill),
    {
        let a = self.admit_request(key, tokens, global_refill, key_refill);
        admission_result(a, key)
    }
}

/// The answer to a request that met `a`.
pub open spec fn admission_result_holds(
    res: Result<(), ProxyError>,
    key: Seq<char>,
    a: Admission,
) -> bool {
    match a {
        Admission::Granted => res is Ok,
        Admission::RefusedGlobally => res matches Err(ProxyError::RateLimit(m)) && m@
            == "Global rate limit exceeded"@,
        Admission::RefusedForKey => res matches Err(ProxyError::RateLimit(m)) && m@
            == "Rate limit exceeded for "@ + key,
    }
}

/// The answer to a request for `key` that met `a`: done, or the error of
/// the bucket that refused.
pub fn admission_result(a: Admission, key: &str) -> (res: Result<(), ProxyError>)
    ensures
        admission_result_holds(res, key@, a),
{
    match a {
        Admission::Granted => Ok(()),
        Admission::RefusedGlobally => Err(global_limit_error()),
        Admission::RefusedForKey => Err(key_limit_error(key)),
    }
}

} // verus!
