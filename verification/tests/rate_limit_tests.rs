use alpha_proxy::error::ProxyError;
use alpha_proxy::rate_limit::{
    admission_result, Admission, RateLimiter, TokenBucket, TokenWait, WaitStep,
};

#[test]
fn test_token_bucket() {
    let mut bucket = TokenBucket::new(10); // refilled by the caller, 2 tokens per second
    assert!(bucket.try_acquire(5));
    assert_eq!(bucket.tokens(), 5);
    assert!(!bucket.try_acquire(6));
    assert_eq!(bucket.tokens(), 5);
}

#[test]
fn token_bucket_refill_caps_at_capacity() {
    let mut bucket = TokenBucket::new(10);
    assert!(bucket.try_acquire(8));
    assert_eq!(bucket.tokens(), 2);
    assert!(bucket.refill_by(2));
    assert_eq!(bucket.tokens(), 4);
    assert!(!bucket.refill_by(0));
    assert_eq!(bucket.tokens(), 4);
    assert!(bucket.refill_by(100));
    assert_eq!(bucket.tokens(), 10);
    assert_eq!(bucket.capacity(), 10);
}

#[test]
fn limiter_global_then_user() {
    let mut limiter = RateLimiter::new(20, 10);
    assert!(limiter.acquire("test", 5, 0, 0).is_ok());
    assert!(limiter.acquire("test", 5, 0, 0).is_ok());
    // 10 of 20 global tokens are used; 15 more is too many.
    match limiter.acquire("test", 15, 0, 0) {
        Err(ProxyError::RateLimit(m)) => assert_eq!(m, "Global rate limit exceeded"),
        other => panic!("unexpected {:?}", other),
    }

    let mut limiter = RateLimiter::new(100, 5);
    assert!(limiter.acquire("user1", 3, 0, 0).is_ok());
    match limiter.acquire("user1", 3, 0, 0) {
        Err(ProxyError::RateLimit(m)) => assert_eq!(m, "Rate limit exceeded for user1"),
        other => panic!("unexpected {:?}", other),
    }
    assert!(limiter.acquire("user2", 3, 0, 0).is_ok());
    // The refused request still took its tokens from the global bucket.
    assert_eq!(limiter.global().tokens(), 100 - 9);
}

#[test]
fn limiter_custom_limits() {
    let mut limiter = RateLimiter::new(100, 10);
    limiter.add_limit("premium_user", 20);
    assert!(limiter.acquire("premium_user", 15, 0, 0).is_ok());
    assert!(limiter.acquire("premium_user", 10, 0, 0).is_err());
    assert!(limiter.acquire("regular_user", 8, 0, 0).is_ok());
    assert!(limiter.acquire("regular_user", 5, 0, 0).is_err());

    let b = limiter.bucket("premium_user").unwrap();
    assert_eq!(b.capacity(), 20);
    assert_eq!(b.tokens(), 5);
    limiter.remove_limit("premium_user");
    assert!(limiter.bucket("premium_user").is_none());
    // Back to a default bucket of 10.
    assert_eq!(limiter.admit_request("premium_user", 11, 0, 0), Admission::RefusedForKey);
    assert_eq!(limiter.bucket("premium_user").unwrap().capacity(), 10);
}

#[test]
fn limiter_refills_before_asking() {
    let mut limiter = RateLimiter::new(10, 10);
    assert_eq!(limiter.admit_request("k", 10, 0, 0), Admission::Granted);
    assert_eq!(limiter.admit_request("k", 1, 0, 0), Admission::RefusedGlobally);
    assert_eq!(limiter.admit_request("k", 1, 1, 0), Admission::RefusedForKey);
    assert_eq!(limiter.admit_request("k", 1, 1, 1), Admission::Granted);
}

#[test]
fn admission_errors() {
    assert!(admission_result(Admission::Granted, "a").is_ok());
    match admission_result(Admission::RefusedForKey, "bob") {
        Err(ProxyError::RateLimit(m)) => assert_eq!(m, "Rate limit exceeded for bob"),
        other => panic!("unexpected {:?}", other),
    }
}

#[test]
fn waiting_gives_up_after_ten_refusals() {
    let mut wait = TokenWait::new();
    let mut sleeps = 0;
    while wait.should_try() {
        match wait.record(Err(ProxyError::RateLimit("busy".to_string()))) {
            WaitStep::Sleep => sleeps += 1,
            WaitStep::Finished(r) => panic!("unexpected finish {:?}", r),
        }
    }
    assert_eq!(sleeps, 10);
    match wait.exhausted_error("test") {
        ProxyError::RateLimit(m) => assert_eq!(m, "Rate limit exceeded for test after 10 attempts"),
        other => panic!("unexpected {:?}", other),
    }

    let mut wait = TokenWait::new();
    assert!(matches!(wait.record(Ok(())), WaitStep::Finished(Ok(()))));
    assert!(matches!(
        wait.record(Err(ProxyError::Protocol("x".to_string()))),
        WaitStep::Finished(Err(ProxyError::Protocol(_)))
    ));
}
