use aardbin::ratelimit::{IpKey, LoginRateLimiter};

#[test]
fn locks_out_after_five_failures() {
    let mut rl = LoginRateLimiter::new();
    let ip = IpKey::V4(0x01020304);
    for _ in 0..5 {
        assert!(rl.check(ip).is_ok());
        rl.record_failure(ip);
    }
    let err = rl.check(ip).unwrap_err();
    assert!(err / 1_000_000_000 > 0);
    assert!(err / 1_000_000_000 <= 300);
}

#[test]
fn success_clears_counter() {
    let mut rl = LoginRateLimiter::new();
    let ip = IpKey::V4(0x01020304);
    for _ in 0..5 {
        rl.record_failure(ip);
    }
    rl.record_success(ip);
    assert!(rl.check(ip).is_ok());
}

#[test]
fn ips_are_independent() {
    let mut rl = LoginRateLimiter::new();
    let a = IpKey::V4(0x01010101);
    let b = IpKey::V4(0x02020202);
    for _ in 0..5 {
        rl.record_failure(a);
    }
    assert!(rl.check(a).is_err());
    assert!(rl.check(b).is_ok());
}

#[test]
fn window_expires_at_explicit_times() {
    let mut rl = LoginRateLimiter::new();
    let ip = IpKey::V6(1);
    let s = 1_000_000_000u64;
    for i in 0..5u64 {
        rl.record_failure_at(ip, 10 * s + i * s);
    }
    // oldest failure at 10 s: locked until 310 s
    assert_eq!(rl.check_at(ip, 20 * s), Err(290 * s));
    // less than a second left still reports one second
    assert_eq!(rl.check_at(ip, 309 * s + 500_000_000), Err(s));
    // the oldest failure has left the window
    assert_eq!(rl.check_at(ip, 310 * s), Ok(()));
    // four failures are not enough
    let mut rl2 = LoginRateLimiter::new();
    for i in 0..4u64 {
        rl2.record_failure_at(ip, i);
    }
    assert_eq!(rl2.check_at(ip, 5), Ok(()));
}
