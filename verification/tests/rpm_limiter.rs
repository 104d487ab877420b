use kiro_provider::rpm_limiter::RpmLimiter;

#[test]
fn test_under_limit_zero_means_unlimited() {
    let mut l = RpmLimiter::new();
    for _ in 0..100 {
        l.record(1);
    }
    assert!(l.credential_under_limit(1, 0));
    assert!(l.global_under_limit(0));
}

#[test]
fn test_credential_limit_blocks_after_threshold() {
    let mut l = RpmLimiter::new();
    for _ in 0..8 {
        l.record(1);
    }
    assert_eq!(l.credential_rpm(1), 8);
    assert!(!l.credential_under_limit(1, 8));
    assert!(l.credential_under_limit(2, 8));
}

#[test]
fn test_global_limit() {
    let mut l = RpmLimiter::new();
    l.record(1);
    l.record(2);
    l.record(3);
    assert_eq!(l.global_rpm(), 3);
    assert!(l.global_under_limit(4));
    assert!(!l.global_under_limit(3));
}

#[test]
fn test_global_sums_all_credentials() {
    let mut l = RpmLimiter::new();
    for _ in 0..5 {
        l.record(1);
    }
    for _ in 0..5 {
        l.record(2);
    }
    assert_eq!(l.credential_rpm(1), 5);
    assert_eq!(l.credential_rpm(2), 5);
    assert_eq!(l.global_rpm(), 10);
}

const SECOND: u128 = 1_000_000_000;

#[test]
fn requests_leave_the_window_after_sixty_seconds() {
    let mut l = RpmLimiter::new();
    l.record_at(1, 10 * SECOND);
    l.record_at(1, 20 * SECOND);
    assert_eq!(l.credential_rpm_at(1, 20 * SECOND), 2);
    assert_eq!(l.credential_rpm_at(1, 70 * SECOND), 2);
    assert_eq!(l.credential_rpm_at(1, 70 * SECOND + 1), 1);
    assert_eq!(l.global_rpm_at(70 * SECOND), 2);
    assert_eq!(l.global_rpm_at(80 * SECOND), 1);
    assert_eq!(l.global_rpm_at(80 * SECOND + 1), 0);
    assert_eq!(l.credential_rpm_at(1, 200 * SECOND), 0);
}

#[test]
fn readings_do_not_change_later_counts() {
    let mut read_often = RpmLimiter::new();
    let mut read_once = RpmLimiter::new();
    for second in 0..200u128 {
        read_often.record_at(1 + (second % 3) as u64, second * SECOND);
        read_once.record_at(1 + (second % 3) as u64, second * SECOND);
        read_often.global_rpm_at(second * SECOND);
        read_often.credential_rpm_at(1, second * SECOND);
    }
    let now = 210 * SECOND;
    for credential in 1..4 {
        assert_eq!(
            read_often.credential_rpm_at(credential, now),
            read_once.credential_rpm_at(credential, now)
        );
    }
    assert_eq!(read_often.global_rpm_at(now), read_once.global_rpm_at(now));
    assert_eq!(read_once.global_rpm_at(now), 50);
}

#[test]
fn late_readings_of_the_clock_count_where_they_belong() {
    let mut l = RpmLimiter::new();
    l.record_at(1, 50 * SECOND);
    l.record_at(1, 10 * SECOND);
    assert_eq!(l.credential_rpm_at(1, 80 * SECOND), 1);
}

#[test]
fn global_is_the_sum_of_the_accounts() {
    let mut l = RpmLimiter::default();
    for i in 0..90u128 {
        l.record_at((i % 4) as u64, i * SECOND);
    }
    let now = 95 * SECOND;
    let sum: u64 = (0..4).map(|c| l.credential_rpm_at(c, now)).sum();
    assert_eq!(l.global_rpm_at(now), sum);
    assert_eq!(sum, 55);
}

#[test]
fn asking_first_keeps_the_limit() {
    let mut l = RpmLimiter::new();
    let mut admitted = 0;
    for i in 0..40u128 {
        if l.credential_under_limit_at(7, 8, i * SECOND) {
            l.record_at(7, i * SECOND);
            admitted += 1;
        }
    }
    assert_eq!(admitted, 8);
    assert!(!l.credential_under_limit_at(7, 8, 60 * SECOND));
    assert!(l.credential_under_limit_at(7, 8, 60 * SECOND + 1));
    assert!(!l.global_under_limit_at(7, 60 * SECOND + 1));
    assert!(l.global_under_limit_at(0, 0));
    assert!(l.credential_under_limit_at(7, 0, 0));
}

#[test]
fn the_clock_advances() {
    let mut l = RpmLimiter::new();
    assert_eq!(l.credential_rpm(9), 0);
    l.record(9);
    assert_eq!(l.credential_rpm(9), 1);
    // A reading far in the past of the limiter's clock would count the request as well; one far
    // in its future would not.
    assert_eq!(l.credential_rpm_at(9, u128::MAX), 0);
}

#[test]
fn old_requests_are_dropped_when_one_is_recorded() {
    let mut recorded = RpmLimiter::new();
    recorded.record_at(1, 0);
    recorded.record_at(2, 30 * SECOND);
    recorded.record_at(1, 100 * SECOND);
    // What was dropped does not come back, even for a reading of an earlier time.
    assert_eq!(recorded.credential_rpm_at(1, 10 * SECOND), 1);
    assert_eq!(recorded.credential_rpm_at(2, 10 * SECOND), 0);
    assert_eq!(recorded.global_rpm_at(10 * SECOND), 1);

    let mut kept = RpmLimiter::new();
    kept.record_at(1, 0);
    kept.record_at(2, 30 * SECOND);
    kept.record_at(1, 60 * SECOND);
    assert_eq!(kept.credential_rpm_at(1, 10 * SECOND), 2);
    assert_eq!(kept.credential_rpm_at(2, 10 * SECOND), 1);
    assert_eq!(kept.global_rpm_at(10 * SECOND), 3);
}

#[test]
fn limits_of_zero_still_clean_up() {
    let mut l = RpmLimiter::new();
    for second in 0..1000u128 {
        let now = second * SECOND;
        assert!(l.credential_under_limit_at((second % 7) as u64, 0, now));
        assert!(l.global_under_limit_at(0, now));
        l.record_at((second % 7) as u64, now);
    }
    assert_eq!(l.global_rpm_at(0), 61);
    let held: u64 = (0..7).map(|c| l.credential_rpm_at(c, 0)).sum();
    assert_eq!(held, 61);
}

#[test]
fn time_does_not_run_backwards() {
    let far = 1_000_000_000 * SECOND;
    let mut l = RpmLimiter::new();
    l.record_at(1, far);
    // The clock is far behind; the requests count as made at the last time.
    l.record(1);
    l.record(2);
    assert_eq!(l.credential_rpm(1), 2);
    assert_eq!(l.global_rpm(), 3);
    assert!(!l.credential_under_limit(1, 2));
    assert!(l.global_under_limit(4));
    assert_eq!(l.global_rpm_at(far + 60 * SECOND), 3);
    assert_eq!(l.global_rpm_at(far + 60 * SECOND + 1), 0);
    // From there the clock goes on.
    l.record(3);
    assert_eq!(l.global_rpm_at(far + 120 * SECOND + 1), 1);
}

#[test]
fn a_limit_of_zero_is_settled_without_a_time() {
    let mut l = RpmLimiter::new();
    l.record_at(1, 5 * SECOND);
    assert!(l.credential_under_limit_at(1, 0, 500 * SECOND));
    assert!(l.global_under_limit_at(0, 500 * SECOND));
    assert_eq!(l.credential_rpm(1), 1);
    assert_eq!(l.global_rpm(), 1);
}
