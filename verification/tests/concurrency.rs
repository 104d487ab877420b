use kiro_provider::concurrency::{
    scaled_limit, ConcurrencyController, ConcurrencyError, ConcurrencyMonitor, WaitingGuard,
    MAX_PERMITS,
};
use kiro_provider::settings::{
    concurrent_per_account, first_byte_timeout_secs, initial_concurrency_config,
};

#[test]
fn test_initial_concurrency_config() {
    assert_eq!(initial_concurrency_config(1, None, None), (5, false, 5));
    assert_eq!(initial_concurrency_config(3, None, None), (15, false, 5));
    assert_eq!(initial_concurrency_config(0, None, None), (5, false, 5));

    let per = Some("4");
    assert_eq!(initial_concurrency_config(1, per, None), (4, false, 4));
    assert_eq!(initial_concurrency_config(2, per, None), (8, false, 4));

    assert_eq!(initial_concurrency_config(10, per, Some("6")), (6, true, 4));
    assert_eq!(initial_concurrency_config(1, per, Some("6")), (6, true, 4));

    assert_eq!(initial_concurrency_config(2, per, Some("0")), (8, false, 4));
    assert_eq!(initial_concurrency_config(2, per, Some("abc")), (8, false, 4));
}

#[test]
fn test_concurrency_controller_resize() {
    let mut ctrl = ConcurrencyController::new(10, 5, false);
    assert_eq!(ctrl.max(), 10);
    assert_eq!(ctrl.per_account(), 5);
    assert_eq!(ctrl.snapshot().available, 10);

    let (old, new) = ctrl.recompute_for_accounts(3);
    assert_eq!((old, new), (10, 15));
    assert_eq!(ctrl.max(), 15);
    assert_eq!(ctrl.snapshot().available, 15);

    let (old, new) = ctrl.set_per_account(8, 3).expect("未锁定应成功");
    assert_eq!((old, new), (15, 24));
    assert_eq!(ctrl.max(), 24);
    assert_eq!(ctrl.per_account(), 8);

    let (old, new) = ctrl.recompute_for_accounts(1);
    assert_eq!((old, new), (24, 8));
    assert_eq!(ctrl.max(), 8);
    assert_eq!(ctrl.snapshot().available, 8);
}

#[test]
fn test_concurrency_controller_absolute_lock() {
    let mut ctrl = ConcurrencyController::new(6, 5, true);
    assert_eq!(ctrl.max(), 6);
    assert_eq!(ctrl.recompute_for_accounts(100), (6, 6));
    assert_eq!(ctrl.max(), 6);
    assert!(ctrl.set_per_account(20, 100).is_err());
    assert_eq!(ctrl.max(), 6);
}

#[test]
fn test_first_byte_timeout_secs() {
    assert_eq!(first_byte_timeout_secs(None), 32);
    assert_eq!(first_byte_timeout_secs(Some("45")), 45);
    assert_eq!(first_byte_timeout_secs(Some("0")), 0);
    assert_eq!(first_byte_timeout_secs(Some("abc")), 32);
}

#[test]
fn numbers_are_read_as_the_standard_library_reads_them() {
    let texts = [
        "7", " 7 ", "\t+7\n", "+", "", "  ", "-7", "-0", "007", "7.0", "7 7", "1_000", "0x7", "７",
        "\u{3000}7\u{a0}", "18446744073709551615", "18446744073709551616", "99999999999999999999999",
        "00000000000000000000000000001", "++1", "1+", "\u{200b}1", "\u{85}1\u{2028}",
    ];
    for text in texts {
        let expected = text.trim().parse::<u64>().ok().unwrap_or(32);
        assert_eq!(first_byte_timeout_secs(Some(text)), expected, "{:?}", text);
        let expected = text.trim().parse::<usize>().ok().filter(|&n| n >= 1).unwrap_or(5);
        assert_eq!(concurrent_per_account(Some(text)), expected, "{:?}", text);
    }
}

#[test]
fn every_white_space_is_trimmed() {
    for code in 0..0x11_0000u32 {
        if let Some(c) = char::from_u32(code) {
            let text = format!("{}8", c);
            if c.is_whitespace() {
                assert_eq!(first_byte_timeout_secs(Some(&text)), 8);
            } else if !c.is_ascii_digit() && c != '+' {
                assert_eq!(first_byte_timeout_secs(Some(&text)), 32);
            }
        }
    }
}

#[test]
fn limits_saturate() {
    assert_eq!(scaled_limit(0, 0), 1);
    assert_eq!(scaled_limit(3, 4), 12);
    assert_eq!(scaled_limit(usize::MAX, 2), usize::MAX);
    assert_eq!(MAX_PERMITS, tokio::sync::Semaphore::MAX_PERMITS);
}

#[test]
fn slots_are_taken_and_given_back() {
    let mut ctrl = ConcurrencyController::new(2, 1, false);
    assert!(ctrl.try_acquire());
    assert!(ctrl.try_acquire());
    assert!(!ctrl.try_acquire());
    let s = ctrl.snapshot();
    assert_eq!((s.max, s.in_use, s.waiting, s.available), (2, 2, 0, 0));
    assert!(s.is_contended());
    assert!(ctrl.release());
    let s = ctrl.snapshot();
    assert_eq!((s.in_use, s.available), (1, 1));
    assert!(!s.is_contended());
    assert!(ctrl.try_acquire());
}

#[test]
fn a_lower_limit_is_reached_as_requests_finish() {
    let mut ctrl = ConcurrencyController::new(10, 5, false);
    for _ in 0..8 {
        assert!(ctrl.try_acquire());
    }
    assert_eq!(ctrl.resize_to(5), (10, 5));
    let s = ctrl.snapshot();
    assert_eq!((s.max, s.in_use, s.available), (5, 5, 0));
    // The first three to finish only bring the number down to the limit.
    for _ in 0..3 {
        assert!(!ctrl.try_acquire());
        assert!(!ctrl.release());
    }
    assert!(!ctrl.try_acquire());
    assert!(ctrl.release());
    assert!(ctrl.try_acquire());
    assert!(!ctrl.try_acquire());
}

#[test]
fn a_higher_limit_serves_requests_in_flight_first() {
    let mut ctrl = ConcurrencyController::new(4, 2, false);
    for _ in 0..4 {
        assert!(ctrl.try_acquire());
    }
    ctrl.resize_to(1);
    assert_eq!(ctrl.resize_to(3), (1, 3));
    assert_eq!(ctrl.snapshot().available, 0);
    assert_eq!(ctrl.resize_to(6), (3, 6));
    assert_eq!(ctrl.snapshot().available, 2);
    assert_eq!(ctrl.resize_to(0), (6, 1));
}

#[test]
fn monitor_acts_on_its_controller() {
    let mut ctrl = ConcurrencyController::new(10, 0, false);
    assert_eq!(ctrl.per_account(), 1);
    let mut monitor = ConcurrencyMonitor::on(&mut ctrl);
    assert_eq!(monitor.recompute_for_accounts(3), (10, 3));
    assert_eq!(monitor.set_per_account(0, 0), Ok((3, 1)));
    assert_eq!(monitor.set_per_account(7, 2), Ok((1, 14)));
    assert_eq!(monitor.per_account(), 7);
    assert!(!monitor.is_absolute_lock());
    assert_eq!(monitor.snapshot().available, 14);
    assert_eq!(ctrl.max(), 14);
    assert!(!ctrl.is_absolute_lock());
}

#[test]
fn a_locked_controller_says_why() {
    let mut ctrl = ConcurrencyController::new(6, 5, true);
    let error = ctrl.set_per_account(20, 100).unwrap_err();
    assert_eq!(error, ConcurrencyError::AbsoluteLock);
    assert_eq!(
        error.message(),
        "当前由 KIRO_MAX_CONCURRENT 绝对值锁定，改每账号值无效；请先移除该环境变量"
    );
    assert_eq!(ctrl.per_account(), 5);
    assert!(ctrl.is_absolute_lock());
}

#[test]
fn waiting_requests_are_counted() {
    let mut ctrl = ConcurrencyController::new(1, 1, false);
    let first = ctrl.begin_waiting();
    let second = ctrl.begin_waiting();
    assert_eq!(ctrl.snapshot().waiting, 2);
    assert!(ctrl.snapshot().is_contended());
    ctrl.end_waiting(first);
    assert_eq!(ctrl.snapshot().waiting, 1);
    ctrl.end_waiting(second);
    assert_eq!(ctrl.snapshot().waiting, 0);

    let mut counter = usize::MAX;
    let guard = WaitingGuard::new(&mut counter);
    assert_eq!(counter, 0);
    guard.finish(&mut counter);
    assert_eq!(counter, usize::MAX);
}

#[test]
fn a_limit_follows_the_accounts() {
    let mut controller = ConcurrencyController::new(10, 5, false);
    for accounts in 0..6 {
        let (_, limit) = controller.recompute_for_accounts(accounts);
        assert_eq!(limit, 5 * accounts.max(1));
        assert_eq!(controller.recompute_for_accounts(accounts), (limit, limit));
    }
}

#[test]
fn requests_are_counted_over_a_history() {
    let mut controller = ConcurrencyController::new(2, 1, false);
    let mut guards = vec![];
    let mut in_flight = 0;
    for round in 0..40 {
        guards.push(controller.begin_waiting());
        if round % 3 == 0 {
            // Given up while waiting.
            let before = controller.snapshot();
            controller.end_waiting(guards.pop().unwrap());
            let after = controller.snapshot();
            assert_eq!(after.waiting, before.waiting - 1);
            assert_eq!(after.available, before.available);
        } else if controller.try_acquire() {
            in_flight += 1;
            controller.end_waiting(guards.pop().unwrap());
        }
        if round % 5 == 4 && in_flight > 0 {
            controller.release();
            in_flight -= 1;
        }
        let s = controller.snapshot();
        assert_eq!(s.waiting, guards.len());
        assert_eq!(s.in_use, in_flight);
        assert!(s.in_use <= s.max);
    }
}
