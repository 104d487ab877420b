use kiro_provider::provider::KiroProvider;
use kiro_provider::retry::Pause;

#[test]
fn retry_delay_doubles_up_to_its_cap() {
    let expected = [200, 400, 800, 1600, 3200, 5000, 5000, 5000];
    for (attempt, ms) in expected.iter().enumerate() {
        assert_eq!(KiroProvider::retry_delay_with(attempt, 0), *ms);
    }
    assert_eq!(KiroProvider::retry_delay_with(usize::MAX, 0), 5000);
    assert_eq!(KiroProvider::retry_delay_with(0, 50), 250);
    assert_eq!(KiroProvider::retry_delay_with(9, 1250), 6250);
}

#[test]
fn throttle_delay_doubles_up_to_its_cap() {
    let expected = [800, 1600, 3200, 6400, 12800, 15000, 15000];
    for (attempt, ms) in expected.iter().enumerate() {
        assert_eq!(KiroProvider::throttle_delay_with(attempt, 0), *ms);
    }
    assert_eq!(KiroProvider::throttle_delay_with(usize::MAX, 5000), 20000);
    assert_eq!(KiroProvider::throttle_delay_with(0, 266), 1066);
}

#[test]
fn jitter_stays_in_range_and_varies() {
    let mut distinct = std::collections::HashSet::new();
    for _ in 0..200 {
        let ms = KiroProvider::retry_delay(4);
        assert!((3200..=4000).contains(&ms));
        distinct.insert(ms);
        let ms = KiroProvider::throttle_delay(5);
        assert!((15000..=20000).contains(&ms));
        distinct.insert(ms);
    }
    assert!(distinct.len() > 2);
}

#[test]
fn throttling_waits_longer_than_other_failures() {
    for attempt in 0..12 {
        let retry = Pause::Retry { attempt }.delay();
        let throttle = Pause::Throttle { attempt }.delay();
        assert!(throttle > retry);
    }
}
