use blinkyboosts::sat_tracker::SatTracker;

#[test]
fn monotonic_total_equals_sum_of_adds() {
    let mut t = SatTracker::new();
    assert_eq!(t.get_total(), 0);
    let amounts = [100i64, 250, 0, 5, 1000];
    let mut sum = 0i64;
    let mut previous = 0i64;
    for (i, a) in amounts.iter().enumerate() {
        let source = if i % 2 == 0 { "Zaps" } else { "NWC" };
        let total = t.add(source, *a);
        sum += *a;
        assert_eq!(total, sum);
        assert!(total >= previous);
        previous = total;
    }
    assert_eq!(t.get_total(), 1355);
}

#[test]
fn multiple_trigger_threshold_fires_on_new_multiples() {
    let mut t = SatTracker::new();

    let total = t.add("Zaps", 600);
    assert_eq!(total, 600);
    assert!(!t.should_trigger_threshold(0, 600, 1000, true));

    let total = t.add("Zaps", 500);
    assert_eq!(total, 1100);
    assert!(t.should_trigger_threshold(600, 1100, 1000, true));
    t.update_last_triggered_threshold(1000, true);

    let total = t.add("Zaps", 500);
    assert_eq!(total, 1600);
    assert!(!t.should_trigger_threshold(1100, 1600, 1000, true));

    let total = t.add("Zaps", 500);
    assert_eq!(total, 2100);
    assert!(t.should_trigger_threshold(1600, 2100, 1000, true));
    t.update_last_triggered_threshold(1000, true);
}

#[test]
fn once_trigger_threshold_fires_exactly_once() {
    let mut t = SatTracker::new();
    t.add("NWC", 400);
    // the memory flag is only consulted once the new total reaches the
    // threshold:
    assert!(!t.should_trigger_threshold(0, 400, 1000, false));

    t.add("NWC", 700);
    assert!(t.should_trigger_threshold(400, 1100, 1000, false));
    t.update_last_triggered_threshold(1000, false);

    t.add("NWC", 1_000_000);
    assert!(!t.should_trigger_threshold(1100, 1_001_100, 1000, false));
    t.add("NWC", 5);
    assert!(!t.should_trigger_threshold(1_001_100, 1_001_105, 1000, false));
}

#[test]
fn sync_trigger_state_seeds_multiples_from_history() {
    let mut t = SatTracker::new();
    t.add("Boostboard", 2500);
    t.sync_trigger_state(&[(1000, true)]);
    // the seeded multiple is 2, so a live boost must cross to multiple 3:
    assert!(!t.should_trigger_threshold(2500, 2900, 1000, true));
    assert!(t.should_trigger_threshold(2900, 3000, 1000, true));
}

#[test]
fn sync_trigger_state_marks_reached_once_thresholds() {
    let mut t = SatTracker::new();
    t.add("Boostboard", 2500);
    t.sync_trigger_state(&[(1000, false), (5000, false)]);
    // 1000 was already reached by history: never fires again.
    assert!(!t.should_trigger_threshold(2500, 2600, 1000, false));
    // 5000 was not reached: a future crossing still fires.
    assert!(t.should_trigger_threshold(2500, 5600, 5000, false));
}

#[test]
fn threshold_below_new_total_never_fires() {
    let t = SatTracker::new();
    assert!(!t.should_trigger_threshold(0, 999, 1000, true));
    assert!(!t.should_trigger_threshold(0, 999, 1000, false));
}

#[test]
fn one_source_accumulates_under_one_key() {
    let mut t = SatTracker::new();
    assert_eq!(t.add("Zaps", 10), 10);
    assert_eq!(t.add("Zaps", 15), 25);
    assert_eq!(t.add("NWC", 5), 30);
    assert_eq!(t.get_total(), 30);
}

#[test]
fn total_can_reach_the_integer_limit() {
    let mut t = SatTracker::new();
    assert_eq!(t.add("Test", i64::MAX), i64::MAX);
    assert!(t.should_trigger_threshold(0, i64::MAX, 1000, false));
}
