use blinkyboosts::config::Toggle;
use blinkyboosts::sat_tracker::SatTracker;
use blinkyboosts::toggle_policy::{last_digit, process_boost, sync_threshold_triggers, trigger_toggles};

fn threshold_toggle(threshold: i64, trigger_multiple: bool, range: Option<(u8, u8)>) -> Toggle {
    Toggle {
        threshold,
        output: "osc".to_string(),
        is_default: false,
        use_total: true,
        trigger_multiple,
        endswith_range: range,
        osc: None,
        artnet: None,
        sacn: None,
        wled: None,
    }
}

fn default_toggle(range: Option<(u8, u8)>) -> Toggle {
    Toggle {
        threshold: 0,
        output: "wled".to_string(),
        is_default: true,
        use_total: false,
        trigger_multiple: true,
        endswith_range: range,
        osc: None,
        artnet: None,
        sacn: None,
        wled: None,
    }
}

fn digit_only_toggle(range: (u8, u8)) -> Toggle {
    Toggle {
        threshold: 0,
        output: "sacn".to_string(),
        is_default: false,
        use_total: false,
        trigger_multiple: true,
        endswith_range: Some(range),
        osc: None,
        artnet: None,
        sacn: None,
        wled: None,
    }
}

#[test]
fn last_digit_of_sats() {
    assert_eq!(last_digit(0), 0);
    assert_eq!(last_digit(1002), 2);
    assert_eq!(last_digit(1007), 7);
    assert_eq!(last_digit(90), 0);
}

#[test]
fn digit_range_admits_eligible_boost() {
    let toggles = vec![threshold_toggle(1000, true, Some((0, 3)))];
    let mut t = SatTracker::new();
    t.add("Zaps", 1002);
    let fired = trigger_toggles(&toggles, 1002, &mut t);
    assert_eq!(fired, vec![0]);
}

#[test]
fn digit_range_skip_does_not_consume_trigger_memory() {
    let toggles = vec![threshold_toggle(1000, true, Some((0, 3)))];
    let mut t = SatTracker::new();
    // last digit 7 is outside 0..=3: skipped although the total crosses.
    t.add("Zaps", 1007);
    let fired = trigger_toggles(&toggles, 1007, &mut t);
    assert!(fired.is_empty());
    // the crossing was not recorded: a later boost that reaches multiple 2
    // with an eligible digit still sees untouched memory and fires.
    t.add("Zaps", 1003);
    let fired = trigger_toggles(&toggles, 1003, &mut t);
    assert_eq!(fired, vec![0]);
}

#[test]
fn threshold_firing_suppresses_defaults() {
    let toggles = vec![threshold_toggle(1000, true, None), default_toggle(None)];
    let mut t = SatTracker::new();
    t.add("NWC", 1200);
    let fired = trigger_toggles(&toggles, 1200, &mut t);
    assert_eq!(fired, vec![0]);
}

#[test]
fn all_matching_defaults_fire_when_no_threshold_fires() {
    let toggles = vec![
        threshold_toggle(1000, true, None),
        default_toggle(None),
        default_toggle(Some((0, 4))),
        default_toggle(Some((5, 9))),
    ];
    let mut t = SatTracker::new();
    t.add("NWC", 1200);
    trigger_toggles(&toggles, 1200, &mut t);
    // total 1400: no new multiple of 1000; last digit of 202 is 2.
    t.add("NWC", 202);
    let fired = trigger_toggles(&toggles, 202, &mut t);
    assert_eq!(fired, vec![1, 2]);
}

#[test]
fn digit_only_toggle_fires_and_suppresses_defaults() {
    let toggles = vec![digit_only_toggle((0, 3)), default_toggle(None)];
    let mut t = SatTracker::new();
    t.add("Test", 21);
    let fired = trigger_toggles(&toggles, 21, &mut t);
    assert_eq!(fired, vec![0]);
    t.add("Test", 19);
    let fired = trigger_toggles(&toggles, 19, &mut t);
    assert_eq!(fired, vec![1]);
}

#[test]
fn two_thresholds_fire_independently_for_one_boost() {
    let toggles = vec![threshold_toggle(1000, true, None), threshold_toggle(700, true, None)];
    let mut t = SatTracker::new();
    t.add("Zaps", 1100);
    let fired = trigger_toggles(&toggles, 1100, &mut t);
    assert_eq!(fired, vec![0, 1]);
}

#[test]
fn equal_thresholds_fire_once_per_crossing() {
    // two toggles watching the same threshold share its trigger memory:
    // the first to be evaluated records the multiple, the second sees it.
    let toggles = vec![threshold_toggle(1000, true, None), threshold_toggle(1000, true, None)];
    let mut t = SatTracker::new();
    t.add("Zaps", 1500);
    let fired = trigger_toggles(&toggles, 1500, &mut t);
    assert_eq!(fired, vec![0]);
}

#[test]
fn backfill_boost_updates_total_but_fires_nothing() {
    let toggles = vec![threshold_toggle(1000, true, None), default_toggle(None)];
    let mut t = SatTracker::new();
    let (total, fired) = process_boost(&mut t, &toggles, "Boostboard", 2500, false);
    assert_eq!(total, 2500);
    assert!(fired.is_empty());
    // trigger memory untouched by the backfill boost:
    assert!(t.should_trigger_threshold(0, 2500, 1000, true));
}

#[test]
fn backfill_then_sync_then_live_crossing() {
    let toggles = vec![threshold_toggle(1000, true, None)];
    let mut t = SatTracker::new();
    let (total, fired) = process_boost(&mut t, &toggles, "NWC", 2500, false);
    assert_eq!(total, 2500);
    assert!(fired.is_empty());
    sync_threshold_triggers(&toggles, &mut t);
    // seeded at multiple 2: a live boost that stays below 3000 fires nothing,
    let (_, fired) = process_boost(&mut t, &toggles, "NWC", 400, true);
    assert!(fired.is_empty());
    // and the live boost that crosses 3000 fires.
    let (total, fired) = process_boost(&mut t, &toggles, "NWC", 200, true);
    assert_eq!(total, 3100);
    assert_eq!(fired, vec![0]);
}

#[test]
fn live_boost_dispatches_defaults() {
    let toggles = vec![default_toggle(None)];
    let mut t = SatTracker::new();
    let (total, fired) = process_boost(&mut t, &toggles, "Test", 42, true);
    assert_eq!(total, 42);
    assert_eq!(fired, vec![0]);
}
