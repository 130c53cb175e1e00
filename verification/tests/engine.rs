use blinkyboosts::supervisor::{should_dispatch, ListenerState, ListenerSupervisor};

#[test]
fn start_twice_leaves_one_task_and_cancels_the_first() {
    let mut sup = ListenerSupervisor::new();
    let (old, t0) = sup.start("Zaps");
    assert_eq!(old, None);
    let (old, t1) = sup.start("Zaps");
    // the first task's token is handed back for cancellation and joining:
    assert_eq!(old, Some(t0));
    assert_ne!(t0, t1);
    // exactly one task remains: stopping yields the second token, then none.
    assert_eq!(sup.stop("Zaps"), Some(t1));
    assert_eq!(sup.stop("Zaps"), None);
}

#[test]
fn sources_are_independent() {
    let mut sup = ListenerSupervisor::new();
    let (_, zaps_token) = sup.start("Zaps");
    let (_, nwc_token) = sup.start("NWC");
    assert_ne!(zaps_token, nwc_token);
    // restarting one source leaves the other's task alone:
    let (old, _) = sup.start("NWC");
    assert_eq!(old, Some(nwc_token));
    assert_eq!(sup.stop("Zaps"), Some(zaps_token));
}

#[test]
fn stop_of_unknown_source_is_a_no_op() {
    let mut sup = ListenerSupervisor::new();
    assert_eq!(sup.stop("Boostboard"), None);
    let (old, _) = sup.start("Boostboard");
    assert_eq!(old, None);
}

#[test]
fn boundary_boosts_do_not_dispatch() {
    // during backfill nothing dispatches, however late the event is:
    assert!(!should_dispatch(&ListenerState::Backfilling, 1_000_000, 100));
    // live events from before the subscription boundary do not dispatch:
    assert!(!should_dispatch(&ListenerState::Live, 99, 100));
    assert!(should_dispatch(&ListenerState::Live, 100, 100));
    assert!(should_dispatch(&ListenerState::Live, 101, 100));
    assert!(!should_dispatch(&ListenerState::Errored, 101, 100));
}
