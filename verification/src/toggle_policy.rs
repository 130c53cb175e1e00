//! The toggle-selection policy: which configured toggles fire for one live
//! boost, given the boost's own sats and the shared tracker.
//!
//! Non-default toggles are evaluated first.  A threshold toggle (one that
//! compares the cumulative total against a positive threshold) fires when
//! the total has just crossed into a new, not-yet-fired multiple, or — for a
//! fire-once toggle — when it has never fired; firing records the crossing
//! in the tracker's memory at once.  A toggle whose digit range excludes the
//! boost's last decimal digit is skipped entirely and records nothing.  When
//! any non-default toggle fired, the default toggles are not evaluated for
//! this boost; otherwise every default toggle whose digit range matches
//! fires.

use vstd::prelude::*;

use crate::config::Toggle;
use crate::sat_tracker::{SatTracker, TrackerModel};

verus! {

/// The last decimal digit of an amount.
pub open spec fn spec_last_digit(sats: int) -> int
    recommends
        sats >= 0,
{
    sats % 10
}

/// The last decimal digit of a boost's sats.
pub fn last_digit(sats: i64) -> (d: u8)
    requires
        sats >= 0,
    ensures
        d as int == spec_last_digit(sats as int),
        d < 10,
{
    (sats % 10) as u8
}

/// Whether a toggle's digit range admits the boost's last digit.
pub open spec fn digit_matches(t: Toggle, d: int) -> bool {
    match t.endswith_range {
        None => true,
        Some(r) => r.0 as int <= d && d <= r.1 as int,
    }
}

fn digit_in_range(t: &Toggle, d: u8) -> (r: bool)
    ensures
        r == digit_matches(*t, d as int),
{
    match t.endswith_range {
        None => true,
        Some((lo, hi)) => lo <= d && d <= hi,
    }
}

/// A toggle that takes part in the threshold policy: non-default, compared
/// against the cumulative total, with a positive threshold.
pub open spec fn is_threshold_toggle(t: Toggle) -> bool {
    !t.is_default && t.use_total && t.threshold > 0
}

/// A non-default toggle outside the threshold policy that is gated on the
/// boost's last digit alone.
pub open spec fn is_digit_only_toggle(t: Toggle) -> bool {
    !t.is_default && !(t.use_total && t.threshold > 0) && t.endswith_range is Some
}

/// `spec_should_trigger` over the tracker model.
pub open spec fn model_should_trigger(
    m: TrackerModel,
    previous_total: int,
    new_total: int,
    threshold: int,
    trigger_multiple: bool,
) -> bool
    recommends
        threshold > 0,
{
    if new_total < threshold {
        false
    } else if trigger_multiple {
        let previous_multiple = previous_total / threshold;
        let new_multiple = new_total / threshold;
        new_multiple > previous_multiple && new_multiple > m.last_multiple[threshold]
    } else {
        !m.once[threshold]
    }
}

/// Recording a firing in the tracker model: remember the current multiple,
/// or set the fire-once flag.
pub open spec fn model_update(m: TrackerModel, threshold: int, trigger_multiple: bool) -> TrackerModel {
    if trigger_multiple {
        TrackerModel {
            last_multiple: m.last_multiple.insert(threshold, m.total / threshold),
            ..m
        }
    } else {
        TrackerModel { once: m.once.insert(threshold, true), ..m }
    }
}

/// One non-default toggle against the model: whether it fires, and the model
/// afterwards.  A toggle whose digit range excludes `d` leaves the model
/// untouched.
pub open spec fn nondefault_step(
    m: TrackerModel,
    t: Toggle,
    previous_total: int,
    new_total: int,
    d: int,
) -> (bool, TrackerModel) {
    if is_threshold_toggle(t) && digit_matches(t, d) {
        if model_should_trigger(m, previous_total, new_total, t.threshold as int, t.trigger_multiple) {
            (true, model_update(m, t.threshold as int, t.trigger_multiple))
        } else {
            (false, m)
        }
    } else if is_digit_only_toggle(t) && digit_matches(t, d) {
        (true, m)
    } else {
        (false, m)
    }
}

/// The first pass over the toggles, in order: the indices of the non-default
/// toggles that fire, and the model after all their recordings.
pub open spec fn run_nondefault(
    m0: TrackerModel,
    toggles: Seq<Toggle>,
    previous_total: int,
    new_total: int,
    d: int,
) -> (Seq<int>, TrackerModel)
    decreases toggles.len(),
{
    if toggles.len() == 0 {
        (Seq::empty(), m0)
    } else {
        let r = run_nondefault(m0, toggles.drop_last(), previous_total, new_total, d);
        let s = nondefault_step(r.1, toggles.last(), previous_total, new_total, d);
        (
            if s.0 {
                r.0.push(toggles.len() - 1)
            } else {
                r.0
            },
            s.1,
        )
    }
}

/// The second pass: the indices of the default toggles whose digit range
/// admits `d`.  It reads no tracker state and records nothing.
pub open spec fn default_fired(toggles: Seq<Toggle>, d: int) -> Seq<int>
    decreases toggles.len(),
{
    if toggles.len() == 0 {
        Seq::empty()
    } else {
        let rest = default_fired(toggles.drop_last(), d);
        if toggles.last().is_default && digit_matches(toggles.last(), d) {
            rest.push(toggles.len() - 1)
        } else {
            rest
        }
    }
}

/// Every index the first pass returns lies in range and names a non-default
/// toggle that fires only with a matching digit.
pub proof fn lemma_run_nondefault_indices(
    m0: TrackerModel,
    toggles: Seq<Toggle>,
    previous_total: int,
    new_total: int,
    d: int,
)
    ensures
        forall|j: int|
            0 <= j < run_nondefault(m0, toggles, previous_total, new_total, d).0.len() ==> {
                let idx = #[trigger] run_nondefault(m0, toggles, previous_total, new_total, d).0[j];
                &&& 0 <= idx < toggles.len()
                &&& !toggles[idx].is_default
                &&& digit_matches(toggles[idx], d)
            },
    decreases toggles.len(),
{
    if toggles.len() > 0 {
        lemma_run_nondefault_indices(m0, toggles.drop_last(), previous_total, new_total, d);
        let r = run_nondefault(m0, toggles.drop_last(), previous_total, new_total, d);
        assert(forall|i: int|
            0 <= i < toggles.len() - 1 ==> #[trigger] toggles.drop_last()[i] == toggles[i]);
    }
}

/// Every index the second pass returns lies in range and names a default
/// toggle whose digit range admits `d`; and every such toggle is returned.
pub proof fn lemma_default_fired_characterisation(toggles: Seq<Toggle>, d: int)
    ensures
        forall|j: int|
            0 <= j < default_fired(toggles, d).len() ==> {
                let idx = #[trigger] default_fired(toggles, d)[j];
                &&& 0 <= idx < toggles.len()
                &&& toggles[idx].is_default
                &&& digit_matches(toggles[idx], d)
            },
        forall|idx: int|
            0 <= idx < toggles.len() && (#[trigger] toggles[idx]).is_default && digit_matches(
                toggles[idx],
                d,
            ) ==> default_fired(toggles, d).contains(idx),
    decreases toggles.len(),
{
    if toggles.len() > 0 {
        lemma_default_fired_characterisation(toggles.drop_last(), d);
        assert(forall|i: int|
            0 <= i < toggles.len() - 1 ==> #[trigger] toggles.drop_last()[i] == toggles[i]);
        let rest = default_fired(toggles.drop_last(), d);
        assert forall|idx: int|
            0 <= idx < toggles.len() && (#[trigger] toggles[idx]).is_default && digit_matches(
                toggles[idx],
                d,
            ) implies default_fired(toggles, d).contains(idx) by {
            if idx < toggles.len() - 1 {
                assert(toggles.drop_last()[idx] == toggles[idx]);
                assert(rest.contains(idx));
                let j = choose|j: int| 0 <= j < rest.len() && rest[j] == idx;
                assert(default_fired(toggles, d)[j] == idx);
            } else {
                assert(default_fired(toggles, d).last() == idx);
            }
        }
    }
}

/// Law: no policy run ever clears a fire-once flag — a threshold that has
/// fired once stays fired through every later boost, whatever the toggles.
pub proof fn lemma_once_memory_never_clears(
    m0: TrackerModel,
    toggles: Seq<Toggle>,
    previous_total: int,
    new_total: int,
    d: int,
    threshold: int,
)
    requires
        m0.once.dom().contains(threshold),
        m0.once[threshold],
    ensures
        run_nondefault(m0, toggles, previous_total, new_total, d).1.once.dom().contains(threshold),
        run_nondefault(m0, toggles, previous_total, new_total, d).1.once[threshold],
    decreases toggles.len(),
{
    if toggles.len() > 0 {
        lemma_once_memory_never_clears(
            m0,
            toggles.drop_last(),
            previous_total,
            new_total,
            d,
            threshold,
        );
    }
}

/// Law: a toggle whose digit range excludes the boost's last digit is
/// skipped entirely — it does not fire, and it neither consumes nor records
/// trigger memory.
pub proof fn lemma_digit_skip(
    m: TrackerModel,
    t: Toggle,
    previous_total: int,
    new_total: int,
    d: int,
)
    requires
        !digit_matches(t, d),
    ensures
        nondefault_step(m, t, previous_total, new_total, d) == (false, m),
{
}

/// Check one threshold toggle against the shared total and, when it fires,
/// record the firing at once, as one atomic unit per boost.  `boost_amount`
/// is the just-added boost, so the total before it was
/// `tracker.total - boost_amount`.
pub fn check_total_threshold(
    tracker: &mut SatTracker,
    threshold: i64,
    trigger_multiple: bool,
    boost_amount: i64,
) -> (fired: bool)
    requires
        old(tracker).wf(),
        threshold > 0,
        0 <= boost_amount <= old(tracker).spec_total(),
    ensures
        final(tracker).wf(),
        fired == model_should_trigger(
            old(tracker).model(),
            old(tracker).spec_total() - boost_amount,
            old(tracker).spec_total(),
            threshold as int,
            trigger_multiple,
        ),
        final(tracker).model() =~= if fired {
            model_update(old(tracker).model(), threshold as int, trigger_multiple)
        } else {
            old(tracker).model()
        },
        final(tracker).spec_total() == old(tracker).spec_total(),
        forall|s: Seq<char>| #[trigger]
            final(tracker).source_total(s) == old(tracker).source_total(s),
{
    proof {
        crate::sat_tracker::lemma_wf_total_nonneg(*tracker);
    }
    let new_total = tracker.get_total();
    let previous_total = new_total - boost_amount;
    let should = tracker.should_trigger_threshold(
        previous_total,
        new_total,
        threshold,
        trigger_multiple,
    );
    if should {
        tracker.update_last_triggered_threshold(threshold, trigger_multiple);
        proof {
            let expected = model_update(old(tracker).model(), threshold as int, trigger_multiple);
            assert(tracker.model().last_multiple =~= expected.last_multiple);
            assert(tracker.model().once =~= expected.once);
        }
    } else {
        proof {
            assert(tracker.model().last_multiple =~= old(tracker).model().last_multiple);
            assert(tracker.model().once =~= old(tracker).model().once);
        }
    }
    should
}

/// Decide which toggles fire for one live boost of `sats`, already added to
/// the tracker, and record every threshold firing.  Returns the indices of
/// the fired toggles, in evaluation order: the non-default toggles that
/// fired or, when none did, the default toggles whose digit range matches.
pub fn trigger_toggles(toggles: &Vec<Toggle>, sats: i64, tracker: &mut SatTracker) -> (fired: Vec<
    usize,
>)
    requires
        old(tracker).wf(),
        0 <= sats <= old(tracker).spec_total(),
    ensures
        final(tracker).wf(),
        final(tracker).spec_total() == old(tracker).spec_total(),
        forall|s: Seq<char>| #[trigger]
            final(tracker).source_total(s) == old(tracker).source_total(s),
        ({
            let r = run_nondefault(
                old(tracker).model(),
                toggles@,
                old(tracker).spec_total() - sats,
                old(tracker).spec_total(),
                spec_last_digit(sats as int),
            );
            &&& final(tracker).model() =~= r.1
            &&& r.0.len() > 0 ==> fired@.map_values(|u: usize| u as int) =~= r.0
            &&& r.0.len() == 0 ==> fired@.map_values(|u: usize| u as int) =~= default_fired(
                toggles@,
                spec_last_digit(sats as int),
            )
        }),
        forall|j: int| 0 <= j < fired@.len() ==> (#[trigger] fired@[j]) < toggles@.len(),
{
    let ghost m0 = old(tracker).model();
    let ghost prev_total = old(tracker).spec_total() - sats;
    let ghost new_total = old(tracker).spec_total();
    let d = last_digit(sats);
    let n = toggles.len();
    let mut fired: Vec<usize> = Vec::new();
    let mut k: usize = 0;
    while k < n
        invariant
            k <= n,
            n == toggles@.len(),
            tracker.wf(),
            0 <= sats <= tracker.spec_total(),
            tracker.spec_total() == new_total,
            prev_total == new_total - sats,
            d as int == spec_last_digit(sats as int),
            forall|s: Seq<char>| #[trigger]
                tracker.source_total(s) == old(tracker).source_total(s),
            fired@.map_values(|u: usize| u as int) =~= run_nondefault(
                m0,
                toggles@.take(k as int),
                prev_total,
                new_total,
                d as int,
            ).0,
            tracker.model() =~= run_nondefault(
                m0,
                toggles@.take(k as int),
                prev_total,
                new_total,
                d as int,
            ).1,
            forall|j: int| 0 <= j < fired@.len() ==> (#[trigger] fired@[j]) < toggles@.len(),
        decreases n - k,
    {
        let ghost taken = toggles@.take(k as int);
        let ghost before = run_nondefault(m0, taken, prev_total, new_total, d as int);
        let t = &toggles[k];
        let mut fired_now = false;
        if !t.is_default {
            if t.use_total && t.threshold > 0 {
                if digit_in_range(t, d) {
                    fired_now = check_total_threshold(
                        tracker,
                        t.threshold,
                        t.trigger_multiple,
                        sats,
                    );
                }
            } else {
                if t.endswith_range.is_some() {
                    fired_now = digit_in_range(t, d);
                }
            }
        }
        if fired_now {
            fired.push(k);
        }
        proof {
            let taken1 = toggles@.take(k as int + 1);
            assert(taken1.drop_last() =~= taken);
            assert(taken1.last() == toggles@[k as int]);
            let s = nondefault_step(before.1, toggles@[k as int], prev_total, new_total, d as int);
            assert(fired_now == s.0);
            assert(tracker.model() =~= s.1);
            if fired_now {
                assert(fired@.map_values(|u: usize| u as int) =~= run_nondefault(
                    m0,
                    taken1,
                    prev_total,
                    new_total,
                    d as int,
                ).0);
            }
        }
        k += 1;
    }
    proof {
        assert(toggles@.take(n as int) =~= toggles@);
    }
    if fired.len() == 0 {
        let mut k: usize = 0;
        while k < n
            invariant
                k <= n,
                n == toggles@.len(),
                tracker.wf(),
                tracker.spec_total() == new_total,
                d as int == spec_last_digit(sats as int),
                forall|s: Seq<char>| #[trigger]
                    tracker.source_total(s) == old(tracker).source_total(s),
                tracker.model() =~= run_nondefault(
                    m0,
                    toggles@,
                    prev_total,
                    new_total,
                    d as int,
                ).1,
                fired@.map_values(|u: usize| u as int) =~= default_fired(
                    toggles@.take(k as int),
                    d as int,
                ),
                forall|j: int| 0 <= j < fired@.len() ==> (#[trigger] fired@[j]) < toggles@.len(),
            decreases n - k,
        {
            let t = &toggles[k];
            if t.is_default && digit_in_range(t, d) {
                fired.push(k);
            }
            proof {
                let taken1 = toggles@.take(k as int + 1);
                assert(taken1.drop_last() =~= toggles@.take(k as int));
                assert(taken1.last() == toggles@[k as int]);
            }
            k += 1;
        }
        proof {
            assert(toggles@.take(n as int) =~= toggles@);
        }
    }
    fired
}

/// The `(threshold, trigger_multiple)` pairs of the toggles that take part
/// in the threshold policy, in order.
pub open spec fn threshold_specs(toggles: Seq<Toggle>) -> Seq<(i64, bool)>
    decreases toggles.len(),
{
    if toggles.len() == 0 {
        Seq::empty()
    } else {
        let rest = threshold_specs(toggles.drop_last());
        let t = toggles.last();
        if is_threshold_toggle(t) {
            rest.push((t.threshold, t.trigger_multiple))
        } else {
            rest
        }
    }
}

proof fn lemma_threshold_specs_positive(toggles: Seq<Toggle>)
    ensures
        forall|i: int|
            0 <= i < threshold_specs(toggles).len() ==> (#[trigger] threshold_specs(toggles)[i]).0
                > 0,
    decreases toggles.len(),
{
    if toggles.len() > 0 {
        lemma_threshold_specs_positive(toggles.drop_last());
        let rest = threshold_specs(toggles.drop_last());
        assert forall|i: int|
            0 <= i < threshold_specs(toggles).len() implies (#[trigger] threshold_specs(
            toggles,
        )[i]).0 > 0 by {
            if i < rest.len() {
                assert(threshold_specs(toggles)[i] == rest[i]);
            }
        }
    }
}

/// Seed the tracker's trigger memory from the current total for every
/// threshold toggle, once a source's historical backfill is done.
pub fn sync_threshold_triggers(toggles: &Vec<Toggle>, tracker: &mut SatTracker)
    requires
        old(tracker).wf(),
    ensures
        final(tracker).wf(),
        final(tracker).spec_total() == old(tracker).spec_total(),
        forall|s: Seq<char>| #[trigger]
            final(tracker).source_total(s) == old(tracker).source_total(s),
        ({
            let specs = threshold_specs(toggles@);
            &&& forall|th: int| #[trigger]
                final(tracker).last_multiple_of(th) == if (exists|i: int|
                    0 <= i < specs.len() && #[trigger] specs[i] == (th as i64, true) && th
                        == specs[i].0 as int) {
                    old(tracker).spec_total() / th
                } else {
                    old(tracker).last_multiple_of(th)
                }
            &&& forall|th: int| #[trigger]
                final(tracker).once_of(th) == (old(tracker).once_of(th) || (exists|i: int|
                    0 <= i < specs.len() && #[trigger] specs[i] == (th as i64, false) && th
                        == specs[i].0 as int && old(tracker).spec_total() >= th))
        }),
{
    let n = toggles.len();
    let mut thresholds: Vec<(i64, bool)> = Vec::new();
    let mut k: usize = 0;
    while k < n
        invariant
            k <= n,
            n == toggles@.len(),
            thresholds@ =~= threshold_specs(toggles@.take(k as int)),
        decreases n - k,
    {
        let ghost taken = toggles@.take(k as int);
        let t = &toggles[k];
        if !t.is_default && t.use_total && t.threshold > 0 {
            thresholds.push((t.threshold, t.trigger_multiple));
        }
        proof {
            let taken1 = toggles@.take(k as int + 1);
            assert(taken1.drop_last() =~= taken);
            assert(taken1.last() == toggles@[k as int]);
        }
        k += 1;
    }
    proof {
        assert(toggles@.take(n as int) =~= toggles@);
        lemma_threshold_specs_positive(toggles@);
    }
    tracker.sync_trigger_state(thresholds.as_slice());
}

/// Apply one accepted boost: add its sats to the tracker and, for a live
/// boost (`dispatch` set), run the toggle policy.  A boost delivered during
/// backfill, or one re-delivered from before the live-subscription boundary,
/// updates the totals but fires nothing and leaves the trigger memory
/// untouched.  Returns the new total and the indices of the fired toggles.
pub fn process_boost(
    tracker: &mut SatTracker,
    toggles: &Vec<Toggle>,
    source: &str,
    sats: i64,
    dispatch: bool,
) -> (r: (i64, Vec<usize>))
    requires
        old(tracker).wf(),
        sats >= 0,
        old(tracker).spec_total() + sats <= i64::MAX,
    ensures
        final(tracker).wf(),
        r.0 == final(tracker).spec_total(),
        final(tracker).spec_total() == old(tracker).spec_total() + sats,
        final(tracker).source_total(source@) == old(tracker).source_total(source@) + sats,
        forall|s: Seq<char>|
            s != source@ ==> #[trigger] final(tracker).source_total(s) == old(
                tracker,
            ).source_total(s),
        !dispatch ==> r.1@.len() == 0,
        !dispatch ==> forall|th: int| #[trigger]
            final(tracker).last_multiple_of(th) == old(tracker).last_multiple_of(th),
        !dispatch ==> forall|th: int| #[trigger]
            final(tracker).once_of(th) == old(tracker).once_of(th),
        dispatch ==> ({
            let mid = (TrackerModel {
                total: old(tracker).spec_total() + sats,
                last_multiple: old(tracker).model().last_multiple,
                once: old(tracker).model().once,
            });
            let rr = run_nondefault(
                mid,
                toggles@,
                old(tracker).spec_total(),
                old(tracker).spec_total() + sats,
                spec_last_digit(sats as int),
            );
            &&& final(tracker).model() =~= rr.1
            &&& rr.0.len() > 0 ==> r.1@.map_values(|u: usize| u as int) =~= rr.0
            &&& rr.0.len() == 0 ==> r.1@.map_values(|u: usize| u as int) =~= default_fired(
                toggles@,
                spec_last_digit(sats as int),
            )
        }),
        forall|j: int| 0 <= j < r.1@.len() ==> (#[trigger] r.1@[j]) < toggles@.len(),
{
    proof {
        crate::sat_tracker::lemma_wf_total_nonneg(*old(tracker));
    }
    let total = tracker.add(source, sats);
    let fired: Vec<usize> = if dispatch {
        proof {
            let mid = (TrackerModel {
                total: old(tracker).spec_total() + sats,
                last_multiple: old(tracker).model().last_multiple,
                once: old(tracker).model().once,
            });
            assert(tracker.model().last_multiple =~= mid.last_multiple);
            assert(tracker.model().once =~= mid.once);
            assert(tracker.model() =~= mid);
        }
        trigger_toggles(toggles, sats, tracker)
    } else {
        Vec::new()
    };
    (total, fired)
}

} // verus!
