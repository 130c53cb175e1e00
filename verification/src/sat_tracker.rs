//! The shared counter state machine: the global total, per-source subtotals,
//! and per-threshold trigger memory.
//!
//! The maps are kept as association lists with unique keys, so that every
//! operation has an exact specification.  A threshold configured to fire on
//! every multiple remembers the highest multiple already fired; a threshold
//! configured to fire once remembers a boolean flag.

use vstd::prelude::*;

use crate::assoc::{
    keys_unique, lemma_lookup_at_index, lemma_lookup_none, lemma_lookup_none_of_unique, lemma_unique_push,
    lemma_lookup_push, lemma_lookup_remove, lemma_lookup_some_index, spec_lookup,
};

verus! {

/// The per-source list, with string keys seen as character sequences.
pub open spec fn source_entries(entries: Seq<(String, i64)>) -> Seq<(Seq<char>, int)> {
    entries.map_values(|e: (String, i64)| (e.0@, e.1 as int))
}

/// A threshold-to-multiple list, seen over mathematical integers.
pub open spec fn int_entries(entries: Seq<(i64, i64)>) -> Seq<(int, int)> {
    entries.map_values(|e: (i64, i64)| (e.0 as int, e.1 as int))
}

/// A threshold-to-flag list, with keys seen as mathematical integers.
pub open spec fn bool_entries(entries: Seq<(i64, bool)>) -> Seq<(int, bool)> {
    entries.map_values(|e: (i64, bool)| (e.0 as int, e.1))
}

/// The shared tracker: global total, per-source subtotals, and per-threshold
/// trigger memory.  `total` is never decremented for the lifetime of the value.
pub struct SatTracker {
    total: i64,
    by_source: Vec<(String, i64)>,
    last_triggered_multiple: Vec<(i64, i64)>,
    triggered_once: Vec<(i64, bool)>,
}

impl SatTracker {
    /// The global total of all sats ever added.
    pub closed spec fn spec_total(&self) -> int {
        self.total as int
    }

    /// The subtotal added so far by one source (0 when the source is unknown).
    pub closed spec fn source_total(&self, source: Seq<char>) -> int {
        match spec_lookup(source_entries(self.by_source@), source) {
            Some(v) => v,
            None => 0,
        }
    }

    /// The highest multiple of `threshold` already fired (0 when none has).
    pub closed spec fn last_multiple_of(&self, threshold: int) -> int {
        match spec_lookup(int_entries(self.last_triggered_multiple@), threshold) {
            Some(v) => v,
            None => 0,
        }
    }

    /// Whether a fire-once threshold has already fired.
    pub closed spec fn once_of(&self, threshold: int) -> bool {
        match spec_lookup(bool_entries(self.triggered_once@), threshold) {
            Some(v) => v,
            None => false,
        }
    }

    /// Well-formedness: unique keys in each map, a non-negative total, and
    /// every per-source subtotal between 0 and the total.
    pub closed spec fn wf(&self) -> bool {
        &&& self.total >= 0
        &&& keys_unique(source_entries(self.by_source@))
        &&& keys_unique(int_entries(self.last_triggered_multiple@))
        &&& keys_unique(bool_entries(self.triggered_once@))
        &&& forall|i: int|
            0 <= i < self.by_source@.len() ==> 0 <= (#[trigger] self.by_source@[i]).1
                <= self.total
    }

    pub fn new() -> (t: SatTracker)
        ensures
            t.wf(),
            t.spec_total() == 0,
            forall|s: Seq<char>| t.source_total(s) == 0,
            forall|th: int| t.last_multiple_of(th) == 0,
            forall|th: int| !t.once_of(th),
    {
        let t = SatTracker {
            total: 0,
            by_source: Vec::new(),
            last_triggered_multiple: Vec::new(),
            triggered_once: Vec::new(),
        };
        proof {
            assert(source_entries(t.by_source@) =~= Seq::<(Seq<char>, int)>::empty());
            assert(int_entries(t.last_triggered_multiple@) =~= Seq::<(int, int)>::empty());
            assert(bool_entries(t.triggered_once@) =~= Seq::<(int, bool)>::empty());
        }
        t
    }

    /// Get the current total sats.
    pub fn get_total(&self) -> (total: i64)
        ensures
            total == self.spec_total(),
    {
        self.total
    }

    /// Add sats from a boost to the global total and to the source's
    /// subtotal, and return the new total.  Trigger memory is untouched.
    pub fn add(&mut self, source: &str, sats: i64) -> (total: i64)
        requires
            old(self).wf(),
            sats >= 0,
            old(self).spec_total() + sats <= i64::MAX,
        ensures
            final(self).wf(),
            total == final(self).spec_total(),
            final(self).spec_total() == old(self).spec_total() + sats,
            final(self).source_total(source@) == old(self).source_total(source@) + sats,
            forall|s: Seq<char>|
                s != source@ ==> #[trigger] final(self).source_total(s) == old(self).source_total(
                    s,
                ),
            forall|th: int| #[trigger]
                final(self).last_multiple_of(th) == old(self).last_multiple_of(th),
            forall|th: int| #[trigger] final(self).once_of(th) == old(self).once_of(th),
    {
        let ghost pre = *self;
        self.total = self.total + sats;
        let found = self.find_source(source);
        match found {
            Some(i) => {
                let entry = self.by_source.remove(i);
                let updated = entry.1 + sats;
                self.by_source.push((entry.0, updated));
                proof {
                    let olds = source_entries(pre.by_source@);
                    let removed = source_entries(pre.by_source@.remove(i as int));
                    assert(removed =~= olds.remove(i as int));
                    lemma_lookup_at_index(olds, source@, i as int);
                    lemma_lookup_remove(olds, i as int);
                    assert(source_entries(self.by_source@) =~= removed.push((source@, updated
                        as int)));
                    lemma_lookup_push(removed, source@, updated as int);
                    assert forall|j: int|
                        0 <= j < removed.len() implies (#[trigger] removed[j]).0 != source@ by {
                        if spec_lookup(removed, source@) is Some {
                            lemma_lookup_some_index(removed, source@);
                        } else {
                            lemma_lookup_none(removed, source@);
                        }
                    }
                    lemma_unique_push(removed, source@, updated as int);
                }
            },
            None => {
                self.by_source.push((source.to_owned(), sats));
                proof {
                    let olds = source_entries(pre.by_source@);
                    lemma_lookup_none_of_unique(olds, source@);
                    assert(source_entries(self.by_source@) =~= olds.push((source@, sats as int)));
                    lemma_lookup_push(olds, source@, sats as int);
                    lemma_unique_push(olds, source@, sats as int);
                }
            },
        }
        proof {
            assert(int_entries(self.last_triggered_multiple@) == int_entries(
                pre.last_triggered_multiple@,
            ));
            assert(bool_entries(self.triggered_once@) == bool_entries(pre.triggered_once@));
        }
        self.total
    }

    /// The index of a source's entry, if the source is known.
    fn find_source(&self, source: &str) -> (r: Option<usize>)
        ensures
            match r {
                Some(i) => i < self.by_source@.len() && source_entries(self.by_source@)[i as int].0
                    == source@,
                None => forall|j: int|
                    0 <= j < self.by_source@.len() ==> (#[trigger] source_entries(
                        self.by_source@,
                    )[j]).0 != source@,
            },
    {
        let n = self.by_source.len();
        let mut i: usize = 0;
        while i < n
            invariant
                i <= n,
                n == self.by_source@.len(),
                forall|j: int|
                    0 <= j < i ==> (#[trigger] source_entries(self.by_source@)[j]).0 != source@,
            decreases n - i,
        {
            if crate::strutil::str_eq(self.by_source[i].0.as_str(), source) {
                return Some(i);
            }
            i += 1;
        }
        None
    }

    /// The index of a threshold's entry in the multiple-trigger memory.
    fn find_multiple(&self, threshold: i64) -> (r: Option<usize>)
        ensures
            match r {
                Some(i) => i < self.last_triggered_multiple@.len() && int_entries(
                    self.last_triggered_multiple@,
                )[i as int].0 == threshold as int,
                None => forall|j: int|
                    0 <= j < self.last_triggered_multiple@.len() ==> (#[trigger] int_entries(
                        self.last_triggered_multiple@,
                    )[j]).0 != threshold as int,
            },
    {
        let n = self.last_triggered_multiple.len();
        let mut i: usize = 0;
        while i < n
            invariant
                i <= n,
                n == self.last_triggered_multiple@.len(),
                forall|j: int|
                    0 <= j < i ==> (#[trigger] int_entries(self.last_triggered_multiple@)[j]).0
                        != threshold as int,
            decreases n - i,
        {
            if self.last_triggered_multiple[i].0 == threshold {
                return Some(i);
            }
            i += 1;
        }
        None
    }

    /// The index of a threshold's entry in the fire-once memory.
    fn find_once(&self, threshold: i64) -> (r: Option<usize>)
        ensures
            match r {
                Some(i) => i < self.triggered_once@.len() && bool_entries(
                    self.triggered_once@,
                )[i as int].0 == threshold as int,
                None => forall|j: int|
                    0 <= j < self.triggered_once@.len() ==> (#[trigger] bool_entries(
                        self.triggered_once@,
                    )[j]).0 != threshold as int,
            },
    {
        let n = self.triggered_once.len();
        let mut i: usize = 0;
        while i < n
            invariant
                i <= n,
                n == self.triggered_once@.len(),
                forall|j: int|
                    0 <= j < i ==> (#[trigger] bool_entries(self.triggered_once@)[j]).0
                        != threshold as int,
            decreases n - i,
        {
            if self.triggered_once[i].0 == threshold {
                return Some(i);
            }
            i += 1;
        }
        None
    }

    /// The highest multiple already fired for a threshold, 0 when none has.
    fn get_last_multiple(&self, threshold: i64) -> (r: i64)
        requires
            self.wf(),
        ensures
            r as int == self.last_multiple_of(threshold as int),
    {
        match self.find_multiple(threshold) {
            Some(i) => {
                proof {
                    lemma_lookup_at_index(
                        int_entries(self.last_triggered_multiple@),
                        threshold as int,
                        i as int,
                    );
                }
                self.last_triggered_multiple[i].1
            },
            None => {
                proof {
                    lemma_lookup_none_of_unique(
                        int_entries(self.last_triggered_multiple@),
                        threshold as int,
                    );
                }
                0
            },
        }
    }

    /// Whether the fire-once memory holds `true` for a threshold.
    fn get_once(&self, threshold: i64) -> (r: bool)
        requires
            self.wf(),
        ensures
            r == self.once_of(threshold as int),
    {
        match self.find_once(threshold) {
            Some(i) => {
                proof {
                    lemma_lookup_at_index(
                        bool_entries(self.triggered_once@),
                        threshold as int,
                        i as int,
                    );
                }
                self.triggered_once[i].1
            },
            None => {
                proof {
                    lemma_lookup_none_of_unique(
                        bool_entries(self.triggered_once@),
                        threshold as int,
                    );
                }
                false
            },
        }
    }

    /// What `should_trigger_threshold` decides, as a mathematical statement.
    ///
    /// A multiple-trigger threshold fires when the total has crossed into a
    /// new multiple that is also beyond the highest multiple already fired;
    /// a fire-once threshold fires when it has never fired before.
    pub open spec fn spec_should_trigger(
        &self,
        previous_total: int,
        new_total: int,
        threshold: int,
        trigger_multiple: bool,
    ) -> bool
        recommends
            threshold > 0,
    {
        if new_total < threshold {
            false
        } else if trigger_multiple {
            let previous_multiple = previous_total / threshold;
            let new_multiple = new_total / threshold;
            new_multiple > previous_multiple && new_multiple > self.last_multiple_of(threshold)
        } else {
            !self.once_of(threshold)
        }
    }

    /// Check whether a threshold should trigger, given the total before and
    /// after the current boost was added.  Read-only: records nothing.
    pub fn should_trigger_threshold(
        &self,
        previous_total: i64,
        new_total: i64,
        threshold: i64,
        trigger_multiple: bool,
    ) -> (r: bool)
        requires
            self.wf(),
            threshold > 0,
            previous_total >= 0,
        ensures
            r == self.spec_should_trigger(
                previous_total as int,
                new_total as int,
                threshold as int,
                trigger_multiple,
            ),
    {
        if new_total < threshold {
            return false;
        }
        if trigger_multiple {
            let previous_multiple = previous_total / threshold;
            let new_multiple = new_total / threshold;
            if new_multiple > previous_multiple {
                let last = self.get_last_multiple(threshold);
                new_multiple > last
            } else {
                false
            }
        } else {
            !self.get_once(threshold)
        }
    }

    /// Record that a threshold has fired at the current total: remember the
    /// current multiple, or set the fire-once flag.
    pub fn update_last_triggered_threshold(&mut self, threshold: i64, trigger_multiple: bool)
        requires
            old(self).wf(),
            threshold > 0,
        ensures
            final(self).wf(),
            final(self).spec_total() == old(self).spec_total(),
            forall|s: Seq<char>| #[trigger]
                final(self).source_total(s) == old(self).source_total(s),
            trigger_multiple ==> final(self).last_multiple_of(threshold as int) == old(
                self,
            ).spec_total() / (threshold as int),
            trigger_multiple ==> forall|th: int|
                th != threshold as int ==> #[trigger] final(self).last_multiple_of(th) == old(
                    self,
                ).last_multiple_of(th),
            trigger_multiple ==> forall|th: int| #[trigger]
                final(self).once_of(th) == old(self).once_of(th),
            !trigger_multiple ==> final(self).once_of(threshold as int),
            !trigger_multiple ==> forall|th: int|
                th != threshold as int ==> #[trigger] final(self).once_of(th) == old(self).once_of(
                    th,
                ),
            !trigger_multiple ==> forall|th: int| #[trigger]
                final(self).last_multiple_of(th) == old(self).last_multiple_of(th),
    {
        if trigger_multiple {
            let current_multiple = self.total / threshold;
            self.set_multiple(threshold, current_multiple);
        } else {
            self.set_once(threshold);
        }
    }

    /// Store `value` as the fired multiple for `threshold`.
    fn set_multiple(&mut self, threshold: i64, value: i64)
        requires
            old(self).wf(),
        ensures
            final(self).wf(),
            final(self).spec_total() == old(self).spec_total(),
            forall|s: Seq<char>| #[trigger]
                final(self).source_total(s) == old(self).source_total(s),
            final(self).last_multiple_of(threshold as int) == value as int,
            forall|th: int|
                th != threshold as int ==> #[trigger] final(self).last_multiple_of(th) == old(
                    self,
                ).last_multiple_of(th),
            forall|th: int| #[trigger] final(self).once_of(th) == old(self).once_of(th),
    {
        let ghost pre = *self;
        let found = self.find_multiple(threshold);
        match found {
            Some(i) => {
                self.last_triggered_multiple.remove(i);
                self.last_triggered_multiple.push((threshold, value));
                proof {
                    let olds = int_entries(pre.last_triggered_multiple@);
                    let removed = int_entries(pre.last_triggered_multiple@.remove(i as int));
                    assert(removed =~= olds.remove(i as int));
                    lemma_lookup_remove(olds, i as int);
                    assert(int_entries(self.last_triggered_multiple@) =~= removed.push(
                        (threshold as int, value as int),
                    ));
                    lemma_lookup_push(removed, threshold as int, value as int);
                    assert forall|j: int|
                        0 <= j < removed.len() implies (#[trigger] removed[j]).0
                        != threshold as int by {
                        if spec_lookup(removed, threshold as int) is Some {
                            lemma_lookup_some_index(removed, threshold as int);
                        } else {
                            lemma_lookup_none(removed, threshold as int);
                        }
                    }
                    lemma_unique_push(removed, threshold as int, value as int);
                }
            },
            None => {
                self.last_triggered_multiple.push((threshold, value));
                proof {
                    let olds = int_entries(pre.last_triggered_multiple@);
                    lemma_lookup_none_of_unique(olds, threshold as int);
                    assert(int_entries(self.last_triggered_multiple@) =~= olds.push(
                        (threshold as int, value as int),
                    ));
                    lemma_lookup_push(olds, threshold as int, value as int);
                    lemma_unique_push(olds, threshold as int, value as int);
                }
            },
        }
    }

    /// Set the fire-once flag for `threshold`.
    fn set_once(&mut self, threshold: i64)
        requires
            old(self).wf(),
        ensures
            final(self).wf(),
            final(self).spec_total() == old(self).spec_total(),
            forall|s: Seq<char>| #[trigger]
                final(self).source_total(s) == old(self).source_total(s),
            final(self).once_of(threshold as int),
            forall|th: int|
                th != threshold as int ==> #[trigger] final(self).once_of(th) == old(self).once_of(
                    th,
                ),
            forall|th: int| #[trigger]
                final(self).last_multiple_of(th) == old(self).last_multiple_of(th),
    {
        let ghost pre = *self;
        let found = self.find_once(threshold);
        match found {
            Some(i) => {
                self.triggered_once.remove(i);
                self.triggered_once.push((threshold, true));
                proof {
                    let olds = bool_entries(pre.triggered_once@);
                    let removed = bool_entries(pre.triggered_once@.remove(i as int));
                    assert(removed =~= olds.remove(i as int));
                    lemma_lookup_remove(olds, i as int);
                    assert(bool_entries(self.triggered_once@) =~= removed.push(
                        (threshold as int, true),
                    ));
                    lemma_lookup_push(removed, threshold as int, true);
                    assert forall|j: int|
                        0 <= j < removed.len() implies (#[trigger] removed[j]).0
                        != threshold as int by {
                        if spec_lookup(removed, threshold as int) is Some {
                            lemma_lookup_some_index(removed, threshold as int);
                        } else {
                            lemma_lookup_none(removed, threshold as int);
                        }
                    }
                    lemma_unique_push(removed, threshold as int, true);
                }
            },
            None => {
                self.triggered_once.push((threshold, true));
                proof {
                    let olds = bool_entries(pre.triggered_once@);
                    lemma_lookup_none_of_unique(olds, threshold as int);
                    assert(bool_entries(self.triggered_once@) =~= olds.push(
                        (threshold as int, true),
                    ));
                    lemma_lookup_push(olds, threshold as int, true);
                    lemma_unique_push(olds, threshold as int, true);
                }
            },
        }
    }

    /// Seed the trigger memory from the current total, once a source's
    /// historical backfill is done: a multiple-trigger threshold remembers
    /// the current multiple, and a fire-once threshold is marked fired when
    /// the total already sits at or past it.  Replayed history must never
    /// fire retroactively, while a future crossing still fires normally.
    pub fn sync_trigger_state(&mut self, thresholds: &[(i64, bool)])
        requires
            old(self).wf(),
            forall|i: int| 0 <= i < thresholds@.len() ==> (#[trigger] thresholds@[i]).0 > 0,
        ensures
            final(self).wf(),
            final(self).spec_total() == old(self).spec_total(),
            forall|s: Seq<char>| #[trigger]
                final(self).source_total(s) == old(self).source_total(s),
            forall|th: int| #[trigger]
                final(self).last_multiple_of(th) == if (exists|i: int|
                    0 <= i < thresholds@.len() && #[trigger] thresholds@[i] == (th as i64, true)
                        && th == thresholds@[i].0 as int) {
                    old(self).spec_total() / th
                } else {
                    old(self).last_multiple_of(th)
                },
            forall|th: int| #[trigger]
                final(self).once_of(th) == (old(self).once_of(th) || (exists|i: int|
                    0 <= i < thresholds@.len() && #[trigger] thresholds@[i] == (th as i64, false)
                        && th == thresholds@[i].0 as int && old(self).spec_total() >= th)),
    {
        let ghost pre = *self;
        let current_total = self.total;
        let n = thresholds.len();
        let mut k: usize = 0;
        while k < n
            invariant
                k <= n,
                n == thresholds@.len(),
                self.wf(),
                self.spec_total() == pre.spec_total(),
                current_total == pre.spec_total(),
                forall|i: int| 0 <= i < thresholds@.len() ==> (#[trigger] thresholds@[i]).0 > 0,
                forall|s: Seq<char>| #[trigger] self.source_total(s) == pre.source_total(s),
                forall|th: int| #[trigger]
                    self.last_multiple_of(th) == if (exists|i: int|
                        0 <= i < k && #[trigger] thresholds@[i] == (th as i64, true) && th
                            == thresholds@[i].0 as int) {
                        pre.spec_total() / th
                    } else {
                        pre.last_multiple_of(th)
                    },
                forall|th: int| #[trigger]
                    self.once_of(th) == (pre.once_of(th) || (exists|i: int|
                        0 <= i < k && #[trigger] thresholds@[i] == (th as i64, false) && th
                            == thresholds@[i].0 as int && pre.spec_total() >= th)),
            decreases n - k,
        {
            let (threshold, trigger_multiple) = thresholds[k];
            if trigger_multiple {
                let current_multiple = current_total / threshold;
                self.set_multiple(threshold, current_multiple);
            } else {
                if current_total >= threshold {
                    self.set_once(threshold);
                }
            }
            k += 1;
        }
    }
}

/// A well-formed tracker's total is never negative.
pub proof fn lemma_wf_total_nonneg(t: SatTracker)
    requires
        t.wf(),
    ensures
        t.spec_total() >= 0,
{
}

/// A tracker state as mathematics: the total, and the two trigger-memory
/// maps seen as total maps (0, respectively `false`, where nothing is
/// recorded).  The toggle policy is specified as a fold over this model.
#[verifier::ext_equal]
pub ghost struct TrackerModel {
    pub total: int,
    pub last_multiple: Map<int, int>,
    pub once: Map<int, bool>,
}

impl SatTracker {
    /// This tracker's state as a `TrackerModel`.
    pub open spec fn model(&self) -> TrackerModel {
        TrackerModel {
            total: self.spec_total(),
            last_multiple: Map::new(|th: int| true, |th: int| self.last_multiple_of(th)),
            once: Map::new(|th: int| true, |th: int| self.once_of(th)),
        }
    }
}

/// The sum of a sequence of added amounts.
pub open spec fn sum_of(amounts: Seq<i64>) -> int
    decreases amounts.len(),
{
    if amounts.len() == 0 {
        0
    } else {
        sum_of(amounts.drop_last()) + amounts.last()
    }
}

/// The total after an initial total and a sequence of additions.
pub open spec fn total_after(init: int, amounts: Seq<i64>) -> int {
    init + sum_of(amounts)
}

/// Law: over any sequence of non-negative added amounts, the running total
/// after each addition is non-decreasing, and the total after all of them
/// equals the initial total plus the sum of every amount added.  Each `add`
/// call realises one step of `total_after` (its new total is the old total
/// plus the amount), so the running total of a tracker follows this law.
pub proof fn lemma_total_monotonic(init: int, amounts: Seq<i64>)
    requires
        forall|i: int| 0 <= i < amounts.len() ==> #[trigger] amounts[i] >= 0,
    ensures
        total_after(init, amounts) == init + sum_of(amounts),
        forall|i: int|
            0 <= i < amounts.len() ==> #[trigger] total_after(init, amounts.take(i + 1))
                >= total_after(init, amounts.take(i)),
{
    assert forall|i: int|
        0 <= i < amounts.len() implies #[trigger] total_after(init, amounts.take(i + 1))
        >= total_after(init, amounts.take(i)) by {
        assert(amounts.take(i + 1).drop_last() =~= amounts.take(i));
        assert(amounts.take(i + 1).last() == amounts[i]);
    }
}

/// Law: once a fire-once threshold has fired, no later pair of totals can
/// make it fire again, however large the totals grow.
pub proof fn lemma_once_trigger_is_permanent(
    t: SatTracker,
    previous_total: int,
    new_total: int,
    threshold: int,
)
    requires
        t.once_of(threshold),
    ensures
        !t.spec_should_trigger(previous_total, new_total, threshold, false),
{
}

} // verus!
