//! The listener lifecycle supervisor: one cancellable ingestion task per
//! boost source, with at most one live task per source at any instant.
//!
//! The supervisor owns the bookkeeping and the decisions; the surrounding
//! process spawns and joins the actual tasks.  Each task is identified by a
//! token: a fresh index into the supervisor's token table.  Starting a
//! source that is already running first cancels the old task's token, and
//! the caller is told which token to cancel and join (with a bounded wait)
//! before the new task runs.

use vstd::prelude::*;

use crate::assoc::{
    keys_unique, lemma_lookup_at_index, lemma_lookup_none, lemma_lookup_none_of_unique,
    lemma_lookup_push, lemma_lookup_remove, lemma_unique_push, spec_lookup,
};

verus! {

/// The lifecycle of one source's listener task.
#[derive(Clone, Debug, PartialEq, Eq, Structural)]
pub enum ListenerState {
    Stopped,
    Starting,
    Backfilling,
    Live,
    Cancelled,
    Errored,
}

/// The bookkeeping for one running listener task.
pub struct ListenerHandle {
    pub source_id: String,
    pub token: usize,
}

/// The handle table, with sources seen as character sequences and tokens as
/// integers.
pub open spec fn handle_entries(handles: Seq<ListenerHandle>) -> Seq<(Seq<char>, int)> {
    handles.map_values(|h: ListenerHandle| (h.source_id@, h.token as int))
}

/// Owns one listener handle per running source, and the cancellation state
/// of every token ever issued.
pub struct ListenerSupervisor {
    handles: Vec<ListenerHandle>,
    tokens: Vec<bool>,
}

impl ListenerSupervisor {
    /// How many tokens have been issued.
    pub closed spec fn token_count(&self) -> nat {
        self.tokens@.len()
    }

    /// Whether a token has been cancelled.
    pub closed spec fn cancelled(&self, token: int) -> bool {
        0 <= token < self.tokens@.len() && self.tokens@[token]
    }

    /// The token of the running task for a source, if one runs.
    pub closed spec fn token_of(&self, source: Seq<char>) -> Option<int> {
        spec_lookup(handle_entries(self.handles@), source)
    }

    /// Whether a task is running for a source.
    pub open spec fn has_source(&self, source: Seq<char>) -> bool {
        self.token_of(source) is Some
    }

    /// How many handles the supervisor holds.
    pub closed spec fn handle_count(&self) -> nat {
        self.handles@.len()
    }

    /// The source of the handle at an index.
    pub closed spec fn source_at(&self, i: int) -> Seq<char> {
        self.handles@[i].source_id@
    }

    /// Well-formedness: at most one handle per source, every handle's token
    /// issued, not cancelled, and held by no other handle.
    pub closed spec fn wf(&self) -> bool {
        &&& keys_unique(handle_entries(self.handles@))
        &&& forall|i: int|
            0 <= i < self.handles@.len() ==> (#[trigger] self.handles@[i]).token
                < self.tokens@.len() && !self.tokens@[self.handles@[i].token as int]
        &&& forall|i: int, j: int|
            0 <= i < j < self.handles@.len() ==> (#[trigger] self.handles@[i]).token != (
            #[trigger] self.handles@[j]).token
    }

    pub fn new() -> (s: ListenerSupervisor)
        ensures
            s.wf(),
            s.handle_count() == 0,
            s.token_count() == 0,
            forall|src: Seq<char>| !s.has_source(src),
    {
        let s = ListenerSupervisor { handles: Vec::new(), tokens: Vec::new() };
        proof {
            assert(handle_entries(s.handles@) =~= Seq::<(Seq<char>, int)>::empty());
        }
        s
    }

    /// The index of the handle for a source, if one is held.
    fn find_handle(&self, source: &str) -> (r: Option<usize>)
        ensures
            match r {
                Some(i) => i < self.handles@.len() && handle_entries(self.handles@)[i as int].0
                    == source@,
                None => forall|j: int|
                    0 <= j < self.handles@.len() ==> (#[trigger] handle_entries(
                        self.handles@,
                    )[j]).0 != source@,
            },
    {
        let n = self.handles.len();
        let mut i: usize = 0;
        while i < n
            invariant
                i <= n,
                n == self.handles@.len(),
                forall|j: int|
                    0 <= j < i ==> (#[trigger] handle_entries(self.handles@)[j]).0 != source@,
            decreases n - i,
        {
            if crate::strutil::str_eq(self.handles[i].source_id.as_str(), source) {
                return Some(i);
            }
            i += 1;
        }
        None
    }

    /// Stop a source's task, if one runs: cancel its token, drop the handle,
    /// and tell the caller which token to join with a bounded wait.  The
    /// handle is removed whether or not the join later times out.
    pub fn stop(&mut self, source: &str) -> (r: Option<usize>)
        requires
            old(self).wf(),
        ensures
            final(self).wf(),
            !final(self).has_source(source@),
            match r {
                Some(t) => old(self).token_of(source@) == Some(t as int) && final(self).cancelled(
                    t as int,
                ),
                None => !old(self).has_source(source@),
            },
            forall|src: Seq<char>|
                src != source@ ==> #[trigger] final(self).token_of(src) == old(self).token_of(src),
            final(self).token_count() == old(self).token_count(),
            forall|t: int|
                (match r {
                    Some(c) => t != c as int,
                    None => true,
                }) ==> #[trigger] final(self).cancelled(t) == old(self).cancelled(t),
    {
        let found = self.find_handle(source);
        match found {
            Some(i) => {
                proof {
                    lemma_lookup_at_index(handle_entries(self.handles@), source@, i as int);
                }
                let handle = self.handles.remove(i);
                let token = handle.token;
                self.tokens[token] = true;
                proof {
                    let olds = handle_entries(old(self).handles@);
                    assert(handle_entries(self.handles@) =~= olds.remove(i as int));
                    lemma_lookup_remove(olds, i as int);
                    assert forall|j: int|
                        0 <= j < self.handles@.len() implies (#[trigger] self.handles@[j]).token
                        < self.tokens@.len() && !self.tokens@[self.handles@[j].token as int] by {
                        let j0 = if j < i { j } else { j + 1 };
                        assert(self.handles@[j] == old(self).handles@[j0]);
                        assert(handle_entries(old(self).handles@)[j0].0 == old(
                            self,
                        ).handles@[j0].source_id@);
                        assert(handle_entries(old(self).handles@)[i as int].0 == source@);
                        assert(old(self).handles@[j0].token != token);
                    }
                    assert forall|a: int, b: int|
                        0 <= a < b < self.handles@.len() implies (#[trigger] self.handles@[a]).token
                        != (#[trigger] self.handles@[b]).token by {
                        let a0 = if a < i { a } else { a + 1 };
                        let b0 = if b < i { b } else { b + 1 };
                        assert(self.handles@[a] == old(self).handles@[a0]);
                        assert(self.handles@[b] == old(self).handles@[b0]);
                    }
                }
                Some(token)
            },
            None => {
                proof {
                    lemma_lookup_none_of_unique(handle_entries(self.handles@), source@);
                }
                None
            },
        }
    }

    /// Start (or restart) a source's listener task: stop any task already
    /// running for the source, then issue a fresh, uncancelled token under
    /// which the caller spawns the new task.  Returns the token of the old
    /// task to join, if one ran, and the fresh token.  After the call the
    /// supervisor holds exactly one handle for the source.
    pub fn start(&mut self, source: &str) -> (r: (Option<usize>, usize))
        requires
            old(self).wf(),
        ensures
            final(self).wf(),
            final(self).token_of(source@) == Some(r.1 as int),
            r.1 as int == old(self).token_count(),
            final(self).token_count() == old(self).token_count() + 1,
            !final(self).cancelled(r.1 as int),
            match r.0 {
                Some(t) => old(self).token_of(source@) == Some(t as int) && final(self).cancelled(
                    t as int,
                ),
                None => !old(self).has_source(source@),
            },
            forall|src: Seq<char>|
                src != source@ ==> #[trigger] final(self).token_of(src) == old(self).token_of(src),
            forall|t: int|
                (match r.0 {
                    Some(c) => t != c as int,
                    None => true,
                }) && t != r.1 as int ==> #[trigger] final(self).cancelled(t) == old(
                    self,
                ).cancelled(t),
    {
        let stopped = self.stop(source);
        let ghost mid = *self;
        let token = self.tokens.len();
        self.tokens.push(false);
        self.handles.push(ListenerHandle { source_id: source.to_owned(), token });
        proof {
            let mids = handle_entries(mid.handles@);
            assert(handle_entries(self.handles@) =~= mids.push((source@, token as int)));
            lemma_lookup_push(mids, source@, token as int);
            lemma_lookup_none(mids, source@);
            lemma_unique_push(mids, source@, token as int);
            assert forall|j: int|
                0 <= j < self.handles@.len() implies (#[trigger] self.handles@[j]).token
                < self.tokens@.len() && !self.tokens@[self.handles@[j].token as int] by {
                if j < mid.handles@.len() {
                    assert(self.handles@[j] == mid.handles@[j]);
                } else {
                    assert(self.handles@[j].token == token);
                }
            }
            assert forall|a: int, b: int|
                0 <= a < b < self.handles@.len() implies (#[trigger] self.handles@[a]).token != (
            #[trigger] self.handles@[b]).token by {
                if b < mid.handles@.len() {
                    assert(self.handles@[a] == mid.handles@[a]);
                    assert(self.handles@[b] == mid.handles@[b]);
                } else {
                    assert(self.handles@[a] == mid.handles@[a]);
                    assert(self.handles@[b].token == token);
                }
            }
            assert forall|src: Seq<char>|
                src != source@ implies #[trigger] self.token_of(src) == mid.token_of(src) by {
                assert(handle_entries(self.handles@) == mids.push((source@, token as int)));
                assert(spec_lookup(mids.push((source@, token as int)), src) == spec_lookup(
                    mids,
                    src,
                ));
            }
            assert forall|t: int|
                t != token as int implies #[trigger] self.cancelled(t) == mid.cancelled(t) by {
                if 0 <= t < mid.tokens@.len() {
                    assert(self.tokens@[t] == mid.tokens@[t]);
                }
            }
        }
        (stopped, token)
    }
}

/// Whether a delivered boost may dispatch effects: only in the live phase,
/// and only when its wire timestamp does not precede the live-subscription
/// start.  A boost replayed during backfill, or re-delivered from before
/// the boundary, updates the totals without firing anything.
pub fn should_dispatch(phase: &ListenerState, event_ts: u64, live_since: u64) -> (r: bool)
    ensures
        r == (phase matches ListenerState::Live && event_ts >= live_since),
{
    match phase {
        ListenerState::Live => event_ts >= live_since,
        _ => false,
    }
}

/// Law: a well-formed supervisor never holds two handles for one source —
/// at any instant there is at most one live task per source id.
pub proof fn lemma_at_most_one_listener(s: ListenerSupervisor, i: int, j: int)
    requires
        s.wf(),
        0 <= i < j < s.handle_count(),
    ensures
        s.source_at(i) != s.source_at(j),
{
    assert(handle_entries(s.handles@)[i].0 == s.source_at(i));
    assert(handle_entries(s.handles@)[j].0 == s.source_at(j));
}

} // verus!
