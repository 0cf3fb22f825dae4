//! Admission of probes under a fixed degree of concurrency.
//!
//! The scheduler decides which candidate is probed next and keeps count of the
//! probes that are under way; running them is the caller's part. The caller
//! asks for the next probe until it is told to wait, runs what it was given,
//! and reports each probe's end, in whatever order the probes end.

use vstd::prelude::*;
use crate::address::Address;
use crate::probe::Latency;
use crate::ranking::ProbeResult;

verus! {

/// Number of `true` entries.
pub open spec fn count_true(flags: Seq<bool>) -> nat
    decreases flags.len(),
{
    if flags.len() == 0 {
        0
    } else {
        count_true(flags.drop_last()) + if flags.last() {
            1nat
        } else {
            0nat
        }
    }
}

/// The state of a scheduler.
#[verifier::ext_equal]
pub struct SchedulerState {
    /// The addresses to probe, in the order of their admission.
    pub candidates: Seq<Address>,
    /// How many probes may be under way at once.
    pub limit: nat,
    /// How many candidates have been admitted; a candidate's position is its ticket.
    pub started: nat,
    /// For each ticket, whether its probe has ended.
    pub resolved: Seq<bool>,
    /// The tickets of the probes that have ended, in the order of their ending.
    pub order: Seq<int>,
    /// The results reported so far, in the order of their arrival.
    pub results: Seq<ProbeResult>,
}

impl SchedulerState {
    /// The state before any probe is admitted.
    pub open spec fn initial(candidates: Seq<Address>, limit: nat) -> SchedulerState {
        SchedulerState {
            candidates,
            limit,
            started: 0,
            resolved: Seq::new(candidates.len(), |t: int| false),
            order: Seq::empty(),
            results: Seq::empty(),
        }
    }

    /// Number of probes that have been admitted and have not ended.
    pub open spec fn in_flight(self) -> int {
        self.started - self.results.len()
    }

    /// Number of candidates that wait for admission.
    pub open spec fn pending(self) -> int {
        self.candidates.len() - self.started
    }

    /// Whether the probe with this ticket is under way.
    pub open spec fn is_in_flight(self, ticket: int) -> bool {
        0 <= ticket < self.started && !self.resolved[ticket]
    }

    /// Whether the next candidate may be admitted: one waits, and a slot is free.
    pub open spec fn can_launch(self) -> bool {
        self.pending() > 0 && self.in_flight() < self.limit
    }

    /// The state after the next candidate is admitted.
    pub open spec fn launch(self) -> SchedulerState {
        SchedulerState { started: self.started + 1, ..self }
    }

    /// The state after the probe with this ticket has ended with this latency.
    pub open spec fn complete(self, ticket: int, latency: Option<Latency>) -> SchedulerState {
        SchedulerState {
            resolved: self.resolved.update(ticket, true),
            order: self.order.push(ticket),
            results: self.results.push(ProbeResult { address: self.candidates[ticket], latency }),
            ..self
        }
    }

    /// Whether every candidate has been probed and every probe has ended.
    pub open spec fn finished(self) -> bool {
        self.pending() == 0 && self.in_flight() == 0
    }

    /// What holds of every state that a scheduler reaches.
    pub open spec fn wf(self) -> bool {
        &&& self.limit >= 1
        &&& self.started <= self.candidates.len()
        &&& self.resolved.len() == self.candidates.len()
        &&& forall|t: int| self.started <= t < self.resolved.len() ==> !self.resolved[t]
        &&& self.results.len() == count_true(self.resolved)
        &&& self.results.len() <= self.started
        &&& self.in_flight() <= self.limit
        &&& self.order.len() == self.results.len()
        &&& self.order.no_duplicates()
        &&& forall|t: int| 0 <= t < self.resolved.len() ==> (self.resolved[t] <==> self.order.contains(t))
        &&& forall|i: int|
            0 <= i < self.order.len() ==> 0 <= #[trigger] self.order[i] < self.started
                && self.results[i].address == self.candidates[self.order[i]]
    }
}

/// Marking one more entry raises the count by one.
pub proof fn count_true_after_update(flags: Seq<bool>, at: int)
    requires
        0 <= at < flags.len(),
        !flags[at],
    ensures
        count_true(flags.update(at, true)) == count_true(flags) + 1,
    decreases flags.len(),
{
    if at == flags.len() - 1 {
        assert(flags.update(at, true).drop_last() =~= flags.drop_last());
    } else {
        count_true_after_update(flags.drop_last(), at);
        assert(flags.update(at, true).drop_last() =~= flags.drop_last().update(at, true));
    }
}

/// Where only the first `k` entries can be marked, at most `k` are; fewer
/// where one of them is not.
pub proof fn count_true_is_bounded(flags: Seq<bool>, k: int, unmarked: int)
    requires
        0 <= k <= flags.len(),
        forall|t: int| k <= t < flags.len() ==> !flags[t],
    ensures
        count_true(flags) <= k,
        0 <= unmarked < k && !flags[unmarked] ==> count_true(flags) < k,
    decreases flags.len(),
{
    if flags.len() > 0 {
        if k == flags.len() {
            count_true_is_bounded(flags.drop_last(), k - 1, unmarked);
        } else {
            count_true_is_bounded(flags.drop_last(), k, unmarked);
        }
    }
}

/// Where as many entries are marked as there are entries, each is marked.
pub proof fn all_marked_when_count_is_len(flags: Seq<bool>, at: int)
    requires
        count_true(flags) == flags.len(),
        0 <= at < flags.len(),
    ensures
        flags[at],
{
    if !flags[at] {
        count_true_is_bounded(flags, flags.len() as int, at);
    }
}

/// Where the first `k` entries are all marked, at least `k` entries are.
pub proof fn count_true_of_marked_prefix(flags: Seq<bool>, k: int)
    requires
        0 <= k <= flags.len(),
        forall|t: int| 0 <= t < k ==> flags[t],
    ensures
        count_true(flags) >= k,
    decreases flags.len(),
{
    if flags.len() > 0 {
        if k == flags.len() {
            count_true_of_marked_prefix(flags.drop_last(), k - 1);
        } else {
            count_true_of_marked_prefix(flags.drop_last(), k);
        }
    }
}

/// No entry of a list of unmarked entries counts.
pub proof fn count_true_of_unmarked(flags: Seq<bool>)
    requires
        forall|t: int| 0 <= t < flags.len() ==> !flags[t],
    ensures
        count_true(flags) == 0,
{
    count_true_is_bounded(flags, 0, 0);
}

/// A scheduler starts in a state that is well formed, with no probe under
/// way. With no candidates it starts finished, with no results.
pub proof fn initial_state_is_wf(candidates: Seq<Address>, limit: nat)
    requires
        limit >= 1,
    ensures
        SchedulerState::initial(candidates, limit).wf(),
        SchedulerState::initial(candidates, limit).in_flight() == 0,
        candidates.len() == 0 ==> SchedulerState::initial(candidates, limit).finished(),
        SchedulerState::initial(candidates, limit).results.len() == 0,
{
    count_true_of_unmarked(SchedulerState::initial(candidates, limit).resolved);
}

/// Admitting a candidate where that is allowed leaves the state well formed.
pub proof fn launch_keeps_wf(state: SchedulerState)
    requires
        state.wf(),
        state.can_launch(),
    ensures
        state.launch().wf(),
        state.launch().in_flight() == state.in_flight() + 1,
{
}

/// The end of a probe that is under way leaves the state well formed and one
/// slot more free.
pub proof fn complete_keeps_wf(state: SchedulerState, ticket: int, latency: Option<Latency>)
    requires
        state.wf(),
        state.is_in_flight(ticket),
    ensures
        state.complete(ticket, latency).wf(),
        state.complete(ticket, latency).in_flight() == state.in_flight() - 1,
{
    let after = state.complete(ticket, latency);
    count_true_after_update(state.resolved, ticket);
    count_true_is_bounded(state.resolved, state.started as int, ticket);
    assert forall|t: int| 0 <= t < after.resolved.len() implies (after.resolved[t]
        <==> after.order.contains(t)) by {
        if t == ticket {
            assert(after.order[state.order.len() as int] == ticket);
        } else if state.resolved[t] {
            let i = choose|i: int| 0 <= i < state.order.len() && state.order[i] == t;
            assert(after.order[i] == t);
        } else if after.order.contains(t) {
            let i = choose|i: int| 0 <= i < after.order.len() && after.order[i] == t;
            assert(state.order[i] == t);
        }
    }
    assert(after.order.no_duplicates()) by {
        assert forall|i: int, j: int|
            0 <= i < after.order.len() && 0 <= j < after.order.len() && i != j implies after.order[i]
            != after.order[j] by {
            if i < state.order.len() {
                assert(state.order.contains(state.order[i]));
            }
            if j < state.order.len() {
                assert(state.order.contains(state.order[j]));
            }
        }
    }
}

/// The end of one probe touches no other: every other probe is under way
/// after it exactly if it was before, and the results that were there stay.
pub proof fn completion_leaves_other_probes(
    state: SchedulerState,
    ticket: int,
    latency: Option<Latency>,
    other: int,
)
    requires
        state.wf(),
        state.is_in_flight(ticket),
        other != ticket,
    ensures
        state.complete(ticket, latency).is_in_flight(other) == state.is_in_flight(other),
        state.complete(ticket, latency).results.take(state.results.len() as int) == state.results,
{
    assert(state.complete(ticket, latency).results.take(state.results.len() as int)
        =~= state.results);
}

/// In no state that a scheduler reaches are more probes under way than its limit.
pub proof fn in_flight_never_exceeds_limit(state: SchedulerState)
    requires
        state.wf(),
    ensures
        0 <= state.in_flight() <= state.limit,
{
}

/// When a probe ends while candidates wait, the next one can be admitted at
/// once: no slot stays idle while candidates are queued.
pub proof fn freed_slot_is_refilled(state: SchedulerState, ticket: int, latency: Option<Latency>)
    requires
        state.wf(),
        state.is_in_flight(ticket),
        state.pending() > 0,
    ensures
        state.complete(ticket, latency).can_launch(),
{
    complete_keeps_wf(state, ticket, latency);
}

/// A scheduler that is not finished can go on: a candidate can be admitted,
/// or a probe is under way whose end can be reported.
pub proof fn unfinished_state_can_progress(state: SchedulerState)
    requires
        state.wf(),
        !state.finished(),
    ensures
        state.can_launch() || exists|ticket: int| state.is_in_flight(ticket),
{
    if !state.can_launch() {
        assert(state.in_flight() > 0);
        if forall|t: int| 0 <= t < state.started ==> state.resolved[t] {
            count_true_of_marked_prefix(state.resolved, state.started as int);
        }
        let t = choose|t: int| 0 <= t < state.started && !state.resolved[t];
        assert(state.is_in_flight(t));
    }
}

/// Once a scheduler is finished there is one result for every candidate: as
/// many results as candidates, and each candidate's ticket among those of the
/// results exactly once.
pub proof fn finished_state_has_every_result(state: SchedulerState)
    requires
        state.wf(),
        state.finished(),
    ensures
        state.results.len() == state.candidates.len(),
        state.order.no_duplicates(),
        forall|t: int| 0 <= t < state.candidates.len() ==> state.order.contains(t),
        forall|i: int|
            0 <= i < state.results.len() ==> state.results[i].address
                == state.candidates[#[trigger] state.order[i]],
{
    assert forall|t: int| 0 <= t < state.candidates.len() implies state.order.contains(t) by {
        all_marked_when_count_is_len(state.resolved, t);
    }
}


/// Decides the order and the number of probes under way for one set of candidates.
pub struct ProbeScheduler {
    candidates: Vec<Address>,
    limit: usize,
    started: usize,
    resolved: Vec<bool>,
    order: Ghost<Seq<int>>,
    results: Vec<ProbeResult>,
}

impl View for ProbeScheduler {
    type V = SchedulerState;

    closed spec fn view(&self) -> SchedulerState {
        SchedulerState {
            candidates: self.candidates@,
            limit: self.limit as nat,
            started: self.started as nat,
            resolved: self.resolved@,
            order: self.order@,
            results: self.results@,
        }
    }
}

impl ProbeScheduler {
    /// Whether the scheduler is in a state that a scheduler reaches.
    pub open spec fn wf(&self) -> bool {
        self@.wf()
    }

    /// A scheduler for these candidates that lets at most `limit` probes run at once.
    pub fn new(candidates: Vec<Address>, limit: usize) -> (scheduler: ProbeScheduler)
        requires
            limit >= 1,
        ensures
            scheduler.wf(),
            scheduler@ == SchedulerState::initial(candidates@, limit as nat),
    {
        let mut resolved: Vec<bool> = Vec::new();
        let mut at: usize = 0;
        while at < candidates.len()
            invariant
                at <= candidates@.len(),
                resolved@.len() == at,
                forall|t: int| 0 <= t < at ==> !resolved@[t],
            decreases candidates@.len() - at,
        {
            resolved.push(false);
            at = at + 1;
        }
        let scheduler = ProbeScheduler {
            candidates,
            limit,
            started: 0,
            resolved,
            order: Ghost(Seq::empty()),
            results: Vec::new(),
        };
        proof {
            initial_state_is_wf(candidates@, limit as nat);
            assert(scheduler@.resolved =~= SchedulerState::initial(
                candidates@,
                limit as nat,
            ).resolved);
            assert(scheduler@ =~= SchedulerState::initial(candidates@, limit as nat));
        }
        scheduler
    }

    /// Number of probes under way.
    pub fn in_flight(&self) -> (n: usize)
        requires
            self.wf(),
        ensures
            n == self@.in_flight(),
            n <= self@.limit,
    {
        self.started - self.results.len()
    }

    /// Number of candidates that wait for admission.
    pub fn pending(&self) -> (n: usize)
        requires
            self.wf(),
        ensures
            n == self@.pending(),
    {
        self.candidates.len() - self.started
    }

    /// Whether every candidate has been probed and every probe has ended.
    pub fn is_finished(&self) -> (finished: bool)
        requires
            self.wf(),
        ensures
            finished == self@.finished(),
    {
        self.started == self.candidates.len() && self.results.len() == self.started
    }

    /// Admits the next candidate if one waits and fewer probes than the limit
    /// are under way, and hands out its ticket and address; otherwise changes
    /// nothing and hands out nothing.
    pub fn next_probe(&mut self) -> (next: Option<(usize, Address)>)
        requires
            old(self).wf(),
        ensures
            final(self).wf(),
            old(self)@.can_launch() ==> final(self)@ == old(self)@.launch() && next == Some(
                (old(self)@.started as usize, old(self)@.candidates[old(self)@.started as int]),
            ),
            !old(self)@.can_launch() ==> final(self)@ == old(self)@ && next.is_none(),
    {
        if self.started < self.candidates.len() && self.started - self.results.len() < self.limit {
            let ticket = self.started;
            let address = self.candidates[ticket];
            proof {
                launch_keeps_wf(self@);
            }
            self.started = ticket + 1;
            assert(self@ =~= old(self)@.launch());
            Some((ticket, address))
        } else {
            None
        }
    }

    /// Records the end of the probe with this ticket, with the latency it
    /// measured or with none, and frees its slot. A ticket whose probe is not
    /// under way is refused and changes nothing.
    pub fn complete(&mut self, ticket: usize, latency: Option<Latency>) -> (accepted: bool)
        requires
            old(self).wf(),
        ensures
            final(self).wf(),
            accepted == old(self)@.is_in_flight(ticket as int),
            accepted ==> final(self)@ == old(self)@.complete(ticket as int, latency),
            !accepted ==> final(self)@ == old(self)@,
    {
        if ticket < self.started && !self.resolved[ticket] {
            proof {
                complete_keeps_wf(self@, ticket as int, latency);
            }
            let address = self.candidates[ticket];
            self.resolved.set(ticket, true);
            self.results.push(ProbeResult { address, latency });
            self.order = Ghost(self.order@.push(ticket as int));
            assert(self@ =~= old(self)@.complete(ticket as int, latency));
            true
        } else {
            false
        }
    }

    /// The results reported so far, in the order of their arrival.
    pub fn results(&self) -> (results: &Vec<ProbeResult>)
        ensures
            results@ == self@.results,
    {
        &self.results
    }

    /// Gives up the scheduler for the results it has collected.
    pub fn into_results(self) -> (results: Vec<ProbeResult>)
        ensures
            results@ == self@.results,
    {
        self.results
    }
}

} // verus!
