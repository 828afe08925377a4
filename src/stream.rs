use crate::pool::ThrottlePool;
use vstd::prelude::*;

verus! {

/// The outcome of one poll of an inner sequence.
#[derive(Clone, Copy, Debug, PartialEq, Eq)]
pub enum Pulled<T> {
    /// Nothing is available yet.
    Pending,
    /// The next item.
    Item(T),
    /// The sequence has ended.
    Exhausted,
}

/// Where a throttled sequence stands within one pull cycle.
#[derive(Clone, Copy, Debug, PartialEq, Eq, Structural)]
pub enum Phase {
    /// No reservation is outstanding; the next pull asks for one.
    Idle,
    /// A slot starting at the given tick was reserved and has not yet been reached.
    AwaitingSlot(u64),
    /// The slot was reached; the inner sequence is being polled.
    AwaitingItem,
    /// The inner sequence ended; nothing more is reserved.
    Completed,
}

/// What the driver of a throttled sequence does next.
#[derive(Clone, Copy, Debug, PartialEq, Eq, Structural)]
pub enum Action {
    /// Wait until the slot that starts at the given tick has arrived.
    WaitFor(u64),
    /// Poll the inner sequence.
    PollInner,
    /// Report that the sequence has ended.
    Finished,
}

/// The phase after a pull begins, where `slot` is what a reservation would grant.
pub open spec fn after_begin(p: Phase, slot: u64) -> Phase {
    match p {
        Phase::Idle => Phase::AwaitingSlot(slot),
        _ => p,
    }
}

/// What the driver is told when a pull begins in phase `p`.
pub open spec fn begin_action(p: Phase, slot: u64) -> Action {
    match p {
        Phase::Idle => Action::WaitFor(slot),
        Phase::AwaitingSlot(s) => Action::WaitFor(s),
        Phase::AwaitingItem => Action::PollInner,
        Phase::Completed => Action::Finished,
    }
}

/// The phase after the inner sequence answered `r`.
pub open spec fn after_inner<T>(r: Pulled<T>) -> Phase {
    match r {
        Pulled::Pending => Phase::AwaitingItem,
        Pulled::Item(_) => Phase::Idle,
        Pulled::Exhausted => Phase::Completed,
    }
}

/// A throttled sequence driven over an inner sequence that holds `items`: its
/// phase, how many items were taken from the inner sequence, what it emitted, and
/// how many slots it reserved.
pub struct Run<T> {
    pub phase: Phase,
    pub pulled: nat,
    pub emitted: Seq<T>,
    pub reservations: nat,
}

/// What an inner sequence holding `items`, of which `pulled` were taken, answers
/// to a poll; `ready` says whether it has anything to say yet.
pub open spec fn inner_answer<T>(items: Seq<T>, pulled: nat, ready: bool) -> Pulled<T> {
    if !ready {
        Pulled::Pending
    } else if pulled < items.len() {
        Pulled::Item(items[pulled as int])
    } else {
        Pulled::Exhausted
    }
}

/// One poll of a throttled sequence, as `begin_pull`, `check_slot` and
/// `finish_pull` take it: `slot_ready` says whether the reserved slot has arrived,
/// `inner_ready` whether the inner sequence answers.
pub open spec fn poll_step<T>(r: Run<T>, items: Seq<T>, slot_ready: bool, inner_ready: bool) -> Run<T> {
    let reserved: nat = if r.phase is Idle {
        1
    } else {
        0
    };
    let begun = after_begin(r.phase, 0);
    let settled = if begun is AwaitingSlot && slot_ready {
        Phase::AwaitingItem
    } else {
        begun
    };
    if settled is AwaitingItem {
        let ans = inner_answer(items, r.pulled, inner_ready);
        Run {
            phase: after_inner(ans),
            pulled: if ans is Item {
                r.pulled + 1
            } else {
                r.pulled
            },
            emitted: match ans {
                Pulled::Item(x) => r.emitted.push(x),
                _ => r.emitted,
            },
            reservations: r.reservations + reserved,
        }
    } else {
        Run { phase: settled, pulled: r.pulled, emitted: r.emitted, reservations: r.reservations + reserved }
    }
}

/// A fresh throttled sequence driven by the polls `polls`, each a pair
/// `(slot_ready, inner_ready)`.
pub open spec fn run<T>(items: Seq<T>, polls: Seq<(bool, bool)>) -> Run<T>
    decreases polls.len(),
{
    if polls.len() == 0 {
        Run { phase: Phase::Idle, pulled: 0, emitted: Seq::empty(), reservations: 0 }
    } else {
        let last = polls.last();
        poll_step(run(items, polls.drop_last()), items, last.0, last.1)
    }
}

/// Items pass through unchanged: whatever the timing, what a throttled sequence
/// has emitted is exactly the items taken from the inner sequence so far, in
/// order, with none lost or repeated; it ends only after every item; and it holds
/// at most one reservation at a time, one per item plus the outstanding one.
pub proof fn lemma_items_pass_through<T>(items: Seq<T>, polls: Seq<(bool, bool)>)
    ensures
        run(items, polls).pulled <= items.len(),
        run(items, polls).emitted == items.take(run(items, polls).pulled as int),
        run(items, polls).phase is Completed ==> run(items, polls).pulled == items.len(),
        run(items, polls).reservations == run(items, polls).emitted.len() + if run(
            items,
            polls,
        ).phase is Idle {
            0nat
        } else {
            1nat
        },
    decreases polls.len(),
{
    if polls.len() > 0 {
        let r = run(items, polls.drop_last());
        lemma_items_pass_through(items, polls.drop_last());
        if r.pulled < items.len() {
            assert(items.take(r.pulled + 1int) =~= items.take(r.pulled as int).push(
                items[r.pulled as int],
            ));
        }
    }
}

proof fn lemma_ready_prefix<T>(items: Seq<T>, k: nat)
    requires
        k <= items.len(),
    ensures
        run(items, Seq::new(k, |i: int| (true, true))) == (Run {
            phase: Phase::Idle,
            pulled: k,
            emitted: items.take(k as int),
            reservations: k,
        }),
    decreases k,
{
    let polls = Seq::new(k, |i: int| (true, true));
    if k > 0 {
        assert(polls.drop_last() =~= Seq::new((k - 1) as nat, |i: int| (true, true)));
        lemma_ready_prefix(items, (k - 1) as nat);
        assert(items.take(k as int) =~= items.take(k - 1).push(items[k - 1]));
    } else {
        assert(items.take(0) =~= Seq::<T>::empty());
    }
}

/// An inner sequence of `k` items that always answers, throttled by a schedule
/// whose slots have always arrived, emits exactly those `k` items in order over
/// `k` polls and reports its end on the next.
pub proof fn lemma_ready_run_completes<T>(items: Seq<T>)
    ensures
        run(items, Seq::new(items.len() + 1, |i: int| (true, true))).phase is Completed,
        run(items, Seq::new(items.len() + 1, |i: int| (true, true))).emitted == items,
        run(items, Seq::new(items.len(), |i: int| (true, true))).emitted == items,
{
    let polls = Seq::new(items.len() + 1, |i: int| (true, true));
    assert(polls.drop_last() =~= Seq::new(items.len(), |i: int| (true, true)));
    lemma_ready_prefix(items, items.len());
    assert(items.take(items.len() as int) =~= items);
}

/// An inner sequence that never answers makes no progress, and a throttled
/// sequence over it reserves exactly one slot however often it is polled.
pub proof fn lemma_stalled_inner_one_reservation<T>(items: Seq<T>, polls: Seq<(bool, bool)>)
    requires
        polls.len() > 0,
        forall|i: int| 0 <= i < polls.len() ==> !(#[trigger] polls[i]).1,
    ensures
        run(items, polls).reservations == 1,
        run(items, polls).emitted.len() == 0,
        run(items, polls).pulled == 0,
        run(items, polls).phase is AwaitingSlot || run(items, polls).phase is AwaitingItem,
    decreases polls.len(),
{
    let p = polls.drop_last();
    if p.len() > 0 {
        assert forall|i: int| 0 <= i < p.len() implies !(#[trigger] p[i]).1 by {
            assert(p[i] == polls[i]);
        }
        lemma_stalled_inner_one_reservation(items, p);
    } else {
        assert(run(items, p).reservations == 0 && run(items, p).phase is Idle);
        assert(run(items, p).emitted.len() == 0);
    }
    assert(!polls.last().1) by {
        assert(polls.last() == polls[polls.len() - 1]);
    }
}

/// An inner sequence paced by a shared schedule: each pull first waits for a slot,
/// then polls the inner sequence until it answers.
pub struct Throttled<S> {
    stream: S,
    pool: ThrottlePool,
    phase: Phase,
    reservations: Ghost<nat>,
}

impl<S> Throttled<S> {
    /// The inner sequence.
    pub closed spec fn inner(&self) -> S {
        self.stream
    }

    /// The phase of the current pull cycle.
    pub closed spec fn spec_phase(&self) -> Phase {
        self.phase
    }

    /// How many slots this sequence has reserved so far.
    pub closed spec fn reservations(&self) -> nat {
        self.reservations@
    }

    /// The spacing of the schedule that paces this sequence.
    pub closed spec fn pool_interval(&self) -> nat {
        self.pool.spec_interval()
    }

    /// Paces `stream` by `pool`; no slot is reserved yet.
    pub fn new(stream: S, pool: ThrottlePool) -> (t: Throttled<S>)
        ensures
            t.inner() == stream,
            t.spec_phase() == Phase::Idle,
            t.reservations() == 0,
            t.pool_interval() == pool.spec_interval(),
    {
        Throttled { stream, pool, phase: Phase::Idle, reservations: Ghost(0) }
    }

    /// The phase of the current pull cycle.
    pub fn phase(&self) -> (r: Phase)
        ensures
            r == self.spec_phase(),
    {
        self.phase
    }

    /// The inner sequence, to be polled by the driver.
    pub fn stream_mut(&mut self) -> (r: &mut S)
        ensures
            *r == old(self).inner(),
            final(self).inner() == *final(r),
            final(self).spec_phase() == old(self).spec_phase(),
            final(self).reservations() == old(self).reservations(),
            final(self).pool_interval() == old(self).pool_interval(),
    {
        &mut self.stream
    }

    /// Begins a pull. Reserves a slot only where none is outstanding and the
    /// sequence has not ended.
    pub fn begin_pull(&mut self) -> (a: Action)
        ensures
            final(self).inner() == old(self).inner(),
            final(self).pool_interval() == old(self).pool_interval(),
            old(self).spec_phase() is Idle ==> a is WaitFor && final(self).reservations()
                == old(self).reservations() + 1,
            !(old(self).spec_phase() is Idle) ==> final(self).reservations() == old(
                self,
            ).reservations(),
            exists|slot: u64|
                a == begin_action(old(self).spec_phase(), slot) && final(self).spec_phase()
                    == after_begin(old(self).spec_phase(), slot),
    {
        match self.phase {
            Phase::Idle => {
                let g = self.pool.reserve();
                self.phase = Phase::AwaitingSlot(g.slot);
                self.reservations = Ghost(self.reservations@ + 1);
                assert(final(self).spec_phase() == after_begin(old(self).spec_phase(), g.slot));
                Action::WaitFor(g.slot)
            },
            Phase::AwaitingSlot(s) => {
                assert(final(self).spec_phase() == after_begin(old(self).spec_phase(), s));
                Action::WaitFor(s)
            },
            Phase::AwaitingItem => {
                assert(final(self).spec_phase() == after_begin(old(self).spec_phase(), 0));
                Action::PollInner
            },
            Phase::Completed => {
                assert(final(self).spec_phase() == after_begin(old(self).spec_phase(), 0));
                Action::Finished
            },
        }
    }

    /// Moves past the reserved slot once `wait`, the ticks left until it, is zero.
    pub fn settle_slot(&mut self, wait: u64)
        requires
            old(self).spec_phase() is AwaitingSlot,
        ensures
            final(self).inner() == old(self).inner(),
            final(self).pool_interval() == old(self).pool_interval(),
            final(self).reservations() == old(self).reservations(),
            final(self).spec_phase() == if wait == 0 {
                Phase::AwaitingItem
            } else {
                old(self).spec_phase()
            },
    {
        if wait == 0 {
            self.phase = Phase::AwaitingItem;
        }
    }

    /// Checks the clock against the reserved slot; returns the ticks left, and moves
    /// on to the inner sequence where none are.
    pub fn check_slot(&mut self) -> (wait: u64)
        requires
            old(self).spec_phase() is AwaitingSlot,
        ensures
            final(self).inner() == old(self).inner(),
            final(self).pool_interval() == old(self).pool_interval(),
            final(self).reservations() == old(self).reservations(),
            wait <= old(self).spec_phase()->AwaitingSlot_0,
            final(self).spec_phase() == if wait == 0 {
                Phase::AwaitingItem
            } else {
                old(self).spec_phase()
            },
    {
        let slot = match self.phase {
            Phase::AwaitingSlot(s) => s,
            _ => 0,
        };
        let wait = self.pool.remaining(slot);
        self.settle_slot(wait);
        wait
    }

    /// Ends a poll of the inner sequence: an item returns to `Idle`, an end
    /// completes the sequence, and nothing keeps the cycle open without a new
    /// reservation. The answer is handed on unchanged.
    pub fn finish_pull<T>(&mut self, r: Pulled<T>) -> (out: Pulled<T>)
        requires
            old(self).spec_phase() is AwaitingItem,
        ensures
            out == r,
            final(self).spec_phase() == after_inner(r),
            final(self).inner() == old(self).inner(),
            final(self).pool_interval() == old(self).pool_interval(),
            final(self).reservations() == old(self).reservations(),
    {
        match &r {
            Pulled::Pending => {},
            Pulled::Item(_) => {
                self.phase = Phase::Idle;
            },
            Pulled::Exhausted => {
                self.phase = Phase::Completed;
            },
        }
        r
    }
}

} // verus!
