use crate::rate::ThrottleRate;
use std::sync::atomic::{AtomicU64, Ordering};
use std::sync::Arc;
use std::time::{Duration, Instant};
use vstd::arithmetic::div_mod::{lemma_div_by_multiple, lemma_div_is_ordered};
use vstd::prelude::*;
use vstd::set_lib::{lemma_int_range, lemma_len_subset, set_int_range};

verus! {

/// The slot granted to a request made at tick `now` when the cursor reads `cursor`:
/// the later of the two. A cursor of zero is a schedule that never granted.
pub open spec fn slot_for(cursor: u64, now: u64) -> u64 {
    if cursor >= now {
        cursor
    } else {
        now
    }
}

/// The cursor after a grant: one interval past the granted slot, saturating at the
/// largest tick.
pub open spec fn cursor_after(cursor: u64, now: u64, interval: u64) -> u64 {
    let slot = slot_for(cursor, now);
    if slot + interval <= u64::MAX {
        (slot + interval) as u64
    } else {
        u64::MAX
    }
}

/// How long a holder of `slot` still has to wait at tick `now`.
pub open spec fn wait_for(slot: u64, now: u64) -> u64 {
    if slot > now {
        (slot - now) as u64
    } else {
        0
    }
}

/// The slot that a request at tick `now` is granted from the cursor value `cursor`.
pub fn reserved_slot(cursor: u64, now: u64) -> (r: u64)
    ensures
        r == slot_for(cursor, now),
{
    if cursor >= now {
        cursor
    } else {
        now
    }
}

/// The cursor value that follows a grant at tick `now` from the cursor value `cursor`.
pub fn next_cursor(cursor: u64, now: u64, interval: u64) -> (r: u64)
    ensures
        r == cursor_after(cursor, now, interval),
{
    let slot = reserved_slot(cursor, now);
    slot.saturating_add(interval)
}

/// The ticks left until `slot` at tick `now`; zero once it has arrived.
pub fn remaining_wait(slot: u64, now: u64) -> (r: u64)
    ensures
        r == wait_for(slot, now),
{
    if slot > now {
        slot - now
    } else {
        0
    }
}

/// The cursor after requests at the ticks `nows`, served in order from the cursor `c0`.
pub open spec fn cursor_after_all(c0: u64, nows: Seq<u64>, interval: u64) -> u64
    decreases nows.len(),
{
    if nows.len() == 0 {
        c0
    } else {
        cursor_after(cursor_after_all(c0, nows.drop_last(), interval), nows.last(), interval)
    }
}

/// The slots granted to requests at the ticks `nows`, served in order from the
/// cursor `c0`.
pub open spec fn grants(c0: u64, nows: Seq<u64>, interval: u64) -> Seq<u64>
    decreases nows.len(),
{
    if nows.len() == 0 {
        Seq::empty()
    } else {
        grants(c0, nows.drop_last(), interval).push(
            slot_for(cursor_after_all(c0, nows.drop_last(), interval), nows.last()),
        )
    }
}

/// No grant came so close to the largest tick that the cursor saturated.
pub open spec fn unsaturated(g: Seq<u64>, interval: u64) -> bool {
    forall|k: int| 0 <= k < g.len() ==> #[trigger] g[k] + interval <= u64::MAX
}

/// The number of grants that fall within the ticks `a ..= a + t`.
pub open spec fn grants_in_window(g: Seq<u64>, a: int, t: nat) -> nat {
    Set::new(|k: int| 0 <= k < g.len() && a <= g[k] && g[k] <= a + t).len()
}

proof fn lemma_cursor_past_last(c0: u64, nows: Seq<u64>, interval: u64)
    requires
        unsaturated(grants(c0, nows, interval), interval),
    ensures
        grants(c0, nows, interval).len() == nows.len(),
        nows.len() > 0 ==> cursor_after_all(c0, nows, interval) == grants(
            c0,
            nows,
            interval,
        ).last() + interval,
        forall|k: int|
            0 <= k < nows.len() - 1 ==> #[trigger] grants(c0, nows, interval)[k + 1]
                >= grants(c0, nows, interval)[k] + interval,
    decreases nows.len(),
{
    if nows.len() > 0 {
        let p = nows.drop_last();
        let g = grants(c0, nows, interval);
        let gp = grants(c0, p, interval);
        assert(g == gp.push(slot_for(cursor_after_all(c0, p, interval), nows.last())));
        assert forall|k: int| 0 <= k < gp.len() implies #[trigger] gp[k] + interval
            <= u64::MAX by {
            assert(gp[k] == g[k]);
        }
        lemma_cursor_past_last(c0, p, interval);
        assert(g.last() + interval <= u64::MAX) by {
            assert(g.last() == g[g.len() - 1]);
        }
        assert forall|k: int| 0 <= k < nows.len() - 1 implies #[trigger] g[k + 1] >= g[k]
            + interval by {
            if k + 1 < gp.len() {
                assert(g[k] == gp[k] && g[k + 1] == gp[k + 1]);
            } else {
                assert(g[k] == gp.last());
            }
        }
    }
}

/// Grants are spaced: any two grants served from one cursor, the later `d`
/// requests after the earlier, are at least `d` intervals apart, whatever ticks
/// the requests came at, as long as the cursor never saturated.
pub proof fn lemma_grants_spaced(c0: u64, nows: Seq<u64>, interval: u64)
    requires
        unsaturated(grants(c0, nows, interval), interval),
    ensures
        grants(c0, nows, interval).len() == nows.len(),
        forall|i: int, j: int|
            0 <= i <= j < nows.len() ==> #[trigger] grants(c0, nows, interval)[j]
                >= #[trigger] grants(c0, nows, interval)[i] + (j - i) * interval,
{
    let g = grants(c0, nows, interval);
    lemma_cursor_past_last(c0, nows, interval);
    assert forall|i: int, j: int| 0 <= i <= j < nows.len() implies #[trigger] g[j] >= #[trigger] g[i]
        + (j - i) * interval by {
        lemma_spaced_from(g, interval, i, j);
    }
}

proof fn lemma_spaced_from(g: Seq<u64>, interval: u64, i: int, j: int)
    requires
        0 <= i <= j < g.len(),
        forall|k: int| 0 <= k < g.len() - 1 ==> #[trigger] g[k + 1] >= g[k] + interval,
    ensures
        g[j] >= g[i] + (j - i) * interval,
    decreases j - i,
{
    if j > i {
        lemma_spaced_from(g, interval, i, j - 1);
        assert(g[(j - 1) + 1] >= g[j - 1] + interval);
        assert((j - i) * interval == (j - 1 - i) * interval + interval) by (nonlinear_arith);
    } else {
        assert((j - i) * interval == 0) by (nonlinear_arith)
            requires
                j == i,
        ;
    }
}

/// Over any window of `t` ticks, a schedule with a positive interval grants at most
/// `t / interval + 1` slots (so never more than `ceil(t / interval) + 1`), however
/// many holders share it and whenever they ask.
pub proof fn lemma_window_bound(c0: u64, nows: Seq<u64>, interval: u64, a: int, t: nat)
    requires
        interval > 0,
        unsaturated(grants(c0, nows, interval), interval),
    ensures
        grants_in_window(grants(c0, nows, interval), a, t) <= (t as int) / (interval as int) + 1,
{
    let g = grants(c0, nows, interval);
    lemma_grants_spaced(c0, nows, interval);
    let w = Set::new(|k: int| 0 <= k < g.len() && a <= g[k] && g[k] <= a + t);
    let q = (t as int) / (interval as int);
    if w.is_empty() {
        assert(w.len() == 0);
    } else {
        lemma_least(w, w.choose());
        let first = choose|k: int| w.contains(k) && forall|m: int| w.contains(m) ==> k <= m;
        assert(w.contains(first));
        assert forall|m: int| w.contains(m) implies set_int_range(first, first + q + 1).contains(m) by {
            assert(g[m] >= g[first] + (m - first) * interval);
            lemma_div_is_ordered((m - first) * interval, t as int, interval as int);
            lemma_div_by_multiple(m - first, interval as int);
        }
        lemma_int_range(first, first + q + 1);
        lemma_len_subset(w, set_int_range(first, first + q + 1));
    }
}

proof fn lemma_least(w: Set<int>, i: int)
    requires
        w.contains(i),
        forall|m: int| w.contains(m) ==> m >= 0,
    ensures
        exists|k: int| w.contains(k) && forall|m: int| w.contains(m) ==> k <= m,
    decreases i,
{
    if exists|m: int| w.contains(m) && m < i {
        let m = choose|m: int| w.contains(m) && m < i;
        lemma_least(w, m);
    } else {
        assert(forall|m: int| w.contains(m) ==> i <= m);
    }
}

/// A reservation is never refunded: once a slot was granted, any later request
/// is granted a slot at least one interval past it, whatever became of the first.
pub proof fn lemma_no_refund(cursor: u64, now: u64, later: u64, interval: u64)
    requires
        slot_for(cursor, now) + interval <= u64::MAX,
    ensures
        slot_for(cursor_after(cursor, now, interval), later) >= slot_for(cursor, now)
            + interval,
{
}

/// std's monotonic `Instant`, carried opaque as the origin of a schedule's ticks.
#[verifier::external_type_specification]
#[verifier::external_body]
pub struct ExInstant(Instant);

/// Relies on Instant::now: reads the monotonic clock; nothing is known of the value.
pub assume_specification[ Instant::now ]() -> Instant;

/// Relies on Instant::elapsed: the time since the instant; nothing is known of the value.
pub assume_specification[ Instant::elapsed ](i: &Instant) -> Duration;

/// Relies on Duration::as_nanos: the whole span in nanoseconds.
pub assume_specification[ Duration::as_nanos ](d: &Duration) -> u128;

/// Relies on AtomicU64::fetch_update: reads the cursor, stores the value that
/// `next_cursor` gives for it, retrying until no other writer came in between, and
/// returns the value read. The value depends on the other holders, so nothing is
/// stated of it.
#[verifier::external_body]
fn advance_cursor(cursor: &AtomicU64, now: u64, interval: u64) -> (prev: u64) {
    cursor.fetch_update(
        Ordering::AcqRel,
        Ordering::Acquire,
        |c| Some(next_cursor(c, now, interval)),
    ).unwrap_or_else(|c| c)
}

/// One slot handed out by a schedule: the tick at which it was asked for and the
/// tick at which it begins.
#[derive(Clone, Copy, Debug, PartialEq, Eq, Structural)]
pub struct Grant {
    pub issued_at: u64,
    pub slot: u64,
}

/// A handle to a shared schedule of slots. Clones share one cursor; ticks are
/// nanoseconds since the schedule was built.
#[derive(Debug)]
pub struct ThrottlePool {
    interval: u64,
    cursor: Arc<AtomicU64>,
    epoch: Instant,
}

impl ThrottlePool {
    /// The spacing between slots, in nanoseconds.
    pub closed spec fn spec_interval(&self) -> nat {
        self.interval as nat
    }

    /// A fresh schedule for `rate`, which has not granted any slot.
    pub fn new(rate: ThrottleRate) -> (p: ThrottlePool)
        ensures
            p.spec_interval() == rate.spec_interval(),
    {
        ThrottlePool {
            interval: rate.interval(),
            cursor: Arc::new(AtomicU64::new(0)),
            epoch: Instant::now(),
        }
    }

    /// The spacing between slots, in nanoseconds.
    pub fn interval(&self) -> (r: u64)
        ensures
            r == self.spec_interval(),
    {
        self.interval
    }

    /// The ticks since the schedule was built, saturating at the largest tick.
    pub fn now(&self) -> u64 {
        let nanos: u128 = self.epoch.elapsed().as_nanos();
        if nanos > u64::MAX as u128 {
            u64::MAX
        } else {
            nanos as u64
        }
    }

    /// Reserves the next slot: the later of the cursor and the present tick. The
    /// cursor moves one interval past it at once, whether or not the holder ever
    /// waits for the slot.
    pub fn reserve(&self) -> (g: Grant)
        ensures
            g.slot >= g.issued_at,
    {
        let now = self.now();
        let prev = advance_cursor(&self.cursor, now, self.interval);
        let slot = reserved_slot(prev, now);
        Grant { issued_at: now, slot }
    }

    /// The ticks left until `slot`; zero once it has arrived.
    pub fn remaining(&self, slot: u64) -> (r: u64)
        ensures
            r <= slot,
    {
        let now = self.now();
        remaining_wait(slot, now)
    }
}

/// Another handle to the same cursor.
impl Clone for ThrottlePool {
    fn clone(&self) -> (r: ThrottlePool)
        ensures
            r.spec_interval() == self.spec_interval(),
    {
        ThrottlePool { interval: self.interval, cursor: self.cursor.clone(), epoch: self.epoch }
    }
}

} // verus!
