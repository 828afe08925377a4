use stream_throttle::pool::{next_cursor, remaining_wait, reserved_slot};
use stream_throttle::{Action, ConfigError, Phase, Pulled, ThrottlePool, ThrottleRate, Throttled};
use std::collections::VecDeque;

const SECOND: u64 = 1_000_000_000;
const HOUR: u64 = 3600 * SECOND;

fn pool(count: u64, duration_nanos: u64) -> ThrottlePool {
    ThrottlePool::new(ThrottleRate::new(count, duration_nanos).unwrap())
}

/// Drives one poll of `t` over `inner`, treating the reserved slot as arrived when
/// `slot_ready` holds and the inner sequence as answering when `inner_ready` holds.
fn poll_once(
    t: &mut Throttled<VecDeque<u32>>,
    slot_ready: bool,
    inner_ready: bool,
) -> Pulled<u32> {
    match t.begin_pull() {
        Action::Finished => return Pulled::Exhausted,
        Action::WaitFor(_) => {
            t.settle_slot(if slot_ready { 0 } else { 1 });
            if t.phase() != Phase::AwaitingItem {
                return Pulled::Pending;
            }
        }
        Action::PollInner => {}
    }
    let answer = if !inner_ready {
        Pulled::Pending
    } else {
        match t.stream_mut().pop_front() {
            Some(x) => Pulled::Item(x),
            None => Pulled::Exhausted,
        }
    };
    t.finish_pull(answer)
}

#[test]
fn rate_zero_count_fails() {
    assert_eq!(ThrottleRate::new(0, SECOND).unwrap_err(), ConfigError::ZeroCount);
    assert_eq!(ThrottleRate::new(0, 0).unwrap_err(), ConfigError::ZeroCount);
}

#[test]
fn rate_zero_duration_fails() {
    assert_eq!(ThrottleRate::new(5, 0).unwrap_err(), ConfigError::ZeroDuration);
    assert_eq!(ThrottleRate::new(u64::MAX, 0).unwrap_err(), ConfigError::ZeroDuration);
}

#[test]
fn rate_positive_succeeds() {
    let r = ThrottleRate::new(5, SECOND).unwrap();
    assert_eq!(r.count(), 5);
    assert_eq!(r.duration_nanos(), SECOND);
    assert_eq!(r.interval(), 200_000_000);
    assert_eq!(ThrottleRate::new(3, 10).unwrap().interval(), 3);
    assert_eq!(ThrottleRate::new(1, 1).unwrap().interval(), 1);
}

#[test]
fn pool_interval_from_rate() {
    assert_eq!(pool(5, SECOND).interval(), 200_000_000);
    assert_eq!(pool(5, SECOND).clone().interval(), 200_000_000);
}

#[test]
fn slot_is_later_of_cursor_and_now() {
    assert_eq!(reserved_slot(0, 17), 17);
    assert_eq!(reserved_slot(40, 17), 40);
    assert_eq!(reserved_slot(17, 17), 17);
}

#[test]
fn cursor_moves_one_interval_past_slot() {
    assert_eq!(next_cursor(0, 17, 5), 22);
    assert_eq!(next_cursor(40, 17, 5), 45);
    assert_eq!(next_cursor(u64::MAX - 2, 0, 5), u64::MAX);
}

#[test]
fn remaining_wait_counts_down_to_zero() {
    assert_eq!(remaining_wait(100, 40), 60);
    assert_eq!(remaining_wait(100, 100), 0);
    assert_eq!(remaining_wait(100, 140), 0);
}

#[test]
fn ten_back_to_back_grants_at_one_tick_are_spaced() {
    let interval = ThrottleRate::new(5, SECOND).unwrap().interval();
    let mut cursor: u64 = 0;
    let mut slots = Vec::new();
    for _ in 0..10 {
        slots.push(reserved_slot(cursor, 0));
        cursor = next_cursor(cursor, 0, interval);
    }
    for (i, s) in slots.iter().enumerate() {
        assert_eq!(*s, i as u64 * 200_000_000);
    }
    assert_eq!(slots[9] - slots[0], 1_800_000_000);
}

#[test]
fn ten_back_to_back_reservations_are_spaced() {
    let p = pool(5, SECOND);
    let grants: Vec<_> = (0..10).map(|_| p.reserve()).collect();
    for w in grants.windows(2) {
        assert!(w[1].slot >= w[0].slot + 200_000_000);
    }
    assert!(grants[9].slot >= grants[0].slot + 1_800_000_000);
    assert!(grants.iter().all(|g| g.slot >= g.issued_at));
}

#[test]
fn shared_pool_spaces_grants_across_holders() {
    let p = pool(1000, SECOND);
    let holders = vec![p.clone(), p.clone(), p.clone()];
    let mut slots = Vec::new();
    for round in 0..20 {
        slots.push(holders[round % 3].reserve().slot);
    }
    for w in slots.windows(2) {
        assert!(w[1] >= w[0] + 1_000_000);
    }
    let t: u64 = 5_000_000;
    for &a in &slots {
        let in_window = slots.iter().filter(|&&s| s >= a && s <= a + t).count() as u64;
        assert!(in_window <= t / 1_000_000 + 1);
    }
}

#[test]
fn throttled_passes_every_item_in_order_then_ends() {
    let items: VecDeque<u32> = vec![3, 1, 4, 1, 5].into_iter().collect();
    let mut t = Throttled::new(items, pool(1, 1));
    let mut out = Vec::new();
    for _ in 0..5 {
        match poll_once(&mut t, true, true) {
            Pulled::Item(x) => out.push(x),
            other => panic!("unexpected {:?}", other),
        }
    }
    assert_eq!(out, vec![3, 1, 4, 1, 5]);
    assert_eq!(poll_once(&mut t, true, true), Pulled::Exhausted);
    assert_eq!(t.phase(), Phase::Completed);
    assert_eq!(poll_once(&mut t, true, true), Pulled::Exhausted);
}

#[test]
fn throttled_with_delays_keeps_items_in_order() {
    let items: VecDeque<u32> = vec![7, 8, 9].into_iter().collect();
    let mut t = Throttled::new(items, pool(1, 1));
    let pattern = [(false, true), (true, false), (true, false), (true, true), (false, false), (true, true), (true, true), (true, true)];
    let mut out = Vec::new();
    let mut ended = false;
    for &(s, i) in &pattern {
        match poll_once(&mut t, s, i) {
            Pulled::Item(x) => out.push(x),
            Pulled::Exhausted => ended = true,
            Pulled::Pending => {}
        }
    }
    assert_eq!(out, vec![7, 8, 9]);
    assert!(ended);
}

#[test]
fn empty_inner_ends_at_once() {
    let mut t = Throttled::new(VecDeque::new(), pool(1, 1));
    assert_eq!(poll_once(&mut t, true, true), Pulled::Exhausted);
    assert_eq!(t.phase(), Phase::Completed);
    assert_eq!(t.begin_pull(), Action::Finished);
}

#[test]
fn stalled_inner_reserves_one_slot() {
    let p = pool(1, HOUR);
    let mut t = Throttled::new(VecDeque::from(vec![1u32]), p.clone());
    let first = match t.begin_pull() {
        Action::WaitFor(s) => s,
        other => panic!("unexpected {:?}", other),
    };
    t.settle_slot(0);
    assert_eq!(t.finish_pull::<u32>(Pulled::Pending), Pulled::Pending);
    for _ in 0..10 {
        assert_eq!(t.begin_pull(), Action::PollInner);
        assert_eq!(t.finish_pull::<u32>(Pulled::Pending), Pulled::Pending);
    }
    assert_eq!(t.phase(), Phase::AwaitingItem);
    // Only one slot was taken: the next grant is the one right after it.
    assert_eq!(p.reserve().slot, first + HOUR);
}

#[test]
fn waiting_for_slot_does_not_reserve_again() {
    let p = pool(1, HOUR);
    let mut t = Throttled::new(VecDeque::from(vec![1u32]), p.clone());
    let first = match t.begin_pull() {
        Action::WaitFor(s) => s,
        other => panic!("unexpected {:?}", other),
    };
    t.settle_slot(5);
    assert_eq!(t.phase(), Phase::AwaitingSlot(first));
    assert_eq!(t.begin_pull(), Action::WaitFor(first));
    assert_eq!(p.reserve().slot, first + HOUR);
}

#[test]
fn check_slot_waits_for_a_later_slot() {
    let p = pool(1, HOUR);
    let _taken = p.reserve();
    let mut t = Throttled::new(VecDeque::from(vec![1u32]), p.clone());
    let slot = match t.begin_pull() {
        Action::WaitFor(s) => s,
        other => panic!("unexpected {:?}", other),
    };
    let wait = t.check_slot();
    assert!(wait > 0 && wait <= slot);
    assert_eq!(t.phase(), Phase::AwaitingSlot(slot));
    assert!(p.remaining(slot) > 0);
}

#[test]
fn check_slot_passes_an_arrived_slot() {
    let mut t = Throttled::new(VecDeque::from(vec![2u32]), pool(1, 1));
    assert!(matches!(t.begin_pull(), Action::WaitFor(_)));
    while t.check_slot() != 0 {}
    assert_eq!(t.phase(), Phase::AwaitingItem);
    assert_eq!(t.begin_pull(), Action::PollInner);
}

#[test]
fn abandoned_reservation_is_not_refunded() {
    let p = pool(1, HOUR);
    let mut t = Throttled::new(VecDeque::from(vec![1u32]), p.clone());
    let abandoned = match t.begin_pull() {
        Action::WaitFor(s) => s,
        other => panic!("unexpected {:?}", other),
    };
    drop(t);
    assert_eq!(p.reserve().slot, abandoned + HOUR);
}
