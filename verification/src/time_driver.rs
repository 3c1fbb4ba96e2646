//! Time drivers: a 16-bit counter extended to 64 bits, and an alarm for the earliest timer.
//!
//! Software counts half periods of the counter (`2^15` ticks); the time is put together from that
//! and the counter by [`calc_now`], which is right even while the half period that has just begun is
//! not counted yet.

pub mod lptmr;
pub mod tpm;

use core::task::Waker;
use embassy_time_queue_utils::Queue;
use vstd::multiset::Multiset;
use vstd::prelude::*;

verus! {

/// Ticks in a half period.
pub const HALF_PERIOD: u64 = 0x8000;

/// The timer queue of `embassy_time_queue_utils`.
#[verifier::external_type_specification]
#[verifier::external_body]
pub struct ExQueue(embassy_time_queue_utils::Queue);

/// The waker of a task.
#[verifier::external_type_specification]
#[verifier::external_body]
pub struct ExWaker(core::task::Waker);

/// The deadlines of the timers in a queue.
pub uninterp spec fn queue_deadlines(queue: Queue) -> Multiset<u64>;

/// `embassy_time_queue_utils::Queue::new`: the new queue holds no timer.
#[verifier::external_body]
fn queue_new() -> (r: Queue)
    ensures
        queue_deadlines(r) == Multiset::<u64>::empty(),
{
    Queue::new()
}

/// Timers that a queue can hold, with the feature `generic-queue-8` of `embassy_time_queue_utils`.
pub const QUEUE_SIZE: usize = 8;

/// Whether a queue of timers with the deadlines `before` has the deadlines `after` once a timer at
/// `at` has been queued: it is a new one where there is room; otherwise it takes the place of one of
/// them, which is a later timer of the same task or, in a queue that is full, any.
pub open spec fn queued(before: Multiset<u64>, after: Multiset<u64>, at: u64) -> bool {
    ||| before.len() < QUEUE_SIZE && after == before.insert(at)
    ||| exists|x: u64|
        {
            &&& #[trigger] before.count(x) > 0
            &&& x > at || before.len() >= QUEUE_SIZE
            &&& after == before.remove(x).insert(at)
        }
}

/// Whether a timer is no later than `at`.
pub open spec fn has_timer_by(deadlines: Multiset<u64>, at: u64) -> bool {
    exists|x: u64| x <= at && #[trigger] deadlines.count(x) > 0
}

/// What `embassy_time_queue_utils::Queue::schedule_wake` makes of a queue when a timer at `at` is to
/// be queued for the task of `waker`: whether it changes, and the deadlines that it has afterwards.
pub uninterp spec fn queue_scheduled(queue: Queue, at: u64, waker: Waker) -> (bool, Multiset<u64>);

/// `embassy_time_queue_utils::Queue::schedule_wake`: whether the queue changes, and its deadlines
/// afterwards, follow from what it holds, `at` and `waker`. It does not change where it has a timer of the same task that is not
/// later than `at`. Otherwise `at` is in the queue afterwards: a new timer, or in place of a later
/// one of the same task. A full queue first gives up a timer, whose task is woken.
///
/// Which timers belong to the task of `waker` is not said: `Waker::will_wake` decides on a
/// best-effort basis. Neither is it said which timer a full queue gives up, nor that its task is
/// woken.
#[verifier::external_body]
fn queue_schedule_wake(queue: &mut Queue, at: u64, waker: &Waker) -> (r: bool)
    ensures
        (r, queue_deadlines(*final(queue))) == queue_scheduled(*old(queue), at, *waker),
        !r ==> *final(queue) == *old(queue) && has_timer_by(queue_deadlines(*old(queue)), at),
        r ==> queue_deadlines(*final(queue)).count(at) > 0,
        r ==> queued(queue_deadlines(*old(queue)), queue_deadlines(*final(queue)), at),
{
    queue.schedule_wake(at, waker)
}

/// `embassy_time_queue_utils::Queue::next_expiration`: the timers that have expired leave the queue,
/// the others stay, and the earliest deadline of those is returned, or the largest number if there
/// is none. That the tasks of the expired timers are woken is not said.
#[verifier::external_body]
fn queue_next_expiration(queue: &mut Queue, now: u64) -> (r: u64)
    ensures
        queue_deadlines(*final(queue)) == queue_deadlines(*old(queue)).filter(|at: u64| at > now),
        earliest(queue_deadlines(*final(queue)), r),
{
    queue.next_expiration(now)
}

/// Whether `at` is the earliest of some deadlines; the largest number if there are none.
pub open spec fn earliest(deadlines: Multiset<u64>, at: u64) -> bool {
    &&& forall|x: u64| #[trigger] deadlines.count(x) > 0 ==> at <= x
    &&& at == u64::MAX || deadlines.count(at) > 0
}

/// The earliest of some deadlines is unique.
pub proof fn law_earliest_is_unique(deadlines: Multiset<u64>, a: u64, b: u64)
    requires
        earliest(deadlines, a),
        earliest(deadlines, b),
    ensures
        a == b,
{
    if a != u64::MAX {
        assert(deadlines.count(a) > 0);
    }
    if b != u64::MAX {
        assert(deadlines.count(b) > 0);
    }
}

/// The time in ticks for a count of half periods and a counter value.
pub open spec fn time_at(period: u32, counter: u16) -> int {
    period * 0x8000 + if (counter >= 0x8000) == (period % 2 == 1) {
        counter as int % 0x8000
    } else {
        0x8000 + counter as int % 0x8000
    }
}

/// The time in ticks: `period` half periods have been counted, and the counter reads `counter`.
pub fn calc_now(period: u32, counter: u16) -> (r: u64)
    ensures
        r == time_at(period, counter),
{
    assert((counter as u32 ^ ((period & 1) << 15u32)) == (if (counter >= 0x8000) == (period % 2
        == 1) {
        (counter % 0x8000) as u32
    } else {
        (0x8000 + counter % 0x8000) as u32
    })) by (bit_vector);
    assert((period as u64) << 15u32 == period * 0x8000) by (bit_vector);
    ((period as u64) << 15u32) + ((counter as u32 ^ ((period & 1) << 15u32)) as u64)
}

/// The time is right where every half period that has passed is counted, and also while the last
/// one is not counted yet.
pub proof fn law_time_is_exact(time: int, period: u32, counter: u16)
    requires
        time >= 0,
        counter as int == time % 0x1_0000,
        period == time / 0x8000 || period == time / 0x8000 - 1,
    ensures
        time_at(period, counter) == time,
{
}

/// The time never goes backwards: neither as the counter counts, nor as a half period is counted
/// late.
pub proof fn law_time_is_monotonic(
    earlier: int,
    later: int,
    p: u32,
    q: u32,
    c: u16,
    d: u16,
)
    requires
        0 <= earlier <= later,
        c as int == earlier % 0x1_0000,
        d as int == later % 0x1_0000,
        p == earlier / 0x8000 || p == earlier / 0x8000 - 1,
        q == later / 0x8000 || q == later / 0x8000 - 1,
    ensures
        time_at(p, c) <= time_at(q, d),
{
    law_time_is_exact(earlier, p, c);
    law_time_is_exact(later, q, d);
}

/// A timer is due by a time exactly if the earliest one is.
pub proof fn law_due_timers(deadlines: Multiset<u64>, first: u64, at: u64)
    requires
        deadlines.count(first) > 0,
        forall|x: u64| #[trigger] deadlines.count(x) > 0 ==> first <= x,
    ensures
        has_timer_by(deadlines, at) <==> first <= at,
{
}

} // verus!
