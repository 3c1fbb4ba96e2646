use std::sync::atomic::{AtomicUsize, Ordering};
use std::sync::Arc;
use std::task::{Wake, Waker};

use embassy_nxp::time_driver::{calc_now, lptmr, tpm};

struct Task {
    woken: AtomicUsize,
}

impl Wake for Task {
    fn wake(self: Arc<Self>) {
        self.woken.fetch_add(1, Ordering::Relaxed);
    }
}

fn task() -> (Arc<Task>, Waker) {
    let task = Arc::new(Task { woken: AtomicUsize::new(0) });
    let waker = Waker::from(task.clone());
    (task, waker)
}

fn woken(task: &Task) -> usize {
    task.woken.load(Ordering::Relaxed)
}

#[test]
fn time_is_exact_across_half_periods() {
    for t in [0u64, 1, 0x7FFF, 0x8000, 0xFFFF, 0x1_0000, 0x1_7FFF, 0x1_8000, 0x1234_5678] {
        let period = (t >> 15) as u32;
        assert_eq!(calc_now(period, t as u16), t);
        if period > 0 {
            assert_eq!(calc_now(period - 1, t as u16), t);
        }
    }
}

/// Gives the driver the counter at a fixed time until it rests.
fn settle_tpm(driver: &mut tpm::Driver, counter: u16) -> Vec<tpm::Op> {
    let mut ops = Vec::new();
    while driver.wait() != tpm::Wait::Nothing {
        ops.append(&mut driver.on_counter(counter));
    }
    ops
}

#[test]
fn tpm_alarm_is_set_for_the_earliest_timer() {
    let mut driver = tpm::Driver::new();
    let (first, first_waker) = task();
    let (second, second_waker) = task();
    driver.schedule_wake(5_000, &first_waker);
    assert_eq!(driver.wait(), tpm::Wait::Expire);
    assert_eq!(
        settle_tpm(&mut driver, 100),
        vec![
            tpm::Op::WriteCompare { channel: 0, value: 5_000 },
            tpm::Op::WriteChannel { channel: 0, chie: true },
        ]
    );
    driver.schedule_wake(3_000, &second_waker);
    assert_eq!(settle_tpm(&mut driver, 200)[0], tpm::Op::WriteCompare { channel: 0, value: 3_000 });
    // A timer of the same task that is later changes nothing.
    driver.schedule_wake(9_000, &first_waker);
    assert_eq!(driver.wait(), tpm::Wait::Nothing);

    driver.on_interrupt(false, false, true);
    assert_eq!(driver.wait(), tpm::Wait::AlarmEnabled);
    driver.on_alarm(true);
    assert_eq!(settle_tpm(&mut driver, 3_000)[0], tpm::Op::WriteCompare { channel: 0, value: 5_000 });
    assert_eq!((woken(&first), woken(&second)), (0, 1));
    driver.on_interrupt(false, false, true);
    driver.on_alarm(true);
    assert_eq!(
        settle_tpm(&mut driver, 5_001),
        vec![
            tpm::Op::WriteCompare { channel: 0, value: 0xFFFF },
            tpm::Op::WriteChannel { channel: 0, chie: false },
        ]
    );
    assert_eq!((woken(&first), woken(&second)), (1, 1));
}

#[test]
fn tpm_missed_alarms_are_set_anew() {
    let mut driver = tpm::Driver::new();
    let (task, waker) = task();
    driver.schedule_wake(1_000, &waker);
    driver.on_counter(900);
    assert_eq!(driver.on_counter(901).len(), 2);
    assert_eq!(driver.wait(), tpm::Wait::Confirm);
    // Only one tick is left, so the match may have been missed.
    assert_eq!(driver.on_counter(999), vec![tpm::Op::WriteChannel { channel: 0, chie: false }]);
    assert_eq!(driver.wait(), tpm::Wait::Expire);
    assert_eq!(woken(&task), 0);
    settle_tpm(&mut driver, 1_000);
    assert_eq!(woken(&task), 1);
}

#[test]
fn tpm_far_alarms_are_armed_later() {
    let mut driver = tpm::Driver::new();
    let (_, waker) = task();
    driver.schedule_wake(0x1_4000, &waker);
    let ops = settle_tpm(&mut driver, 10);
    assert_eq!(
        ops,
        vec![
            tpm::Op::WriteCompare { channel: 0, value: 0x4000 },
            tpm::Op::WriteChannel { channel: 0, chie: false },
        ]
    );
    assert!(driver.on_interrupt(false, false, false).is_empty());
    assert!(driver.on_interrupt(false, true, false).is_empty());
    assert_eq!(driver.now(0x8001), 0x8001);
    assert_eq!(
        driver.on_interrupt(true, false, false),
        vec![tpm::Op::EnableChannelInterrupt { channel: 0 }]
    );
    assert_eq!(driver.now(1), 0x1_0001);
    driver.on_interrupt(false, false, true);
    driver.on_alarm(false);
    assert_eq!(driver.wait(), tpm::Wait::Nothing);
}

#[test]
fn tpm_setup() {
    let ops = tpm::init();
    assert_eq!(ops.len(), 14);
    assert_eq!(ops[8], tpm::Op::WriteCompare { channel: 1, value: 0x8000 });
    assert_eq!(ops[13], tpm::Op::Start);
}

fn settle_lptmr(driver: &mut lptmr::Driver, counter: u16) -> Vec<lptmr::Op> {
    let mut ops = Vec::new();
    while driver.wait() != lptmr::Wait::Nothing {
        ops.append(&mut driver.on_counter(counter));
    }
    ops
}

fn armed(compare: u16) -> Vec<lptmr::Op> {
    vec![
        lptmr::Op::DisableAlarm,
        lptmr::Op::WriteAlarmCompare(compare),
        lptmr::Op::EnableAlarm,
        lptmr::Op::EnableAlarmInterrupt,
    ]
}

#[test]
fn lptmr_checkpoints_without_timers() {
    let (mut driver, ops) = lptmr::Driver::init();
    assert_eq!(ops.len(), 7);
    assert_eq!(settle_lptmr(&mut driver, 2), armed(0x7FFD));
    assert!(driver.on_interrupt(false).is_empty());
    assert_eq!(driver.wait(), lptmr::Wait::Nothing);
    assert_eq!(driver.on_interrupt(true), vec![lptmr::Op::DisableAlarm]);
    assert_eq!(settle_lptmr(&mut driver, 0x8000), armed(0x7FFF));
    assert_eq!(driver.now(0x8000), 0x8000);
    driver.on_interrupt(true);
    settle_lptmr(&mut driver, 0);
    assert_eq!(driver.now(3), 0x1_0003);
}

#[test]
fn lptmr_alarm_is_set_for_the_earliest_timer() {
    let (mut driver, _) = lptmr::Driver::init();
    settle_lptmr(&mut driver, 0);
    let (task, waker) = task();
    driver.schedule_wake(100, &waker);
    assert_eq!(settle_lptmr(&mut driver, 10), armed(89));
    driver.on_interrupt(true);
    assert_eq!(settle_lptmr(&mut driver, 100), armed((0x8000u32 - 100 - 1) as u16));
    assert_eq!(woken(&task), 1);
}

#[test]
fn lptmr_elapsed_deadlines_are_not_left_armed() {
    let (mut driver, _) = lptmr::Driver::init();
    settle_lptmr(&mut driver, 0);
    let (task, waker) = task();
    driver.schedule_wake(100, &waker);
    driver.on_counter(98);
    driver.on_counter(98);
    assert_eq!(driver.on_counter(99), armed(0));
    assert_eq!(driver.wait(), lptmr::Wait::Confirm);
    assert_eq!(driver.on_counter(100), vec![lptmr::Op::DisableAlarm]);
    assert_eq!(driver.wait(), lptmr::Wait::Expire);
    settle_lptmr(&mut driver, 100);
    assert_eq!(woken(&task), 1);
}

#[test]
fn full_queue_wakes_a_task() {
    let mut driver = tpm::Driver::new();
    let tasks: Vec<(Arc<Task>, Waker)> = (0..9).map(|_| task()).collect();
    for (n, (_, waker)) in tasks.iter().enumerate() {
        driver.schedule_wake(1_000 + n as u64, waker);
        settle_tpm(&mut driver, 0);
    }
    assert_eq!(tasks.iter().map(|(task, _)| woken(task)).sum::<usize>(), 1);
}

#[test]
fn later_timers_of_other_tasks_are_kept() {
    let (first, first_waker) = task();
    let (second, second_waker) = task();

    let mut driver = tpm::Driver::new();
    driver.schedule_wake(3_000, &first_waker);
    settle_tpm(&mut driver, 0);
    driver.schedule_wake(9_000, &second_waker);
    assert_eq!(driver.wait(), tpm::Wait::Expire);
    settle_tpm(&mut driver, 0);
    for counter in [3_000, 9_000] {
        driver.on_interrupt(false, false, true);
        driver.on_alarm(true);
        settle_tpm(&mut driver, counter);
    }
    assert_eq!((woken(&first), woken(&second)), (1, 1));

    let (mut driver, _) = lptmr::Driver::init();
    settle_lptmr(&mut driver, 0);
    driver.schedule_wake(300, &first_waker);
    settle_lptmr(&mut driver, 0);
    driver.schedule_wake(900, &second_waker);
    assert_eq!(driver.wait(), lptmr::Wait::Expire);
    settle_lptmr(&mut driver, 0);
    for counter in [300, 900] {
        driver.on_interrupt(true);
        settle_lptmr(&mut driver, counter);
    }
    assert_eq!((woken(&first), woken(&second)), (2, 2));
}
