use uefi_net::asyn::{race, timed_poll, timestamp, Progress, SimpleExecutor, SleepFuture};

#[test]
fn executor_serves_tasks_round_robin() {
    let mut e = SimpleExecutor::new();
    for id in 0..4u64 {
        assert_eq!(e.spawn(id), Ok(()));
    }
    // Three sleepers and a pinger, all pending: each turn serves the front
    // task and puts it at the back.
    let mut served = Vec::new();
    for _ in 0..8 {
        served.push(e.turn().unwrap());
    }
    assert_eq!(served, vec![0, 1, 2, 3, 0, 1, 2, 3]);
}

#[test]
fn executor_run_loop_ends_when_queue_empties() {
    let mut e = SimpleExecutor::new();
    assert_eq!(e.spawn(7), Ok(()));
    assert_eq!(e.spawn(8), Ok(()));
    assert_eq!(e.next_task(), Some(7));
    // Task 7 completed; task 8 stays pending once, then completes.
    assert_eq!(e.next_task(), Some(8));
    e.reschedule(8);
    assert_eq!(e.next_task(), Some(8));
    assert_eq!(e.next_task(), None);
    assert_eq!(e.turn(), None);
}

#[test]
fn executor_full_queue_refuses_spawn() {
    let mut e = SimpleExecutor::new();
    for id in 0..256u64 {
        assert_eq!(e.spawn(id), Ok(()));
    }
    assert_eq!(e.spawn(999), Err(999));
    assert_eq!(e.next_task(), Some(0));
}

#[test]
fn timestamp_counts_nanoseconds_from_1900() {
    const DAY: u128 = 86_400 * 1_000_000_000;
    assert_eq!(timestamp(1900, 1, 1, 0, 0, 0, 0), 0);
    assert_eq!(timestamp(1900, 1, 1, 0, 0, 1, 5), 1_000_000_005);
    assert_eq!(timestamp(1900, 1, 2, 2, 3, 4, 5), ((24 + 2) * 3600 + 3 * 60 + 4) * 1_000_000_000 + 5);
    // 1900 is not a leap year, 2000 is, 1904 is.
    assert_eq!(timestamp(1901, 1, 1, 0, 0, 0, 0), 365 * DAY);
    assert_eq!(timestamp(1904, 3, 1, 0, 0, 0, 0) - timestamp(1904, 2, 1, 0, 0, 0, 0), 29 * DAY);
    assert_eq!(timestamp(1900, 3, 1, 0, 0, 0, 0) - timestamp(1900, 2, 1, 0, 0, 0, 0), 28 * DAY);
    assert_eq!(timestamp(2000, 3, 1, 0, 0, 0, 0) - timestamp(2000, 2, 1, 0, 0, 0, 0), 29 * DAY);
    // 1 January 1970 is 25567 days after 1 January 1900.
    assert_eq!(timestamp(1970, 1, 1, 0, 0, 0, 0), 25_567 * DAY);
}

#[test]
fn timestamp_keeps_counting_across_month_and_year_ends() {
    let before = timestamp(2024, 1, 31, 23, 59, 59, 999_999_999);
    let after = timestamp(2024, 2, 1, 0, 0, 0, 0);
    assert_eq!(after - before, 1);
    let before = timestamp(2024, 12, 31, 23, 59, 59, 999_999_999);
    let after = timestamp(2025, 1, 1, 0, 0, 0, 0);
    assert_eq!(after - before, 1);
}

#[test]
fn timer_fires_at_its_deadline() {
    let now = timestamp(2024, 3, 10, 10, 0, 0, 0);
    let t = SleepFuture::new(now, 1_000_000_000);
    assert!(!t.is_ready(now));
    assert!(!t.is_ready(now + 999_999_999));
    assert!(t.is_ready(now + 1_000_000_000));
    assert!(t.is_ready(now + 1_000_000_001));
}

#[test]
fn timer_set_before_month_end_fires_after_it() {
    let now = timestamp(2024, 1, 31, 23, 59, 59, 500_000_000);
    let t = SleepFuture::new(now, 1_000_000_000);
    assert!(!t.is_ready(timestamp(2024, 2, 1, 0, 0, 0, 400_000_000)));
    assert!(t.is_ready(timestamp(2024, 2, 1, 0, 0, 0, 500_000_000)));
}

#[test]
fn receive_times_out_when_no_reply_comes() {
    let now = 5_000_000_000u128;
    let timer = SleepFuture::new(now, 1_000_000_000);
    let mut outcome = Progress::Pending;
    let mut clock = now;
    while outcome == Progress::Pending {
        let fallback = if timer.is_ready(clock) { Progress::Ready(()) } else { Progress::Pending };
        outcome = race::<u32>(Progress::Pending, fallback);
        if outcome == Progress::Pending {
            clock += 250_000_000;
        }
    }
    assert_eq!(outcome, Progress::Ready(None));
    assert_eq!(clock, now + 1_000_000_000);
}

#[test]
fn run_loop_turn_drops_finished_and_requeues_pending() {
    let mut e = SimpleExecutor::new();
    assert_eq!(e.spawn(1), Ok(()));
    assert_eq!(e.spawn(2), Ok(()));
    let t = e.next_task().unwrap();
    assert_eq!(e.complete_turn(t, false), Ok(()));
    let t = e.next_task().unwrap();
    assert_eq!(t, 2);
    assert_eq!(e.complete_turn(t, true), Ok(()));
    assert_eq!(e.next_task(), Some(1));
    assert_eq!(e.next_task(), None);
}

#[test]
fn race_prefers_the_main_result() {
    assert_eq!(race(Progress::Ready(4), Progress::Ready(())), Progress::Ready(Some(4)));
    assert_eq!(race(Progress::Ready(4), Progress::Pending), Progress::Ready(Some(4)));
    assert_eq!(race::<u8>(Progress::Pending, Progress::Pending), Progress::Pending);
}

#[test]
fn lock_is_acquired_only_when_free() {
    let mut l = uefi_net::asyn::LockState::new();
    assert!(!l.is_held());
    assert!(l.try_acquire());
    assert!(l.is_held());
    assert!(!l.try_acquire());
    l.release();
    assert!(!l.is_held());
    assert!(l.try_acquire());
}

#[test]
fn timed_poll_times_out_exactly_at_the_deadline() {
    let start = 7_000_000_000u128;
    let timer = SleepFuture::new(start, 1_000_000_000);
    assert_eq!(timed_poll::<u8>(Progress::Pending, &timer, start), Progress::Pending);
    assert_eq!(timed_poll::<u8>(Progress::Pending, &timer, start + 999_999_999), Progress::Pending);
    assert_eq!(timed_poll::<u8>(Progress::Pending, &timer, start + 1_000_000_000), Progress::Ready(None));
    assert_eq!(timed_poll(Progress::Ready(3u8), &timer, start + 5_000_000_000), Progress::Ready(Some(3)));
}
