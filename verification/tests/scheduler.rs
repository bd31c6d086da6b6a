use atomblocks::config::Block;
use atomblocks::schedule::{nanos_of, NANOS_PER_SECOND, TICK_MILLIS};
use atomblocks::{IntervalScheduler, Task};

const SECOND: u64 = 1_000_000_000;

fn block(execute: &str, interval: Option<u64>) -> Block {
    Block { execute: execute.to_string(), before: None, after: None, interval }
}

fn task(interval: Option<u64>, last_run: Option<u64>) -> Task {
    Task { index: 0, interval, last_run, execute: "date".to_string() }
}

#[test]
fn tick_is_a_tenth_of_a_second() {
    assert_eq!(TICK_MILLIS, 100);
}

#[test]
fn new_task_copies_the_block() {
    let t = Task::new(4, &block("date", Some(5 * SECOND)));
    assert_eq!(
        t,
        Task { index: 4, interval: Some(5 * SECOND), last_run: None, execute: "date".to_string() }
    );
}

#[test]
fn task_that_never_fired_is_due_at_once() {
    assert!(task(Some(SECOND), None).is_due(0));
    assert!(task(Some(SECOND), None).is_due(u64::MAX));
}

#[test]
fn task_is_due_when_its_interval_has_passed() {
    let t = task(Some(10), Some(100));
    assert!(!t.is_due(100));
    assert!(!t.is_due(109));
    assert!(t.is_due(110));
    assert!(t.is_due(111));
}

#[test]
fn task_is_not_due_before_it_last_fired() {
    assert!(!task(Some(10), Some(100)).is_due(50));
}

#[test]
fn task_without_interval_is_never_due() {
    assert!(!task(None, None).is_due(0));
    assert!(!task(None, Some(0)).is_due(u64::MAX));
}

#[test]
fn task_with_zero_interval_is_never_due() {
    assert!(!task(Some(0), None).is_due(0));
    assert!(!task(Some(0), Some(5)).is_due(u64::MAX));
}

#[test]
fn task_due_beyond_the_end_of_time_is_never_due() {
    let t = task(Some(10), Some(u64::MAX - 5));
    assert!(!t.is_due(u64::MAX));
    let exact = task(Some(5), Some(u64::MAX - 5));
    assert!(!exact.is_due(u64::MAX - 1));
    assert!(exact.is_due(u64::MAX));
}

#[test]
fn new_scheduler_has_one_fresh_task_for_each_block() {
    let blocks = vec![block("a", Some(SECOND)), block("b", None)];
    let scheduler = IntervalScheduler::new(&blocks);
    assert_eq!(
        scheduler.tasks(),
        &vec![
            Task { index: 0, interval: Some(SECOND), last_run: None, execute: "a".to_string() },
            Task { index: 1, interval: None, last_run: None, execute: "b".to_string() },
        ]
    );
}

#[test]
fn first_tick_fires_every_periodic_task() {
    let blocks = vec![block("a", Some(SECOND)), block("b", None), block("c", Some(2 * SECOND))];
    let mut scheduler = IntervalScheduler::new(&blocks);
    assert_eq!(scheduler.tick(7), Some(vec![0, 2]));
    assert_eq!(scheduler.tasks()[0].last_run, Some(7));
    assert_eq!(scheduler.tasks()[1].last_run, None);
    assert_eq!(scheduler.tasks()[2].last_run, Some(7));
}

#[test]
fn tick_with_nothing_due_gives_no_batch() {
    let blocks = vec![block("a", Some(SECOND))];
    let mut scheduler = IntervalScheduler::new(&blocks);
    assert_eq!(scheduler.tick(0), Some(vec![0]));
    assert_eq!(scheduler.tick(SECOND - 1), None);
    assert_eq!(scheduler.tasks()[0].last_run, Some(0));
}

#[test]
fn tick_without_blocks_gives_no_batch() {
    let mut scheduler = IntervalScheduler::new(&Vec::new());
    assert_eq!(scheduler.tick(5), None);
}

#[test]
fn hit_only_blocks_are_never_emitted() {
    let blocks = vec![block("a", None), block("b", Some(0)), block("c", Some(SECOND))];
    let mut scheduler = IntervalScheduler::new(&blocks);
    let mut now: u64 = 0;
    while now < 5 * SECOND {
        if let Some(batch) = scheduler.tick(now) {
            assert_eq!(batch, vec![2]);
        }
        now += 100_000_000;
    }
    assert_eq!(scheduler.tick(u64::MAX), Some(vec![2]));
    assert_eq!(scheduler.tasks()[0].last_run, None);
    assert_eq!(scheduler.tasks()[1].last_run, None);
}

#[test]
fn late_fire_moves_the_next_one_by_a_full_interval() {
    let blocks = vec![block("a", Some(10 * SECOND))];
    let mut scheduler = IntervalScheduler::new(&blocks);
    assert_eq!(scheduler.tick(0), Some(vec![0]));
    // due at 10 s, fired 3 s late
    assert_eq!(scheduler.tick(13 * SECOND), Some(vec![0]));
    assert_eq!(scheduler.tasks()[0].last_run, Some(13 * SECOND));
    // not at 20 s, where it would have been due without the delay
    assert_eq!(scheduler.tick(20 * SECOND), None);
    assert_eq!(scheduler.tick(23 * SECOND - 1), None);
    assert_eq!(scheduler.tick(23 * SECOND), Some(vec![0]));
}

#[test]
fn long_delay_causes_one_fire_only() {
    let blocks = vec![block("a", Some(SECOND))];
    let mut scheduler = IntervalScheduler::new(&blocks);
    assert_eq!(scheduler.tick(0), Some(vec![0]));
    assert_eq!(scheduler.tick(100 * SECOND), Some(vec![0]));
    assert_eq!(scheduler.tick(100 * SECOND + 1), None);
}

#[test]
fn tasks_fire_each_at_its_own_pace() {
    let blocks = vec![block("a", Some(2)), block("b", Some(3))];
    let mut scheduler = IntervalScheduler::new(&blocks);
    assert_eq!(scheduler.tick(0), Some(vec![0, 1]));
    assert_eq!(scheduler.tick(1), None);
    assert_eq!(scheduler.tick(2), Some(vec![0]));
    assert_eq!(scheduler.tick(3), Some(vec![1]));
    assert_eq!(scheduler.tick(4), Some(vec![0]));
    assert_eq!(scheduler.tick(6), Some(vec![0, 1]));
}

#[test]
fn nanos_of_counts_seconds_and_nanoseconds() {
    assert_eq!(NANOS_PER_SECOND, 1_000_000_000);
    assert_eq!(nanos_of(0, 0), 0);
    assert_eq!(nanos_of(0, 999_999_999), 999_999_999);
    assert_eq!(nanos_of(2, 500_000_000), 2_500_000_000);
}

#[test]
fn nanos_of_reaches_the_longest_span_exactly() {
    // u64::MAX = 18_446_744_073 s + 709_551_615 ns
    assert_eq!(nanos_of(18_446_744_073, 709_551_615), u64::MAX);
    assert_eq!(nanos_of(18_446_744_073, 709_551_614), u64::MAX - 1);
}

#[test]
fn nanos_of_cuts_a_span_that_is_too_long() {
    assert_eq!(nanos_of(18_446_744_073, 709_551_616), u64::MAX);
    assert_eq!(nanos_of(18_446_744_074, 0), u64::MAX);
    assert_eq!(nanos_of(u64::MAX, u32::MAX), u64::MAX);
}

#[test]
fn task_of_the_longest_interval_fires_once() {
    let blocks = vec![block("a", Some(u64::MAX))];
    let mut scheduler = IntervalScheduler::new(&blocks);
    assert_eq!(scheduler.tick(0), Some(vec![0]));
    assert_eq!(scheduler.tick(u64::MAX - 1), None);
    assert_eq!(scheduler.tick(u64::MAX), Some(vec![0]));
}
