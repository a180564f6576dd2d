use std::time::Duration;

use imp::timers::{TimerId, TimerKind, Timers};

fn ids(t: &Timers<u32>) -> Vec<u64> {
    t.timers.iter().map(|x| u64::from(x.id)).collect()
}

fn released(t: &Timers<u32>) -> Vec<u64> {
    t.released.iter().map(|x| u64::from(x.id)).collect()
}

#[test]
fn ids_count_up_from_one() {
    let mut t: Timers<u32> = Timers::new();
    let a = t.set_timeout(1, Duration::from_millis(10));
    let b = t.set_interval(2, Duration::from_millis(10));
    assert_eq!(u64::from(a), 1);
    assert_eq!(u64::from(b), 2);
    assert_eq!(ids(&t), vec![1, 2]);
    assert!(matches!(t.timers[1].kind, TimerKind::Repeating { interval } if interval == Duration::from_millis(10)));
    assert!(matches!(t.timers[0].kind, TimerKind::Once));
}

#[test]
fn tick_releases_due_timers_and_rearms_intervals() {
    let mut t: Timers<u32> = Timers::new();
    t.set_timeout(1, Duration::from_millis(100));
    t.set_interval(2, Duration::from_millis(50));
    t.tick(Duration::from_millis(60));
    assert_eq!(released(&t), vec![2]);
    assert_eq!(ids(&t), vec![1, 2]);
    assert_eq!(t.timers[0].remaining, Duration::from_millis(40));
    assert_eq!(t.timers[1].remaining, Duration::from_millis(50));
    let r = t.pop_one().unwrap();
    assert_eq!(u64::from(r.id), 2);
    assert_eq!(r.cb, 2);
    t.tick(Duration::from_millis(40));
    assert_eq!(released(&t), vec![1]);
    assert_eq!(ids(&t), vec![2]);
    assert_eq!(t.timers[0].remaining, Duration::from_millis(10));
}

#[test]
fn due_one_shot_timers_leave_by_swap_remove() {
    let mut t: Timers<u32> = Timers::new();
    t.set_timeout(1, Duration::from_millis(10));
    t.set_timeout(2, Duration::from_millis(100));
    t.set_timeout(3, Duration::from_millis(10));
    t.tick(Duration::from_millis(10));
    assert_eq!(released(&t), vec![1, 3]);
    assert_eq!(ids(&t), vec![2]);
    assert_eq!(t.timers[0].remaining, Duration::from_millis(90));
}

#[test]
fn zero_tick_releases_zero_delay_timers() {
    let mut t: Timers<u32> = Timers::new();
    t.set_timeout(7, Duration::ZERO);
    t.set_timeout(8, Duration::from_millis(1));
    t.tick(Duration::ZERO);
    assert_eq!(released(&t), vec![1]);
    assert_eq!(ids(&t), vec![2]);
}

#[test]
fn remove_drops_pending_and_released() {
    let mut t: Timers<u32> = Timers::new();
    t.set_interval(1, Duration::from_millis(5));
    t.set_timeout(2, Duration::from_millis(50));
    t.tick(Duration::from_millis(5));
    assert_eq!(released(&t), vec![1]);
    t.remove(TimerId::from(1u64));
    assert_eq!(ids(&t), vec![2]);
    assert!(t.released.is_empty());
    t.remove(TimerId::from(42u64));
    assert_eq!(ids(&t), vec![2]);
}

#[test]
fn clear_and_pop_on_empty() {
    let mut t: Timers<u32> = Timers::new();
    assert!(t.pop_one().is_none());
    t.set_timeout(1, Duration::ZERO);
    t.tick(Duration::ZERO);
    t.set_timeout(2, Duration::ZERO);
    t.clear();
    assert!(t.timers.is_empty());
    assert!(t.released.is_empty());
    let c = t.set_timeout(3, Duration::ZERO);
    assert_eq!(u64::from(c), 3);
}

#[test]
fn timer_ids_convert_both_ways() {
    let id = TimerId::from(9u64);
    assert_eq!(u64::from(id), 9);
    assert_eq!(u64::from(TimerId::zero()), 0);
    assert_eq!(TimerId::from(9u64), id);
}

#[test]
fn released_timers_carry_their_own_callbacks() {
    let mut t: Timers<u32> = Timers::new();
    t.set_timeout(100, Duration::from_millis(10));
    t.set_interval(200, Duration::from_millis(10));
    t.set_timeout(300, Duration::from_millis(50));
    t.tick(Duration::from_millis(10));
    let fired: Vec<(u64, u32)> = t.released.iter().map(|r| (u64::from(r.id), r.cb)).collect();
    assert_eq!(fired, vec![(1, 100), (2, 200)]);
    let left: Vec<(u64, u32)> = t.timers.iter().map(|x| (u64::from(x.id), x.callback)).collect();
    assert_eq!(left, vec![(3, 300), (2, 200)]);
}
