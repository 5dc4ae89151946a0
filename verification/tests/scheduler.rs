use cef_screens::scheduler::Scheduler;

#[test]
fn tick_drains_in_spawn_order() {
    let mut s = Scheduler::new();
    let a = s.spawn();
    let b = s.spawn();
    let c = s.spawn();
    assert_eq!(s.tick(), vec![a, b, c]);
    assert_eq!(s.tick(), Vec::<u64>::new());
}

#[test]
fn requeued_work_waits_for_a_later_tick() {
    let mut s = Scheduler::new();
    let a = s.spawn();
    let batch = s.tick();
    assert_eq!(batch, vec![a]);
    s.requeue(a);
    let b = s.spawn();
    assert_eq!(s.tick(), vec![a, b]);
}

#[test]
fn task_handles_are_unique() {
    let mut s = Scheduler::new();
    let a = s.spawn();
    s.tick();
    let b = s.spawn();
    assert_ne!(a, b);
}
