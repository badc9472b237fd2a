use fmr::loader::{PriorityRange, PrioritySemaphore};

#[test]
fn the_first_slot_goes_to_the_most_preferred_waiter() {
    let mut sem = PrioritySemaphore::new(1, 1, PriorityRange::new(0..10));
    sem.register(5);
    sem.register(3);
    sem.register(1);
    assert_eq!(sem.try_redistribute(), Some(1));
}

#[test]
fn registration_order_does_not_matter() {
    for order in [[5usize, 1, 3], [1, 5, 3], [3, 5, 1]] {
        let mut sem = PrioritySemaphore::new(1, 1, PriorityRange::new(0..10));
        for i in order {
            sem.register(i);
        }
        assert_eq!(sem.try_redistribute(), Some(1));
    }
}

#[test]
fn without_a_free_slot_nobody_is_served() {
    let mut sem = PrioritySemaphore::new(1, 1, PriorityRange::new(0..10));
    sem.register(5);
    sem.register(1);
    assert_eq!(sem.try_redistribute(), Some(1));
    assert_eq!(sem.try_redistribute(), None);
    sem.release();
    assert_eq!(sem.try_redistribute(), Some(5));
}

#[test]
fn a_fresh_focus_re_prioritizes_parked_waiters() {
    let mut sem = PrioritySemaphore::new(2, 0, PriorityRange::new(0..10));
    sem.register(2);
    sem.register(8);
    sem.set_focus(7);
    assert_eq!(sem.try_redistribute(), Some(8));
    assert_eq!(sem.try_redistribute(), Some(2));
    assert_eq!(sem.try_redistribute(), None);
}

#[test]
fn waiters_outside_the_preferred_range_are_not_served() {
    let mut sem = PrioritySemaphore::new(1, 0, PriorityRange::new(0..4));
    sem.register(9);
    assert_eq!(sem.try_redistribute(), None);
    sem.register(2);
    assert_eq!(sem.try_redistribute(), Some(2));
}

#[test]
fn ties_between_sides_prefer_the_forward_neighbour() {
    let mut sem = PrioritySemaphore::new(2, 3, PriorityRange::new(0..8));
    sem.register(2);
    sem.register(4);
    assert_eq!(sem.try_redistribute(), Some(4));
    assert_eq!(sem.try_redistribute(), Some(2));
}
