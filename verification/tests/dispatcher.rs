use chat_service::threadpool::{Slot, Threadpool};

#[test]
fn new_pool_has_vacant_slots() {
    let pool = Threadpool::new(3);
    assert_eq!(pool.capacity(), 3);
    assert_eq!(pool.slot(0), Some(Slot::Vacant));
    assert_eq!(pool.slot(1), Some(Slot::Vacant));
    assert_eq!(pool.slot(2), Some(Slot::Vacant));
    assert_eq!(pool.slot(3), None);
}

#[test]
fn execute_claims_slots_in_order() {
    let mut pool = Threadpool::new(3);
    assert_eq!(pool.execute(), Some(0));
    assert_eq!(pool.execute(), Some(1));
    assert_eq!(pool.execute(), Some(2));
    assert_eq!(pool.slot(0), Some(Slot::Running));
    assert_eq!(pool.slot(1), Some(Slot::Running));
    assert_eq!(pool.slot(2), Some(Slot::Running));
    assert_eq!(pool.capacity(), 3);
}

#[test]
fn full_pool_claims_nothing_until_a_task_completes() {
    let capacity = 4;
    let mut pool = Threadpool::new(capacity);
    for slot in 0..capacity {
        assert_eq!(pool.execute(), Some(slot));
    }
    for _ in 0..5 {
        assert_eq!(pool.execute(), None);
    }
    pool.finished(2);
    assert_eq!(pool.slot(2), Some(Slot::Finished));
    assert_eq!(pool.execute(), Some(2));
    assert_eq!(pool.slot(2), Some(Slot::Running));
    assert_eq!(pool.execute(), None);
}

#[test]
fn execute_takes_the_first_finished_slot() {
    let mut pool = Threadpool::new(3);
    pool.execute();
    pool.execute();
    pool.execute();
    pool.finished(2);
    pool.finished(1);
    assert_eq!(pool.execute(), Some(1));
    assert_eq!(pool.execute(), Some(2));
    assert_eq!(pool.execute(), None);
}

#[test]
fn finished_slot_is_taken_before_a_later_vacant_one() {
    let mut pool = Threadpool::new(3);
    assert_eq!(pool.execute(), Some(0));
    assert_eq!(pool.execute(), Some(1));
    pool.finished(0);
    assert_eq!(pool.execute(), Some(0));
    assert_eq!(pool.execute(), Some(2));
}

#[test]
fn finished_leaves_other_slots_alone() {
    let mut pool = Threadpool::new(2);
    pool.execute();
    pool.finished(1);
    assert_eq!(pool.slot(0), Some(Slot::Running));
    assert_eq!(pool.slot(1), Some(Slot::Vacant));
    pool.finished(7);
    assert_eq!(pool.slot(0), Some(Slot::Running));
    assert_eq!(pool.slot(1), Some(Slot::Vacant));
    assert_eq!(pool.capacity(), 2);
    pool.finished(0);
    pool.finished(0);
    assert_eq!(pool.slot(0), Some(Slot::Finished));
}

#[test]
fn pool_without_slots_never_claims() {
    let mut pool = Threadpool::new(0);
    assert_eq!(pool.capacity(), 0);
    assert_eq!(pool.execute(), None);
    pool.finished(0);
    assert_eq!(pool.execute(), None);
}
