use cyclic_queue::FullQueueError;
use cyclic_queue::UnsafeCyclicQueue;

#[test]
fn single_push_pop() {
    let mut queue: UnsafeCyclicQueue<u8, 10> = UnsafeCyclicQueue::new();
    queue.push(1).unwrap();
    assert_eq!(Some(1), queue.pop());
}

#[test]
fn pop_empty() {
    let mut queue: UnsafeCyclicQueue<u8, 10> = UnsafeCyclicQueue::new();
    assert_eq!(None, queue.pop());
}

#[test]
fn push_full() {
    let mut queue: UnsafeCyclicQueue<u8, 2> = UnsafeCyclicQueue::new();
    queue.push(1).unwrap();
    queue.push(2).unwrap();
    assert_eq!(Err(FullQueueError), queue.push(3));
}

#[test]
fn is_empty_if_empty() {
    let queue: UnsafeCyclicQueue<u8, 10> = UnsafeCyclicQueue::new();
    assert!(queue.is_empty());
}

#[test]
fn is_empty_if_not_empty() {
    let mut queue: UnsafeCyclicQueue<u8, 10> = UnsafeCyclicQueue::new();
    queue.push(1).unwrap();
    assert!(!queue.is_empty());
}

#[test]
fn is_full_if_empty() {
    let queue: UnsafeCyclicQueue<u8, 10> = UnsafeCyclicQueue::new();
    assert!(!queue.is_full());
}

#[test]
fn is_full_if_not_full() {
    let mut queue: UnsafeCyclicQueue<u8, 10> = UnsafeCyclicQueue::new();
    queue.push(1).unwrap();
    assert!(!queue.is_full());
}

#[test]
fn is_full_if_not_full_rolling() {
    let mut queue: UnsafeCyclicQueue<u8, 10> =
        UnsafeCyclicQueue::with_start(UnsafeCyclicQueue::<u8, 10>::roll_over() - 1);

    queue.push(1).unwrap();

    assert!(!queue.is_full());
}

#[test]
fn is_full_if_full() {
    let mut queue: UnsafeCyclicQueue<u8, 1> = UnsafeCyclicQueue::new();
    queue.push(1).unwrap();
    assert!(queue.is_full());
}

#[test]
fn is_full_if_full_rolling() {
    let mut queue: UnsafeCyclicQueue<u8, 2> =
        UnsafeCyclicQueue::with_start(UnsafeCyclicQueue::<u8, 2>::roll_over() - 1);

    queue.push(1).unwrap();
    queue.push(2).unwrap();

    assert!(queue.is_full());
}

#[test]
fn default_equal_new() {
    let queue_new: UnsafeCyclicQueue<u8, 10> = UnsafeCyclicQueue::new();
    let queue_default: UnsafeCyclicQueue<u8, 10> = UnsafeCyclicQueue::default();
    assert_eq!(queue_new.slots(), queue_default.slots());
    assert_eq!(queue_new.begin_index(), queue_default.begin_index());
    assert_eq!(queue_new.end_index(), queue_default.end_index());
}

#[test]
fn new_queue_has_all_slots_empty_at_index_zero() {
    let queue: UnsafeCyclicQueue<u8, 4> = UnsafeCyclicQueue::new();
    assert_eq!(&vec![None, None, None, None], queue.slots());
    assert_eq!(0, queue.begin_index());
    assert_eq!(0, queue.end_index());
}

#[test]
fn pops_in_push_order() {
    let mut queue: UnsafeCyclicQueue<u32, 3> = UnsafeCyclicQueue::new();
    assert_eq!(Ok(()), queue.push(10));
    assert_eq!(Ok(()), queue.push(20));
    assert_eq!(Some(10), queue.pop());
    assert_eq!(Ok(()), queue.push(30));
    assert_eq!(Ok(()), queue.push(40));
    assert_eq!(Err(FullQueueError), queue.push(50));
    assert_eq!(Some(20), queue.pop());
    assert_eq!(Some(30), queue.pop());
    assert_eq!(Some(40), queue.pop());
    assert_eq!(None, queue.pop());
}

#[test]
fn full_push_changes_nothing() {
    let mut queue: UnsafeCyclicQueue<u8, 2> = UnsafeCyclicQueue::new();
    queue.push(1).unwrap();
    queue.push(2).unwrap();
    let slots_before = queue.slots().clone();
    assert_eq!(Err(FullQueueError), queue.push(3));
    assert_eq!(&slots_before, queue.slots());
    assert_eq!(0, queue.begin_index());
    assert_eq!(2, queue.end_index());
}

#[test]
fn empty_pop_changes_nothing() {
    let mut queue: UnsafeCyclicQueue<u8, 2> = UnsafeCyclicQueue::with_start(3);
    assert_eq!(None, queue.pop());
    assert_eq!(3, queue.begin_index());
    assert_eq!(3, queue.end_index());
}

#[test]
fn push_and_pop_move_their_index_by_one() {
    let mut queue: UnsafeCyclicQueue<u8, 4> = UnsafeCyclicQueue::new();
    queue.push(7).unwrap();
    assert_eq!(0, queue.begin_index());
    assert_eq!(1, queue.end_index());
    assert_eq!(&vec![Some(7), None, None, None], queue.slots());
    assert_eq!(Some(7), queue.pop());
    assert_eq!(1, queue.begin_index());
    assert_eq!(1, queue.end_index());
    assert_eq!(&vec![None, None, None, None], queue.slots());
}

#[test]
fn roll_over_is_largest_multiple_of_size() {
    assert_eq!(usize::MAX - usize::MAX % 10, UnsafeCyclicQueue::<u8, 10>::roll_over());
    assert_eq!(usize::MAX - 1, UnsafeCyclicQueue::<u8, 2>::roll_over());
    assert_eq!(usize::MAX, UnsafeCyclicQueue::<u8, 1>::roll_over());
    assert_eq!(0, UnsafeCyclicQueue::<u8, 10>::roll_over() % 10);
}

#[test]
fn increment_rollover_wraps_to_zero() {
    let roll_over = UnsafeCyclicQueue::<u8, 10>::roll_over();
    assert_eq!(0, UnsafeCyclicQueue::<u8, 10>::increment_rollover(roll_over - 1));
    assert_eq!(6, UnsafeCyclicQueue::<u8, 10>::increment_rollover(5));
    assert_eq!(1, UnsafeCyclicQueue::<u8, 10>::increment_rollover(0));
}

#[test]
fn rollover_keeps_slot_order() {
    let roll_over = UnsafeCyclicQueue::<u8, 10>::roll_over();
    let last = roll_over - 1;
    let next = UnsafeCyclicQueue::<u8, 10>::increment_rollover(last);
    assert_eq!(9, last % 10);
    assert_eq!(0, next % 10);
}

#[test]
fn capacity_reached_exactly_size_apart() {
    assert!(UnsafeCyclicQueue::<u8, 10>::is_capacity_reached(0, 10));
    assert!(!UnsafeCyclicQueue::<u8, 10>::is_capacity_reached(0, 9));
    assert!(!UnsafeCyclicQueue::<u8, 10>::is_capacity_reached(0, 0));
    let roll_over = UnsafeCyclicQueue::<u8, 10>::roll_over();
    assert!(UnsafeCyclicQueue::<u8, 10>::is_capacity_reached(roll_over - 1, 9));
    assert!(!UnsafeCyclicQueue::<u8, 10>::is_capacity_reached(roll_over - 1, roll_over - 1));
}

#[test]
fn empty_and_full_differ_at_every_start() {
    let roll_over = UnsafeCyclicQueue::<u8, 2>::roll_over();
    for start in [0, 1, 2, roll_over - 2, roll_over - 1] {
        assert!(!UnsafeCyclicQueue::<u8, 2>::is_capacity_reached(start, start));
        let mut queue: UnsafeCyclicQueue<u8, 2> = UnsafeCyclicQueue::with_start(start);
        assert!(queue.is_empty());
        assert!(!queue.is_full());
        queue.push(1).unwrap();
        queue.push(2).unwrap();
        assert!(!queue.is_empty());
        assert!(queue.is_full());
    }
}

#[test]
fn full_detected_near_roll_over_for_size_three() {
    let roll_over = UnsafeCyclicQueue::<u8, 3>::roll_over();
    let mut queue: UnsafeCyclicQueue<u8, 3> = UnsafeCyclicQueue::with_start(roll_over - 1);
    assert_eq!(Ok(()), queue.push(1));
    assert_eq!(Ok(()), queue.push(2));
    assert!(!queue.is_full());
    assert_eq!(Ok(()), queue.push(3));
    assert!(queue.is_full());
    assert_eq!(Err(FullQueueError), queue.push(4));
    assert_eq!(Some(1), queue.pop());
    assert_eq!(Some(2), queue.pop());
    assert_eq!(Some(3), queue.pop());
    assert_eq!(None, queue.pop());
}

#[test]
fn fifo_across_roll_over() {
    let roll_over = UnsafeCyclicQueue::<u32, 4>::roll_over();
    let mut queue: UnsafeCyclicQueue<u32, 4> = UnsafeCyclicQueue::with_start(roll_over - 2);
    let mut expected: u32 = 0;
    for value in 0..20u32 {
        assert_eq!(Ok(()), queue.push(value));
        if value >= 3 {
            assert_eq!(Some(expected), queue.pop());
            expected += 1;
        }
        assert!(queue.begin_index() < roll_over);
        assert!(queue.end_index() < roll_over);
    }
    while let Some(value) = queue.pop() {
        assert_eq!(expected, value);
        expected += 1;
    }
    assert_eq!(20, expected);
}

#[test]
fn size_is_valid_bounds() {
    assert!(UnsafeCyclicQueue::<u8, 1>::size_is_valid());
    assert!(UnsafeCyclicQueue::<u8, 10>::size_is_valid());
    assert!(!UnsafeCyclicQueue::<u8, 0>::size_is_valid());
    assert!(UnsafeCyclicQueue::<u8, { usize::MAX / 2 }>::size_is_valid());
    assert!(!UnsafeCyclicQueue::<u8, { usize::MAX / 2 + 1 }>::size_is_valid());
}

#[test]
fn default_of_size_zero_has_no_slots() {
    let queue: UnsafeCyclicQueue<u8, 0> = UnsafeCyclicQueue::default();
    assert!(queue.slots().is_empty());
}

#[test]
fn stored_count_is_index_distance() {
    let roll_over = UnsafeCyclicQueue::<u8, 4>::roll_over();
    let mut queue: UnsafeCyclicQueue<u8, 4> = UnsafeCyclicQueue::with_start(roll_over - 1);
    queue.push(1).unwrap();
    queue.push(2).unwrap();
    queue.push(3).unwrap();
    assert_eq!(roll_over - 1, queue.begin_index());
    assert_eq!(2, queue.end_index());
    assert_eq!(3, (roll_over - queue.begin_index() + queue.end_index()) % roll_over);
    assert_eq!(Some(1), queue.pop());
    assert_eq!(0, queue.begin_index());
    assert_eq!(2, (roll_over - queue.begin_index() + queue.end_index()) % roll_over);
}

#[test]
fn fill_then_drain_returns_values_in_push_order() {
    let mut queue: UnsafeCyclicQueue<u32, 5> = UnsafeCyclicQueue::new();
    for value in [11u32, 22, 33, 44, 55] {
        assert_eq!(Ok(()), queue.push(value));
    }
    for value in [11u32, 22, 33, 44, 55] {
        assert_eq!(Some(value), queue.pop());
    }
    assert_eq!(None, queue.pop());
}

#[test]
fn push_writes_only_the_end_slot_and_pop_empties_only_the_begin_slot() {
    let mut queue: UnsafeCyclicQueue<u8, 3> = UnsafeCyclicQueue::with_start(4);
    queue.push(1).unwrap();
    assert_eq!(&vec![None, Some(1), None], queue.slots());
    queue.push(2).unwrap();
    assert_eq!(&vec![None, Some(1), Some(2)], queue.slots());
    queue.push(3).unwrap();
    assert_eq!(&vec![Some(3), Some(1), Some(2)], queue.slots());
    assert_eq!(Some(1), queue.pop());
    assert_eq!(&vec![Some(3), None, Some(2)], queue.slots());
    assert_eq!(5, queue.begin_index());
    assert_eq!(7, queue.end_index());
}

#[test]
fn increment_rollover_wraps_usize_max_to_zero() {
    assert_eq!(0, UnsafeCyclicQueue::<u8, 10>::increment_rollover(usize::MAX));
    assert_eq!(0, UnsafeCyclicQueue::<u8, 1>::increment_rollover(usize::MAX));
}

#[test]
fn capacity_check_reduces_a_begin_index_past_roll_over() {
    let roll_over = UnsafeCyclicQueue::<u8, 10>::roll_over();
    assert!(UnsafeCyclicQueue::<u8, 10>::is_capacity_reached(roll_over + 2, 12));
    assert!(!UnsafeCyclicQueue::<u8, 10>::is_capacity_reached(roll_over + 2, 2));
}

#[test]
fn a_queue_keeps_size_slots() {
    let mut queue: UnsafeCyclicQueue<u8, 7> = UnsafeCyclicQueue::new();
    assert_eq!(7, queue.slots().len());
    for value in 0..20u8 {
        let _ = queue.push(value);
        if value % 3 == 0 {
            let _ = queue.pop();
        }
        assert_eq!(7, queue.slots().len());
    }
}

#[test]
fn indices_show_empty_exactly_when_equal() {
    assert!(UnsafeCyclicQueue::<u8, 4>::indices_show_empty(5, 5));
    assert!(!UnsafeCyclicQueue::<u8, 4>::indices_show_empty(5, 6));
    assert!(!UnsafeCyclicQueue::<u8, 4>::indices_show_empty(6, 5));
}
