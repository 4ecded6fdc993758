use query_sandbox::ringbuffer::{Consumed, RingBuffer};

fn item(got: Consumed<u32>) -> Option<u32> {
    match got {
        Consumed::Item(v) => Some(v),
        _ => None,
    }
}

#[test]
fn fresh_buffer_is_empty_and_open() {
    let mut rb: RingBuffer<u32, 4> = RingBuffer::new();
    assert!(matches!(rb.consume_one(), Consumed::Empty));
}

#[test]
fn values_come_out_in_the_order_they_went_in() {
    let mut rb: RingBuffer<u32, 4> = RingBuffer::new();
    assert_eq!(rb.produce_one(1), None);
    assert_eq!(rb.produce_one(2), None);
    assert_eq!(item(rb.consume_one()), Some(1));
    assert_eq!(rb.produce_one(3), None);
    assert_eq!(item(rb.consume_one()), Some(2));
    assert_eq!(item(rb.consume_one()), Some(3));
    assert!(matches!(rb.consume_one(), Consumed::Empty));
}

#[test]
fn capacity_values_fit_and_the_next_is_handed_back() {
    let mut rb: RingBuffer<u32, 3> = RingBuffer::new();
    assert_eq!(rb.produce_one(10), None);
    assert_eq!(rb.produce_one(20), None);
    assert_eq!(rb.produce_one(30), None);
    assert_eq!(rb.produce_one(40), Some(40));
    assert_eq!(item(rb.consume_one()), Some(10));
    assert_eq!(rb.produce_one(40), None);
    assert_eq!(item(rb.consume_one()), Some(20));
    assert_eq!(item(rb.consume_one()), Some(30));
    assert_eq!(item(rb.consume_one()), Some(40));
}

#[test]
fn buffer_of_one_slot_alternates() {
    let mut rb: RingBuffer<u32, 1> = RingBuffer::new();
    for round in 0..5u32 {
        assert_eq!(rb.produce_one(round), None);
        assert_eq!(rb.produce_one(99), Some(99));
        assert_eq!(item(rb.consume_one()), Some(round));
        assert!(matches!(rb.consume_one(), Consumed::Empty));
    }
}

#[test]
fn produce_many_stops_when_full_and_leaves_the_rest_in_the_iterator() {
    let mut rb: RingBuffer<u32, 4> = RingBuffer::new();
    let mut source = vec![1u32, 2, 3, 4, 5, 6].into_iter();
    assert_eq!(rb.produce_many(&mut source), 4);
    assert_eq!(source.next(), Some(5));
    assert_eq!(item(rb.consume_one()), Some(1));
    assert_eq!(item(rb.consume_one()), Some(2));
    assert_eq!(rb.produce_many(&mut source), 1);
    assert_eq!(source.next(), None);
    assert_eq!(item(rb.consume_one()), Some(3));
    assert_eq!(item(rb.consume_one()), Some(4));
    assert_eq!(item(rb.consume_one()), Some(6));
    assert!(matches!(rb.consume_one(), Consumed::Empty));
}

#[test]
fn produce_many_of_nothing_changes_nothing() {
    let mut rb: RingBuffer<u32, 2> = RingBuffer::new();
    let mut source = Vec::<u32>::new().into_iter();
    assert_eq!(rb.produce_many(&mut source), 0);
    assert!(matches!(rb.consume_one(), Consumed::Empty));
}

#[test]
fn produce_many_into_a_full_buffer_takes_nothing_from_the_iterator() {
    let mut rb: RingBuffer<u32, 2> = RingBuffer::new();
    assert_eq!(rb.produce_one(1), None);
    assert_eq!(rb.produce_one(2), None);
    let mut source = vec![3u32, 4].into_iter();
    assert_eq!(rb.produce_many(&mut source), 0);
    assert_eq!(source.next(), Some(3));
}

#[test]
fn interleaved_production_keeps_the_order_across_many_wraps() {
    let mut rb: RingBuffer<u32, 5> = RingBuffer::new();
    let mut next_in = 0u32;
    let mut next_out = 0u32;
    for round in 0..200u32 {
        let burst = 1 + (round * 7) % 6;
        for _ in 0..burst {
            if rb.produce_one(next_in).is_none() {
                next_in += 1;
            }
        }
        let taken = 1 + (round * 3) % 4;
        for _ in 0..taken {
            if let Some(v) = item(rb.consume_one()) {
                assert_eq!(v, next_out);
                next_out += 1;
            }
        }
        assert!(next_in - next_out <= 5);
    }
    rb.close();
    while let Some(v) = item(rb.consume_one()) {
        assert_eq!(v, next_out);
        next_out += 1;
    }
    assert_eq!(next_in, next_out);
    assert!(matches!(rb.consume_one(), Consumed::Closed));
}

#[test]
fn closed_buffer_drains_then_reports_the_end_for_good() {
    let mut rb: RingBuffer<u32, 4> = RingBuffer::new();
    assert_eq!(rb.produce_one(1), None);
    assert_eq!(rb.produce_one(2), None);
    rb.close();
    assert_eq!(item(rb.consume_one()), Some(1));
    assert_eq!(item(rb.consume_one()), Some(2));
    assert!(matches!(rb.consume_one(), Consumed::Closed));
    assert!(matches!(rb.consume_one(), Consumed::Closed));
}

#[test]
fn closing_twice_is_closing_once() {
    let mut rb: RingBuffer<u32, 2> = RingBuffer::new();
    assert_eq!(rb.produce_one(7), None);
    rb.close();
    rb.close();
    assert_eq!(item(rb.consume_one()), Some(7));
    assert!(matches!(rb.consume_one(), Consumed::Closed));
}

#[test]
fn values_that_are_not_copy_move_through_the_buffer() {
    let mut rb: RingBuffer<String, 2> = RingBuffer::new();
    assert_eq!(rb.produce_one("a".to_string()), None);
    assert_eq!(rb.produce_one("b".to_string()), None);
    assert_eq!(rb.produce_one("c".to_string()), Some("c".to_string()));
    assert!(matches!(rb.consume_one(), Consumed::Item(s) if s == "a"));
    assert!(matches!(rb.consume_one(), Consumed::Item(s) if s == "b"));
}

#[test]
fn produce_many_takes_a_single_value_from_any_iterator() {
    let mut rb: RingBuffer<u32, 1> = RingBuffer::new();
    assert_eq!(rb.produce_many(&mut std::iter::once(5)), 1);
    let mut again = std::iter::once(6);
    assert_eq!(rb.produce_many(&mut again), 0);
    assert_eq!(again.next(), Some(6));
    assert_eq!(item(rb.consume_one()), Some(5));
}
