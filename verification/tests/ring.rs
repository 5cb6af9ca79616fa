use thread_pool::ring::{pop_decide, push_decide, PopDecision, PushDecision, RingBuffer};

#[test]
fn test_queue() {
    let mut q: RingBuffer<u32> = RingBuffer::new(8);
    for i in 0..7 {
        assert_eq!(q.push(i), Ok(()));
    }

    assert_eq!(q.push(7), Err(7));

    for i in 0..4 {
        assert_eq!(q.pop(), Ok(i));
    }

    assert_eq!(q.push(5), Ok(()));
    for expected in [4, 5, 6, 5] {
        assert_eq!(q.pop(), Ok(expected));
    }
    assert_eq!(q.pop(), Err(()));

    for i in 0..7 {
        assert_eq!(q.push(i + 8), Ok(()));
    }

    for i in 0..7 {
        assert_eq!(q.pop(), Ok(i + 8));
    }
}

#[test]
fn end_to_end_scenario() {
    let mut q: RingBuffer<u32> = RingBuffer::new(8);
    for i in 0..7 {
        assert_eq!(q.push(i), Ok(()));
    }
    assert_eq!(q.push(7), Err(7));
    assert_eq!(q.pop(), Ok(0));
    assert_eq!(q.pop(), Ok(1));
    assert_eq!(q.pop(), Ok(2));
    assert_eq!(q.pop(), Ok(3));
    assert_eq!(q.push(5), Ok(()));
    assert_eq!(q.pop(), Ok(4));
    assert_eq!(q.pop(), Ok(5));
    assert_eq!(q.pop(), Ok(6));
    assert_eq!(q.pop(), Ok(5));
    assert_eq!(q.pop(), Err(()));
}

#[test]
fn fresh_queue_pop_is_empty() {
    let mut q: RingBuffer<u64> = RingBuffer::new(4);
    assert_eq!(q.pop(), Err(()));
    assert_eq!(q.pop(), Err(()));
}

#[test]
fn boundary_capacity_two() {
    let mut q: RingBuffer<u32> = RingBuffer::new(2);
    assert_eq!(q.push(1), Ok(()));
    assert_eq!(q.push(2), Err(2));
    assert_eq!(q.pop(), Ok(1));
    assert_eq!(q.push(3), Ok(()));
    assert_eq!(q.pop(), Ok(3));
    assert_eq!(q.pop(), Err(()));
}

#[test]
fn boundary_capacity_three() {
    let mut q: RingBuffer<u32> = RingBuffer::new(3);
    assert_eq!(q.push(10), Ok(()));
    assert_eq!(q.push(20), Ok(()));
    assert_eq!(q.push(30), Err(30));
    assert_eq!(q.pop(), Ok(10));
    assert_eq!(q.push(30), Ok(()));
    assert_eq!(q.push(40), Err(40));
    assert_eq!(q.pop(), Ok(20));
    assert_eq!(q.pop(), Ok(30));
    assert_eq!(q.pop(), Err(()));
}

#[test]
fn boundary_capacity_large() {
    let cap: u32 = 64;
    let mut q: RingBuffer<u32> = RingBuffer::new(cap as usize);
    for i in 0..cap - 1 {
        assert_eq!(q.push(i), Ok(()));
    }
    assert_eq!(q.push(cap - 1), Err(cap - 1));
    assert_eq!(q.pop(), Ok(0));
    assert_eq!(q.push(cap - 1), Ok(()));
    assert_eq!(q.push(cap), Err(cap));
    for i in 1..=cap - 1 {
        assert_eq!(q.pop(), Ok(i));
    }
    assert_eq!(q.pop(), Err(()));
}

#[test]
fn size_returns_capacity() {
    let q: RingBuffer<u8> = RingBuffer::new(16);
    assert_eq!(q.size(), 16);
    let q2: RingBuffer<String> = RingBuffer::new(2);
    assert_eq!(q2.size(), 2);
}

#[test]
fn rejected_push_returns_value_unchanged() {
    let mut q: RingBuffer<String> = RingBuffer::new(2);
    assert_eq!(q.push(String::from("first")), Ok(()));
    assert_eq!(q.push(String::from("second")), Err(String::from("second")));
}

#[test]
fn fifo_order_kept() {
    let mut q: RingBuffer<u32> = RingBuffer::new(10);
    for v in [3, 1, 4, 1, 5, 9, 2, 6] {
        assert_eq!(q.push(v), Ok(()));
    }
    for v in [3, 1, 4, 1, 5, 9, 2, 6] {
        assert_eq!(q.pop(), Ok(v));
    }
    assert_eq!(q.pop(), Err(()));
}

#[test]
fn no_loss_no_duplication_interleaved() {
    // Interleave pushes and pops across several wraparounds and compare, as
    // multisets, what went in against what came out.
    let mut q: RingBuffer<u32> = RingBuffer::new(5);
    let mut pushed: Vec<u32> = Vec::new();
    let mut popped: Vec<u32> = Vec::new();
    let mut next: u32 = 0;
    for round in 0..20 {
        for _ in 0..(round % 4) + 1 {
            if q.push(next).is_ok() {
                pushed.push(next);
            }
            next += 1;
        }
        for _ in 0..(round % 3) + 1 {
            if let Ok(v) = q.pop() {
                popped.push(v);
            }
        }
    }
    while let Ok(v) = q.pop() {
        popped.push(v);
    }
    let mut a = pushed.clone();
    let mut b = popped.clone();
    a.sort();
    b.sort();
    assert_eq!(a, b);
}

#[test]
fn push_decide_boundaries() {
    assert_eq!(push_decide(7, 0, 8), PushDecision::Full);
    assert_eq!(
        push_decide(3, 0, 8),
        PushDecision::Claim { slot: 3, next_tail: 4 }
    );
    assert_eq!(
        push_decide(7, 5, 8),
        PushDecision::Claim { slot: 7, next_tail: 0 }
    );
    assert_eq!(push_decide(1, 2, 8), PushDecision::Full);
    assert_eq!(push_decide(0, 1, 2), PushDecision::Full);
    assert_eq!(
        push_decide(0, 0, 2),
        PushDecision::Claim { slot: 0, next_tail: 1 }
    );
}

#[test]
fn push_decide_matches_distance_formula() {
    for cap in [2usize, 3, 8, 13] {
        for tail in 0..cap {
            for head in 0..cap {
                let full = (tail + 1 + cap - head) % cap == 0;
                match push_decide(tail, head, cap) {
                    PushDecision::Full => assert!(full),
                    PushDecision::Claim { slot, next_tail } => {
                        assert!(!full);
                        assert_eq!(slot, tail);
                        assert_eq!(next_tail, (tail + 1) % cap);
                    }
                }
            }
        }
    }
}

#[test]
fn pop_decide_boundaries() {
    assert_eq!(pop_decide(2, 2, 8), PopDecision::Empty);
    assert_eq!(
        pop_decide(2, 5, 8),
        PopDecision::Claim { slot: 2, next_head: 3 }
    );
    assert_eq!(
        pop_decide(7, 3, 8),
        PopDecision::Claim { slot: 7, next_head: 0 }
    );
    for cap in [2usize, 3, 8, 13] {
        for head in 0..cap {
            for tail in 0..cap {
                match pop_decide(head, tail, cap) {
                    PopDecision::Empty => assert_eq!(head, tail),
                    PopDecision::Claim { slot, next_head } => {
                        assert_ne!(head, tail);
                        assert_eq!(slot, head);
                        assert_eq!(next_head, (head + 1) % cap);
                    }
                }
            }
        }
    }
}
