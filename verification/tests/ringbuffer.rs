use lib::error::Error;
use lib::ringbuffer::{KRingBuffer, KVRingBuffer, RingBuffer, VRingBuffer, GFP_KERNEL};

#[test]
fn test_new_buffer_is_empty() {
    let buffer: KRingBuffer<i32> =
        KRingBuffer::new(5, GFP_KERNEL).expect("Failed to create buffer");
    assert!(!buffer.full());
    assert!(buffer.empty());
}

#[test]
fn test_new_buffer_has_correct_capacity() {
    let capacity = 10;
    let buffer: KRingBuffer<i32> =
        KRingBuffer::new(capacity, GFP_KERNEL).expect("Failed to create buffer");
    assert_eq!(buffer.free_count(), capacity);
}

#[test]
fn test_push_single_element() {
    let mut buffer: KRingBuffer<i32> =
        KRingBuffer::new(5, GFP_KERNEL).expect("Failed to create buffer");
    assert!(buffer.push_head(42).is_ok());
    assert!(!buffer.empty());
    assert!(!buffer.full());
}

#[test]
fn test_push_and_pop_single_element() {
    let mut buffer: KRingBuffer<i32> =
        KRingBuffer::new(5, GFP_KERNEL).expect("Failed to create buffer");
    buffer.push_head(42).expect("Failed to push");
    let value = buffer.pop_tail();
    assert_eq!(value, Some(42));
    assert!(buffer.empty());
}

#[test]
fn test_push_and_pop_multiple_elements() {
    let mut buffer: KRingBuffer<i32> =
        KRingBuffer::new(5, GFP_KERNEL).expect("Failed to create buffer");

    for i in 0..5 {
        buffer.push_head(i).expect("Failed to push");
    }

    for i in 0..5 {
        assert_eq!(buffer.pop_tail(), Some(i));
    }

    assert!(buffer.empty());
}

#[test]
fn test_pop_from_empty_buffer() {
    let mut buffer: KRingBuffer<i32> =
        KRingBuffer::new(5, GFP_KERNEL).expect("Failed to create buffer");
    assert_eq!(buffer.pop_tail(), None);
}

#[test]
fn test_buffer_full() {
    let capacity = 3;
    let mut buffer: KRingBuffer<i32> =
        KRingBuffer::new(capacity, GFP_KERNEL).expect("Failed to create buffer");

    for i in 0..capacity {
        assert!(buffer.push_head(i as i32).is_ok());
    }

    assert!(buffer.full());
    assert_eq!(buffer.free_count(), 0);
}

#[test]
fn test_push_to_full_buffer_fails() {
    let capacity = 3;
    let mut buffer: KRingBuffer<i32> =
        KRingBuffer::new(capacity, GFP_KERNEL).expect("Failed to create buffer");

    for i in 0..capacity {
        buffer.push_head(i as i32).expect("Failed to push");
    }

    assert!(buffer.full());
    assert!(buffer.push_head(999).is_err());
}

#[test]
fn test_free_count_decreases_on_push() {
    let capacity = 5;
    let mut buffer: KRingBuffer<i32> =
        KRingBuffer::new(capacity, GFP_KERNEL).expect("Failed to create buffer");

    assert_eq!(buffer.free_count(), capacity);

    for i in 0..capacity {
        buffer.push_head(i as i32).expect("Failed to push");
        assert_eq!(buffer.free_count(), capacity - i - 1);
    }
}

#[test]
fn test_free_count_increases_on_pop() {
    let capacity = 5;
    let mut buffer: KRingBuffer<i32> =
        KRingBuffer::new(capacity, GFP_KERNEL).expect("Failed to create buffer");

    for i in 0..capacity {
        buffer.push_head(i as i32).expect("Failed to push");
    }

    assert_eq!(buffer.free_count(), 0);

    for i in 1..=capacity {
        buffer.pop_tail();
        assert_eq!(buffer.free_count(), i);
    }
}

#[test]
fn test_wrap_around_behavior() {
    let capacity = 3;
    let mut buffer: KRingBuffer<i32> =
        KRingBuffer::new(capacity, GFP_KERNEL).expect("Failed to create buffer");

    // Fill the buffer.
    for i in 0..capacity {
        buffer.push_head(i as i32).expect("Failed to push");
    }

    // Pop two elements.
    assert_eq!(buffer.pop_tail(), Some(0));
    assert_eq!(buffer.pop_tail(), Some(1));

    // Push two more (should wrap around).
    buffer.push_head(10).expect("Failed to push");
    buffer.push_head(11).expect("Failed to push");

    // Verify order.
    assert_eq!(buffer.pop_tail(), Some(2));
    assert_eq!(buffer.pop_tail(), Some(10));
    assert_eq!(buffer.pop_tail(), Some(11));
    assert!(buffer.empty());
}

#[test]
fn test_fifo_order() {
    let mut buffer: KRingBuffer<i32> =
        KRingBuffer::new(10, GFP_KERNEL).expect("Failed to create buffer");

    let values = [1, 2, 3, 4, 5];
    for &value in &values {
        buffer.push_head(value).expect("Failed to push");
    }

    for &expected in &values {
        assert_eq!(buffer.pop_tail(), Some(expected));
    }
}

#[test]
fn test_interleaved_push_pop() {
    let mut buffer: KRingBuffer<i32> =
        KRingBuffer::new(5, GFP_KERNEL).expect("Failed to create buffer");

    buffer.push_head(1).expect("Failed to push");
    buffer.push_head(2).expect("Failed to push");
    assert_eq!(buffer.pop_tail(), Some(1));

    buffer.push_head(3).expect("Failed to push");
    assert_eq!(buffer.pop_tail(), Some(2));
    assert_eq!(buffer.pop_tail(), Some(3));

    assert!(buffer.empty());
}

#[test]
fn test_buffer_state_after_fill_and_drain() {
    let capacity = 4;
    let mut buffer: KRingBuffer<i32> =
        KRingBuffer::new(capacity, GFP_KERNEL).expect("Failed to create buffer");

    // Fill and drain twice.
    for _ in 0..2 {
        for i in 0..capacity {
            buffer.push_head(i as i32).expect("Failed to push");
        }
        assert!(buffer.full());

        for _ in 0..capacity {
            buffer.pop_tail();
        }
        assert!(buffer.empty());
    }
}

#[test]
fn test_single_capacity_buffer() {
    let mut buffer: KRingBuffer<i32> =
        KRingBuffer::new(1, GFP_KERNEL).expect("Failed to create buffer");

    assert_eq!(buffer.free_count(), 1);
    buffer.push_head(42).expect("Failed to push");
    assert!(buffer.full());
    assert_eq!(buffer.free_count(), 0);

    assert_eq!(buffer.pop_tail(), Some(42));
    assert!(buffer.empty());
}

#[test]
fn new_fails_when_slot_count_overflows() {
    let r: Result<RingBuffer<u8>, Error> = RingBuffer::new(usize::MAX, GFP_KERNEL);
    assert!(matches!(r, Err(Error::ENOMEM)));
}

#[test]
fn new_fails_when_storage_cannot_be_reserved() {
    let r: Result<RingBuffer<u64>, Error> = RingBuffer::new(usize::MAX / 2, GFP_KERNEL);
    assert!(matches!(r, Err(Error::ENOMEM)));
}

#[test]
fn zero_capacity_buffer_is_full_and_empty() {
    let mut buffer: VRingBuffer<i32> = VRingBuffer::new(0, GFP_KERNEL).expect("Failed to create buffer");
    assert!(buffer.full());
    assert!(buffer.empty());
    assert_eq!(buffer.free_count(), 0);
    assert_eq!(buffer.push_head(7), Err(Error::ENOSPC));
    assert_eq!(buffer.pop_tail(), None);
}

#[test]
fn full_push_leaves_contents_unchanged() {
    let mut buffer: KVRingBuffer<i32> = KVRingBuffer::new(2, GFP_KERNEL).expect("Failed to create buffer");
    buffer.push_head(1).expect("Failed to push");
    buffer.push_head(2).expect("Failed to push");
    assert_eq!(buffer.push_head(3), Err(Error::ENOSPC));
    assert_eq!(buffer.pop_tail(), Some(1));
    assert_eq!(buffer.pop_tail(), Some(2));
    assert_eq!(buffer.pop_tail(), None);
}

#[test]
fn fifo_order_across_many_laps() {
    let mut buffer: KRingBuffer<u32> = KRingBuffer::new(3, GFP_KERNEL).expect("Failed to create buffer");
    let mut next_in = 0u32;
    let mut next_out = 0u32;
    for round in 0..50u32 {
        let pushes = round % 4;
        for _ in 0..pushes {
            if buffer.push_head(next_in).is_ok() {
                next_in += 1;
            }
        }
        for _ in 0..(round % 3) {
            if let Some(v) = buffer.pop_tail() {
                assert_eq!(v, next_out);
                next_out += 1;
            }
        }
        assert_eq!(buffer.free_count() as u32, 3 - (next_in - next_out));
        assert_eq!(buffer.full(), buffer.free_count() == 0);
        assert_eq!(buffer.empty(), buffer.free_count() == 3);
    }
}

#[test]
fn pushed_value_comes_back_from_empty_buffer() {
    let mut buffer: KRingBuffer<String> = KRingBuffer::new(1, GFP_KERNEL).expect("Failed to create buffer");
    buffer.push_head(String::from("a")).expect("Failed to push");
    assert_eq!(buffer.pop_tail(), Some(String::from("a")));
    assert!(buffer.empty());
}
