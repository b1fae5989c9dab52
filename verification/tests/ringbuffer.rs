use swap_engine::ringbuffer::{RingBuffer, RingBufferTrait, RingBufferTransient, WrappingOps};
use swap_engine::utilities::ValueStruct;

fn item(integer: u32) -> ValueStruct {
    ValueStruct { integer, boolean: true }
}

#[test]
fn wrapping_ops_wrap_around() {
    assert_eq!(WrappingOps::wrapping_add(255u8, 1u8), 0u8);
    assert_eq!(WrappingOps::wrapping_add(200u8, 100u8), 44u8);
    assert_eq!(WrappingOps::wrapping_sub(0u8, 1u8), 255u8);
    assert_eq!(WrappingOps::wrapping_sub(5u8, 3u8), 2u8);
    assert_eq!(WrappingOps::wrapping_add(u16::MAX, 2u16), 1u16);
    assert_eq!(WrappingOps::wrapping_sub(1u16, 2u16), u16::MAX);
    assert_eq!(WrappingOps::wrapping_add(u32::MAX, 1u32), 0u32);
    assert_eq!(WrappingOps::wrapping_sub(0u32, 1u32), u32::MAX);
    assert_eq!(WrappingOps::wrapping_add(u64::MAX, u64::MAX), u64::MAX - 1);
    assert_eq!(WrappingOps::wrapping_sub(3u64, 4u64), u64::MAX);
    assert_eq!(WrappingOps::wrapping_add(1u64, 2u64), 3u64);
}

#[test]
fn new_buffer_is_empty() {
    let buffer: RingBuffer<ValueStruct> = RingBuffer::new();
    assert_eq!(buffer.range(), (0, 0));
    assert_eq!(buffer.oldest(), None);
    assert_eq!(buffer.value(0), None);
    let mut ring = RingBufferTransient::new(buffer);
    assert!(ring.is_empty());
    assert_eq!(ring.pop(), None);
    assert!(ring.is_empty());
    assert_eq!(ring.close().range(), (0, 0));
}

#[test]
fn pushes_come_out_in_order() {
    let mut ring = RingBufferTransient::new(RingBuffer::new());
    ring.push(item(1));
    ring.push(item(2));
    ring.push(item(3));
    assert!(!ring.is_empty());
    assert_eq!(ring.pop(), Some(item(1)));
    ring.push(item(4));
    assert_eq!(ring.pop(), Some(item(2)));
    assert_eq!(ring.pop(), Some(item(3)));
    assert_eq!(ring.pop(), Some(item(4)));
    assert_eq!(ring.pop(), None);
    assert!(ring.is_empty());
}

#[test]
fn closing_commits_the_bounds() {
    let mut ring = RingBufferTransient::new(RingBuffer::new());
    ring.push(item(10));
    ring.push(item(11));
    ring.pop();
    ring.commit();
    ring.push(item(12));
    let buffer = ring.close();
    assert_eq!(buffer.range(), (1, 3));
    assert_eq!(buffer.oldest(), Some(&item(11)));
    assert_eq!(buffer.value(0), None);
    assert_eq!(buffer.value(1), Some(&item(11)));
    assert_eq!(buffer.value(2), Some(&item(12)));
    let mut again = RingBufferTransient::new(buffer);
    assert_eq!(again.pop(), Some(item(11)));
    assert_eq!(again.pop(), Some(item(12)));
    assert_eq!(again.pop(), None);
    assert_eq!(again.close().range(), (3, 3));
}

#[test]
fn full_buffer_overwrites_the_oldest() {
    let mut ring = RingBufferTransient::new(RingBuffer::new());
    for i in 0..255u32 {
        ring.push(item(i));
    }
    let buffer = ring.close();
    assert_eq!(buffer.range(), (0, 255));
    assert_eq!(buffer.oldest(), Some(&item(0)));
    let mut ring = RingBufferTransient::new(buffer);
    ring.push(item(255));
    let buffer = ring.close();
    assert_eq!(buffer.range(), (1, 0));
    assert_eq!(buffer.oldest(), Some(&item(1)));
    let mut ring = RingBufferTransient::new(buffer);
    ring.push(item(256));
    let buffer = ring.close();
    assert_eq!(buffer.range(), (2, 1));
    let mut ring = RingBufferTransient::new(buffer);
    for i in 2..257u32 {
        assert_eq!(ring.pop(), Some(item(i)));
    }
    assert_eq!(ring.pop(), None);
    assert!(ring.is_empty());
    assert_eq!(ring.close().range(), (1, 1));
}

#[test]
fn indices_wrap_around_the_slots() {
    let mut ring = RingBufferTransient::new(RingBuffer::new());
    for i in 0..300u32 {
        ring.push(item(i));
        assert_eq!(ring.pop(), Some(item(i)));
    }
    ring.push(item(7));
    let buffer = ring.close();
    assert_eq!(buffer.range(), (44, 45));
    assert_eq!(buffer.oldest(), Some(&item(7)));
}
