use sampleur::channels::{deinterleave, interleave, interpolation_indices, mono_to_stereo, stereo_frame_count};
use sampleur::ring::RingBuffer;

#[test]
fn ring_reads_what_was_written() {
    let mut r = RingBuffer::new(4, 0i32);
    assert_eq!(r.len(), 4);
    r.push(1);
    r.push(2);
    r.push(3);
    assert_eq!(r.read_back(1), 3);
    assert_eq!(r.read_back(2), 2);
    assert_eq!(r.read_back(3), 1);
    assert_eq!(r.read_back(4), 0);
    assert_eq!(r.read_back(0), 0);
    assert_eq!(r.oldest(), 0);
    r.push(4);
    r.push(5);
    assert_eq!(r.oldest(), 2);
    assert_eq!(r.read_back(1), 5);
    assert_eq!(r.read_back(4), 2);
}

#[test]
fn ring_write_then_advance() {
    let mut r = RingBuffer::new(3, 0u8);
    r.write_oldest(9);
    assert_eq!(r.oldest(), 9);
    r.advance();
    assert_eq!(r.read_back(1), 9);
    let mut one = RingBuffer::new(1, 7u8);
    one.push(8);
    assert_eq!(one.read_back(1), 8);
    assert_eq!(one.oldest(), 8);
}

#[test]
fn deinterleave_and_back() {
    let s = vec![1, 2, 3, 4, 5, 6];
    let ch = deinterleave(&s, 2);
    assert_eq!(ch, vec![vec![1, 3, 5], vec![2, 4, 6]]);
    assert_eq!(interleave(&ch), s);
    let ch3 = deinterleave(&s, 3);
    assert_eq!(ch3, vec![vec![1, 4], vec![2, 5], vec![3, 6]]);
    assert_eq!(interleave(&ch3), s);
}

#[test]
fn deinterleave_partial_frame() {
    let s = vec![1, 2, 3, 4, 5];
    let ch = deinterleave(&s, 2);
    assert_eq!(ch, vec![vec![1, 3, 5], vec![2, 4]]);
    let empty: Vec<i32> = vec![];
    assert_eq!(deinterleave(&empty, 2), vec![Vec::<i32>::new(), Vec::new()]);
}

#[test]
fn interleave_uses_first_channel_length() {
    let ch = vec![vec![1, 2], vec![10, 20, 30]];
    assert_eq!(interleave(&ch), vec![1, 10, 2, 20]);
}

#[test]
fn mono_becomes_stereo() {
    assert_eq!(mono_to_stereo(&vec![1, 2, 3]), vec![1, 1, 2, 2, 3, 3]);
    assert_eq!(mono_to_stereo(&Vec::<u8>::new()), Vec::<u8>::new());
}

#[test]
fn frame_indices_wrap() {
    assert_eq!(stereo_frame_count(9), 4);
    assert_eq!(interpolation_indices(0, 4), (0, 2));
    assert_eq!(interpolation_indices(3, 4), (6, 0));
    assert_eq!(interpolation_indices(0, 1), (0, 0));
}
