use fmradio::pipeline::{refill, resize_block, AUDIO_BLOCK, POOL_BUFFERS};
use fmradio::playback::fill_frame;
use fmradio::source::{collect, VecSource};

#[test]
fn frame_is_padded_with_silence_when_stream_ends() {
    let mut src = VecSource::new(vec![1.0f32, 2.0, 3.0, 4.0]);
    let mut frame = [9.0f32; 6];
    assert!(fill_frame(&mut frame, &mut src, 0.0));
    assert_eq!(frame, [1.0, 2.0, 3.0, 4.0, 0.0, 0.0]);
    let mut again = [9.0f32; 2];
    assert!(fill_frame(&mut again, &mut src, 0.0));
    assert_eq!(again, [0.0, 0.0]);
}

#[test]
fn frame_takes_only_what_it_needs() {
    let mut src = VecSource::new(vec![1u8, 2, 3, 4, 5]);
    let mut frame = [0u8; 3];
    assert!(!fill_frame(&mut frame, &mut src, 0));
    assert_eq!(frame, [1, 2, 3]);
    assert_eq!(collect(&mut src), vec![4, 5]);
}

#[test]
fn exactly_full_frame_is_not_the_end() {
    let mut src = VecSource::new(vec![1u8, 2, 3]);
    let mut frame = [0u8; 3];
    assert!(!fill_frame(&mut frame, &mut src, 0));
    assert_eq!(frame, [1, 2, 3]);
    let mut empty: [u8; 0] = [];
    assert!(!fill_frame(&mut empty, &mut src, 0));
    let mut one = [7u8; 1];
    assert!(fill_frame(&mut one, &mut src, 0));
    assert_eq!(one, [0]);
}

#[test]
fn refill_keeps_stale_tail_of_recycled_buffer() {
    let mut src = VecSource::new(vec![1u8, 2]);
    let mut out = vec![9u8; 5];
    assert_eq!(refill(&mut out, &mut src, 5, 0), 2);
    assert_eq!(out, vec![1, 2, 9, 9, 9]);
}

#[test]
fn refill_pads_fresh_buffer_and_stops_at_block_length() {
    let mut src = VecSource::new(vec![1u8, 2, 3, 4, 5, 6]);
    let mut out: Vec<u8> = Vec::new();
    assert_eq!(refill(&mut out, &mut src, 4, 0), 4);
    assert_eq!(out, vec![1, 2, 3, 4]);
    let mut next = vec![8u8; 7];
    assert_eq!(refill(&mut next, &mut src, 4, 0), 2);
    assert_eq!(next, vec![5, 6, 8, 8]);
    let mut last: Vec<u8> = vec![3];
    assert_eq!(refill(&mut last, &mut src, 3, 0), 0);
    assert_eq!(last, vec![3, 0, 0]);
}

#[test]
fn resize_block_cuts_and_pads() {
    let mut v = vec![1u8, 2, 3];
    resize_block(&mut v, 5, 7);
    assert_eq!(v, vec![1, 2, 3, 7, 7]);
    resize_block(&mut v, 2, 7);
    assert_eq!(v, vec![1, 2]);
    resize_block(&mut v, 2, 7);
    assert_eq!(v, vec![1, 2]);
}

#[test]
fn block_constants() {
    assert_eq!(AUDIO_BLOCK, 8192);
    assert_eq!(POOL_BUFFERS, 8);
}

#[test]
fn two_frames_hold_what_one_long_frame_holds() {
    let items: Vec<u8> = (1..8).collect();
    let mut src = VecSource::new(items.clone());
    let mut first = [0u8; 4];
    let mut second = [0u8; 6];
    fill_frame(&mut first, &mut src, 0);
    fill_frame(&mut second, &mut src, 0);
    let mut whole = [0u8; 10];
    fill_frame(&mut whole, &mut VecSource::new(items), 0);
    assert_eq!(&whole[..4], &first[..]);
    assert_eq!(&whole[4..], &second[..]);
}

#[test]
fn pump_block_moves_one_block_into_the_pool() {
    let (mut tx, mut rx) = fmradio::buffer::buf_pair::<Vec<u16>>(2);
    let items: Vec<u16> = (0..10000).collect();
    let mut src = VecSource::new(items);
    assert_eq!(fmradio::pipeline::pump_block(&mut tx, &mut src, 0), Some(8192));
    assert_eq!(fmradio::pipeline::pump_block(&mut tx, &mut src, 0), Some(10000 - 8192));
    let first = rx.get().unwrap();
    assert_eq!(first.len(), 8192);
    assert_eq!(first[0], 0);
    assert_eq!(first[8191], 8191);
    rx.release(first);
    let second = rx.get().unwrap();
    assert_eq!(second.len(), 8192);
    assert_eq!(second[0], 8192);
    assert_eq!(second[10000 - 8192 - 1], 9999);
    assert_eq!(second[10000 - 8192], 0);
    rx.release(second);
    drop(rx);
    // the consumer is gone: no block is pumped although buffers are free
    assert_eq!(fmradio::pipeline::pump_block(&mut tx, &mut src, 0), None);
    assert_eq!(fmradio::pipeline::pump_block(&mut tx, &mut src, 0), None);
}
