use fmradio::resample::{Downsample, Downsampleable, Upsample, Upsampleable};
use fmradio::source::{collect, Source, VecSource};
use num_complex::Complex32;

#[test]
fn test_upsample() {
    let input = vec![Complex32::new(1.0, 0.0), Complex32::new(2.0, 0.0), Complex32::new(3.0, 0.0)];
    let upsampled: Vec<Complex32> = collect(&mut VecSource::new(input).upsample(3));
    let expected = vec![
        Complex32::new(1.0, 0.0), Complex32::new(1.0, 0.0), Complex32::new(1.0, 0.0),
        Complex32::new(2.0, 0.0), Complex32::new(2.0, 0.0), Complex32::new(2.0, 0.0),
        Complex32::new(3.0, 0.0), Complex32::new(3.0, 0.0), Complex32::new(3.0, 0.0),
    ];
    assert_eq!(upsampled, expected);
}

#[test]
fn test_downsample() {
    let input = vec![Complex32::new(1.0, 0.0), Complex32::new(2.0, 0.0), Complex32::new(3.0, 0.0), Complex32::new(4.0, 0.0), Complex32::new(5.0, 0.0)];
    let downsampled: Vec<Complex32> = collect(&mut VecSource::new(input).downsample(2));
    let expected = vec![Complex32::new(1.0, 0.0), Complex32::new(3.0, 0.0), Complex32::new(5.0, 0.0)];
    assert_eq!(downsampled, expected);
}

#[test]
fn upsample_then_downsample_is_identity() {
    let input: Vec<u32> = (0..17).collect();
    for factor in 1..6 {
        let up = Upsample::new(VecSource::new(input.clone()), factor);
        let mut down = Downsample::new(up, factor);
        assert_eq!(collect(&mut down), input);
    }
}

#[test]
fn unit_factor_changes_nothing() {
    let input: Vec<i16> = vec![4, -1, 9, 0];
    assert_eq!(collect(&mut VecSource::new(input.clone()).upsample(1)), input);
    assert_eq!(collect(&mut VecSource::new(input.clone()).downsample(1)), input);
}

#[test]
fn downsample_of_short_input() {
    let empty: Vec<u8> = vec![];
    assert_eq!(collect(&mut VecSource::new(empty.clone()).downsample(3)), empty);
    assert_eq!(collect(&mut VecSource::new(vec![7u8, 8]).downsample(3)), vec![7u8]);
    assert_eq!(collect(&mut VecSource::new(vec![7u8, 8, 9]).downsample(3)), vec![7u8]);
    assert_eq!(collect(&mut VecSource::new(vec![7u8, 8, 9, 10]).downsample(3)), vec![7u8, 10]);
}

#[test]
fn exhausted_source_stays_exhausted() {
    let mut up = VecSource::new(vec![1u8]).upsample(2);
    assert_eq!(up.next(), Some(1));
    assert_eq!(up.next(), Some(1));
    assert_eq!(up.next(), None);
    assert_eq!(up.next(), None);
    let mut down = VecSource::new(vec![1u8, 2, 3]).downsample(2);
    assert_eq!(down.next(), Some(1));
    assert_eq!(down.next(), Some(3));
    assert_eq!(down.next(), None);
    assert_eq!(down.next(), None);
}

#[test]
fn two_decimations_equal_one() {
    let input: Vec<u32> = (0..103).collect();
    for (a, b) in [(1usize, 1usize), (2, 3), (5, 5), (3, 7), (4, 1)] {
        let twice = collect(&mut VecSource::new(input.clone()).downsample(a).downsample(b));
        let once = collect(&mut VecSource::new(input.clone()).downsample(a * b));
        assert_eq!(twice, once);
    }
}

#[test]
fn upsample_length_and_items() {
    let input: Vec<u32> = vec![10, 20, 30, 40];
    let out = collect(&mut VecSource::new(input.clone()).upsample(4));
    assert_eq!(out.len(), 16);
    for (i, x) in out.iter().enumerate() {
        assert_eq!(*x, input[i / 4]);
    }
}

#[test]
fn downsample_length_and_items() {
    let input: Vec<u32> = (100..111).collect();
    let out = collect(&mut VecSource::new(input.clone()).downsample(4));
    assert_eq!(out, vec![100, 104, 108]);
}
