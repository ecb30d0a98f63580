use fmradio::interleaver::{InterleaveableIter, Interleaver};
use fmradio::source::{collect, Source, VecSource};

#[test]
fn interleaves_pairs_left_first() {
    let pairs = vec![(1.0f32, -1.0f32), (2.0, -2.0), (3.0, -3.0)];
    let flat = collect(&mut VecSource::new(pairs).interleave());
    assert_eq!(flat, vec![1.0, -1.0, 2.0, -2.0, 3.0, -3.0]);
}

#[test]
fn interleaver_of_nothing_yields_nothing() {
    let pairs: Vec<(u8, u8)> = vec![];
    let mut it = Interleaver::new(VecSource::new(pairs));
    assert_eq!(it.next(), None);
    assert_eq!(it.next(), None);
}

#[test]
fn interleaver_ends_after_last_right() {
    let mut it = VecSource::new(vec![(7u8, 9u8)]).interleave();
    assert_eq!(it.next(), Some(7));
    assert_eq!(it.next(), Some(9));
    assert_eq!(it.next(), None);
    assert_eq!(it.next(), None);
}
