//! The payload of a SigMF capture of type `ci32_le`: records of eight
//! bytes, each two little-endian signed 32-bit integers, I before Q.
use vstd::prelude::*;
use crate::source::Source;

verus! {

/// The number of bytes in one record.
pub const RECORD_BYTES: usize = 8;

/// The magnitude of full scale: a component divided by this lies in [-1, 1).
pub const FULL_SCALE: u32 = 2147483648;

/// Why a capture could not be read.
#[derive(Debug)]
pub enum SigmfError {
    /// The file could not be opened; with the reason.
    BadFile(String),
}

/// The signed 32-bit integer whose little-endian bytes are `b0` to `b3`.
pub open spec fn le_i32(b0: u8, b1: u8, b2: u8, b3: u8) -> int {
    let word = b0 as int + 256 * (b1 as int) + 65536 * (b2 as int) + 16777216 * (b3 as int);
    if word >= 2147483648 {
        word - 4294967296
    } else {
        word
    }
}

/// The record that starts at byte `at` of `bytes`.
pub open spec fn record_at(bytes: Seq<u8>, at: int) -> (i32, i32) {
    (
        le_i32(bytes[at], bytes[at + 1], bytes[at + 2], bytes[at + 3]) as i32,
        le_i32(bytes[at + 4], bytes[at + 5], bytes[at + 6], bytes[at + 7]) as i32,
    )
}

/// The complete records of `bytes`, in order.  Trailing bytes that do not
/// make up a record are left out.
pub open spec fn records(bytes: Seq<u8>) -> Seq<(i32, i32)> {
    Seq::new(bytes.len() / 8, |k: int| record_at(bytes, 8 * k))
}

/// A capture can be read in pieces: where the first piece ends on a record
/// boundary, the records of two pieces in a row are the records of the
/// first followed by those of the second.
pub proof fn lemma_records_concat(a: Seq<u8>, b: Seq<u8>)
    requires
        a.len() % 8 == 0,
    ensures
        records(a + b) == records(a) + records(b),
{
    let whole = a + b;
    let joined = records(a) + records(b);
    assert(records(whole).len() == joined.len());
    assert forall|k: int| 0 <= k < joined.len() implies records(whole)[k] == joined[k] by {
        if k < records(a).len() {
            assert(record_at(whole, 8 * k) == record_at(a, 8 * k));
        } else {
            let j = k - records(a).len();
            assert(8 * k == a.len() + 8 * j);
            assert(record_at(whole, 8 * k) == record_at(b, 8 * j));
        }
    }
    assert(records(whole) =~= joined);
}

/// Decodes one little-endian signed 32-bit integer.
pub fn decode_i32(b0: u8, b1: u8, b2: u8, b3: u8) -> (v: i32)
    ensures
        v == le_i32(b0, b1, b2, b3),
{
    let low: u32 = b0 as u32 + 256 * (b1 as u32) + 65536 * (b2 as u32);
    if b3 >= 128 {
        let high: u32 = 16777216 * ((b3 - 128) as u32);
        let magnitude: i32 = (low + high) as i32;
        magnitude + i32::MIN
    } else {
        let high: u32 = 16777216 * (b3 as u32);
        (low + high) as i32
    }
}

/// Decodes the record that starts at byte `at`, if `bytes` holds all of it.
pub fn decode_record(bytes: &[u8], at: usize) -> (sample: Option<(i32, i32)>)
    ensures
        sample is Some <==> at + 8 <= bytes@.len(),
        sample is Some ==> sample->0 == record_at(bytes@, at as int),
{
    if bytes.len() < RECORD_BYTES || at > bytes.len() - RECORD_BYTES {
        None
    } else {
        let i = decode_i32(bytes[at], bytes[at + 1], bytes[at + 2], bytes[at + 3]);
        let q = decode_i32(bytes[at + 4], bytes[at + 5], bytes[at + 6], bytes[at + 7]);
        Some((i, q))
    }
}

/// The stream of the records of a capture, as (I, Q) pairs of raw integers.
pub struct SigmfStreamer {
    bytes: Vec<u8>,
    pos: usize,
}

impl SigmfStreamer {
    /// A stream of the records in `bytes`, the payload of a capture.
    pub fn new(bytes: Vec<u8>) -> (s: SigmfStreamer)
        ensures
            s.inv(),
            s.remaining() == records(bytes@),
    {
        let s = SigmfStreamer { bytes, pos: 0 };
        proof {
            assert(s.bytes@.skip(0) =~= bytes@);
        }
        s
    }
}

impl Source for SigmfStreamer {
    type Item = (i32, i32);

    closed spec fn inv(&self) -> bool {
        self.pos <= self.bytes@.len()
    }

    closed spec fn remaining(&self) -> Seq<(i32, i32)> {
        records(self.bytes@.skip(self.pos as int))
    }

    fn next(&mut self) -> (item: Option<(i32, i32)>) {
        let available = self.bytes.len() - self.pos;
        let sample = decode_record(self.bytes.as_slice(), self.pos);
        if available >= RECORD_BYTES {
            let ghost rest = self.bytes@.skip(self.pos as int);
            self.pos = self.pos + RECORD_BYTES;
            proof {
                assert(self.bytes@.skip(self.pos as int) =~= rest.skip(8));
                assert(records(rest.skip(8)) =~= records(rest).skip(1));
            }
        }
        sample
    }
}

} // verus!
