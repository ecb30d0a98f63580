//! Turns a stream of (left, right) pairs into one interleaved stream.
use vstd::prelude::*;
use crate::source::Source;

verus! {

/// The components of the pairs of `s`, left before right, pair after pair.
pub open spec fn interleaved<T>(s: Seq<(T, T)>) -> Seq<T> {
    Seq::new(
        2 * s.len(),
        |i: int|
            if i % 2 == 0 {
                s[i / 2].0
            } else {
                s[i / 2].1
            },
    )
}

/// Interleaving a stream yields its first pair and then the rest.
pub proof fn lemma_interleaved_unfold<T>(s: Seq<(T, T)>)
    requires
        s.len() > 0,
    ensures
        interleaved(s) == seq![s[0].0, s[0].1] + interleaved(s.skip(1)),
{
    assert(interleaved(s) =~= seq![s[0].0, s[0].1] + interleaved(s.skip(1)));
}

/// Every pair of the input can be read back from the output: the left
/// component at twice its index, the right component just after it.
pub proof fn lemma_interleaved_items<T>(s: Seq<(T, T)>, i: int)
    requires
        0 <= i < s.len(),
    ensures
        interleaved(s).len() == 2 * s.len(),
        interleaved(s)[2 * i] == s[i].0,
        interleaved(s)[2 * i + 1] == s[i].1,
{
}

/// Yields the components of the pairs of a source one by one.
#[verifier::reject_recursive_types(T)]
pub struct Interleaver<I, T> where I: Source<Item = (T, T)> {
    iter: I,
    is_l: bool,
    r: T,
}

impl<I, T> Interleaver<I, T> where I: Source<Item = (T, T)>, T: Copy + Default {
    /// An interleaver of the pairs of `iter`.
    pub fn new(iter: I) -> (out: Self)
        requires
            iter.inv(),
        ensures
            out.inv(),
            out.remaining() == interleaved(iter.remaining()),
    {
        let out = Interleaver { iter, is_l: true, r: T::default() };
        proof {
            assert(out.remaining() =~= interleaved(iter.remaining()));
        }
        out
    }
}

impl<I, T> Source for Interleaver<I, T> where I: Source<Item = (T, T)>, T: Copy + Default {
    type Item = T;

    closed spec fn inv(&self) -> bool {
        self.iter.inv()
    }

    closed spec fn remaining(&self) -> Seq<T> {
        if self.is_l {
            interleaved(self.iter.remaining())
        } else {
            seq![self.r] + interleaved(self.iter.remaining())
        }
    }

    fn next(&mut self) -> (item: Option<T>) {
        let ghost upstream = self.iter.remaining();
        if self.is_l {
            match self.iter.next() {
                None => None,
                Some(pair) => {
                    let (l, r) = pair;
                    self.r = r;
                    self.is_l = false;
                    proof {
                        lemma_interleaved_unfold(upstream);
                        assert(self.remaining() =~= old(self).remaining().skip(1));
                    }
                    Some(l)
                },
            }
        } else {
            self.is_l = true;
            proof {
                assert(self.remaining() =~= old(self).remaining().skip(1));
            }
            Some(self.r)
        }
    }
}

/// Streams of pairs that can be interleaved.
pub trait InterleaveableIter<T>: Source<Item = (T, T)> where T: Copy + Default {
    /// Yields the components of the stream's pairs one by one.
    fn interleave(self) -> (out: Interleaver<Self, T>)
        requires
            self.inv(),
        ensures
            out.inv(),
            out.remaining() == interleaved(self.remaining()),
    ;
}

impl<I, T> InterleaveableIter<T> for I where I: Source<Item = (T, T)>, T: Copy + Default {
    fn interleave(self) -> (out: Interleaver<I, T>) {
        Interleaver::new(self)
    }
}

} // verus!
