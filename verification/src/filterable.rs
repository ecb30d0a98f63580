//! Sample arithmetic and one-in, one-out filters.
use vstd::prelude::*;
use crate::source::Source;

verus! {

/// A sample type: what a filter needs to compute with real and complex
/// samples alike.  The arithmetic itself is the implementor's; the spec
/// functions give it a name, and every operation returns what its spec
/// function says.
pub trait Filterable: Copy + Sized {
    /// The real scalars that samples are scaled by.
    type Scalar: Copy;

    /// The additive identity.
    spec fn zero_value() -> Self;

    /// The sum of two samples.
    spec fn sum(self, other: Self) -> Self;

    /// The difference of two samples.
    spec fn difference(self, other: Self) -> Self;

    /// A sample times a real scalar.
    spec fn product(self, k: Self::Scalar) -> Self;

    fn zero() -> (z: Self)
        ensures
            z == Self::zero_value(),
    ;

    fn plus(self, other: Self) -> (r: Self)
        ensures
            r == self.sum(other),
    ;

    fn minus(self, other: Self) -> (r: Self)
        ensures
            r == self.difference(other),
    ;

    fn scaled(self, k: Self::Scalar) -> (r: Self)
        ensures
            r == self.product(k),
    ;
}

/// A stage that consumes one sample and produces one sample, changing its
/// state on the way.
pub trait Filter<Num: Filterable>: Sized {
    /// The output for input `x` in this state.
    spec fn response(&self, x: Num) -> Num;

    /// The state after input `x` in this state.
    spec fn successor(&self, x: Num) -> Self;

    /// Consumes `x` and produces one output.
    fn process(&mut self, x: Num) -> (y: Num)
        ensures
            y == old(self).response(x),
            *final(self) == old(self).successor(x),
    ;
}

/// The outputs of filter `f` for the inputs `s`, fed in order.
pub open spec fn outputs<F: Filter<Num>, Num: Filterable>(f: F, s: Seq<Num>) -> Seq<Num>
    decreases s.len(),
{
    if s.len() == 0 {
        Seq::empty()
    } else {
        seq![f.response(s[0])] + outputs(f.successor(s[0]), s.skip(1))
    }
}

/// The state of filter `f` after the inputs `s`, fed in order.
pub open spec fn state_after<F: Filter<Num>, Num: Filterable>(f: F, s: Seq<Num>) -> F
    decreases s.len(),
{
    if s.len() == 0 {
        f
    } else {
        state_after(f.successor(s[0]), s.skip(1))
    }
}

/// A filter produces exactly one output per input.
pub proof fn lemma_outputs_len<F: Filter<Num>, Num: Filterable>(f: F, s: Seq<Num>)
    ensures
        outputs(f, s).len() == s.len(),
    decreases s.len(),
{
    if s.len() > 0 {
        lemma_outputs_len(f.successor(s[0]), s.skip(1));
    }
}

/// Filtering is causal and streams: the outputs for `a` followed by `b` are
/// the outputs for `a`, followed by the outputs for `b` from the state that
/// `a` left behind.
pub proof fn lemma_outputs_concat<F: Filter<Num>, Num: Filterable>(f: F, a: Seq<Num>, b: Seq<Num>)
    ensures
        outputs(f, a + b) == outputs(f, a) + outputs(state_after(f, a), b),
        state_after(f, a + b) == state_after(state_after(f, a), b),
    decreases a.len(),
{
    if a.len() == 0 {
        assert(a + b =~= b);
        assert(outputs(f, a) + outputs(f, b) =~= outputs(f, b));
    } else {
        let g = f.successor(a[0]);
        assert((a + b).skip(1) =~= a.skip(1) + b);
        lemma_outputs_concat(g, a.skip(1), b);
        assert(outputs(f, a + b) =~= outputs(f, a) + outputs(state_after(f, a), b));
    }
}

/// Runs every item of a source through a filter.
#[verifier::reject_recursive_types(Num)]
pub struct FilterIter<I, F, Num> where
    I: Source<Item = Num> + Sized,
    F: Filter<Num> + Sized,
    Num: Filterable,
 {
    iter: I,
    filter: F,
}

impl<I, F, Num> FilterIter<I, F, Num> where I: Source<Item = Num>, F: Filter<Num>, Num: Filterable {
    /// The stream of what `f` makes of the items of `iter`.
    pub fn new(iter: I, f: F) -> (out: Self)
        requires
            iter.inv(),
        ensures
            out.inv(),
            out.remaining() == outputs(f, iter.remaining()),
    {
        FilterIter { iter, filter: f }
    }
}

impl<I, F, Num> Source for FilterIter<I, F, Num> where
    I: Source<Item = Num>,
    F: Filter<Num>,
    Num: Filterable,
 {
    type Item = Num;

    closed spec fn inv(&self) -> bool {
        self.iter.inv()
    }

    closed spec fn remaining(&self) -> Seq<Num> {
        outputs(self.filter, self.iter.remaining())
    }

    fn next(&mut self) -> (item: Option<Num>) {
        match self.iter.next() {
            None => None,
            Some(sample) => {
                let y = self.filter.process(sample);
                proof {
                    assert(self.remaining() =~= old(self).remaining().skip(1));
                }
                Some(y)
            },
        }
    }
}

/// Streams of samples that can be filtered.
pub trait FilterableIter<Num>: Source<Item = Num> where Num: Filterable {
    /// Runs every item of the stream through `f`.
    fn dsp_filter<F>(self, f: F) -> (out: FilterIter<Self, F, Num>) where F: Filter<Num>
        requires
            self.inv(),
        ensures
            out.inv(),
            out.remaining() == outputs(f, self.remaining()),
    ;
}

impl<I, Num> FilterableIter<Num> for I where I: Source<Item = Num> + Sized, Num: Filterable {
    fn dsp_filter<F>(self, f: F) -> (out: FilterIter<Self, F, Num>) where F: Filter<Num> {
        FilterIter::new(self, f)
    }
}

} // verus!
