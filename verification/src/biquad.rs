//! A second-order IIR filter in direct form I.
use vstd::prelude::*;
use crate::filterable::{Filter, Filterable, outputs, state_after, lemma_outputs_concat};
use crate::source::Source;

verus! {

/// The five coefficients `b0, b1, b2, a1, a2` of a biquad, normalised so
/// that `a0` is one.
pub struct Coefficients<S> {
    pub b0: S,
    pub b1: S,
    pub b2: S,
    pub a1: S,
    pub a2: S,
}

/// The delay line of a biquad: the two latest inputs and the two latest
/// outputs, the more recent first.
pub struct Registers<Num> {
    pub x1: Num,
    pub x2: Num,
    pub y1: Num,
    pub y2: Num,
}

/// The output of a biquad with coefficients `c` and delay line `r` for
/// input `x`: `b0*x + b1*x1 + b2*x2 - a1*y1 - a2*y2`, summed left to right.
pub open spec fn evaluate<Num: Filterable>(
    c: Coefficients<Num::Scalar>,
    r: Registers<Num>,
    x: Num,
) -> Num {
    x.product(c.b0).sum(r.x1.product(c.b1)).sum(r.x2.product(c.b2)).difference(
        r.y1.product(c.a1),
    ).difference(r.y2.product(c.a2))
}

/// The delay line `r` after input `x` produced output `y`.
pub open spec fn rotated<Num>(r: Registers<Num>, x: Num, y: Num) -> Registers<Num> {
    Registers { x1: x, x2: r.x1, y1: y, y2: r.y1 }
}

/// A biquad filter over samples of type `Num`.
pub struct Biquad<Num: Filterable> {
    b0: Num::Scalar,
    b1: Num::Scalar,
    b2: Num::Scalar,
    a1: Num::Scalar,
    a2: Num::Scalar,
    x1: Num,
    x2: Num,
    y1: Num,
    y2: Num,
}

impl<Num> Biquad<Num> where Num: Filterable {
    /// The filter's coefficients.
    pub closed spec fn coefficients(&self) -> Coefficients<Num::Scalar> {
        Coefficients { b0: self.b0, b1: self.b1, b2: self.b2, a1: self.a1, a2: self.a2 }
    }

    /// The filter's delay line.
    pub closed spec fn registers(&self) -> Registers<Num> {
        Registers { x1: self.x1, x2: self.x2, y1: self.y1, y2: self.y2 }
    }

    /// The filter with coefficients `c` and delay line `r`.
    pub closed spec fn assemble(c: Coefficients<Num::Scalar>, r: Registers<Num>) -> Self {
        Biquad {
            b0: c.b0,
            b1: c.b1,
            b2: c.b2,
            a1: c.a1,
            a2: c.a2,
            x1: r.x1,
            x2: r.x2,
            y1: r.y1,
            y2: r.y2,
        }
    }

    /// A filter is its coefficients and its delay line.
    pub proof fn lemma_assemble(self)
        ensures
            self == Self::assemble(self.coefficients(), self.registers()),
            forall|c: Coefficients<Num::Scalar>, r: Registers<Num>|
                #![trigger Self::assemble(c, r)]
                Self::assemble(c, r).coefficients() == c && Self::assemble(c, r).registers() == r,
    {
    }

    /// A filter with the given coefficients and an empty delay line.
    pub fn new(
        b0: Num::Scalar,
        b1: Num::Scalar,
        b2: Num::Scalar,
        a1: Num::Scalar,
        a2: Num::Scalar,
    ) -> (bq: Self)
        ensures
            bq.coefficients() == (Coefficients { b0, b1, b2, a1, a2 }),
            bq.registers() == (Registers {
                x1: Num::zero_value(),
                x2: Num::zero_value(),
                y1: Num::zero_value(),
                y2: Num::zero_value(),
            }),
    {
        Biquad {
            b0,
            b1,
            b2,
            a1,
            a2,
            x1: Num::zero(),
            x2: Num::zero(),
            y1: Num::zero(),
            y2: Num::zero(),
        }
    }

    /// Consumes one input and produces one output; the delay line then
    /// holds this input and output in front of the previous ones.
    pub fn process(&mut self, x: Num) -> (y: Num)
        ensures
            y == evaluate(old(self).coefficients(), old(self).registers(), x),
            final(self).coefficients() == old(self).coefficients(),
            final(self).registers() == rotated(old(self).registers(), x, y),
    {
        let y = x.scaled(self.b0).plus(self.x1.scaled(self.b1)).plus(
            self.x2.scaled(self.b2),
        ).minus(self.y1.scaled(self.a1)).minus(self.y2.scaled(self.a2));
        self.x2 = self.x1;
        self.x1 = x;
        self.y2 = self.y1;
        self.y1 = y;
        y
    }
}

impl<Num: Filterable> Clone for Biquad<Num> {
    fn clone(&self) -> (copy: Self)
        ensures
            copy == *self,
    {
        Biquad {
            b0: self.b0,
            b1: self.b1,
            b2: self.b2,
            a1: self.a1,
            a2: self.a2,
            x1: self.x1,
            x2: self.x2,
            y1: self.y1,
            y2: self.y2,
        }
    }
}

impl<Num: Filterable> Filter<Num> for Biquad<Num> {
    open spec fn response(&self, x: Num) -> Num {
        evaluate(self.coefficients(), self.registers(), x)
    }

    open spec fn successor(&self, x: Num) -> Self {
        Self::assemble(
            self.coefficients(),
            rotated(self.registers(), x, evaluate(self.coefficients(), self.registers(), x)),
        )
    }

    fn process(&mut self, x: Num) -> (y: Num) {
        let y = Biquad::process(self, x);
        proof {
            self.lemma_assemble();
        }
        y
    }
}

/// After two or more inputs, the delay line holds the two latest inputs and
/// the two latest outputs, whatever it held before; the coefficients never
/// change.
pub proof fn lemma_registers_follow_stream<Num: Filterable>(bq: Biquad<Num>, s: Seq<Num>)
    requires
        s.len() >= 2,
    ensures
        outputs(bq, s).len() == s.len(),
        state_after(bq, s).coefficients() == bq.coefficients(),
        state_after(bq, s).registers() == (Registers {
            x1: s[s.len() - 1],
            x2: s[s.len() - 2],
            y1: outputs(bq, s)[s.len() - 1],
            y2: outputs(bq, s)[s.len() - 2],
        }),
{
    let n = s.len() as int;
    let a = s.take(n - 2);
    let u = s[n - 2];
    let v = s[n - 1];
    let tail = seq![u, v];
    assert(s =~= a + tail);
    lemma_outputs_concat(bq, a, tail);
    crate::filterable::lemma_outputs_len(bq, a);
    lemma_coefficients_fixed(bq, a);
    let g = state_after(bq, a);
    let h = g.successor(u);
    g.lemma_assemble();
    h.lemma_assemble();
    assert(tail.skip(1) =~= seq![v]);
    assert(seq![v].skip(1) =~= Seq::<Num>::empty());
    assert(state_after(h, seq![v]) == state_after(h.successor(v), seq![v].skip(1)));
    assert(state_after(g, tail) == h.successor(v));
    assert(outputs(h.successor(v), seq![v].skip(1)) =~= Seq::<Num>::empty());
    assert(outputs(h, seq![v]) =~= seq![h.response(v)]);
    assert(outputs(g, tail) =~= seq![g.response(u), h.response(v)]);
}

/// Before any input the delay line is what it was, and after one input it
/// holds that input and its output in front of what it held before: for a
/// new filter, zeros stand for the inputs and outputs not yet seen.
pub proof fn lemma_registers_at_start<Num: Filterable>(bq: Biquad<Num>, x: Num)
    ensures
        state_after(bq, Seq::<Num>::empty()) == bq,
        outputs(bq, Seq::<Num>::empty()) == Seq::<Num>::empty(),
        outputs(bq, seq![x]) == seq![evaluate(bq.coefficients(), bq.registers(), x)],
        state_after(bq, seq![x]).coefficients() == bq.coefficients(),
        state_after(bq, seq![x]).registers() == rotated(
            bq.registers(),
            x,
            evaluate(bq.coefficients(), bq.registers(), x),
        ),
{
    let one = seq![x];
    let next = bq.successor(x);
    bq.lemma_assemble();
    assert(one.skip(1) =~= Seq::<Num>::empty());
    assert(state_after(next, one.skip(1)) == next);
    assert(state_after(bq, one) == next);
    assert(outputs(next, one.skip(1)) =~= Seq::<Num>::empty());
    assert(outputs(bq, one) =~= seq![bq.response(x)]);
}

/// Processing never changes the coefficients.
pub proof fn lemma_coefficients_fixed<Num: Filterable>(bq: Biquad<Num>, s: Seq<Num>)
    ensures
        state_after(bq, s).coefficients() == bq.coefficients(),
    decreases s.len(),
{
    if s.len() > 0 {
        bq.lemma_assemble();
        lemma_coefficients_fixed(bq.successor(s[0]), s.skip(1));
    }
}

/// Runs every item of a source through a biquad.
#[verifier::reject_recursive_types(Num)]
pub struct BiquadIter<I, Num> where I: Source<Item = Num>, Num: Filterable {
    iter: I,
    biquad: Biquad<Num>,
}

impl<I, Num> BiquadIter<I, Num> where I: Source<Item = Num>, Num: Filterable {
    /// The stream of what `b` makes of the items of `iter`.
    pub fn new(iter: I, b: Biquad<Num>) -> (out: Self)
        requires
            iter.inv(),
        ensures
            out.inv(),
            out.remaining() == outputs(b, iter.remaining()),
    {
        BiquadIter { iter, biquad: b }
    }
}

impl<I, Num> Source for BiquadIter<I, Num> where I: Source<Item = Num>, Num: Filterable {
    type Item = Num;

    closed spec fn inv(&self) -> bool {
        self.iter.inv()
    }

    closed spec fn remaining(&self) -> Seq<Num> {
        outputs(self.biquad, self.iter.remaining())
    }

    fn next(&mut self) -> (item: Option<Num>) {
        match self.iter.next() {
            None => None,
            Some(sample) => {
                let y = Filter::process(&mut self.biquad, sample);
                proof {
                    assert(self.remaining() =~= old(self).remaining().skip(1));
                }
                Some(y)
            },
        }
    }
}

/// Streams of samples that a biquad can be applied to.
pub trait Biquadable<Num>: Source<Item = Num> where Num: Filterable {
    /// Runs every item of the stream through `b`.
    fn biquad(self, b: Biquad<Num>) -> (out: BiquadIter<Self, Num>)
        requires
            self.inv(),
        ensures
            out.inv(),
            out.remaining() == outputs(b, self.remaining()),
    ;
}

impl<I, Num> Biquadable<Num> for I where I: Source<Item = Num>, Num: Filterable {
    fn biquad(self, b: Biquad<Num>) -> (out: BiquadIter<Self, Num>) {
        BiquadIter::new(self, b)
    }
}

} // verus!
