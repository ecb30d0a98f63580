//! The one-pole lowpass that undoes the transmitter's preemphasis.
use vstd::prelude::*;
use crate::filterable::{Filter, Filterable};

verus! {

/// A deemphasis filter `y = (x + k * y1) * g`, where `y1` is the previous
/// output, `k` is the sample rate times the time constant and `g` is the
/// reciprocal of `1 + k`.
pub struct Deemphasis<Num: Filterable> {
    y1: Num,
    k: Num::Scalar,
    g: Num::Scalar,
}

impl<Num> Deemphasis<Num> where Num: Filterable {
    /// The previous output.
    pub closed spec fn last(&self) -> Num {
        self.y1
    }

    /// The feedback weight `k`.
    pub closed spec fn weight(&self) -> Num::Scalar {
        self.k
    }

    /// The normalising gain `g`.
    pub closed spec fn gain(&self) -> Num::Scalar {
        self.g
    }

    /// The filter with previous output `y1`, weight `k` and gain `g`.
    pub closed spec fn assemble(y1: Num, k: Num::Scalar, g: Num::Scalar) -> Self {
        Deemphasis { y1, k, g }
    }

    /// A filter is its previous output, its weight and its gain.
    pub proof fn lemma_assemble(self)
        ensures
            self == Self::assemble(self.last(), self.weight(), self.gain()),
            forall|y1: Num, k: Num::Scalar, g: Num::Scalar|
                #![trigger Self::assemble(y1, k, g)]
                Self::assemble(y1, k, g).last() == y1 && Self::assemble(y1, k, g).weight() == k
                    && Self::assemble(y1, k, g).gain() == g,
    {
    }

    /// A filter at rest with weight `k` and gain `g`.
    pub fn new(k: Num::Scalar, g: Num::Scalar) -> (d: Self)
        ensures
            d == Self::assemble(Num::zero_value(), k, g),
    {
        Deemphasis { y1: Num::zero(), k, g }
    }
}

impl<Num: Filterable> Clone for Deemphasis<Num> {
    fn clone(&self) -> (copy: Self)
        ensures
            copy == *self,
    {
        Deemphasis { y1: self.y1, k: self.k, g: self.g }
    }
}

impl<Num> Filter<Num> for Deemphasis<Num> where Num: Filterable {
    open spec fn response(&self, x: Num) -> Num {
        x.sum(self.last().product(self.weight())).product(self.gain())
    }

    open spec fn successor(&self, x: Num) -> Self {
        Self::assemble(self.response(x), self.weight(), self.gain())
    }

    fn process(&mut self, x: Num) -> (y: Num) {
        let y = x.plus(self.y1.scaled(self.k)).scaled(self.g);
        self.y1 = y;
        y
    }
}

} // verus!
