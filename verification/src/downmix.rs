//! Recovery of the stereo difference signal from the composite baseband.
use vstd::prelude::*;
use crate::biquad::Biquad;
use crate::filterable::{Filter, Filterable};

verus! {

/// The stereo downmixer.  `pll` turns the composite signal into the
/// recovered pilot tone; the squared tone, lowpassed by `lp_filt1`, is the
/// reference that the composite, lowpassed by `lp_filt2`, is multiplied
/// with.  Samples are real: a sample can scale a sample.
///
/// The pilot tracker has no quadrature branch, so it may lock half a period
/// off.  Squaring the tone removes that ambiguity from the reference.
#[verifier::reject_recursive_types(Num)]
pub struct StereoDownmixer<P, Num: Filterable<Scalar = Num>> {
    pub pll: P,
    pub lp_filt1: Biquad<Num>,
    pub lp_filt2: Biquad<Num>,
}

impl<P: Filter<Num>, Num: Filterable<Scalar = Num>> StereoDownmixer<P, Num> {
    /// The recovered pilot tone for input `s`.
    pub open spec fn tone(&self, s: Num) -> Num {
        self.pll.response(s)
    }

    /// The reference at twice the pilot's frequency for input `s`.
    pub open spec fn mix(&self, s: Num) -> Num {
        self.lp_filt1.response(self.tone(s).product(self.tone(s)))
    }

    /// A downmixer made of a pilot tracker and two lowpass filters.
    pub fn new(pll: P, lp_filt1: Biquad<Num>, lp_filt2: Biquad<Num>) -> (mixer: Self)
        ensures
            mixer == (StereoDownmixer { pll, lp_filt1, lp_filt2 }),
    {
        StereoDownmixer { pll, lp_filt1, lp_filt2 }
    }
}

impl<P: Filter<Num>, Num: Filterable<Scalar = Num>> Filter<Num> for StereoDownmixer<P, Num> {
    open spec fn response(&self, s: Num) -> Num {
        self.lp_filt2.response(s).product(self.mix(s))
    }

    open spec fn successor(&self, s: Num) -> Self {
        StereoDownmixer {
            pll: self.pll.successor(s),
            lp_filt1: self.lp_filt1.successor(self.tone(s).product(self.tone(s))),
            lp_filt2: self.lp_filt2.successor(s),
        }
    }

    fn process(&mut self, s: Num) -> (diff: Num) {
        let tone = self.pll.process(s);
        let mix = Filter::process(&mut self.lp_filt1, tone.scaled(tone));
        Filter::process(&mut self.lp_filt2, s).scaled(mix)
    }
}

} // verus!
