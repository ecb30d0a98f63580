//! From the FM discriminator's output to stereo audio: the mono sum and the
//! stereo difference are combined into left and right, each channel is
//! deemphasised and lowpassed, and the result is decimated by five.
//!
//! The decimation is "process, then discard": every input sample runs
//! through all filters, so that the pilot tracker and the IIR filters see a
//! gapless signal, and the pair that is emitted for a group of five inputs
//! is the one computed from the group's first sample.
use vstd::prelude::*;
use crate::biquad::Biquad;
use crate::deemphasis::Deemphasis;
use crate::filterable::{Filter, Filterable};
use crate::resample::{decimated, lemma_decimated_unfold};
use crate::source::Source;

verus! {

/// The number of input samples per emitted pair.
pub const DECIMATION: usize = 5;

/// The filters of the audio stage.  `downmix` recovers the stereo
/// difference from the composite signal.
pub struct StereoDecoder<D, Num: Filterable> {
    pub downmix: D,
    pub l_deemph: Deemphasis<Num>,
    pub r_deemph: Deemphasis<Num>,
    pub l_audio_filt: Biquad<Num>,
    pub r_audio_filt: Biquad<Num>,
}

impl<D: Filter<Num>, Num: Filterable> StereoDecoder<D, Num> {
    /// The left channel before deemphasis: mono plus difference.
    pub open spec fn left_raw(&self, s: Num) -> Num {
        s.sum(self.downmix.response(s))
    }

    /// The right channel before deemphasis: mono minus difference.
    pub open spec fn right_raw(&self, s: Num) -> Num {
        s.difference(self.downmix.response(s))
    }

    /// The (left, right) pair for input `s` in this state.
    pub open spec fn pair(&self, s: Num) -> (Num, Num) {
        (
            self.l_audio_filt.response(self.l_deemph.response(self.left_raw(s))),
            self.r_audio_filt.response(self.r_deemph.response(self.right_raw(s))),
        )
    }

    /// The state after input `s` in this state.
    pub open spec fn advanced(&self, s: Num) -> Self {
        StereoDecoder {
            downmix: self.downmix.successor(s),
            l_deemph: self.l_deemph.successor(self.left_raw(s)),
            r_deemph: self.r_deemph.successor(self.right_raw(s)),
            l_audio_filt: self.l_audio_filt.successor(self.l_deemph.response(self.left_raw(s))),
            r_audio_filt: self.r_audio_filt.successor(self.r_deemph.response(self.right_raw(s))),
        }
    }

    /// Runs one input sample through all filters and gives the (left,
    /// right) pair for it.
    pub fn process(&mut self, s: Num) -> (lr: (Num, Num))
        ensures
            lr == old(self).pair(s),
            *final(self) == old(self).advanced(s),
    {
        let mono = s;
        let stereo = self.downmix.process(s);
        let l_in = self.l_deemph.process(mono.plus(stereo));
        let l = Filter::process(&mut self.l_audio_filt, l_in);
        let r_in = self.r_deemph.process(mono.minus(stereo));
        let r = Filter::process(&mut self.r_audio_filt, r_in);
        (l, r)
    }
}

/// The state of decoder `d` after the inputs `s`, fed in order.
pub open spec fn decoder_after<D: Filter<Num>, Num: Filterable>(
    d: StereoDecoder<D, Num>,
    s: Seq<Num>,
) -> StereoDecoder<D, Num>
    decreases s.len(),
{
    if s.len() == 0 {
        d
    } else {
        decoder_after(d.advanced(s[0]), s.skip(1))
    }
}

/// The length of the leading group of a stream of `available` samples.
pub open spec fn group_len(available: nat) -> nat {
    if available < 5 {
        available
    } else {
        5
    }
}

/// The pairs that decoder `d` emits for the inputs `s`: for every started
/// group of five inputs, the pair computed from the group's first sample in
/// the state that all earlier samples left behind.
pub open spec fn decoded<D: Filter<Num>, Num: Filterable>(
    d: StereoDecoder<D, Num>,
    s: Seq<Num>,
) -> Seq<(Num, Num)>
    decreases s.len(),
{
    if s.len() == 0 {
        Seq::empty()
    } else {
        let g = group_len(s.len()) as int;
        seq![d.pair(s[0])] + decoded(decoder_after(d, s.take(g)), s.skip(g))
    }
}

/// Feeding one more sample: the state after `s` followed by `x` is the
/// state after `s`, advanced by `x`.
pub proof fn lemma_decoder_after_push<D: Filter<Num>, Num: Filterable>(
    d: StereoDecoder<D, Num>,
    s: Seq<Num>,
    x: Num,
)
    ensures
        decoder_after(d, s.push(x)) == decoder_after(d, s).advanced(x),
    decreases s.len(),
{
    if s.len() == 0 {
        assert(s.push(x).skip(1) =~= Seq::<Num>::empty());
        assert(decoder_after(d.advanced(x), s.push(x).skip(1)) == d.advanced(x));
    } else {
        assert(s.push(x).skip(1) =~= s.skip(1).push(x));
        lemma_decoder_after_push(d.advanced(s[0]), s.skip(1), x);
    }
}

/// The stage emits one pair for every started group of five inputs.
pub proof fn lemma_decoded_len<D: Filter<Num>, Num: Filterable>(
    d: StereoDecoder<D, Num>,
    s: Seq<Num>,
)
    ensures
        decoded(d, s).len() == (s.len() + 4) / 5,
    decreases s.len(),
{
    if s.len() > 0 {
        let g = group_len(s.len()) as int;
        lemma_decoded_len(decoder_after(d, s.take(g)), s.skip(g));
    }
}

/// The pairs that decoder `d` computes for the inputs `s`, one per input.
pub open spec fn all_pairs<D: Filter<Num>, Num: Filterable>(
    d: StereoDecoder<D, Num>,
    s: Seq<Num>,
) -> Seq<(Num, Num)>
    decreases s.len(),
{
    if s.len() == 0 {
        Seq::empty()
    } else {
        seq![d.pair(s[0])] + all_pairs(d.advanced(s[0]), s.skip(1))
    }
}

/// The decoder computes one pair per input, and the pairs from input `g` on
/// are those that the state after the first `g` inputs computes for the
/// rest.
pub proof fn lemma_all_pairs_split<D: Filter<Num>, Num: Filterable>(
    d: StereoDecoder<D, Num>,
    s: Seq<Num>,
    g: int,
)
    requires
        0 <= g <= s.len(),
    ensures
        all_pairs(d, s).len() == s.len(),
        all_pairs(d, s).skip(g) == all_pairs(decoder_after(d, s.take(g)), s.skip(g)),
    decreases s.len(),
{
    if s.len() == 0 {
        assert(s.take(g) =~= s);
        assert(s.skip(g) =~= s);
        assert(all_pairs(d, s).skip(g) =~= all_pairs(d, s));
    } else {
        let next = d.advanced(s[0]);
        if g == 0 {
            lemma_all_pairs_split(next, s.skip(1), 0);
            assert(s.take(0) =~= Seq::<Num>::empty());
            assert(s.skip(0) =~= s);
            assert(all_pairs(d, s).skip(0) =~= all_pairs(d, s));
        } else {
            lemma_all_pairs_split(next, s.skip(1), g - 1);
            assert(s.take(g).skip(1) =~= s.skip(1).take(g - 1));
            assert(s.skip(1).skip(g - 1) =~= s.skip(g));
            assert(all_pairs(d, s).skip(g) =~= all_pairs(next, s.skip(1)).skip(g - 1));
        }
    }
}

/// Process, then discard: what the stage emits is every fifth of the pairs
/// that the decoder computes when it is fed every input sample.  The
/// emitted pair of a group is the one for the group's first sample, not for
/// its last, and no filter ever skips a sample.
pub proof fn lemma_decoded_is_decimated<D: Filter<Num>, Num: Filterable>(
    d: StereoDecoder<D, Num>,
    s: Seq<Num>,
)
    ensures
        decoded(d, s) == decimated(all_pairs(d, s), 5),
    decreases s.len(),
{
    let pairs = all_pairs(d, s);
    lemma_all_pairs_split(d, s, 0);
    if s.len() == 0 {
        assert(decimated(pairs, 5) =~= Seq::<(Num, Num)>::empty());
    } else {
        let g = group_len(s.len()) as int;
        let later = decoder_after(d, s.take(g));
        lemma_decoded_is_decimated(later, s.skip(g));
        lemma_all_pairs_split(d, s, g);
        lemma_decimated_unfold(pairs, 5);
        assert(decimated(pairs, 5) =~= seq![pairs[0]] + decimated(pairs, 5).skip(1));
    }
}

/// The audio stage as a stream of (left, right) pairs.
#[verifier::reject_recursive_types(Num)]
pub struct WidebandFmAudio<I, D, Num: Filterable> {
    input: I,
    decoder: StereoDecoder<D, Num>,
}

impl<I, D, Num> WidebandFmAudio<I, D, Num> where
    I: Source<Item = Num>,
    D: Filter<Num>,
    Num: Filterable,
 {
    /// The audio stage over the discriminator output `input`.
    pub fn new(input: I, decoder: StereoDecoder<D, Num>) -> (out: Self)
        requires
            input.inv(),
        ensures
            out.inv(),
            out.remaining() == decoded(decoder, input.remaining()),
    {
        WidebandFmAudio { input, decoder }
    }
}

impl<I, D, Num> Source for WidebandFmAudio<I, D, Num> where
    I: Source<Item = Num>,
    D: Filter<Num>,
    Num: Filterable,
 {
    type Item = (Num, Num);

    closed spec fn inv(&self) -> bool {
        self.input.inv()
    }

    closed spec fn remaining(&self) -> Seq<(Num, Num)> {
        decoded(self.decoder, self.input.remaining())
    }

    fn next(&mut self) -> (item: Option<(Num, Num)>) {
        let ghost s = self.input.remaining();
        let ghost d = self.decoder;
        let init = match self.input.next() {
            None => {
                return None;
            },
            Some(x) => x,
        };
        let val = self.decoder.process(init);
        proof {
            assert(s.take(1) =~= Seq::<Num>::empty().push(s[0]));
            lemma_decoder_after_push(d, Seq::<Num>::empty(), s[0]);
        }
        let mut seen: usize = 1;
        while seen < DECIMATION
            invariant
                self.input.inv(),
                1 <= seen <= 5,
                s.len() > 0,
                self.input.remaining() == s.skip(group_len_within(s.len(), seen as nat) as int),
                self.decoder == decoder_after(
                    d,
                    s.take(group_len_within(s.len(), seen as nat) as int),
                ),
            decreases 5 - seen,
        {
            let ghost k = group_len_within(s.len(), seen as nat) as int;
            match self.input.next() {
                Some(x) => {
                    let _ = self.decoder.process(x);
                    proof {
                        assert(k == seen);
                        assert(s.take(k + 1) =~= s.take(k).push(s[k]));
                        lemma_decoder_after_push(d, s.take(k), s[k]);
                        assert(self.input.remaining() =~= s.skip(k + 1));
                    }
                },
                None => {
                    proof {
                        assert(k == s.len());
                    }
                },
            }
            seen = seen + 1;
        }
        proof {
            assert(group_len_within(s.len(), 5) == group_len(s.len()));
        }
        Some(val)
    }
}

/// How many of the first `wanted` samples a stream of `available` samples
/// can supply.
pub open spec fn group_len_within(available: nat, wanted: nat) -> nat {
    if available < wanted {
        available
    } else {
        wanted
    }
}

/// Streams of discriminator output that the audio stage can decode.
pub trait WidebandFmAudioIterable<Num: Filterable>: Source<Item = Num> {
    /// Decodes the stream into (left, right) pairs with `decoder`.
    fn wfm_audio<D: Filter<Num>>(self, decoder: StereoDecoder<D, Num>) -> (out: WidebandFmAudio<
        Self,
        D,
        Num,
    >)
        requires
            self.inv(),
        ensures
            out.inv(),
            out.remaining() == decoded(decoder, self.remaining()),
    ;
}

impl<I, Num> WidebandFmAudioIterable<Num> for I where I: Source<Item = Num>, Num: Filterable {
    fn wfm_audio<D: Filter<Num>>(self, decoder: StereoDecoder<D, Num>) -> (out: WidebandFmAudio<
        Self,
        D,
        Num,
    >) {
        WidebandFmAudio::new(self, decoder)
    }
}

} // verus!
