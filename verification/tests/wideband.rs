use fmradio::biquad::Biquad;
use fmradio::deemphasis::Deemphasis;
use fmradio::filterable::{Filter, Filterable};
use fmradio::source::{collect, VecSource};
use fmradio::wideband_fm_audio::{StereoDecoder, WidebandFmAudio, DECIMATION};

#[derive(Clone, Copy, Debug, PartialEq)]
struct Real(f32);

impl Filterable for Real {
    type Scalar = f32;

    fn zero_value() -> Self {
        unreachable!()
    }

    fn sum(self, _other: Self) -> Self {
        unreachable!()
    }

    fn difference(self, _other: Self) -> Self {
        unreachable!()
    }

    fn product(self, _k: f32) -> Self {
        unreachable!()
    }

    fn zero() -> Self {
        Real(0.0)
    }

    fn plus(self, other: Self) -> Self {
        Real(self.0 + other.0)
    }

    fn minus(self, other: Self) -> Self {
        Real(self.0 - other.0)
    }

    fn scaled(self, k: f32) -> Self {
        Real(self.0 * k)
    }
}

fn decoder() -> StereoDecoder<Biquad<Real>, Real> {
    StereoDecoder {
        // difference = half the composite
        downmix: Biquad::new(0.5, 0.0, 0.0, 0.0, 0.0),
        // y = (x + y1) / 2
        l_deemph: Deemphasis::new(1.0, 0.5),
        r_deemph: Deemphasis::new(1.0, 0.5),
        l_audio_filt: Biquad::new(1.0, 0.0, 0.0, 0.0, 0.0),
        r_audio_filt: Biquad::new(1.0, 0.0, 0.0, 0.0, 0.0),
    }
}

#[test]
fn deemphasis_formula_on_exact_values() {
    // y = (x + 3 * y1) / 4
    let mut d: Deemphasis<Real> = Deemphasis::new(3.0, 0.25);
    assert_eq!(d.process(Real(4.0)), Real(1.0));
    assert_eq!(d.process(Real(1.0)), Real(1.0));
    assert_eq!(d.process(Real(0.0)), Real(0.75));
    let mut copy = d.clone();
    assert_eq!(copy.process(Real(1.0)), d.process(Real(1.0)));
}

#[test]
fn decoder_combines_mono_and_difference() {
    let mut dec = decoder();
    assert_eq!(dec.process(Real(1.0)), (Real(0.75), Real(0.25)));
    assert_eq!(dec.process(Real(2.0)), (Real(1.875), Real(0.625)));
}

#[test]
fn stage_emits_first_of_each_group_but_filters_all() {
    let input: Vec<Real> = vec![1.0, 2.0, 3.0, 4.0, 5.0, 6.0, 7.0].into_iter().map(Real).collect();
    let mut stage = WidebandFmAudio::new(VecSource::new(input), decoder());
    let out = collect(&mut stage);
    assert_eq!(out, vec![(Real(0.75), Real(0.25)), (Real(7.5234375), Real(2.5078125))]);
    assert_eq!(DECIMATION, 5);
}

#[test]
fn stage_output_length() {
    for n in 0..13usize {
        let input: Vec<Real> = (0..n).map(|x| Real(x as f32)).collect();
        let mut stage = WidebandFmAudio::new(VecSource::new(input), decoder());
        assert_eq!(collect(&mut stage).len(), (n + 4) / 5);
    }
}

#[derive(Clone, Copy, Debug, PartialEq)]
struct Mono(f32);

impl Filterable for Mono {
    type Scalar = Mono;

    fn zero_value() -> Self {
        unreachable!()
    }

    fn sum(self, _other: Self) -> Self {
        unreachable!()
    }

    fn difference(self, _other: Self) -> Self {
        unreachable!()
    }

    fn product(self, _k: Mono) -> Self {
        unreachable!()
    }

    fn zero() -> Self {
        Mono(0.0)
    }

    fn plus(self, other: Self) -> Self {
        Mono(self.0 + other.0)
    }

    fn minus(self, other: Self) -> Self {
        Mono(self.0 - other.0)
    }

    fn scaled(self, k: Mono) -> Self {
        Mono(self.0 * k.0)
    }
}

fn gain(g: f32) -> Biquad<Mono> {
    Biquad::new(Mono(g), Mono(0.0), Mono(0.0), Mono(0.0), Mono(0.0))
}

#[test]
fn downmixer_multiplies_composite_with_squared_tone() {
    // tone = 2 s, mix = tone * tone / 2, difference = 3 s * mix
    let mut mixer = fmradio::downmix::StereoDownmixer::new(gain(2.0), gain(0.5), gain(3.0));
    assert_eq!(mixer.process(Mono(1.0)), Mono(6.0));
    assert_eq!(mixer.process(Mono(2.0)), Mono(48.0));
    assert_eq!(mixer.process(Mono(-1.0)), Mono(-6.0));
}

#[test]
fn downmixer_filters_keep_their_history() {
    // tone = s, mix = tone^2 + previous tone^2, difference = (s + previous s) * mix
    let sum_of_two = Biquad::new(Mono(1.0), Mono(1.0), Mono(0.0), Mono(0.0), Mono(0.0));
    let mut mixer = fmradio::downmix::StereoDownmixer::new(gain(1.0), sum_of_two.clone(), sum_of_two);
    assert_eq!(mixer.process(Mono(1.0)), Mono(1.0));
    // mix = 4 + 1, composite = 2 + 1
    assert_eq!(mixer.process(Mono(2.0)), Mono(15.0));
}
