//! Integer rate changers: a zero-order-hold upsampler and a decimator.
use vstd::prelude::*;
use crate::source::Source;

verus! {

/// `s` with every item repeated `factor` times.
pub open spec fn held<T>(s: Seq<T>, factor: nat) -> Seq<T> {
    Seq::new(s.len() * factor, |i: int| s[i / (factor as int)])
}

/// Every `factor`-th item of `s`, starting with the first.
pub open spec fn decimated<T>(s: Seq<T>, factor: nat) -> Seq<T> {
    Seq::new(
        ((s.len() + factor - 1) / (factor as int)) as nat,
        |i: int| s[i * (factor as int)],
    )
}

/// `count` copies of `x`.
pub open spec fn repeated<T>(x: T, count: nat) -> Seq<T> {
    Seq::new(count, |i: int| x)
}

/// The copies of the held item that an upsampler still owes.
pub open spec fn owed<T>(cur: Option<T>, factor: nat, idx: nat) -> Seq<T> {
    if idx > 0 && cur is Some {
        repeated(cur->0, (factor - idx) as nat)
    } else {
        Seq::empty()
    }
}

proof fn lemma_div_shift(i: int, f: int)
    requires
        f > 0,
        i >= 0,
    ensures
        i < f ==> i / f == 0,
        i >= f ==> (i - f) / f == i / f - 1 && i / f >= 1,
{
    assert(i < f ==> i / f == 0) by (nonlinear_arith)
        requires
            f > 0,
            i >= 0,
    ;
    assert(i >= f ==> (i - f) / f == i / f - 1 && i / f >= 1) by (nonlinear_arith)
        requires
            f > 0,
            i >= 0,
    ;
}

/// Holding a stream holds its first item and then the rest.
pub proof fn lemma_held_unfold<T>(s: Seq<T>, factor: nat)
    requires
        s.len() > 0,
        factor > 0,
    ensures
        held(s, factor) == repeated(s[0], factor) + held(s.skip(1), factor),
{
    let f = factor as int;
    let lhs = held(s, factor);
    let rhs = repeated(s[0], factor) + held(s.skip(1), factor);
    assert(s.len() * f == f + (s.len() - 1) * f) by (nonlinear_arith);
    assert(lhs.len() == rhs.len());
    assert forall|i: int| 0 <= i < lhs.len() implies lhs[i] == rhs[i] by {
        lemma_div_shift(i, f);
        if i >= f {
            assert(i / f < s.len()) by (nonlinear_arith)
                requires
                    0 <= i < s.len() * f,
                    f > 0,
            ;
        }
    }
    assert(lhs =~= rhs);
}

/// Decimating a stream keeps its first item, drops the `factor - 1` that
/// follow (or as many as there are), and decimates the rest.
pub proof fn lemma_decimated_unfold<T>(s: Seq<T>, factor: nat)
    requires
        s.len() > 0,
        factor > 0,
    ensures
        decimated(s, factor).len() > 0,
        decimated(s, factor)[0] == s[0],
        decimated(s, factor).skip(1) == decimated(
            s.skip(if factor <= s.len() { factor as int } else { s.len() as int }),
            factor,
        ),
{
    let f = factor as int;
    let n = s.len() as int;
    let d = decimated(s, factor);
    let k = if f <= n { f } else { n };
    let rest = decimated(s.skip(k), factor);
    assert((n + f - 1) / f >= 1) by (nonlinear_arith)
        requires
            n > 0,
            f > 0,
    ;
    assert(((n - k) + f - 1) / f == (n + f - 1) / f - 1) by (nonlinear_arith)
        requires
            n > 0,
            f > 0,
            k == if f <= n { f } else { n },
    ;
    assert(d.skip(1).len() == rest.len());
    assert forall|i: int| 0 <= i < rest.len() implies d.skip(1)[i] == rest[i] by {
        assert((i + 1) * f == f + i * f) by (nonlinear_arith);
        assert(i * f >= 0) by (nonlinear_arith)
            requires
                i >= 0,
                f > 0,
        ;
        assert(k == f) by (nonlinear_arith)
            requires
                0 <= i < ((n - k) + f - 1) / f,
                f > 0,
                n > 0,
                k == if f <= n { f } else { n },
        ;
        assert(i * f < n - k) by (nonlinear_arith)
            requires
                0 <= i < ((n - k) + f - 1) / f,
                f > 0,
                n - k >= 0,
        ;
    }
    assert(d.skip(1) =~= rest);
}

/// Upsampling by `factor` and decimating by the same factor gives the
/// stream back.
pub proof fn lemma_round_trip<T>(s: Seq<T>, factor: nat)
    requires
        factor > 0,
    ensures
        decimated(held(s, factor), factor) == s,
{
    let f = factor as int;
    let n = s.len() as int;
    let h = held(s, factor);
    let d = decimated(h, factor);
    assert((n * f + f - 1) / f == n) by (nonlinear_arith)
        requires
            f > 0,
            n >= 0,
    ;
    assert(d.len() == s.len());
    assert forall|i: int| 0 <= i < s.len() implies d[i] == s[i] by {
        assert((i * f) / f == i) by (nonlinear_arith)
            requires
                f > 0,
                i >= 0,
        ;
        assert(0 <= i * f < n * f) by (nonlinear_arith)
            requires
                0 <= i < n,
                f > 0,
        ;
    }
    assert(d =~= s);
}

/// A rate change by one changes nothing.
pub proof fn lemma_unit_factor<T>(s: Seq<T>)
    ensures
        held(s, 1) == s,
        decimated(s, 1) == s,
{
    assert(held(s, 1) =~= s);
    assert(decimated(s, 1) =~= s);
}

/// The output of an upsampler is `factor` times as long as its input, and
/// its `i`-th item is the input's item `i / factor`.
pub proof fn lemma_held_items<T>(s: Seq<T>, factor: nat, i: int)
    requires
        factor > 0,
        0 <= i < s.len() * factor,
    ensures
        held(s, factor).len() == s.len() * factor,
        0 <= i / (factor as int) < s.len(),
        held(s, factor)[i] == s[i / (factor as int)],
{
    let f = factor as int;
    assert(0 <= i / f < s.len()) by (nonlinear_arith)
        requires
            0 <= i < s.len() * f,
            f > 0,
    ;
}

/// The output of a decimator has one item for every started group of
/// `factor` inputs, and its `i`-th item is the input's item `i * factor`.
pub proof fn lemma_decimated_items<T>(s: Seq<T>, factor: nat, i: int)
    requires
        factor > 0,
        0 <= i,
        i * factor < s.len(),
    ensures
        i < decimated(s, factor).len(),
        decimated(s, factor)[i] == s[i * (factor as int)],
        decimated(s, factor).len() * factor < s.len() + factor,
        decimated(s, factor).len() * factor >= s.len(),
{
    let f = factor as int;
    let n = s.len() as int;
    assert(i < (n + f - 1) / f && ((n + f - 1) / f) * f < n + f && ((n + f - 1) / f) * f >= n)
        by (nonlinear_arith)
        requires
            f > 0,
            0 <= i,
            i * f < n,
    ;
}

/// Decimating by `a` and then by `b` is decimating by `a * b`: two stages
/// in a row keep the samples that one stage of the combined factor keeps.
pub proof fn lemma_decimated_twice<T>(s: Seq<T>, a: nat, b: nat)
    requires
        a > 0,
        b > 0,
    ensures
        decimated(decimated(s, a), b) == decimated(s, a * b),
{
    let n = s.len() as int;
    let ai = a as int;
    let bi = b as int;
    let inner = decimated(s, a);
    let lhs = decimated(inner, b);
    let rhs = decimated(s, a * b);
    assert(ai * bi > 0) by (nonlinear_arith)
        requires
            ai > 0,
            bi > 0,
    ;
    vstd::arithmetic::div_mod::lemma_hoist_over_denominator(n + ai - 1, bi - 1, a);
    assert(n + ai - 1 + (bi - 1) * ai == n + ai * bi - 1) by (nonlinear_arith);
    vstd::arithmetic::div_mod::lemma_div_denominator(n + ai * bi - 1, ai, bi);
    assert(lhs.len() == rhs.len());
    assert forall|i: int| 0 <= i < lhs.len() implies lhs[i] == rhs[i] by {
        assert(0 <= i * bi && i * bi < inner.len()) by (nonlinear_arith)
            requires
                0 <= i < (inner.len() + bi - 1) / bi,
                bi > 0,
        ;
        assert((i * bi) * ai == i * (ai * bi)) by (nonlinear_arith);
    }
    assert(lhs =~= rhs);
}

/// Repeats every item of a source `factor` times (zero-order hold).
pub struct Upsample<I: Source> {
    iter: I,
    factor: usize,
    cur: Option<I::Item>,
    idx: usize,
}

impl<I: Source> Upsample<I> where I::Item: Copy {
    /// An upsampler of `iter` by `factor`.
    pub fn new(iter: I, factor: usize) -> (up: Self)
        requires
            iter.inv(),
            factor > 0,
        ensures
            up.inv(),
            up.factor() == factor,
            up.remaining() == held(iter.remaining(), factor as nat),
    {
        let up = Upsample { iter, factor, cur: None, idx: 0 };
        proof {
            assert(up.remaining() =~= held(iter.remaining(), factor as nat));
        }
        up
    }

    /// The number of outputs per input.
    pub closed spec fn factor(&self) -> usize {
        self.factor
    }
}

impl<I: Source> Source for Upsample<I> where I::Item: Copy {
    type Item = I::Item;

    closed spec fn inv(&self) -> bool {
        &&& self.iter.inv()
        &&& self.factor > 0
        &&& self.idx < self.factor
        &&& self.idx > 0 ==> self.cur is Some
    }

    closed spec fn remaining(&self) -> Seq<I::Item> {
        owed(self.cur, self.factor as nat, self.idx as nat) + held(
            self.iter.remaining(),
            self.factor as nat,
        )
    }

    fn next(&mut self) -> (item: Option<I::Item>) {
        let ghost upstream = self.iter.remaining();
        let ghost f = self.factor as nat;
        if self.idx == 0 {
            match self.iter.next() {
                None => {
                    proof {
                        assert(0 * f == 0) by (nonlinear_arith);
                        assert(old(self).remaining() =~= Seq::empty());
                        assert(self.remaining() =~= Seq::empty());
                    }
                    return None;
                },
                Some(x) => {
                    self.cur = Some(x);
                },
            }
            proof {
                lemma_held_unfold(upstream, f);
                assert(old(self).remaining() =~= repeated(upstream[0], f) + held(
                    upstream.skip(1),
                    f,
                ));
            }
        }
        let ghost before = self.idx;
        self.idx = (self.idx + 1) % self.factor;
        proof {
            let c = self.cur->0;
            let rest = held(self.iter.remaining(), f);
            assert(old(self).remaining() =~= repeated(c, (f - before) as nat) + rest);
            if before + 1 == f {
                assert(self.idx == 0) by (nonlinear_arith)
                    requires
                        self.idx == (before + 1) % (f as int),
                        before + 1 == f,
                        f > 0,
                ;
                assert(self.remaining() =~= rest);
            } else {
                assert(self.idx == before + 1) by (nonlinear_arith)
                    requires
                        self.idx == (before + 1) % (f as int),
                        0 <= before,
                        before + 1 < f,
                ;
                assert(self.remaining() =~= repeated(c, (f - before - 1) as nat) + rest);
            }
            assert(self.remaining() =~= old(self).remaining().skip(1));
        }
        self.cur
    }
}

/// Streams that can be upsampled.
pub trait Upsampleable: Source where Self::Item: Copy {
    /// Repeats every item of the stream `factor` times.
    fn upsample(self, factor: usize) -> (up: Upsample<Self>)
        requires
            self.inv(),
            factor > 0,
        ensures
            up.inv(),
            up.remaining() == held(self.remaining(), factor as nat),
    ;
}

impl<I: Source> Upsampleable for I where I::Item: Copy {
    fn upsample(self, factor: usize) -> (up: Upsample<I>) {
        Upsample::new(self, factor)
    }
}

/// Keeps the first of every `factor` items of a source.
pub struct Downsample<I> {
    iter: I,
    factor: usize,
}

impl<I: Source> Downsample<I> {
    /// A decimator of `iter` by `factor`.
    pub fn new(iter: I, factor: usize) -> (down: Self)
        requires
            iter.inv(),
            factor > 0,
        ensures
            down.inv(),
            down.factor() == factor,
            down.remaining() == decimated(iter.remaining(), factor as nat),
    {
        Downsample { iter, factor }
    }

    /// The number of inputs per output.
    pub closed spec fn factor(&self) -> usize {
        self.factor
    }
}

impl<I: Source> Source for Downsample<I> {
    type Item = I::Item;

    closed spec fn inv(&self) -> bool {
        &&& self.iter.inv()
        &&& self.factor > 0
    }

    closed spec fn remaining(&self) -> Seq<I::Item> {
        decimated(self.iter.remaining(), self.factor as nat)
    }

    fn next(&mut self) -> (item: Option<I::Item>) {
        let ghost upstream = self.iter.remaining();
        let ghost n = upstream.len() as int;
        let val = self.iter.next();
        let mut skipped: usize = 1;
        while skipped < self.factor
            invariant
                self.iter.inv(),
                self.factor == old(self).factor,
                1 <= skipped <= self.factor,
                n == upstream.len(),
                self.iter.remaining() == upstream.skip(
                    if skipped <= n { skipped as int } else { n },
                ),
            decreases self.factor - skipped,
        {
            let ghost before = self.iter.remaining();
            let _ = self.iter.next();
            proof {
                if skipped < n {
                    assert(before.skip(1) =~= upstream.skip(skipped + 1));
                } else {
                    assert(before.len() == 0);
                }
            }
            skipped = skipped + 1;
        }
        proof {
            if n > 0 {
                lemma_decimated_unfold(upstream, self.factor as nat);
            } else {
                let f = self.factor as int;
                assert((0 + f - 1) / f == 0) by (nonlinear_arith)
                    requires
                        f > 0,
                ;
                assert(decimated(upstream, self.factor as nat) =~= Seq::empty());
                assert(self.iter.remaining() =~= upstream);
            }
        }
        val
    }
}

/// Streams that can be decimated.
pub trait Downsampleable: Source {
    /// Keeps the first of every `factor` items of the stream.
    fn downsample(self, factor: usize) -> (down: Downsample<Self>)
        requires
            self.inv(),
            factor > 0,
        ensures
            down.inv(),
            down.remaining() == decimated(self.remaining(), factor as nat),
    ;
}

impl<I: Source> Downsampleable for I {
    fn downsample(self, factor: usize) -> (down: Downsample<I>) {
        Downsample::new(self, factor)
    }
}

} // verus!
