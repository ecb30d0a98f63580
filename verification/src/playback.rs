//! What the audio callback does with the frame it is handed.
use vstd::prelude::*;
use crate::resample::repeated;
use crate::source::Source;

verus! {

/// A frame of `len` slots filled from the stream `s`: the stream's items in
/// order, then `silence` in the slots that the stream has nothing for.
pub open spec fn framed<T>(s: Seq<T>, len: nat, silence: T) -> Seq<T> {
    if s.len() >= len {
        s.take(len as int)
    } else {
        s + repeated(silence, (len - s.len()) as nat)
    }
}

/// What is left of the stream `s` after `len` slots were filled from it.
pub open spec fn after_frame<T>(s: Seq<T>, len: nat) -> Seq<T> {
    if s.len() >= len {
        s.skip(len as int)
    } else {
        Seq::empty()
    }
}

/// Frames join up: filling a frame of `a` slots and then one of `b` slots
/// puts into them what one frame of `a + b` slots would hold, so no sample
/// is lost or repeated between two calls.
pub proof fn lemma_frames_join<T>(s: Seq<T>, a: nat, b: nat, silence: T)
    ensures
        framed(s, a, silence).len() == a,
        framed(s, a, silence) + framed(after_frame(s, a), b, silence) == framed(
            s,
            a + b,
            silence,
        ),
        after_frame(after_frame(s, a), b) == after_frame(s, a + b),
{
    assert(framed(s, a, silence) + framed(after_frame(s, a), b, silence) =~= framed(
        s,
        a + b,
        silence,
    ));
    assert(after_frame(after_frame(s, a), b) =~= after_frame(s, a + b));
}

/// Fills every slot of `data` with the next item of `samples`, or with
/// `silence` once the stream has ended.  Tells whether the stream ended
/// before the frame was full.
pub fn fill_frame<S: Source>(data: &mut [S::Item], samples: &mut S, silence: S::Item) -> (done:
    bool) where S::Item: Copy
    requires
        old(samples).inv(),
    ensures
        final(samples).inv(),
        final(data)@ == framed(old(samples).remaining(), old(data)@.len(), silence),
        final(samples).remaining() == after_frame(old(samples).remaining(), old(data)@.len()),
        done == (old(samples).remaining().len() < old(data)@.len()),
{
    let ghost s = samples.remaining();
    let n = data.len();
    let mut done = false;
    let mut i: usize = 0;
    while i < n
        invariant
            samples.inv(),
            i <= n,
            data@.len() == n,
            n == old(data)@.len(),
            s == old(samples).remaining(),
            data@.take(i as int) == framed(s, i as nat, silence),
            samples.remaining() == after_frame(s, i as nat),
            done == (s.len() < i),
        decreases n - i,
    {
        let ghost before = data@;
        let sample = match samples.next() {
            Some(x) => x,
            None => {
                done = true;
                silence
            },
        };
        data[i] = sample;
        proof {
            assert(data@.take(i + 1) =~= before.take(i as int).push(sample));
            assert(framed(s, (i + 1) as nat, silence) =~= framed(s, i as nat, silence).push(
                sample,
            ));
            assert(samples.remaining() =~= after_frame(s, (i + 1) as nat));
        }
        i = i + 1;
    }
    proof {
        assert(data@ =~= data@.take(n as int));
    }
    done
}

} // verus!
