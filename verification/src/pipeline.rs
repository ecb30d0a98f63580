//! Block-wise hand-over from a sample stream to pooled buffers.
use vstd::prelude::*;
use crate::buffer::{QueueItem, SendBuf};
use crate::resample::repeated;
use crate::source::Source;

verus! {

/// The number of samples in one block of decoded audio.
pub const AUDIO_BLOCK: usize = 8192;

/// The number of buffers in each of the receiver's pools.
pub const POOL_BUFFERS: usize = 8;

/// `v` cut or padded with `pad` to `len` items.
pub open spec fn resized<T>(v: Seq<T>, len: nat, pad: T) -> Seq<T> {
    if v.len() >= len {
        v.take(len as int)
    } else {
        v + repeated(pad, (len - v.len()) as nat)
    }
}

/// How many items a block of `len` slots takes from a stream of `available`
/// items.
pub open spec fn taken(available: nat, len: nat) -> nat {
    if available < len {
        available
    } else {
        len
    }
}

/// Cuts or pads `out` with `pad` to `len` items.
pub fn resize_block<T: Copy>(out: &mut Vec<T>, len: usize, pad: T)
    ensures
        final(out)@ == resized(old(out)@, len as nat, pad),
{
    out.truncate(len);
    proof {
        assert(out@ =~= resized(old(out)@, out@.len(), pad));
    }
    while out.len() < len
        invariant
            out@.len() <= len,
            out@ == resized(old(out)@, out@.len(), pad),
            out@.len() < old(out)@.len() ==> out@.len() == len,
        decreases len - out@.len(),
    {
        out.push(pad);
        proof {
            assert(out@ =~= resized(old(out)@, out@.len(), pad));
        }
    }
}

/// Makes `out` a block of `len` slots and overwrites its leading slots with
/// the next items of `samples`.  A recycled buffer keeps what it held in the
/// slots that the stream has nothing for; a fresh or short one has `pad`
/// there.  Gives the number of slots that were overwritten.
pub fn refill<S: Source>(out: &mut Vec<S::Item>, samples: &mut S, len: usize, pad: S::Item) -> (written:
    usize) where S::Item: Copy
    requires
        old(samples).inv(),
    ensures
        final(samples).inv(),
        written == taken(old(samples).remaining().len(), len as nat),
        final(out)@ == old(samples).remaining().take(written as int) + resized(
            old(out)@,
            len as nat,
            pad,
        ).skip(written as int),
        final(samples).remaining() == old(samples).remaining().skip(written as int),
{
    let ghost s = samples.remaining();
    resize_block(out, len, pad);
    let ghost block = out@;
    let mut i: usize = 0;
    while i < len
        invariant
            samples.inv(),
            i <= len,
            i <= s.len(),
            out@.len() == len,
            block.len() == len,
            out@ == s.take(i as int) + block.skip(i as int),
            samples.remaining() == s.skip(i as int),
        ensures
            i == taken(s.len(), len as nat),
        decreases len - i,
    {
        match samples.next() {
            Some(x) => {
                out[i] = x;
                proof {
                    assert(out@ =~= s.take(i + 1) + block.skip(i + 1));
                    assert(samples.remaining() =~= s.skip(i + 1));
                }
                i = i + 1;
            },
            None => {
                break ;
            },
        }
    }
    i
}

/// Moves one block of audio from `samples` into the pool behind `outbuf`:
/// waits for a free buffer, refills it to [`AUDIO_BLOCK`] slots and commits
/// it, so that the ready queue is handed one block that starts with the
/// samples taken from the stream.  Gives the number of those samples.
/// Where the pool's consumer is gone it gives `None` and leaves the stream
/// untouched; the pool's end is then `done`, so every later call gives
/// `None` too.
pub fn pump_block<S: Source>(outbuf: &mut SendBuf<Vec<S::Item>>, samples: &mut S, pad: S::Item) -> (written:
    Option<usize>) where S::Item: Copy
    requires
        old(samples).inv(),
        old(outbuf).wf(),
    ensures
        final(samples).inv(),
        final(outbuf).wf(),
        old(outbuf).done() ==> written is None,
        written is None <==> final(outbuf).done(),
        final(outbuf).free_log() == old(outbuf).free_log(),
        match written {
            Some(n) => {
                &&& n == taken(old(samples).remaining().len(), AUDIO_BLOCK as nat)
                &&& final(samples).remaining() == old(samples).remaining().skip(n as int)
                &&& final(outbuf).ready_log().len() == old(outbuf).ready_log().len() + 1
                &&& final(outbuf).ready_log().drop_last() == old(outbuf).ready_log()
                &&& is_block_of(final(outbuf).ready_log().last(), old(samples).remaining(), n)
            },
            None => {
                &&& final(samples).remaining() == old(samples).remaining()
                &&& final(outbuf).ready_log() == old(outbuf).ready_log()
            },
        },
{
    match outbuf.get() {
        Some(mut token) => {
            let ghost issued = token;
            let ghost stream = samples.remaining();
            let written = refill(std::ops::DerefMut::deref_mut(&mut token), samples, AUDIO_BLOCK, pad);
            let ghost before = outbuf.ready_log();
            proof {
                issued.lemma_holding();
                let filler = resized(issued@@, AUDIO_BLOCK as nat, pad);
                assert(filler.len() == AUDIO_BLOCK);
                assert(token@@ == stream.take(written as int) + filler.skip(written as int));
                assert(token@@.len() == AUDIO_BLOCK);
                assert(token@@.take(written as int) =~= stream.take(written as int));
            }
            outbuf.commit(token);
            proof {
                assert(outbuf.ready_log().drop_last() =~= before);
            }
            Some(written)
        },
        None => None,
    }
}

/// Whether `item` is a block of [`AUDIO_BLOCK`] slots whose first `n` hold
/// the first `n` items of `stream`.
pub open spec fn is_block_of<T>(item: QueueItem<Vec<T>>, stream: Seq<T>, n: usize) -> bool {
    &&& item is Item
    &&& item->Item_0@.len() == AUDIO_BLOCK
    &&& n <= AUDIO_BLOCK
    &&& n <= stream.len()
    &&& item->Item_0@.take(n as int) == stream.take(n as int)
}

} // verus!
