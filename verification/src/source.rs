//! The pull-based stage contract.
//!
//! A [`Source`] is a stream that is pulled one item at a time.  Its model is
//! the finite sequence of items that it has yet to yield; every stage of the
//! signal chain states what it yields as a function of what its upstream
//! source yields.
use vstd::prelude::*;

verus! {

/// The model of a stream: its items, in order.
pub type Items<T> = Seq<T>;

/// A stream of items that downstream stages pull one at a time.
pub trait Source: Sized {
    type Item;

    /// Validity of the internal state.
    spec fn inv(&self) -> bool;

    /// The items that are still to come, in the order in which they come.
    spec fn remaining(&self) -> Items<Self::Item>;

    /// Yields the next item, or `None` once the stream is exhausted.  An
    /// exhausted stream stays exhausted.
    fn next(&mut self) -> (item: Option<Self::Item>)
        requires
            old(self).inv(),
        ensures
            final(self).inv(),
            item == head_of(old(self).remaining()),
            final(self).remaining() == tail_of(old(self).remaining()),
    ;
}

/// The first item of a stream, if it has one.
pub open spec fn head_of<T>(s: Seq<T>) -> Option<T> {
    if s.len() > 0 {
        Some(s[0])
    } else {
        None
    }
}

/// What is left of a stream after one pull.
pub open spec fn tail_of<T>(s: Seq<T>) -> Seq<T> {
    if s.len() > 0 {
        s.skip(1)
    } else {
        s
    }
}

/// A source that yields the items of a vector, first to last.
pub struct VecSource<T> {
    items: Vec<T>,
    pos: usize,
}

impl<T: Copy> VecSource<T> {
    /// A source that yields `items` in order.
    pub fn new(items: Vec<T>) -> (src: Self)
        ensures
            src.inv(),
            src.remaining() == items@,
    {
        VecSource { items, pos: 0 }
    }
}

impl<T: Copy> Source for VecSource<T> {
    type Item = T;

    closed spec fn inv(&self) -> bool {
        self.pos <= self.items.len()
    }

    closed spec fn remaining(&self) -> Seq<T> {
        self.items@.skip(self.pos as int)
    }

    fn next(&mut self) -> (item: Option<T>) {
        if self.pos < self.items.len() {
            let x = self.items[self.pos];
            self.pos = self.pos + 1;
            proof {
                assert(self.items@.skip(self.pos as int) =~= old(self).items@.skip(
                    old(self).pos as int,
                ).skip(1));
            }
            Some(x)
        } else {
            None
        }
    }
}

/// Pulls `src` until it is exhausted and returns what it yielded.
pub fn collect<S: Source>(src: &mut S) -> (out: Vec<S::Item>)
    requires
        old(src).inv(),
    ensures
        final(src).inv(),
        out@ == old(src).remaining(),
        final(src).remaining().len() == 0,
{
    let mut out: Vec<S::Item> = Vec::new();
    loop
        invariant
            src.inv(),
            out@ + src.remaining() == old(src).remaining(),
        ensures
            src.remaining().len() == 0,
        decreases src.remaining().len(),
    {
        match src.next() {
            Some(x) => {
                out.push(x);
                proof {
                    assert(out@ + src.remaining() =~= old(src).remaining());
                }
            },
            None => {
                break ;
            },
        }
    }
    proof {
        assert(out@ =~= out@ + src.remaining());
    }
    out
}

} // verus!
