//! A tap on a stream: passes every item through and hands a copy of the
//! first few to a callback.
use vstd::prelude::*;
use crate::source::Source;

verus! {

/// Passes the items of a source through unchanged.  On the way it collects
/// the first `count` of them and hands them to a callback, once: when the
/// `count`-th item passes, or when the stream ends before that.  The
/// callback is consumed by its call, so there is no second one.
pub struct SpyIter<I: Source, F> {
    iter: I,
    count: usize,
    done: bool,
    buf: Vec<I::Item>,
    callback: Option<F>,
}

impl<I, F> SpyIter<I, F> where I: Source, I::Item: Copy, F: FnOnce(Vec<I::Item>) {
    /// The items collected so far and not yet handed over.
    pub closed spec fn collected(&self) -> Seq<I::Item> {
        self.buf@
    }

    /// Whether the callback has had its call.
    pub closed spec fn fired(&self) -> bool {
        self.done
    }

    /// The number of items the callback is to get.
    pub closed spec fn wanted(&self) -> usize {
        self.count
    }

    /// The callback, as long as it has not had its call.
    pub closed spec fn callback(&self) -> Option<F> {
        self.callback
    }

    /// What the callback is handed if the tap fires when `item` comes from
    /// upstream: the items collected, and `item` where there is one.
    pub open spec fn handed(&self, item: Option<I::Item>) -> Seq<I::Item> {
        match item {
            Some(x) => self.collected().push(x),
            None => self.collected(),
        }
    }

    /// Whether `cb` has been called with the items `items` and has returned.
    pub open spec fn called_with(cb: F, items: Seq<I::Item>) -> bool {
        exists|v: Vec<I::Item>| v@ == items && call_ensures(cb, (v,), ())
    }

    /// A tap on `iter` that hands the first `count` items to `callback`.
    pub fn new(iter: I, count: usize, callback: F) -> (tap: Self)
        requires
            iter.inv(),
            forall|v: Vec<I::Item>| call_requires(callback, (v,)),
        ensures
            tap.inv(),
            tap.remaining() == iter.remaining(),
            !tap.fired(),
            tap.wanted() == count,
            tap.collected() == Seq::<I::Item>::empty(),
            tap.callback() == Some(callback),
    {
        SpyIter { iter, count, done: false, buf: Vec::new(), callback: Some(callback) }
    }

    /// Calls the callback with what was collected.  The callback is used up
    /// by its call.
    fn fire(&mut self)
        requires
            old(self).inv(),
            !old(self).fired(),
        ensures
            final(self).inv(),
            final(self).fired(),
            final(self).collected() == Seq::<I::Item>::empty(),
            final(self).remaining() == old(self).remaining(),
            final(self).wanted() == old(self).wanted(),
            final(self).callback() is None,
            old(self).callback() is Some,
            Self::called_with(old(self).callback()->0, old(self).collected()),
    {
        self.done = true;
        let mut collected: Vec<I::Item> = Vec::new();
        std::mem::swap(&mut collected, &mut self.buf);
        let ghost handed = collected;
        match self.callback.take() {
            Some(cb) => {
                cb(collected);
                proof {
                    assert(handed@ == old(self).collected() && call_ensures(cb, (handed,), ()));
                }
            },
            None => {},
        }
    }

    /// What `next` does to the tap when `item` comes from upstream.
    pub open spec fn fires_on(&self, item: Option<I::Item>) -> bool {
        self.fired() || item is None || self.collected().len() + 1 >= self.wanted()
    }
}

impl<I, F> Source for SpyIter<I, F> where I: Source, I::Item: Copy, F: FnOnce(Vec<I::Item>) {
    type Item = I::Item;

    closed spec fn inv(&self) -> bool {
        &&& self.iter.inv()
        &&& self.callback is Some ==> forall|v: Vec<I::Item>|
            call_requires(self.callback->0, (v,))
        &&& self.done ==> self.buf@.len() == 0
        &&& self.done <==> self.callback is None
    }

    closed spec fn remaining(&self) -> Seq<I::Item> {
        self.iter.remaining()
    }

    fn next(&mut self) -> (item: Option<I::Item>)
        ensures
            final(self).wanted() == old(self).wanted(),
            final(self).fired() == old(self).fires_on(item),
            final(self).collected() == if old(self).fires_on(item) {
                Seq::<I::Item>::empty()
            } else {
                old(self).collected().push(item->0)
            },
            final(self).callback() == if old(self).fires_on(item) {
                None
            } else {
                old(self).callback()
            },
            old(self).fired() <==> old(self).callback() is None,
            !old(self).fired() && old(self).fires_on(item) ==> Self::called_with(
                old(self).callback()->0,
                old(self).handed(item),
            ),
    {
        match self.iter.next() {
            None => {
                if !self.done {
                    self.fire();
                }
                None
            },
            Some(item) => {
                if !self.done {
                    self.buf.push(item);
                    if self.buf.len() >= self.count {
                        self.fire();
                    }
                }
                Some(item)
            },
        }
    }
}

/// Streams that can be tapped.
pub trait SpyableIter: Source + Sized where Self::Item: Copy {
    /// Passes the stream through and hands its first `count` items to
    /// `callback`.
    fn spy<T>(self, count: usize, callback: T) -> (tap: SpyIter<Self, T>) where
        T: FnOnce(Vec<Self::Item>),

        requires
            self.inv(),
            forall|v: Vec<Self::Item>| call_requires(callback, (v,)),
        ensures
            tap.inv(),
            tap.remaining() == self.remaining(),
            !tap.fired(),
            tap.wanted() == count,
            tap.collected() == Seq::<Self::Item>::empty(),
            tap.callback() == Some(callback),
    ;
}

impl<I> SpyableIter for I where I: Source + Sized, I::Item: Copy {
    fn spy<T>(self, count: usize, callback: T) -> (tap: SpyIter<Self, T>) where
        T: FnOnce(Vec<Self::Item>),
     {
        SpyIter::new(self, count, callback)
    }
}

} // verus!
