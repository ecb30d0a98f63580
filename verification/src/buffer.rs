//! A bounded pool of owned buffers, handed back and forth between one
//! producer and one consumer.
//!
//! The pool is a cycle of two queues: one of free buffers, which the
//! producer draws from, and one of ready buffers, which the consumer draws
//! from.  A buffer that is checked out travels inside a [`BufToken`].  A
//! token that goes out of scope without having been committed or released
//! puts its buffer back on the free queue, so the pool never shrinks.
//! Either end of the pool leaves a `Done` marker for the other when it is
//! dropped, and the producer also learns of the consumer's leaving before it
//! draws another buffer.
//!
//! What the queues hold is shared with another thread and therefore unknown
//! to the verifier.  The contracts below state what each operation hands to
//! which queue, what a queue handed over, and what is made of it.
use vstd::prelude::*;
use crate::queue::{open, open_watch, Beacon, Inlet, Lane, Outlet, Watch};
pub use crate::queue::QueueItem;

verus! {

/// A checked-out buffer.  It gives access to the buffer through `*`.  Until
/// it has been committed or released it owes its buffer to the free queue,
/// and pays when it is dropped.
#[verifier::reject_recursive_types(T)]
pub struct BufToken<T> where T: Sized + Default {
    data: T,
    spare: Option<T>,
    ret: Outlet<T>,
}

impl<T: Default> View for BufToken<T> {
    type V = T;

    /// The buffer that the token holds.
    closed spec fn view(&self) -> T {
        self.data
    }
}

impl<T: Default> BufToken<T> {
    /// Whether the buffer has been handed on by `commit` or `release`, or
    /// given back.  A released token holds a default value in its place.
    pub closed spec fn released(&self) -> bool {
        self.spare is None
    }

    /// The queue that gets the buffer if the token is dropped unreleased.
    pub closed spec fn lane(&self) -> Lane {
        self.ret.lane()
    }

    /// What the token itself has put on that queue.
    pub closed spec fn given_back(&self) -> Seq<QueueItem<T>> {
        self.ret.sent()
    }

    /// The queue that the token owes its buffer to, if it still owes it.
    pub open spec fn owes(&self) -> Option<Lane> {
        if self.released() {
            None
        } else {
            Some(self.lane())
        }
    }

    /// What the token puts on its queue when it is dropped: its buffer, if
    /// it still owes it, and nothing otherwise.
    pub open spec fn debt(&self) -> Seq<QueueItem<T>> {
        if self.released() {
            Seq::empty()
        } else {
            seq![QueueItem::Item(self@)]
        }
    }

    /// The buffer that leaves the token when it is spent: the one it holds,
    /// if it still owes it.
    pub open spec fn yield_of(&self) -> Option<T> {
        if self.released() {
            None
        } else {
            Some(self@)
        }
    }

    /// A token parts with its buffer at most once, and what it would put on
    /// its queue is the buffer that spending it would yield: every way of
    /// parting with a token (`commit`, `release`, `abandon`, dropping it)
    /// hands on `debt()` and leaves a token that owes nothing.
    pub proof fn lemma_debt_is_yield(self)
        ensures
            self.debt().len() <= 1,
            self.debt() == match self.yield_of() {
                Some(buffer) => seq![QueueItem::Item(buffer)],
                None => Seq::empty(),
            },
            self.owes() is Some <==> self.debt().len() == 1,
            self.owes() is Some ==> self.debt()[0] == QueueItem::Item(self@),
    {
    }

    /// This token with `value` in place of its buffer.
    pub closed spec fn holding(self, value: T) -> Self {
        BufToken { data: value, spare: self.spare, ret: self.ret }
    }

    /// A token with another buffer owes what the token owed.
    pub proof fn lemma_holding(self)
        ensures
            forall|value: T|
                #![trigger self.holding(value)]
                {
                    &&& self.holding(value)@ == value
                    &&& self.holding(value).released() == self.released()
                    &&& self.holding(value).lane() == self.lane()
                    &&& self.holding(value).given_back() == self.given_back()
                },
    {
    }

    /// A token for `data` that owes it to the queue behind `ret`.
    fn issue(data: T, ret: &Outlet<T>) -> (token: Self)
        ensures
            token@ == data,
            !token.released(),
            token.lane() == ret.lane(),
            token.given_back() == Seq::<QueueItem<T>>::empty(),
    {
        BufToken { data, spare: Some(T::default()), ret: ret.share() }
    }

    /// Takes the buffer out of a token that still owes it, and leaves the
    /// token released with the spare value in the buffer's place.
    fn take_out(&mut self) -> (taken: Option<T>)
        ensures
            taken == old(self).yield_of(),
            final(self).released(),
            final(self).lane() == old(self).lane(),
            final(self).given_back() == old(self).given_back(),
        opens_invariants none
        no_unwind
    {
        let mut spare: Option<T> = None;
        std::mem::swap(&mut self.spare, &mut spare);
        match spare {
            Some(value) => {
                let mut buffer = value;
                std::mem::swap(&mut self.data, &mut buffer);
                Some(buffer)
            },
            None => None,
        }
    }

    /// What happens to a token when it is dropped.  A token that still owes
    /// its buffer puts it on its queue, once; a token that has been
    /// committed, released or given back puts nothing there.  A send that
    /// fails because the pool is gone is ignored.
    fn give_back(&mut self)
        ensures
            final(self).released(),
            final(self).lane() == old(self).lane(),
            final(self).given_back() == old(self).given_back() + old(self).debt(),
        opens_invariants none
        no_unwind
    {
        match self.take_out() {
            Some(buffer) => {
                let _ = self.ret.send(QueueItem::Item(buffer));
            },
            None => {},
        }
    }

    /// Spends the token without paying its debt: gives the buffer that it
    /// still owed, and the token itself, released.  Dropping the spent
    /// token puts nothing on any queue.
    fn spend(self) -> (out: (Option<T>, BufToken<T>))
        ensures
            out.0 == self.yield_of(),
            out.1.released(),
            out.1.debt() == Seq::<QueueItem<T>>::empty(),
            out.1.lane() == self.lane(),
            out.1.given_back() == self.given_back(),
    {
        let mut token = self;
        let taken = token.take_out();
        (taken, token)
    }

    /// Does at once what dropping the token does, and gives the token back
    /// as the drop leaves it: the buffer of a token that still owed it has
    /// been put on the token's queue, once, and the token owes nothing any
    /// more, so that dropping it a second time would put nothing there.
    pub fn abandon(self) -> (spent: BufToken<T>)
        ensures
            spent.released(),
            spent.debt() == Seq::<QueueItem<T>>::empty(),
            spent.lane() == self.lane(),
            spent.given_back() == self.given_back() + self.debt(),
    {
        let mut token = self;
        token.give_back();
        token
    }
}

impl<T: Default> std::ops::Deref for BufToken<T> {
    type Target = T;

    fn deref(&self) -> (r: &T)
        ensures
            *r == self@,
    {
        &self.data
    }
}

impl<T: Default> std::ops::DerefMut for BufToken<T> {
    fn deref_mut(&mut self) -> (r: &mut T)
        ensures
            *r == old(self)@,
            *final(self) == old(self).holding(*final(r)),
            final(self)@ == *final(r),
            final(self).owes() == old(self).owes(),
            final(self).given_back() == old(self).given_back(),
    {
        &mut self.data
    }
}

impl<T: Default> Drop for BufToken<T> {
    fn drop(&mut self)
        opens_invariants none
        no_unwind
    {
        self.give_back();
    }
}

/// The buffer that a token made of `received` holds: a queue's `Done`
/// marker and a closed queue make no token.
pub open spec fn buffer_in<T>(received: Option<QueueItem<T>>) -> Option<T> {
    match received {
        Some(QueueItem::Item(t)) => Some(t),
        Some(QueueItem::Done) => None,
        None => None,
    }
}

/// The buffer that `token` holds, if there is a token.
pub open spec fn buffer_of<T: Default>(token: Option<BufToken<T>>) -> Option<T> {
    match token {
        Some(t) => Some(t@),
        None => None,
    }
}

/// Whether `after` is `before` with at most one more entry, and the token is
/// what that entry makes: no token comes without a draw, and a token that
/// comes holds the buffer that was drawn.
pub open spec fn drew<T: Default>(
    before: Seq<Option<QueueItem<T>>>,
    after: Seq<Option<QueueItem<T>>>,
    token: Option<BufToken<T>>,
) -> bool {
    ||| after == before && token is None
    ||| after.len() == before.len() + 1 && after.drop_last() == before && buffer_of(token)
        == buffer_in(after.last())
}

/// The producer's end of a pool.
#[verifier::reject_recursive_types(T)]
pub struct SendBuf<T> where T: Default {
    buf_in: Inlet<T>,
    buf_out: Outlet<T>,
    buf_return: Outlet<T>,
    watch: Watch<T>,
    done: bool,
}

impl<T> SendBuf<T> where T: Default {
    /// Whether this end has learned that no free buffer will come any more:
    /// it has seen the consumer's `Done` marker, or found the consumer gone
    /// or the free queue closed.  Once set, the flag stays set.
    pub closed spec fn done(&self) -> bool {
        self.done
    }

    /// What this end has handed to the ready queue, first to last.
    pub closed spec fn ready_log(&self) -> Seq<QueueItem<T>> {
        self.buf_out.sent()
    }

    /// What this end has handed to the free queue.
    pub closed spec fn free_log(&self) -> Seq<QueueItem<T>> {
        self.buf_return.sent()
    }

    /// What the free queue has handed to this end, first to last.
    pub closed spec fn drawn(&self) -> Seq<Option<QueueItem<T>>> {
        self.buf_in.drawn()
    }

    /// Each handle of this end is on its own queue.
    pub closed spec fn wf(&self) -> bool {
        &&& self.buf_in.lane() == Lane::Free
        &&& self.buf_out.lane() == Lane::Ready
        &&& self.buf_return.lane() == Lane::Free
    }

    /// This end with its `done` flag set to `done`.
    pub closed spec fn marked(self, done: bool) -> Self {
        SendBuf {
            buf_in: self.buf_in,
            buf_out: self.buf_out,
            buf_return: self.buf_return,
            watch: self.watch,
            done,
        }
    }

    /// Setting the flag changes the flag and nothing else.
    pub proof fn lemma_marked(self, done: bool)
        ensures
            self.marked(done).done() == done,
            self.marked(done).ready_log() == self.ready_log(),
            self.marked(done).free_log() == self.free_log(),
            self.marked(done).drawn() == self.drawn(),
            self.marked(done).wf() == self.wf(),
            self.marked(self.done()) == self,
    {
    }

    /// Closes this end where the consumer is `gone`.
    pub fn heed(&mut self, gone: bool)
        ensures
            *final(self) == old(self).marked(old(self).done() || gone),
            final(self).done() == (old(self).done() || gone),
    {
        if gone {
            self.done = true;
        }
    }

    /// What `get` makes of `received`, the item that the free queue handed
    /// over (`None`: the queue is closed).  A buffer becomes a token that
    /// owes it to the free queue, and leaves this end as it was; the `Done`
    /// marker and a closed queue close this end for good.
    pub fn accept(&mut self, received: Option<QueueItem<T>>) -> (token: Option<BufToken<T>>)
        requires
            old(self).wf(),
        ensures
            final(self).wf(),
            buffer_of(token) == buffer_in(received),
            match received {
                Some(QueueItem::Item(t)) => {
                    &&& token is Some
                    &&& token->0@ == t
                    &&& token->0.owes() == Some(Lane::Free)
                    &&& token->0.given_back() == Seq::<QueueItem<T>>::empty()
                    &&& *final(self) == *old(self)
                },
                Some(QueueItem::Done) => token is None && final(self).done() && *final(self)
                    == old(self).marked(true),
                None => token is None && final(self).done() && *final(self) == old(self).marked(
                    true,
                ),
            },
    {
        match received {
            Some(QueueItem::Item(t)) => Some(BufToken::issue(t, &self.buf_return)),
            Some(QueueItem::Done) => {
                self.done = true;
                None
            },
            None => {
                self.done = true;
                None
            },
        }
    }

    /// Waits for a free buffer.  Gives `None` once the consumer is gone, and
    /// from then on: the end is `done` exactly when no token came, and a
    /// `done` end gives no token and draws nothing.  A token that comes
    /// holds the buffer that the free queue handed over, and owes it to the
    /// free queue.
    pub fn get(&mut self) -> (token: Option<BufToken<T>>)
        requires
            old(self).wf(),
        ensures
            final(self).wf(),
            old(self).done() ==> token is None && final(self).drawn() == old(self).drawn(),
            token is None <==> final(self).done(),
            drew(old(self).drawn(), final(self).drawn(), token),
            final(self).ready_log() == old(self).ready_log(),
            final(self).free_log() == old(self).free_log(),
            token is Some ==> token->0.owes() == Some(Lane::Free) && token->0.given_back()
                == Seq::<QueueItem<T>>::empty(),
    {
        if !self.done {
            let gone = self.watch.closed();
            self.heed(gone);
        }
        proof {
            old(self).lemma_marked(self.done);
        }
        if self.done {
            None
        } else {
            let ghost before = *self;
            let received = self.buf_in.recv();
            let ghost drawn = *self;
            let token = self.accept(received);
            proof {
                drawn.lemma_marked(true);
                assert(self.drawn().drop_last() =~= before.drawn());
            }
            token
        }
    }

    /// Hands the token's buffer to the consumer: the ready queue is handed
    /// the buffer, once, and the free queue nothing.  The token is spent on
    /// the way, so that its dropping puts nothing on the free queue.  A
    /// token that owes no buffer has none to hand on.
    pub fn commit(&mut self, token: BufToken<T>)
        requires
            old(self).wf(),
        ensures
            final(self).wf(),
            final(self).ready_log() == old(self).ready_log() + token.debt(),
            final(self).free_log() == old(self).free_log(),
            final(self).drawn() == old(self).drawn(),
            final(self).done() == old(self).done(),
    {
        let (taken, spent) = token.spend();
        match taken {
            Some(buffer) => {
                let _ = self.buf_out.send(QueueItem::Item(buffer));
                proof {
                    assert(self.buf_out.sent() =~= old(self).buf_out.sent() + token.debt());
                }
            },
            None => {
                proof {
                    assert(self.buf_out.sent() =~= old(self).buf_out.sent() + token.debt());
                }
            },
        }
    }

    /// What happens to this end when it is dropped: the ready queue is
    /// handed the `Done` marker, behind everything committed before.
    fn leave(&mut self)
        ensures
            final(self).ready_log() == old(self).ready_log().push(QueueItem::Done),
            final(self).free_log() == old(self).free_log(),
        opens_invariants none
        no_unwind
    {
        let _ = self.buf_out.send(QueueItem::Done);
    }
}

impl<T: Default> Drop for SendBuf<T> {
    fn drop(&mut self)
        opens_invariants none
        no_unwind
    {
        self.leave();
    }
}

/// The consumer's end of a pool.
#[verifier::reject_recursive_types(T)]
pub struct RecvBuf<T> where T: Default {
    buf_in: Inlet<T>,
    buf_out: Outlet<T>,
    alive: Beacon<T>,
    done: bool,
}

impl<T> RecvBuf<T> where T: Default {
    /// Whether this end has learned that no ready buffer will come any
    /// more: it has seen the producer's `Done` marker, or found the ready
    /// queue closed.  Once set, the flag stays set.
    pub closed spec fn done(&self) -> bool {
        self.done
    }

    /// What this end has handed to the free queue, first to last.  It
    /// starts with the pool's stock.
    pub closed spec fn free_log(&self) -> Seq<QueueItem<T>> {
        self.buf_out.sent()
    }

    /// What the ready queue has handed to this end, first to last.
    pub closed spec fn drawn(&self) -> Seq<Option<QueueItem<T>>> {
        self.buf_in.drawn()
    }

    /// Each handle of this end is on its own queue.
    pub closed spec fn wf(&self) -> bool {
        &&& self.buf_in.lane() == Lane::Ready
        &&& self.buf_out.lane() == Lane::Free
    }

    /// This end with its `done` flag set to `done`.
    pub closed spec fn marked(self, done: bool) -> Self {
        RecvBuf { buf_in: self.buf_in, buf_out: self.buf_out, alive: self.alive, done }
    }

    /// Setting the flag changes the flag and nothing else.
    pub proof fn lemma_marked(self, done: bool)
        ensures
            self.marked(done).done() == done,
            self.marked(done).free_log() == self.free_log(),
            self.marked(done).drawn() == self.drawn(),
            self.marked(done).wf() == self.wf(),
            self.marked(self.done()) == self,
    {
    }

    /// What `get` makes of `received`, the item that the ready queue handed
    /// over (`None`: the queue is closed).  A buffer becomes a token that
    /// owes it to the free queue, and leaves this end as it was; the `Done`
    /// marker and a closed queue end the stream for good.
    pub fn accept(&mut self, received: Option<QueueItem<T>>) -> (token: Option<BufToken<T>>)
        requires
            old(self).wf(),
        ensures
            final(self).wf(),
            buffer_of(token) == buffer_in(received),
            match received {
                Some(QueueItem::Item(t)) => {
                    &&& token is Some
                    &&& token->0@ == t
                    &&& token->0.owes() == Some(Lane::Free)
                    &&& token->0.given_back() == Seq::<QueueItem<T>>::empty()
                    &&& *final(self) == *old(self)
                },
                Some(QueueItem::Done) => token is None && final(self).done() && *final(self)
                    == old(self).marked(true),
                None => token is None && final(self).done() && *final(self) == old(self).marked(
                    true,
                ),
            },
    {
        match received {
            Some(QueueItem::Item(t)) => Some(BufToken::issue(t, &self.buf_out)),
            Some(QueueItem::Done) => {
                self.done = true;
                None
            },
            None => {
                self.done = true;
                None
            },
        }
    }

    /// Waits for a ready buffer.  Gives `None` once the producer is gone,
    /// and from then on: the end is `done` exactly when no token came, and
    /// a `done` end gives no token and draws nothing.  A token that comes
    /// holds the buffer that the ready queue handed over, and owes it to
    /// the free queue.
    pub fn get(&mut self) -> (token: Option<BufToken<T>>)
        requires
            old(self).wf(),
        ensures
            final(self).wf(),
            old(self).done() ==> token is None && final(self).drawn() == old(self).drawn(),
            token is None <==> final(self).done(),
            !old(self).done() ==> final(self).drawn().len() == old(self).drawn().len() + 1,
            drew(old(self).drawn(), final(self).drawn(), token),
            final(self).free_log() == old(self).free_log(),
            token is Some ==> token->0.owes() == Some(Lane::Free) && token->0.given_back()
                == Seq::<QueueItem<T>>::empty(),
    {
        if self.done {
            None
        } else {
            let ghost before = *self;
            let received = self.buf_in.recv();
            let ghost drawn = *self;
            let token = self.accept(received);
            proof {
                drawn.lemma_marked(true);
                assert(self.drawn().drop_last() =~= before.drawn());
            }
            token
        }
    }

    /// Hands the token's buffer back to the producer: the free queue is
    /// handed the buffer, once.  This end has no handle for the ready
    /// queue.  The token is spent on the way, so that its dropping does not
    /// put the buffer there a second time.  A token that owes no buffer has
    /// none to hand back.
    pub fn release(&mut self, token: BufToken<T>)
        requires
            old(self).wf(),
        ensures
            final(self).wf(),
            final(self).free_log() == old(self).free_log() + token.debt(),
            final(self).drawn() == old(self).drawn(),
            final(self).done() == old(self).done(),
    {
        let (taken, spent) = token.spend();
        match taken {
            Some(buffer) => {
                let _ = self.buf_out.send(QueueItem::Item(buffer));
                proof {
                    assert(self.buf_out.sent() =~= old(self).buf_out.sent() + token.debt());
                }
            },
            None => {
                proof {
                    assert(self.buf_out.sent() =~= old(self).buf_out.sent() + token.debt());
                }
            },
        }
    }

    /// What happens to this end when it is dropped: the free queue is
    /// handed the `Done` marker, behind everything released before.  The
    /// beacon goes with the end, so that the producer finds the consumer
    /// gone before it draws another buffer.
    fn leave(&mut self)
        ensures
            final(self).free_log() == old(self).free_log().push(QueueItem::Done),
        opens_invariants none
        no_unwind
    {
        let _ = self.buf_out.send(QueueItem::Done);
    }
}

impl<T: Default> Drop for RecvBuf<T> {
    fn drop(&mut self)
        opens_invariants none
        no_unwind
    {
        self.leave();
    }
}

/// Whether `item` is a buffer with the default value.
pub open spec fn is_default_buffer<T: Default>(item: QueueItem<T>) -> bool {
    item is Item && call_ensures(T::default, (), item->Item_0)
}

/// A pool of `capacity` default buffers, all of them free: the free queue
/// was handed `capacity` default buffers and nothing else, the ready queue
/// nothing, and neither end has drawn anything.
pub fn buf_pair<T>(capacity: usize) -> (ends: (SendBuf<T>, RecvBuf<T>)) where T: Default
    ensures
        ends.0.wf(),
        ends.1.wf(),
        !ends.0.done(),
        !ends.1.done(),
        ends.1.free_log().len() == capacity,
        forall|i: int| 0 <= i < capacity ==> is_default_buffer(#[trigger] ends.1.free_log()[i]),
        ends.0.free_log() == Seq::<QueueItem<T>>::empty(),
        ends.0.ready_log() == Seq::<QueueItem<T>>::empty(),
        ends.0.drawn() == Seq::<Option<QueueItem<T>>>::empty(),
        ends.1.drawn() == Seq::<Option<QueueItem<T>>>::empty(),
{
    let (mut buf_ret_tx, buf_ret_rx) = open::<T>(Lane::Free);
    let (buf_tx, buf_rx) = open::<T>(Lane::Ready);
    let (alive, watch) = open_watch::<T>();
    let mut filled: usize = 0;
    while filled < capacity
        invariant
            filled <= capacity,
            buf_ret_tx.lane() == Lane::Free,
            buf_ret_tx.sent().len() == filled,
            forall|i: int| 0 <= i < filled ==> is_default_buffer(#[trigger] buf_ret_tx.sent()[i]),
        decreases capacity - filled,
    {
        let _ = buf_ret_tx.send(QueueItem::Item(T::default()));
        filled = filled + 1;
    }
    let send = SendBuf {
        buf_in: buf_ret_rx,
        buf_out: buf_tx,
        buf_return: buf_ret_tx.share(),
        watch,
        done: false,
    };
    let recv = RecvBuf { buf_in: buf_rx, buf_out: buf_ret_tx, alive, done: false };
    (send, recv)
}

/// What one step of a [`RecvBufIter`] brought.
pub enum Polled<T> {
    /// The next item of the stream.
    Item(T),
    /// A buffer without items was skipped; ask again.
    Skipped,
    /// The producer is gone and the stream is over.
    Finished,
}

/// Reads the buffers that arrive at a consumer's end as one flat stream of
/// their items.
#[verifier::reject_recursive_types(T)]
pub struct RecvBufIter<T> where T: Copy {
    rx: RecvBuf<Vec<T>>,
    curr: Option<BufToken<Vec<T>>>,
    idx: usize,
}

impl<T> RecvBufIter<T> where T: Copy {
    /// The items of the buffer that is held, if one is held.
    pub closed spec fn loaded(&self) -> Option<Seq<T>> {
        match self.curr {
            Some(token) => Some(token@@),
            None => None,
        }
    }

    /// How many items of the held buffer have been yielded.
    pub closed spec fn index(&self) -> nat {
        self.idx as nat
    }

    /// The buffer that is held, if one is held.
    pub closed spec fn held(&self) -> Option<Vec<T>> {
        match self.curr {
            Some(token) => Some(token@),
            None => None,
        }
    }

    /// What handing the held buffer back puts on the free queue: the
    /// buffer, unless no token is held or the held token owes none.
    pub closed spec fn owed(&self) -> Seq<QueueItem<Vec<T>>> {
        match self.curr {
            Some(token) => token.debt(),
            None => Seq::empty(),
        }
    }

    /// A held token that owes its buffer owes exactly the held buffer.
    pub proof fn lemma_owed(self)
        ensures
            self.held() is None ==> self.owed() == Seq::<QueueItem<Vec<T>>>::empty(),
            self.held() is Some ==> self.owed() == Seq::<QueueItem<Vec<T>>>::empty() || self.owed()
                == seq![QueueItem::Item(self.held()->0)],
    {
    }

    /// What this reader has handed back to the free queue, first to last,
    /// after the pool's stock.
    pub closed spec fn returned(&self) -> Seq<QueueItem<Vec<T>>> {
        self.rx.free_log()
    }

    /// Whether the pool's end has learned that the producer is gone.
    pub closed spec fn finished(&self) -> bool {
        self.rx.done()
    }

    /// What the ready queue has handed to this reader, first to last.
    pub closed spec fn drawn(&self) -> Seq<Option<QueueItem<Vec<T>>>> {
        self.rx.drawn()
    }

    /// The pool's end that the reader draws from is in order.
    pub closed spec fn ready(&self) -> bool {
        self.rx.wf()
    }

    /// The position never passes the end of the held buffer.
    pub open spec fn wf(&self) -> bool {
        &&& self.ready()
        &&& match self.loaded() {
            Some(items) => self.index() <= items.len(),
            None => self.index() == 0,
        }
    }

    /// The held buffer's items are what `loaded` gives.
    pub proof fn lemma_held(self)
        ensures
            self.loaded() == match self.held() {
                Some(v) => Some(v@),
                None => None,
            },
    {
    }

    /// The items of the held buffer that have not been yielded yet.
    pub open spec fn pending(&self) -> Seq<T> {
        match self.loaded() {
            Some(items) => items.skip(self.index() as int),
            None => Seq::empty(),
        }
    }

    /// A reader of the buffers that arrive at `buf`.  It holds no buffer
    /// yet.
    pub fn new(buf: RecvBuf<Vec<T>>) -> (it: RecvBufIter<T>)
        requires
            buf.wf(),
        ensures
            it.wf(),
            it.drawn() == buf.drawn(),
            it.loaded() is None,
            it.index() == 0,
            it.returned() == buf.free_log(),
            it.finished() == buf.done(),
    {
        RecvBufIter { rx: buf, curr: None, idx: 0 }
    }

    /// Makes `next` the held buffer and rewinds.  Gives the number of items
    /// in it, or `None` where there is no buffer.
    pub fn install(&mut self, next: Option<BufToken<Vec<T>>>) -> (len: Option<usize>)
        requires
            old(self).ready(),
        ensures
            final(self).wf(),
            final(self).index() == 0,
            final(self).returned() == old(self).returned(),
            final(self).finished() == old(self).finished(),
            final(self).drawn() == old(self).drawn(),
            final(self).held() == buffer_of(next),
            match next {
                Some(token) => final(self).loaded() == Some(token@@) && len is Some && len->0
                    == token@@.len() && final(self).held() == Some(token@) && final(self).owed()
                    == token.debt(),
                None => final(self).loaded() is None && len is None && final(self).held() is None,
            },
    {
        self.idx = 0;
        let len = match &next {
            Some(token) => Some(token.len()),
            None => None,
        };
        self.curr = next;
        len
    }

    /// Hands the held buffer, if there is one, back to the free queue, once.
    /// The reader then holds none.
    pub fn hand_back(&mut self)
        requires
            old(self).ready(),
        ensures
            final(self).ready(),
            final(self).held() is None,
            final(self).loaded() is None,
            final(self).index() == old(self).index(),
            final(self).finished() == old(self).finished(),
            final(self).drawn() == old(self).drawn(),
            final(self).returned() == old(self).returned() + old(self).owed(),
    {
        match self.curr.take() {
            Some(token) => {
                self.rx.release(token);
            },
            None => {},
        }
    }

    /// One round of reloading: first hands the held buffer back to the
    /// producer, and only then waits for the next one and holds it, so that
    /// a pool of one buffer does not lock up.  Gives the number of items in
    /// the new buffer, which may be none, or `None` once the producer is
    /// gone, and then for good.
    pub fn reload_once(&mut self) -> (len: Option<usize>)
        requires
            old(self).ready(),
        ensures
            final(self).wf(),
            final(self).index() == 0,
            final(self).returned() == old(self).returned() + old(self).owed(),
            old(self).finished() ==> len is None && final(self).drawn() == old(self).drawn(),
            !old(self).finished() ==> final(self).drawn().len() == old(self).drawn().len() + 1
                && final(self).drawn().drop_last() == old(self).drawn() && final(self).held()
                == buffer_in(final(self).drawn().last()),
            len is None <==> final(self).finished(),
            match len {
                Some(n) => final(self).loaded() is Some && final(self).loaded()->0.len() == n,
                None => final(self).loaded() is None,
            },
    {
        self.hand_back();
        let next = self.rx.get();
        self.install(next)
    }

    /// One step of the stream.  While the held buffer has items left, the
    /// step yields the next of them and touches no queue.  Otherwise it
    /// reloads once: the first item of a new buffer is yielded at once, an
    /// empty buffer is reported as skipped, and the end of the stream as
    /// finished.
    pub fn poll(&mut self) -> (step: Polled<T>)
        requires
            old(self).wf(),
        ensures
            final(self).wf(),
            old(self).pending().len() > 0 ==> step == Polled::Item(old(self).pending()[0])
                && final(self).loaded() == old(self).loaded() && final(self).index() == old(
                self,
            ).index() + 1 && final(self).returned() == old(self).returned(),
            old(self).pending().len() == 0 ==> final(self).returned() == old(self).returned()
                + old(self).owed(),
            old(self).pending().len() == 0 ==> (step is Finished <==> final(self).finished()),
            old(self).pending().len() == 0 ==> match step {
                Polled::Item(x) => final(self).loaded() is Some && final(self).index() == 1
                    && final(self).loaded()->0.len() > 0 && x == final(self).loaded()->0[0],
                Polled::Skipped => final(self).loaded() is Some && final(self).index() == 0
                    && final(self).loaded()->0.len() == 0,
                Polled::Finished => final(self).loaded() is None && final(self).index() == 0,
            },
    {
        let exhausted = match &self.curr {
            Some(token) => self.idx >= token.len(),
            None => true,
        };
        if exhausted {
            match self.reload_once() {
                None => {
                    return Polled::Finished;
                },
                Some(n) => {
                    if n == 0 {
                        return Polled::Skipped;
                    }
                },
            }
        }
        let idx = self.idx;
        match &self.curr {
            Some(token) => {
                let x = token[idx];
                self.idx = idx + 1;
                Polled::Item(x)
            },
            None => Polled::Finished,
        }
    }
}

} // verus!
