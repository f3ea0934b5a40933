//! The channel layer: crossbeam channels, as the stages use them.

use vstd::prelude::*;
use vstd::layout::{align_of, size_of};
use crossbeam_channel::{Receiver, Sender};

verus! {

/// The sending half of a crossbeam channel, carried through opaquely.
#[verifier::external_type_specification]
#[verifier::external_body]
#[verifier::reject_recursive_types(T)]
pub struct ExSender<T>(Sender<T>);

/// The receiving half of a crossbeam channel, carried through opaquely.
#[verifier::external_type_specification]
#[verifier::external_body]
#[verifier::reject_recursive_types(T)]
pub struct ExReceiver<T>(Receiver<T>);

/// Why a receive with a time limit came back without a message.
#[derive(Debug, Clone, Copy, PartialEq, Eq, Structural)]
pub enum RecvFailure {
    /// No message arrived before the time limit.
    Timeout,
    /// The channel is empty and every sender is gone.
    Disconnected,
}

/// What one turn of a stage's worker loop came to, when the turn receives
/// at most one message and sends at most one.
#[derive(Debug)]
pub enum Relay<T> {
    /// Nothing was sent: nothing arrived in time, or what arrived was not to
    /// be sent on (each turn's contract says which).
    Idle,
    /// Something arrived and the result was sent on.
    Sent,
    /// Something arrived but the outgoing channel is disconnected; the value
    /// that could not be sent comes back.
    Refused(T),
}

/// What the library knows of a channel that it opened itself: an identity
/// that its two halves share (proofs learn nothing else of it, so halves of
/// two different openings are never known to match), and its capacity, as
/// crossbeam's `capacity()` reports it (`None`: unbounded).
pub struct ChannelTag {
    pub id: int,
    pub capacity: Option<usize>,
}

/// The sending half of a channel, with the record of every message that was
/// handed to the channel through this handle, and whether a send through it
/// was refused because the channel is disconnected.
#[verifier::reject_recursive_types(T)]
pub struct Outbox<T> {
    sender: Sender<T>,
    sent: Ghost<Seq<T>>,
    tag: Ghost<Option<ChannelTag>>,
    refused: Ghost<bool>,
}

/// The receiving half of a channel, with the record of every message that
/// was taken from the channel through this handle.
#[verifier::reject_recursive_types(T)]
pub struct Inbox<T> {
    receiver: Receiver<T>,
    received: Ghost<Seq<T>>,
    tag: Ghost<Option<ChannelTag>>,
}

/// `b` is the handle `a` after `msg` was taken from its channel.
pub open spec fn took_one<T>(a: Inbox<T>, b: Inbox<T>, msg: T) -> bool {
    &&& b.handle() == a.handle()
    &&& b.tag() == a.tag()
    &&& b.received() == a.received().push(msg)
}

/// `b` is the handle `a` after `msg` was handed to its channel.
pub open spec fn sent_one<T>(a: Outbox<T>, b: Outbox<T>, msg: T) -> bool {
    &&& b.handle() == a.handle()
    &&& b.tag() == a.tag()
    &&& b.refused() == a.refused()
    &&& b.sent() == a.sent().push(msg)
}

/// `b` is the handle `a` after a send through it was refused because the
/// channel is disconnected: nothing joined the record.
pub open spec fn refused_by<T>(a: Outbox<T>, b: Outbox<T>) -> bool {
    &&& b.handle() == a.handle()
    &&& b.tag() == a.tag()
    &&& b.sent() == a.sent()
    &&& b.refused()
}

/// `b` is the handle `a` after a batch holding `items` was handed to its
/// channel.
pub open spec fn sent_batch<D>(a: Outbox<Vec<D>>, b: Outbox<Vec<D>>, items: Seq<D>) -> bool {
    &&& b.handle() == a.handle()
    &&& b.tag() == a.tag()
    &&& b.refused() == a.refused()
    &&& b.sent().len() == a.sent().len() + 1
    &&& b.sent().drop_last() == a.sent()
    &&& b.sent().last()@ == items
}

/// Handing a batch to a channel is handing its items.
pub proof fn lemma_sent_batch<D>(a: Outbox<Vec<D>>, b: Outbox<Vec<D>>, v: Vec<D>)
    requires
        sent_one(a, b, v),
    ensures
        sent_batch(a, b, v@),
{
    assert(b.sent().drop_last() =~= a.sent());
}

impl<T> Outbox<T> {
    /// The crossbeam sender.
    pub closed spec fn handle(&self) -> Sender<T> {
        self.sender
    }

    /// Every message handed to the channel through this handle, in order.
    pub closed spec fn sent(&self) -> Seq<T> {
        self.sent@
    }

    /// Which channel this is and its capacity, when the library opened it;
    /// `None` for a sender that came from elsewhere.
    pub closed spec fn tag(&self) -> Option<ChannelTag> {
        self.tag@
    }

    /// A send through this handle was refused: every receiver of the channel
    /// is gone, and since none can come back, every later send is refused.
    pub closed spec fn refused(&self) -> bool {
        self.refused@
    }

    /// Wraps a sender that came from elsewhere; nothing has been sent
    /// through the new handle yet.
    pub fn new(sender: Sender<T>) -> (o: Outbox<T>)
        ensures
            o.handle() == sender,
            o.sent() == Seq::<T>::empty(),
            o.tag() == None::<ChannelTag>,
            !o.refused(),
    {
        Outbox { sender, sent: Ghost(Seq::empty()), tag: Ghost(None), refused: Ghost(false) }
    }

    /// Gives the crossbeam sender back.
    pub fn into_sender(self) -> (s: Sender<T>)
        ensures
            s == self.handle(),
    {
        self.sender
    }

    /// Calls `Sender::send`, which blocks until the channel takes the message
    /// in (`Ok`) or the channel is disconnected; in the second case crossbeam
    /// hands the message back inside its `SendError`, which this returns as
    /// the error. A message taken in joins the handle's record; a refusal
    /// marks the handle as refused. Disconnection is for good (a channel gets
    /// no new receiver once its last one is gone), so a handle that was
    /// refused is refused again. Otherwise which of the two happens depends
    /// on the receiving side and is not stated.
    #[verifier::external_body]
    pub(crate) fn send(&mut self, msg: T) -> (r: Result<(), T>)
        ensures
            old(self).refused() ==> r is Err,
            r is Ok ==> sent_one(*old(self), *final(self), msg),
            r matches Err(back) ==> back == msg && refused_by(*old(self), *final(self)),
    {
        match self.sender.send(msg) {
            Ok(()) => Ok(()),
            Err(e) => Err(e.0),
        }
    }
}

impl<T> Inbox<T> {
    /// The crossbeam receiver.
    pub closed spec fn handle(&self) -> Receiver<T> {
        self.receiver
    }

    /// Every message taken from the channel through this handle, in order.
    pub closed spec fn received(&self) -> Seq<T> {
        self.received@
    }

    /// Which channel this is and its capacity, when the library opened it;
    /// `None` for a receiver that came from elsewhere.
    pub closed spec fn tag(&self) -> Option<ChannelTag> {
        self.tag@
    }

    /// Wraps a receiver that came from elsewhere; nothing has been taken
    /// through the new handle yet.
    pub fn new(receiver: Receiver<T>) -> (i: Inbox<T>)
        ensures
            i.handle() == receiver,
            i.received() == Seq::<T>::empty(),
            i.tag() == None::<ChannelTag>,
    {
        Inbox { receiver, received: Ghost(Seq::empty()), tag: Ghost(None) }
    }

    /// Calls `Receiver::recv_timeout` with a limit of `millis` milliseconds
    /// and tells its two errors apart. A message taken joins the handle's
    /// record; on either error the handle is as it was. Whether a message
    /// arrives, and which, depends on other threads and on time.
    #[verifier::external_body]
    pub(crate) fn recv_within(&mut self, millis: u64) -> (r: Result<T, RecvFailure>)
        ensures
            r matches Ok(v) ==> took_one(*old(self), *final(self), v),
            r is Err ==> *final(self) == *old(self),
    {
        match self.receiver.recv_timeout(std::time::Duration::from_millis(millis)) {
            Ok(v) => Ok(v),
            Err(crossbeam_channel::RecvTimeoutError::Timeout) => Err(RecvFailure::Timeout),
            Err(crossbeam_channel::RecvTimeoutError::Disconnected) => Err(RecvFailure::Disconnected),
        }
    }

    /// Gives the crossbeam receiver back.
    pub fn into_receiver(self) -> (r: Receiver<T>)
        ensures
            r == self.handle(),
    {
        self.receiver
    }
}

/// The two halves of one new channel of the given capacity, with nothing
/// sent yet.
pub open spec fn fresh_pair<T>(pair: (Outbox<T>, Inbox<T>), capacity: Option<usize>) -> bool {
    &&& pair.0.sent() == Seq::<T>::empty()
    &&& !pair.0.refused()
    &&& pair.1.received() == Seq::<T>::empty()
    &&& pair.0.tag() == pair.1.tag()
    &&& pair.1.tag() matches Some(t) && t.capacity == capacity
}

/// Sends `msg` and reports the outcome as a turn that sent.
pub fn relay<T>(out: &mut Outbox<T>, msg: T) -> (r: Relay<T>)
    ensures
        !(r is Idle),
        r is Sent ==> sent_one(*old(out), *final(out), msg),
        r is Refused ==> r == Relay::Refused(msg) && refused_by(*old(out), *final(out)),
        old(out).refused() ==> r is Refused,
{
    match out.send(msg) {
        Ok(()) => Relay::Sent,
        Err(back) => Relay::Refused(back),
    }
}

/// Whether a bounded channel of `cap` slots holding `T` can be set up.
///
/// crossbeam rounds `cap + 1` up to a power of two and doubles it, and
/// allocates a buffer of `cap` slots, each a 64-bit stamp beside a `T`, which
/// with padding takes at most `size + 2 * align + 24` bytes; the buffer must
/// fit in `isize::MAX` bytes, which also keeps the rounding from overflowing.
pub open spec fn bounded_capacity_fits<T>(cap: usize) -> bool {
    (cap as int) * (size_of::<T>() + 2 * align_of::<T>() + 24) <= isize::MAX
}

/// The capacity a stage asks for, given its `data_limit`: a limit of zero
/// means "no limit" (an unbounded channel); any other limit is the number of
/// messages the channel holds before a send waits.
pub open spec fn spec_channel_capacity(data_limit: usize) -> Option<usize> {
    if data_limit == 0 {
        None
    } else {
        Some(data_limit)
    }
}

/// The capacity a stage's channel gets: none (unbounded) for a `data_limit`
/// of zero, and exactly `data_limit` messages for every other limit, however
/// large.
pub proof fn lemma_channel_capacity(data_limit: usize)
    ensures
        data_limit == 0 ==> spec_channel_capacity(data_limit) is None,
        data_limit > 0 ==> spec_channel_capacity(data_limit) == Some(data_limit),
{
}

/// Computes the capacity of the channel that `get_channel` opens.
pub fn channel_capacity(data_limit: usize) -> (cap: Option<usize>)
    ensures
        cap == spec_channel_capacity(data_limit),
        data_limit == 0 ==> cap is None,
        data_limit > 0 ==> cap == Some(data_limit),
{
    if data_limit == 0 {
        None
    } else {
        Some(data_limit)
    }
}

/// Whether a bounded channel of `cap` slots holding `T` can be set up, as
/// `bounded_capacity_fits` says.
pub fn capacity_fits<T>(cap: usize) -> (r: bool)
    ensures
        r == bounded_capacity_fits::<T>(cap),
{
    let size: usize = core::mem::size_of::<T>();
    let align: usize = core::mem::align_of::<T>();
    let slot: u128 = size as u128 + 2 * (align as u128) + 24;
    let limit: u128 = isize::MAX as u128;
    let c: u128 = cap as u128;
    let r: bool = c <= limit / slot;
    assert(r == (c * slot <= limit)) by (nonlinear_arith)
        requires
            slot > 0,
            r == (c <= limit / slot),
            c >= 0,
    {
        if c <= limit / slot {
            assert(c * slot <= (limit / slot) * slot);
        } else {
            assert(c >= limit / slot + 1);
            assert(c * slot >= (limit / slot + 1) * slot);
        }
    }
    r
}

/// Calls `crossbeam_channel::unbounded`: a channel whose buffer grows with
/// its contents. crossbeam's `capacity()` is `None` for such a channel.
#[verifier::external_body]
fn open_unbounded<T>() -> (pair: (Outbox<T>, Inbox<T>))
    ensures
        fresh_pair(pair, None),
{
    let (s, r) = crossbeam_channel::unbounded();
    let tag = Ghost(ChannelTag { id: 0, capacity: None });
    (
        Outbox { sender: s, sent: Ghost(Seq::empty()), tag: Ghost(Some(tag@)), refused: Ghost(false) },
        Inbox { receiver: r, received: Ghost(Seq::empty()), tag: Ghost(Some(tag@)) },
    )
}

/// Calls `crossbeam_channel::bounded`: a channel holding at most `cap`
/// messages, whose `capacity()` is `Some(cap)`. crossbeam panics when the
/// capacity arithmetic or the slot buffer overflows, which `requires` rules
/// out.
#[verifier::external_body]
fn open_bounded<T>(cap: usize) -> (pair: (Outbox<T>, Inbox<T>))
    requires
        bounded_capacity_fits::<T>(cap),
    ensures
        fresh_pair(pair, Some(cap)),
{
    let (s, r) = crossbeam_channel::bounded(cap);
    let tag = Ghost(ChannelTag { id: 0, capacity: Some(cap) });
    (
        Outbox { sender: s, sent: Ghost(Seq::empty()), tag: Ghost(Some(tag@)), refused: Ghost(false) },
        Inbox { receiver: r, received: Ghost(Seq::empty()), tag: Ghost(Some(tag@)) },
    )
}

/// Opens the channel for a stage with the given `data_limit`: unbounded when
/// the limit is zero, bounded to `data_limit` messages otherwise. The two
/// halves belong to the one new channel.
pub fn get_channel<T>(data_limit: usize) -> (pair: (Outbox<T>, Inbox<T>))
    requires
        bounded_capacity_fits::<T>(data_limit),
    ensures
        fresh_pair(pair, spec_channel_capacity(data_limit)),
        pair.1.tag() matches Some(t) && (data_limit == 0 ==> t.capacity is None)
            && (data_limit > 0 ==> t.capacity == Some(data_limit)),
{
    match channel_capacity(data_limit) {
        None => open_unbounded(),
        Some(cap) => open_bounded(cap),
    }
}

/// Opens the channel as `get_channel` does when a channel of that size can
/// be set up; `None` when it cannot.
pub fn try_get_channel<T>(data_limit: usize) -> (r: Option<(Outbox<T>, Inbox<T>)>)
    ensures
        r is Some <==> bounded_capacity_fits::<T>(data_limit),
        r matches Some(pair) ==> fresh_pair(pair, spec_channel_capacity(data_limit)),
{
    if capacity_fits::<T>(data_limit) {
        Some(get_channel(data_limit))
    } else {
        None
    }
}

} // verus!
