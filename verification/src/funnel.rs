//! A funnel stage: many sources, one output. The sources wait in a queue (a
//! channel of receivers); each turn takes the next source, forwards at most
//! one item from it, and puts it back at the end of the queue.

use vstd::prelude::*;
use crossbeam_channel::Receiver;
use crate::channel::{refused_by, sent_one, took_one, Inbox, Outbox, RecvFailure};

verus! {

/// The way into a funnel's queue of sources.
#[verifier::reject_recursive_types(D)]
pub struct Funnel<D> {
    source_sink: Outbox<Receiver<D>>,
}

/// What one turn of a funnel's worker came to.
#[verifier::reject_recursive_types(D)]
pub enum FunnelTurn<D> {
    /// No source came up in time.
    Idle,
    /// A source came up, was polled, and went back to the end of the queue;
    /// `forwarded` says whether it had an item, which was sent on.
    Rotated { forwarded: bool },
    /// The output is disconnected: the item that could not be sent comes
    /// back, with its source, which was not put back.
    OutputClosed(D, Receiver<D>),
    /// The queue is disconnected: the source that could not be put back
    /// comes back; its item, if it had one, was sent on.
    QueueClosed(Receiver<D>),
}

impl<D> Funnel<D> {
    /// A funnel whose sources are added through `source_sink`.
    pub fn new(source_sink: Outbox<Receiver<D>>) -> (f: Funnel<D>)
        ensures
            f.source_sink() == source_sink,
    {
        Funnel { source_sink }
    }

    /// The sending half of the queue of sources, with every source added.
    pub closed spec fn source_sink(&self) -> Outbox<Receiver<D>> {
        self.source_sink
    }

    /// Puts a new source at the end of the queue. When the queue is
    /// disconnected, the source comes back.
    pub fn add_source(&mut self, source: Receiver<D>) -> (r: Result<(), Receiver<D>>)
        ensures
            r is Ok ==> sent_one(old(self).source_sink(), final(self).source_sink(), source),
            r matches Err(back) ==> back == source && refused_by(old(self).source_sink(), final(self).source_sink()),
    {
        self.source_sink.send(source)
    }
}

/// What finishing a turn on source `src`, polled with result `polled`, came
/// to: `r`, with the queue's sending half going from `q0` to `q1` and the
/// output's from `o0` to `o1`.
///
/// An item that came is handed to the output, unchanged; then the source is
/// handed back to the queue. A failed send stops the turn there.
pub open spec fn finished<D>(
    src: Receiver<D>,
    polled: Result<D, RecvFailure>,
    r: FunnelTurn<D>,
    q0: Outbox<Receiver<D>>,
    q1: Outbox<Receiver<D>>,
    o0: Outbox<D>,
    o1: Outbox<D>,
) -> bool {
    match r {
        FunnelTurn::Idle => false,
        FunnelTurn::Rotated { forwarded } => {
            &&& forwarded == polled is Ok
            &&& (polled matches Ok(item) ==> sent_one(o0, o1, item))
            &&& (polled is Err ==> o1 == o0)
            &&& sent_one(q0, q1, src)
        },
        FunnelTurn::OutputClosed(item, back) => {
            &&& polled == Ok::<D, RecvFailure>(item)
            &&& back == src
            &&& refused_by(o0, o1)
            &&& q1 == q0
        },
        FunnelTurn::QueueClosed(back) => {
            &&& back == src
            &&& (polled matches Ok(item) ==> sent_one(o0, o1, item))
            &&& (polled is Err ==> o1 == o0)
            &&& refused_by(q0, q1)
        },
    }
}

/// Finishes a turn once a source `src` was polled: forwards the item, if one
/// came (`polled`), then puts the source back at the end of the queue.
pub fn funnel_finish<D>(
    src: Receiver<D>,
    polled: Result<D, RecvFailure>,
    queue_sink: &mut Outbox<Receiver<D>>,
    out: &mut Outbox<D>,
) -> (r: FunnelTurn<D>)
    ensures
        finished(src, polled, r, *old(queue_sink), *final(queue_sink), *old(out), *final(out)),
{
    let forwarded = match polled {
        Ok(item) => match out.send(item) {
            Ok(()) => true,
            Err(back) => {
                return FunnelTurn::OutputClosed(back, src);
            },
        },
        Err(_) => false,
    };
    match queue_sink.send(src) {
        Ok(()) => FunnelTurn::Rotated { forwarded },
        Err(back) => FunnelTurn::QueueClosed(back),
    }
}

/// One turn of a funnel's worker: waits up to `millis` milliseconds for the
/// next source in the queue, then up to `millis` milliseconds for an item
/// from it, and finishes as `funnel_finish` does with that very source: the
/// item it gave, if any, is forwarded and the source goes back to the queue.
/// When no source comes up, nothing is taken or sent.
pub fn funnel_step<D>(
    queue: &mut Inbox<Receiver<D>>,
    queue_sink: &mut Outbox<Receiver<D>>,
    out: &mut Outbox<D>,
    millis: u64,
) -> (r: FunnelTurn<D>)
    ensures
        r is Idle ==> {
            &&& *final(queue) == *old(queue)
            &&& *final(queue_sink) == *old(queue_sink)
            &&& *final(out) == *old(out)
        },
        !(r is Idle) ==> exists|src: Receiver<D>, polled: Result<D, RecvFailure>| {
            &&& took_one(*old(queue), *final(queue), src)
            &&& finished(src, polled, r, *old(queue_sink), *final(queue_sink), *old(out), *final(out))
        },
{
    match queue.recv_within(millis) {
        Ok(src) => {
            let mut source = Inbox::new(src);
            let polled = source.recv_within(millis);
            let src = source.into_receiver();
            let ghost s = src;
            let ghost p = polled;
            let r = funnel_finish(src, polled, queue_sink, out);
            assert(finished(s, p, r, *old(queue_sink), *queue_sink, *old(out), *out));
            r
        },
        Err(_) => FunnelTurn::Idle,
    }
}

} // verus!
