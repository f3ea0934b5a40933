//! The two ends of a pipeline. An extractor hands the batches that its user
//! function produced to the pipeline; a loader takes batches from the
//! pipeline and hands them to its user function.

use vstd::prelude::*;
use crate::channel::{refused_by, relay, sent_one, took_one, Inbox, Outbox, RecvFailure, Relay};

verus! {

/// Sends a batch that the extractor's function produced, unless it is empty:
/// empty batches are never sent.
pub fn forward_batch<T>(tx: &mut Outbox<Vec<T>>, data: Vec<T>) -> (r: Relay<Vec<T>>)
    ensures
        data.len() == 0 ==> r is Idle && *final(tx) == *old(tx),
        data.len() > 0 ==> !(r is Idle),
        r is Sent ==> sent_one(*old(tx), *final(tx), data),
        r is Refused ==> r == Relay::Refused(data) && refused_by(*old(tx), *final(tx)),
{
    if data.len() > 0 {
        relay(tx, data)
    } else {
        Relay::Idle
    }
}

/// What a loader keeps of a receive: the batch, when one came and is not
/// empty.
pub fn accept_batch<T>(received: Result<Vec<T>, RecvFailure>) -> (r: Option<Vec<T>>)
    ensures
        r == match received {
            Ok(data) => if data.len() > 0 { Some(data) } else { None },
            Err(_) => None,
        },
{
    match received {
        Ok(data) => {
            if data.len() > 0 {
                Some(data)
            } else {
                None
            }
        },
        Err(_) => None,
    }
}

/// The non-empty batches of `rs`, in order: what a loader keeps of the
/// batches it received.
pub open spec fn nonempty_batches<T>(rs: Seq<Vec<T>>) -> Seq<Vec<T>>
    decreases rs.len(),
{
    if rs.len() == 0 {
        Seq::empty()
    } else {
        let rest = nonempty_batches(rs.drop_last());
        if rs.last().len() > 0 {
            rest.push(rs.last())
        } else {
            rest
        }
    }
}

/// Receiving one more batch adds it to what is kept when it is not empty,
/// and adds nothing otherwise.
pub proof fn lemma_nonempty_batches_push<T>(rs: Seq<Vec<T>>, b: Vec<T>)
    ensures
        nonempty_batches(rs.push(b)) == if b.len() > 0 {
            nonempty_batches(rs).push(b)
        } else {
            nonempty_batches(rs)
        },
{
    assert(rs.push(b).drop_last() =~= rs);
}

/// One turn of a loader's receiving worker: waits up to `millis`
/// milliseconds for a batch and keeps it if it is not empty. Over all turns,
/// the batches kept are exactly the non-empty batches received, in order.
pub fn receive_batch<T>(receiver: &mut Inbox<Vec<T>>, millis: u64) -> (r: Option<Vec<T>>)
    ensures
        r matches Some(data) ==> data.len() > 0 && took_one(*old(receiver), *final(receiver), data),
        r is None ==> *final(receiver) == *old(receiver) || exists|b: Vec<T>|
            b.len() == 0 && took_one(*old(receiver), *final(receiver), b),
        nonempty_batches(final(receiver).received()) == match r {
            Some(data) => nonempty_batches(old(receiver).received()).push(data),
            None => nonempty_batches(old(receiver).received()),
        },
{
    let got = receiver.recv_within(millis);
    let ghost g = got;
    proof {
        if g is Ok {
            lemma_nonempty_batches_push(old(receiver).received(), g->Ok_0);
        }
    }
    accept_batch(got)
}

} // verus!
