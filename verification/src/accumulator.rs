//! The decisions of an accumulator stage: items that arrive one by one are
//! collected during a time window and released together as one batch.

use vstd::prelude::*;
use crate::channel::{lemma_sent_batch, refused_by, sent_batch, took_one, Inbox, Outbox, RecvFailure};

verus! {

/// The items collected since the last batch was released, together with the
/// history of what came in and what went out.
#[verifier::reject_recursive_types(D)]
pub struct Accumulation<D> {
    pending: Vec<D>,
    received: Ghost<Seq<D>>,
    released: Ghost<Seq<Seq<D>>>,
}

impl<D> Accumulation<D> {
    /// Nothing is lost, duplicated or reordered, at every moment.
    #[verifier::type_invariant]
    spec fn wf(self) -> bool {
        &&& self.released@.flatten_alt() + self.pending@ == self.received@
        &&& forall|i: int| 0 <= i < self.released@.len() ==> #[trigger] self.released@[i].len() > 0
    }

    /// The items waiting for the next batch, oldest first.
    pub closed spec fn pending(&self) -> Seq<D> {
        self.pending@
    }

    /// Every item that came in, in the order it came.
    pub closed spec fn received(&self) -> Seq<D> {
        self.received@
    }

    /// Every batch that was released, in the order they went out.
    pub closed spec fn released(&self) -> Seq<Seq<D>> {
        self.released@
    }

    /// Nothing is lost, duplicated or reordered: the released batches, one
    /// after the other, followed by the pending items, are exactly the items
    /// that came in; and no released batch is empty.
    pub open spec fn accounted(&self) -> bool {
        &&& self.released().flatten_alt() + self.pending() == self.received()
        &&& forall|i: int| 0 <= i < self.released().len() ==> #[trigger] self.released()[i].len() > 0
    }

    /// An accumulation with nothing received yet.
    pub fn new() -> (a: Accumulation<D>)
        ensures
            a.pending() == Seq::<D>::empty(),
            a.received() == Seq::<D>::empty(),
            a.released() == Seq::<Seq<D>>::empty(),
            a.accounted(),
    {
        let a = Accumulation {
            pending: Vec::new(),
            received: Ghost(Seq::empty()),
            released: Ghost(Seq::empty()),
        };
        assert(a.released().flatten_alt() + a.pending() =~= a.received());
        a
    }

    /// Adds an item that came in to the pending batch.
    pub fn accept(&mut self, item: D)
        ensures
            final(self).pending() == old(self).pending().push(item),
            final(self).received() == old(self).received().push(item),
            final(self).released() == old(self).released(),
            final(self).accounted(),
    {
        proof {
            use_type_invariant(&*self);
        }
        let mut taken = Accumulation::new();
        std::mem::swap(&mut taken, self);
        let Accumulation { mut pending, received, released } = taken;
        pending.push(item);
        let received = Ghost(received@.push(item));
        assert(released@.flatten_alt() + pending@ =~= received@);
        *self = Accumulation { pending, received, released };
    }

    /// Takes in the result of one receive: an item that arrived joins the
    /// pending batch; a timeout or a disconnection changes nothing. Returns
    /// whether an item arrived.
    pub fn take_in(&mut self, received: Result<D, RecvFailure>) -> (arrived: bool)
        ensures
            arrived == received is Ok,
            final(self).accounted(),
            final(self).released() == old(self).released(),
            match received {
                Ok(item) => {
                    &&& final(self).pending() == old(self).pending().push(item)
                    &&& final(self).received() == old(self).received().push(item)
                },
                Err(_) => {
                    &&& final(self).pending() == old(self).pending()
                    &&& final(self).received() == old(self).received()
                },
            },
    {
        proof {
            use_type_invariant(&*self);
        }
        match received {
            Ok(item) => {
                self.accept(item);
                true
            },
            Err(_) => false,
        }
    }

    /// Waits up to `millis` milliseconds for one item from `source` and takes
    /// in what came back. Returns whether an item arrived.
    pub fn poll(&mut self, source: &mut Inbox<D>, millis: u64) -> (arrived: bool)
        ensures
            final(self).accounted(),
            final(self).released() == old(self).released(),
            arrived ==> exists|item: D| {
                &&& took_one(*old(source), *final(source), item)
                &&& final(self).pending() == old(self).pending().push(item)
                &&& final(self).received() == old(self).received().push(item)
            },
            !arrived ==> {
                &&& *final(source) == *old(source)
                &&& final(self).pending() == old(self).pending()
                &&& final(self).received() == old(self).received()
            },
    {
        let r = source.recv_within(millis);
        self.take_in(r)
    }

    /// Ends a window: when items are pending they leave as one batch, in the
    /// order they came, and the pending batch starts over empty; when none
    /// are, nothing leaves.
    pub fn take_batch(&mut self) -> (batch: Option<Vec<D>>)
        ensures
            final(self).accounted(),
            final(self).received() == old(self).received(),
            final(self).pending() == Seq::<D>::empty(),
            old(self).pending().len() == 0 ==> {
                &&& batch is None
                &&& final(self).released() == old(self).released()
            },
            old(self).pending().len() > 0 ==> {
                &&& batch matches Some(b) && b@ == old(self).pending()
                &&& final(self).released() == old(self).released().push(old(self).pending())
            },
    {
        proof {
            use_type_invariant(&*self);
        }
        if self.pending.len() == 0 {
            return None;
        }
        let mut taken = Accumulation::new();
        std::mem::swap(&mut taken, self);
        let Accumulation { pending: batch, received, released } = taken;
        let ghost old_released = released@;
        let released = Ghost(old_released.push(batch@));
        let pending: Vec<D> = Vec::new();
        proof {
            let r = old_released.push(batch@);
            assert(r.drop_last() =~= old_released);
            assert(r.flatten_alt() == old_released.flatten_alt() + batch@);
            assert(released@.flatten_alt() + pending@ =~= received@);
        }
        *self = Accumulation { pending, received, released };
        Some(batch)
    }

    /// Ends a window and sends the batch, if any, on `out`. Returns whether a
    /// batch was sent; when the send fails, the batch comes back.
    pub fn flush(&mut self, out: &mut Outbox<Vec<D>>) -> (r: Result<bool, Vec<D>>)
        ensures
            final(self).accounted(),
            final(self).received() == old(self).received(),
            final(self).pending() == Seq::<D>::empty(),
            old(self).pending().len() == 0 ==> {
                &&& r == Ok::<bool, Vec<D>>(false)
                &&& final(self).released() == old(self).released()
                &&& *final(out) == *old(out)
            },
            old(self).pending().len() > 0 ==> {
                &&& final(self).released() == old(self).released().push(old(self).pending())
                &&& (r is Ok ==> r == Ok::<bool, Vec<D>>(true) && sent_batch(*old(out), *final(out), old(self).pending()))
                &&& (r matches Err(b) ==> b@ == old(self).pending() && refused_by(*old(out), *final(out)))
            },
    {
        match self.take_batch() {
            None => Ok(false),
            Some(batch) => {
                let ghost b = batch;
                match out.send(batch) {
                    Ok(()) => {
                        proof {
                            lemma_sent_batch(*old(out), *out, b);
                        }
                        Ok(true)
                    },
                    Err(back) => Err(back),
                }
            },
        }
    }
}

} // verus!
