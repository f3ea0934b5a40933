//! A broadcast stage's subscribers and what it does with each batch: every
//! subscriber gets its own copy, in the order they subscribed.

use vstd::prelude::*;
use crossbeam_channel::Sender;
use crate::channel::{
    bounded_capacity_fits, refused_by, capacity_fits, get_channel, spec_channel_capacity, Inbox, Outbox,
};

verus! {

/// Why a broadcast turn stopped early.
#[derive(Debug, Clone, Copy, PartialEq, Eq, Structural)]
pub enum BroadcastError {
    /// The subscriber at this index is disconnected; the ones before it got
    /// their copy, the ones after it did not.
    Disconnected(usize),
}

/// `c` is a copy of `data`: the same length, each item a clone.
pub open spec fn copies<T: Clone>(data: Seq<T>, c: Seq<T>) -> bool {
    &&& c.len() == data.len()
    &&& forall|k: int| 0 <= k < data.len() ==> cloned(data[k], #[trigger] c[k])
}

/// `b` is the handle `a` after a copy of `data` was handed to its channel
/// (which had refused nothing before, and did not now).
pub open spec fn got_copy<T: Clone>(a: Outbox<Vec<T>>, b: Outbox<Vec<T>>, data: Seq<T>) -> bool {
    &&& b.handle() == a.handle()
    &&& b.tag() == a.tag()
    &&& !a.refused()
    &&& !b.refused()
    &&& b.sent().len() == a.sent().len() + 1
    &&& b.sent().drop_last() == a.sent()
    &&& copies(data, b.sent().last()@)
}

/// What one publish of `data` did, taking the broadcast from `before` to
/// `after` with answer `r`: either every subscriber got a copy, or the
/// subscribers before the one named got theirs, the one named refused its
/// copy, and those after it were not touched.
pub open spec fn published<T: Clone>(
    before: Broadcast<T>,
    after: Broadcast<T>,
    data: Seq<T>,
    r: Result<(), BroadcastError>,
) -> bool {
    let n = before.subscribers().len();
    &&& after.subscribers().len() == n
    &&& after.data_limit() == before.data_limit()
    &&& match r {
        Ok(()) => forall|j: int| 0 <= j < n
            ==> got_copy(before.subscribers()[j], #[trigger] after.subscribers()[j], data),
        Err(BroadcastError::Disconnected(i)) => {
            &&& i < n
            &&& forall|j: int| 0 <= j < i
                ==> got_copy(before.subscribers()[j], #[trigger] after.subscribers()[j], data)
            &&& refused_by(before.subscribers()[i as int], after.subscribers()[i as int])
            &&& forall|j: int| i < j < n ==> #[trigger] after.subscribers()[j] == before.subscribers()[j]
        },
    }
}

/// The subscribers of a broadcast stage.
#[verifier::reject_recursive_types(T)]
pub struct Broadcast<T> {
    subscribers: Vec<Outbox<Vec<T>>>,
    data_limit: usize,
}

impl<T: Clone> Broadcast<T> {
    /// The subscribers, in the order they subscribed, each with what it was
    /// sent.
    pub closed spec fn subscribers(&self) -> Seq<Outbox<Vec<T>>> {
        self.subscribers@
    }

    /// The capacity limit of the channels that `channel` opens (zero: none).
    pub closed spec fn data_limit(&self) -> usize {
        self.data_limit
    }

    /// A broadcast with no subscribers; the channels it opens for new
    /// subscribers get `data_limit`.
    pub fn new(data_limit: usize) -> (b: Broadcast<T>)
        ensures
            b.subscribers() == Seq::<Outbox<Vec<T>>>::empty(),
            b.data_limit() == data_limit,
    {
        Broadcast { subscribers: Vec::new(), data_limit }
    }

    /// Adds a subscriber; it gets every batch broadcast from now on.
    pub fn subscribe(&mut self, subscriber: Sender<Vec<T>>)
        ensures
            final(self).subscribers().len() == old(self).subscribers().len() + 1,
            final(self).subscribers().drop_last() == old(self).subscribers(),
            final(self).subscribers().last().handle() == subscriber,
            final(self).subscribers().last().sent() == Seq::<Vec<T>>::empty(),
            final(self).data_limit() == old(self).data_limit(),
    {
        self.subscribers.push(Outbox::new(subscriber));
        assert(self.subscribers@.drop_last() =~= old(self).subscribers@);
    }

    /// Opens a channel with the broadcast's `data_limit`, subscribes its
    /// sending half and returns its receiving half.
    pub fn channel(&mut self) -> (rx: Inbox<Vec<T>>)
        requires
            bounded_capacity_fits::<Vec<T>>(old(self).data_limit()),
        ensures
            final(self).subscribers().len() == old(self).subscribers().len() + 1,
            final(self).subscribers().drop_last() == old(self).subscribers(),
            final(self).subscribers().last().tag() == rx.tag(),
            final(self).subscribers().last().sent() == Seq::<Vec<T>>::empty(),
            rx.tag() matches Some(t) && t.capacity == spec_channel_capacity(old(self).data_limit()),
            final(self).data_limit() == old(self).data_limit(),
    {
        let (tx, rx) = get_channel(self.data_limit);
        self.subscribers.push(tx);
        assert(self.subscribers@.drop_last() =~= old(self).subscribers@);
        rx
    }

    /// Opens and subscribes a channel as `channel` does, when a channel of the
    /// broadcast's `data_limit` can be set up; otherwise changes nothing and
    /// returns `None`.
    pub fn try_channel(&mut self) -> (rx: Option<Inbox<Vec<T>>>)
        ensures
            rx is Some <==> bounded_capacity_fits::<Vec<T>>(old(self).data_limit()),
            rx is None ==> *final(self) == *old(self),
            rx matches Some(rx) ==> {
                &&& final(self).subscribers().len() == old(self).subscribers().len() + 1
                &&& final(self).subscribers().drop_last() == old(self).subscribers()
                &&& final(self).subscribers().last().tag() == rx.tag()
                &&& final(self).subscribers().last().sent() == Seq::<Vec<T>>::empty()
                &&& rx.tag() matches Some(t) && t.capacity == spec_channel_capacity(old(self).data_limit())
                &&& final(self).data_limit() == old(self).data_limit()
            },
    {
        if capacity_fits::<Vec<T>>(self.data_limit) {
            Some(self.channel())
        } else {
            None
        }
    }

    /// Sends a copy of `data` to every subscriber, first to last. Stops at
    /// the first subscriber whose channel is disconnected and names it: the
    /// subscribers before it got their copy, its channel refused the copy,
    /// and those after it were not touched. A subscriber is only ever named
    /// after its channel refused a send; one whose channel had already
    /// refused one is named, unless an earlier subscriber is.
    pub fn publish(&mut self, data: &Vec<T>) -> (r: Result<(), BroadcastError>)
        ensures
            final(self).subscribers().len() == old(self).subscribers().len(),
            final(self).data_limit() == old(self).data_limit(),
            old(self).subscribers().len() == 0 ==> r is Ok,
            r is Ok ==> forall|j: int| 0 <= j < old(self).subscribers().len()
                ==> got_copy(old(self).subscribers()[j], #[trigger] final(self).subscribers()[j], data@),
            r matches Err(BroadcastError::Disconnected(i)) ==> {
                &&& i < old(self).subscribers().len()
                &&& forall|j: int| 0 <= j < i
                    ==> got_copy(old(self).subscribers()[j], #[trigger] final(self).subscribers()[j], data@)
                &&& refused_by(old(self).subscribers()[i as int], final(self).subscribers()[i as int])
                &&& forall|j: int| i < j < old(self).subscribers().len()
                    ==> #[trigger] final(self).subscribers()[j] == old(self).subscribers()[j]
            },
            forall|j: int| 0 <= j < old(self).subscribers().len() && #[trigger] old(self).subscribers()[j].refused()
                ==> (r matches Err(BroadcastError::Disconnected(i)) && i <= j),
            (forall|j: int| 0 <= j < final(self).subscribers().len() ==> !#[trigger] final(self).subscribers()[j].refused())
                ==> r is Ok,
            published(*old(self), *final(self), data@, r),
    {
        let n: usize = self.subscribers.len();
        let mut i: usize = 0;
        while i < n
            invariant
                n == old(self).subscribers().len(),
                self.subscribers@.len() == n,
                self.data_limit == old(self).data_limit(),
                i <= n,
                forall|j: int| 0 <= j < i
                    ==> got_copy(old(self).subscribers()[j], #[trigger] self.subscribers@[j], data@),
                forall|j: int| i <= j < n ==> #[trigger] self.subscribers@[j] == old(self).subscribers()[j],
            decreases n - i,
        {
            let copy = data.clone();
            let ghost c = copy;
            let ghost prev = self.subscribers@;
            match self.subscribers[i].send(copy) {
                Ok(()) => {
                    proof {
                        let cur = self.subscribers@[i as int];
                        assert(cur.sent().drop_last() =~= prev[i as int].sent());
                        assert(copies(data@, c@));
                        assert(got_copy(old(self).subscribers()[i as int], cur, data@));
                        assert forall|j: int| 0 <= j < self.subscribers@.len() && j != i implies
                            #[trigger] self.subscribers@[j] == prev[j] by {}
                    }
                },
                Err(_) => {
                    proof {
                        assert forall|j: int| 0 <= j < self.subscribers@.len() && j != i implies
                            #[trigger] self.subscribers@[j] == prev[j] by {}
                        assert forall|j: int| 0 <= j < n && #[trigger] old(self).subscribers()[j].refused()
                            implies i <= j by {
                            if j < i {
                                assert(got_copy(old(self).subscribers()[j], self.subscribers@[j], data@));
                            }
                        }
                        assert(self.subscribers()[i as int].refused());
                    }
                    return Err(BroadcastError::Disconnected(i));
                },
            }
            i = i + 1;
        }
        proof {
            assert forall|j: int| 0 <= j < n && #[trigger] old(self).subscribers()[j].refused() implies false by {
                assert(got_copy(old(self).subscribers()[j], self.subscribers@[j], data@));
            }
        }
        Ok(())
    }
}

/// Every subscriber gets every batch: when the broadcasts `bs[0]`, `bs[1]`,
/// ... follow one another by publishing `data[0]`, `data[1]`, ... and no
/// subscriber's channel refuses a send along the way, every publish succeeds
/// and each subscriber's record grows by exactly one copy of each batch, in
/// the order they were published.
pub proof fn lemma_publish_run<T: Clone>(
    bs: Seq<Broadcast<T>>,
    data: Seq<Seq<T>>,
    results: Seq<Result<(), BroadcastError>>,
)
    requires
        bs.len() == data.len() + 1,
        results.len() == data.len(),
        forall|k: int| 0 <= k < data.len() ==> #[trigger] published(bs[k], bs[k + 1], data[k], results[k]),
        forall|k: int, j: int| 0 < k < bs.len() && 0 <= j < bs[k].subscribers().len()
            ==> !(#[trigger] bs[k].subscribers()[j]).refused(),
    ensures
        forall|k: int| 0 <= k < data.len() ==> #[trigger] results[k] is Ok,
        bs.last().subscribers().len() == bs[0].subscribers().len(),
        forall|j: int| 0 <= j < bs[0].subscribers().len() ==> {
            let before = bs[0].subscribers()[j].sent();
            let after = #[trigger] bs.last().subscribers()[j].sent();
            &&& after.len() == before.len() + data.len()
            &&& after.subrange(0, before.len() as int) == before
            &&& forall|k: int| 0 <= k < data.len() ==> copies(data[k], (#[trigger] after[before.len() + k])@)
        },
    decreases data.len(),
{
    let m = data.len() as int;
    if m > 0 {
        let bs0 = bs.drop_last();
        let d0 = data.drop_last();
        let res0 = results.drop_last();
        assert forall|k: int| 0 <= k < d0.len() implies #[trigger] published(bs0[k], bs0[k + 1], d0[k], res0[k]) by {
            assert(published(bs[k], bs[k + 1], data[k], results[k]));
        }
        assert forall|k: int, j: int| 0 < k < bs0.len() && 0 <= j < bs0[k].subscribers().len()
            implies !(#[trigger] bs0[k].subscribers()[j]).refused() by {
            assert(!bs[k].subscribers()[j].refused());
        }
        lemma_publish_run(bs0, d0, res0);
        let i = m - 1;
        assert(published(bs[i], bs[i + 1], data[i], results[i]));
        assert(bs0.last() == bs[i]);
        let n = bs[0].subscribers().len();
        match results[i] {
            Err(BroadcastError::Disconnected(x)) => {
                assert(!bs[i + 1].subscribers()[x as int].refused());
            },
            Ok(()) => {},
        }
        assert forall|k: int| 0 <= k < m implies #[trigger] results[k] is Ok by {
            if k < i {
                assert(res0[k] == results[k]);
            }
        }
        assert forall|j: int| 0 <= j < n implies {
            let before = bs[0].subscribers()[j].sent();
            let after = #[trigger] bs.last().subscribers()[j].sent();
            &&& after.len() == before.len() + data.len()
            &&& after.subrange(0, before.len() as int) == before
            &&& forall|k: int| 0 <= k < data.len() ==> copies(data[k], (#[trigger] after[before.len() + k])@)
        } by {
            let before = bs[0].subscribers()[j].sent();
            let mid = bs[i].subscribers()[j].sent();
            let after = bs.last().subscribers()[j].sent();
            assert(bs0.last().subscribers()[j].sent() == mid);
            assert(got_copy(bs[i].subscribers()[j], bs[i + 1].subscribers()[j], data[i]));
            assert(after.drop_last() == mid);
            assert forall|k: int| 0 <= k < data.len() implies copies(data[k], (#[trigger] after[before.len() + k])@) by {
                if k < i {
                    assert(d0[k] == data[k]);
                    assert(after[before.len() + k] == mid[before.len() + k]);
                    assert(copies(d0[k], mid[before.len() + k]@));
                }
            }
            assert(after.subrange(0, before.len() as int) =~= mid.subrange(0, before.len() as int));
        }
    }
}

} // verus!
