//! A messenger stage's subscribers and what it does with each message: the
//! message goes to the subscriber registered under its id, if there is one.

use vstd::prelude::*;
use std::collections::HashMap;
use std::hash::Hash;
use vstd::std_specs::hash::{builds_valid_hashers, obeys_key_model};
use crossbeam_channel::Sender;
use crate::channel::{refused_by, sent_one, Outbox};

verus! {

broadcast use vstd::std_specs::hash::group_hash_axioms;

/// A message addressed to the subscriber registered under `id`.
pub struct Message<ID, M> where M: 'static + Send, ID: Hash + Eq {
    pub id: ID,
    pub message: M,
}

/// What became of a message.
#[derive(Debug)]
pub enum Delivery<S> {
    /// It went to its subscriber.
    Delivered,
    /// No subscriber is registered under its id; it was dropped.
    NoRecipient(S),
    /// Its subscriber's channel is disconnected; it was dropped.
    Refused(S),
}

/// Whether the messenger's map behaves as a map for the id type: true for
/// integer ids, among others (see `obeys_key_model`).
pub open spec fn ids_are_keys<ID>() -> bool {
    obeys_key_model::<ID>() && builds_valid_hashers::<std::hash::RandomState>()
}

/// What one delivery of `content`, addressed to `id`, did, taking the
/// messenger from `before` to `after` with answer `d`: with no subscriber
/// under `id` it is dropped and nothing changes; otherwise it is sent to that
/// subscriber, whose channel took it or refused it, and no other subscriber
/// is touched.
pub open spec fn delivered<ID, S>(
    before: Messenger<ID, S>,
    after: Messenger<ID, S>,
    id: ID,
    content: S,
    d: Delivery<S>,
) -> bool where ID: Eq + Hash + Send + 'static, S: 'static + Send {
    &&& (d is NoRecipient <==> !before.subscribers().contains_key(id))
    &&& (d matches Delivery::NoRecipient(m) ==> m == content && after.subscribers() == before.subscribers())
    &&& (d is Delivered ==> {
        &&& sent_one(before.subscribers()[id], after.subscribers()[id], content)
        &&& after.subscribers() == before.subscribers().insert(id, after.subscribers()[id])
    })
    &&& (d matches Delivery::Refused(m) ==> {
        &&& m == content
        &&& refused_by(before.subscribers()[id], after.subscribers()[id])
        &&& after.subscribers() == before.subscribers().insert(id, after.subscribers()[id])
    })
}

/// The contents, in order, of the messages among `ids`/`contents` that are
/// addressed to `x`.
pub open spec fn addressed<ID, S>(ids: Seq<ID>, contents: Seq<S>, x: ID) -> Seq<S>
    decreases ids.len(),
{
    if ids.len() == 0 {
        Seq::empty()
    } else {
        let rest = addressed(ids.drop_last(), contents.drop_last(), x);
        if ids.last() == x {
            rest.push(contents[ids.len() - 1])
        } else {
            rest
        }
    }
}

/// The subscribers of a messenger, by id.
#[verifier::reject_recursive_types(ID)]
#[verifier::reject_recursive_types(S)]
pub struct Messenger<ID, S> where ID: Hash + Eq + Send + 'static, S: 'static + Send {
    subscribers: HashMap<ID, Outbox<S>>,
}

impl<ID, S> Messenger<ID, S> where ID: Eq + Hash + Send + 'static, S: 'static + Send {
    /// The subscriber registered under each id, with what it was sent.
    pub closed spec fn subscribers(&self) -> Map<ID, Outbox<S>> {
        self.subscribers@
    }

    /// A messenger with no subscribers.
    pub fn new() -> (m: Messenger<ID, S>)
        ensures
            m.subscribers() == Map::<ID, Outbox<S>>::empty(),
    {
        Messenger { subscribers: HashMap::new() }
    }

    /// Registers `subscriber` under `id`, in place of any earlier one.
    pub fn subscribe(&mut self, id: ID, subscriber: Sender<S>)
        ensures
            ids_are_keys::<ID>() ==> {
                &&& final(self).subscribers() == old(self).subscribers().insert(id, final(self).subscribers()[id])
                &&& final(self).subscribers()[id].handle() == subscriber
                &&& final(self).subscribers()[id].sent() == Seq::<S>::empty()
            },
    {
        self.subscribers.insert(id, Outbox::new(subscriber));
    }

    /// The subscriber registered under `id`, if any.
    pub fn recipient(&self, id: &ID) -> (r: Option<&Outbox<S>>)
        ensures
            ids_are_keys::<ID>() ==> match r {
                Some(s) => self.subscribers().contains_key(*id) && *s == self.subscribers()[*id],
                None => !self.subscribers().contains_key(*id),
            },
    {
        self.subscribers.get(id)
    }

    /// Sends the message's content to the subscriber registered under its id;
    /// the other subscribers are not touched. The answer is `Refused` only
    /// when that subscriber's channel refused the send; one whose channel had
    /// already refused a send refuses again.
    pub fn deliver(&mut self, msg: Message<ID, S>) -> (d: Delivery<S>)
        ensures
            ids_are_keys::<ID>() ==> {
                &&& (d is NoRecipient <==> !old(self).subscribers().contains_key(msg.id))
                &&& (d matches Delivery::NoRecipient(m) ==> m == msg.message
                    && final(self).subscribers() == old(self).subscribers())
                &&& (d is Delivered ==> {
                    &&& sent_one(old(self).subscribers()[msg.id], final(self).subscribers()[msg.id], msg.message)
                    &&& final(self).subscribers() == old(self).subscribers().insert(msg.id, final(self).subscribers()[msg.id])
                })
                &&& (d matches Delivery::Refused(m) ==> {
                    &&& m == msg.message
                    &&& refused_by(old(self).subscribers()[msg.id], final(self).subscribers()[msg.id])
                    &&& final(self).subscribers() == old(self).subscribers().insert(msg.id, final(self).subscribers()[msg.id])
                })
                &&& (old(self).subscribers().contains_key(msg.id) && old(self).subscribers()[msg.id].refused()
                    ==> d is Refused)
                &&& (old(self).subscribers().contains_key(msg.id) && !final(self).subscribers()[msg.id].refused()
                    ==> d is Delivered)
                &&& delivered(*old(self), *final(self), msg.id, msg.message, d)
            },
    {
        let Message { id, message } = msg;
        match self.subscribers.remove(&id) {
            None => {
                proof {
                    if ids_are_keys::<ID>() {
                        assert(self.subscribers@ =~= old(self).subscribers@);
                    }
                }
                Delivery::NoRecipient(message)
            },
            Some(mut sub) => {
                let ghost before = sub;
                let r = sub.send(message);
                self.subscribers.insert(id, sub);
                proof {
                    if ids_are_keys::<ID>() {
                        assert(self.subscribers@ =~= old(self).subscribers@.insert(id, sub));
                    }
                }
                match r {
                    Ok(()) => Delivery::Delivered,
                    Err(back) => Delivery::Refused(back),
                }
            },
        }
    }
}

/// Subscribing again under an id replaces the earlier subscriber: only the
/// latest one gets the messages for that id, and the other ids keep theirs.
pub proof fn lemma_latest_subscription_wins<ID, S>(
    subs: Map<ID, Outbox<S>>,
    id: ID,
    first: Outbox<S>,
    second: Outbox<S>,
    other: ID,
)
    requires
        other != id,
    ensures
        subs.insert(id, first).insert(id, second) == subs.insert(id, second),
        subs.insert(id, second)[id] == second,
        subs.insert(id, second).contains_key(other) == subs.contains_key(other),
        subs.contains_key(other) ==> subs.insert(id, second)[other] == subs[other],
{
    assert(subs.insert(id, first).insert(id, second) =~= subs.insert(id, second));
}

/// Each message reaches the subscriber registered under its id: when the
/// messengers `ms[0]`, `ms[1]`, ... follow one another by delivering
/// `contents[0]` to `ids[0]`, `contents[1]` to `ids[1]`, ... and no
/// subscriber's channel refuses a send along the way, every message
/// addressed to a registered id is delivered, every other one finds no
/// recipient, the registered ids stay the same, and each subscriber's record
/// grows by exactly the contents addressed to its id, in order.
pub proof fn lemma_delivery_run<ID, S>(
    ms: Seq<Messenger<ID, S>>,
    ids: Seq<ID>,
    contents: Seq<S>,
    ds: Seq<Delivery<S>>,
)
    where ID: Eq + Hash + Send + 'static, S: 'static + Send
    requires
        ms.len() == ids.len() + 1,
        contents.len() == ids.len(),
        ds.len() == ids.len(),
        forall|k: int| 0 <= k < ids.len() ==> #[trigger] delivered(ms[k], ms[k + 1], ids[k], contents[k], ds[k]),
        forall|k: int, x: ID| 0 < k < ms.len() && #[trigger] ms[k].subscribers().contains_key(x)
            ==> !ms[k].subscribers()[x].refused(),
    ensures
        ms.last().subscribers().dom() == ms[0].subscribers().dom(),
        forall|k: int| 0 <= k < ids.len() ==> {
            &&& ((#[trigger] ds[k]) is Delivered <==> ms[0].subscribers().contains_key(ids[k]))
            &&& (ds[k] is NoRecipient <==> !ms[0].subscribers().contains_key(ids[k]))
        },
        forall|x: ID| #[trigger] ms[0].subscribers().contains_key(x) ==> {
            &&& ms.last().subscribers()[x].handle() == ms[0].subscribers()[x].handle()
            &&& ms.last().subscribers()[x].sent() == ms[0].subscribers()[x].sent() + addressed(ids, contents, x)
        },
    decreases ids.len(),
{
    let m = ids.len() as int;
    if m == 0 {
        assert forall|x: ID| #[trigger] ms[0].subscribers().contains_key(x) implies
            ms.last().subscribers()[x].sent() == ms[0].subscribers()[x].sent() + addressed(ids, contents, x) by {
            assert(ms[0].subscribers()[x].sent() + Seq::<S>::empty() =~= ms[0].subscribers()[x].sent());
        }
    } else {
        let ms0 = ms.drop_last();
        let ids0 = ids.drop_last();
        let c0 = contents.drop_last();
        let ds0 = ds.drop_last();
        assert forall|k: int| 0 <= k < ids0.len() implies #[trigger] delivered(ms0[k], ms0[k + 1], ids0[k], c0[k], ds0[k]) by {
            assert(delivered(ms[k], ms[k + 1], ids[k], contents[k], ds[k]));
        }
        assert forall|k: int, x: ID| 0 < k < ms0.len() && #[trigger] ms0[k].subscribers().contains_key(x)
            implies !ms0[k].subscribers()[x].refused() by {
            assert(ms[k].subscribers().contains_key(x));
        }
        lemma_delivery_run(ms0, ids0, c0, ds0);
        let i = m - 1;
        let mid = ms[i].subscribers();
        let last = ms[i + 1].subscribers();
        let id = ids[i];
        let c = contents[i];
        assert(delivered(ms[i], ms[i + 1], id, c, ds[i]));
        assert(ms0.last() == ms[i]);
        assert(ms.last() == ms[i + 1]);
        assert(mid.dom() == ms[0].subscribers().dom());
        if ds[i] is Refused {
            assert(last.contains_key(id));
            assert(!last[id].refused());
        }
        assert(last.dom() =~= mid.dom());
        assert forall|k: int| 0 <= k < ids.len() implies {
            &&& ((#[trigger] ds[k]) is Delivered <==> ms[0].subscribers().contains_key(ids[k]))
            &&& (ds[k] is NoRecipient <==> !ms[0].subscribers().contains_key(ids[k]))
        } by {
            if k < i {
                assert(ds0[k] == ds[k]);
                assert(ids0[k] == ids[k]);
            }
        }
        assert forall|x: ID| #[trigger] ms[0].subscribers().contains_key(x) implies {
            &&& ms.last().subscribers()[x].handle() == ms[0].subscribers()[x].handle()
            &&& ms.last().subscribers()[x].sent() == ms[0].subscribers()[x].sent() + addressed(ids, contents, x)
        } by {
            let first = ms[0].subscribers()[x].sent();
            assert(ids.drop_last() == ids0 && contents.drop_last() == c0);
            assert(contents[ids.len() - 1] == c);
            if x == id {
                assert(first + addressed(ids0, c0, x).push(c) =~= (first + addressed(ids0, c0, x)).push(c));
            }
        }
    }
}

} // verus!
