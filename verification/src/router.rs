//! The decisions of a router stage: each batch goes to one subscriber, in
//! turn (round robin).

use vstd::prelude::*;
use vstd::arithmetic::div_mod::{
    lemma_add_mod_noop_right, lemma_fundamental_div_mod, lemma_fundamental_div_mod_converse,
};
use crossbeam_channel::Sender;
use crate::channel::{refused_by, sent_one, Outbox};

verus! {

/// The subscriber that follows `p` among `n` subscribers.
pub open spec fn advance(p: int, n: int) -> int {
    (p + 1) % n
}

/// The subscriber reached from `p` after `k` deliveries among `n` subscribers.
pub open spec fn advance_by(p: int, n: int, k: nat) -> int
    decreases k,
{
    if k == 0 {
        p
    } else {
        advance(advance_by(p, n, (k - 1) as nat), n)
    }
}

/// Why a router could not deliver a message; the message comes back.
#[derive(Debug)]
pub enum RouteError<T> {
    /// No subscriber has been added yet.
    NoSubscriber(T),
    /// The chosen subscriber's channel is disconnected.
    Disconnected(T),
}

/// What one dispatch of `data` on a router with subscribers did, taking it
/// from `before` to `after` with answer `r`: the subscriber whose turn it was
/// either took `data`, and the turn moved on by one, or refused it, and the
/// turn stayed; no other subscriber was touched.
pub open spec fn dispatched<T>(before: Router<T>, after: Router<T>, data: T, r: Result<usize, RouteError<T>>) -> bool {
    let n = before.subscribers().len();
    let t = before.turn();
    &&& n > 0
    &&& after.subscribers().len() == n
    &&& forall|j: int| 0 <= j < n && j != t ==> #[trigger] after.subscribers()[j] == before.subscribers()[j]
    &&& match r {
        Ok(target) => {
            &&& target == t
            &&& sent_one(before.subscribers()[t], after.subscribers()[t], data)
            &&& after.turn() == advance(t, n as int)
        },
        Err(RouteError::Disconnected(back)) => {
            &&& back == data
            &&& refused_by(before.subscribers()[t], after.subscribers()[t])
            &&& after.turn() == t
        },
        Err(RouteError::NoSubscriber(_)) => false,
    }
}

/// The subscribers of a router and the one whose turn is next.
#[verifier::reject_recursive_types(T)]
pub struct Router<T> {
    subscribers: Vec<Outbox<T>>,
    pointer: usize,
}

impl<T> Router<T> {
    /// The turn always names a subscriber, once there is one.
    #[verifier::type_invariant]
    spec fn wf(self) -> bool {
        if self.subscribers@.len() == 0 {
            self.pointer == 0
        } else {
            self.pointer < self.subscribers@.len()
        }
    }

    /// The subscribers, in the order they were added, each with what it was
    /// sent.
    pub closed spec fn subscribers(&self) -> Seq<Outbox<T>> {
        self.subscribers@
    }

    /// The index of the subscriber whose turn is next.
    pub closed spec fn turn(&self) -> int {
        self.pointer as int
    }

    /// The turn names a subscriber, once there is one.
    pub open spec fn turn_valid(&self) -> bool {
        if self.subscribers().len() == 0 {
            self.turn() == 0
        } else {
            0 <= self.turn() < self.subscribers().len()
        }
    }

    /// A router with no subscribers; the first turn is the first subscriber's.
    pub fn new() -> (r: Router<T>)
        ensures
            r.subscribers().len() == 0,
            r.turn() == 0,
            r.turn_valid(),
    {
        Router { subscribers: Vec::new(), pointer: 0 }
    }

    /// Adds a subscriber at the end of the rotation; whose turn it is does
    /// not change.
    pub fn subscribe(&mut self, subscriber: Sender<T>)
        ensures
            final(self).subscribers().len() == old(self).subscribers().len() + 1,
            final(self).subscribers().drop_last() == old(self).subscribers(),
            final(self).subscribers().last().handle() == subscriber,
            final(self).subscribers().last().sent() == Seq::<T>::empty(),
            final(self).turn() == old(self).turn(),
            final(self).turn_valid(),
    {
        proof {
            use_type_invariant(&*self);
        }
        let mut taken = Router::new();
        std::mem::swap(&mut taken, self);
        let Router { mut subscribers, pointer } = taken;
        subscribers.push(Outbox::new(subscriber));
        assert(subscribers@.drop_last() =~= old(self).subscribers@);
        *self = Router { subscribers, pointer };
    }

    /// Sends `data` to the subscriber whose turn it is and, when that
    /// succeeds, passes the turn to the next one; returns the index of the
    /// subscriber that got it. The other subscribers are not touched. The
    /// answer is `Disconnected` only when that subscriber's channel refused
    /// the send, and then the turn stays where it was; a subscriber whose
    /// channel had already refused a send refuses again.
    pub fn dispatch(&mut self, data: T) -> (r: Result<usize, RouteError<T>>)
        ensures
            final(self).subscribers().len() == old(self).subscribers().len(),
            final(self).turn_valid(),
            old(self).subscribers().len() == 0 ==> {
                &&& r == Err::<usize, RouteError<T>>(RouteError::NoSubscriber(data))
                &&& final(self).turn() == old(self).turn()
            },
            old(self).subscribers().len() > 0 ==> match r {
                Ok(target) => {
                    &&& target == old(self).turn()
                    &&& sent_one(old(self).subscribers()[target as int], final(self).subscribers()[target as int], data)
                    &&& forall|j: int| 0 <= j < old(self).subscribers().len() && j != target
                        ==> #[trigger] final(self).subscribers()[j] == old(self).subscribers()[j]
                    &&& final(self).turn() == advance(old(self).turn(), old(self).subscribers().len() as int)
                },
                Err(RouteError::Disconnected(back)) => {
                    &&& back == data
                    &&& refused_by(old(self).subscribers()[old(self).turn()], final(self).subscribers()[old(self).turn()])
                    &&& forall|j: int| 0 <= j < old(self).subscribers().len() && j != old(self).turn()
                        ==> #[trigger] final(self).subscribers()[j] == old(self).subscribers()[j]
                    &&& final(self).turn() == old(self).turn()
                },
                Err(RouteError::NoSubscriber(_)) => false,
            },
            old(self).subscribers().len() > 0 && old(self).subscribers()[old(self).turn()].refused()
                ==> r is Err,
            old(self).subscribers().len() > 0 && !final(self).subscribers()[old(self).turn()].refused()
                ==> r == Ok::<usize, RouteError<T>>(old(self).turn() as usize),
            old(self).subscribers().len() > 0 ==> dispatched(*old(self), *final(self), data, r),
    {
        proof {
            use_type_invariant(&*self);
        }
        let n: usize = self.subscribers.len();
        if n == 0 {
            return Err(RouteError::NoSubscriber(data));
        }
        let mut taken = Router::new();
        std::mem::swap(&mut taken, self);
        let Router { mut subscribers, pointer } = taken;
        let target: usize = pointer;
        let ghost before = subscribers@;
        let (r, next) = match subscribers[target].send(data) {
            Ok(()) => (Ok(target), (target + 1) % n),
            Err(back) => (Err(RouteError::Disconnected(back)), target),
        };
        proof {
            assert forall|j: int| 0 <= j < n && j != target implies #[trigger] subscribers@[j] == before[j] by {}
        }
        *self = Router { subscribers, pointer: next };
        r
    }
}

/// Round robin: starting from turn `p` among `n` subscribers, the `k`-th
/// delivery after it goes to subscriber `(p + k) % n`.
pub proof fn lemma_round_robin(p: int, n: int, k: nat)
    requires
        0 < n,
        0 <= p < n,
    ensures
        advance_by(p, n, k) == (p + k) % n,
    decreases k,
{
    if k == 0 {
        lemma_fundamental_div_mod_converse(p, n, 0, p);
    } else {
        lemma_round_robin(p, n, (k - 1) as nat);
        lemma_add_mod_noop_right(1, p + k - 1, n);
    }
}

/// Round robin over a run of dispatches: when the routers `rs[0]`,
/// `rs[1]`, ... follow one another by dispatching `data[0]`, `data[1]`, ...
/// and no subscriber's channel refuses a send along the way, every dispatch
/// succeeds, and the `k`-th goes to subscriber `(turn + k) % n`, where `turn`
/// is the first router's turn and `n` its number of subscribers.
pub proof fn lemma_dispatch_round_robin<T>(
    rs: Seq<Router<T>>,
    data: Seq<T>,
    results: Seq<Result<usize, RouteError<T>>>,
)
    requires
        rs.len() == data.len() + 1,
        results.len() == data.len(),
        rs[0].subscribers().len() > 0,
        rs[0].turn_valid(),
        forall|k: int| 0 <= k < data.len() ==> #[trigger] dispatched(rs[k], rs[k + 1], data[k], results[k]),
        forall|k: int, j: int| 0 < k < rs.len() && 0 <= j < rs[k].subscribers().len()
            ==> !(#[trigger] rs[k].subscribers()[j]).refused(),
    ensures
        forall|k: int| 0 <= k < data.len() ==> #[trigger] results[k]
            == Ok::<usize, RouteError<T>>(((rs[0].turn() + k) % (rs[0].subscribers().len() as int)) as usize),
    decreases data.len(),
{
    let n = rs[0].subscribers().len() as int;
    let p = rs[0].turn();
    let m = data.len() as int;
    if m > 0 {
        let rs0 = rs.drop_last();
        let d0 = data.drop_last();
        let res0 = results.drop_last();
        assert forall|k: int| 0 <= k < d0.len() implies #[trigger] dispatched(rs0[k], rs0[k + 1], d0[k], res0[k]) by {
            assert(dispatched(rs[k], rs[k + 1], data[k], results[k]));
        }
        assert forall|k: int, j: int| 0 < k < rs0.len() && 0 <= j < rs0[k].subscribers().len()
            implies !(#[trigger] rs0[k].subscribers()[j]).refused() by {
            assert(!rs[k].subscribers()[j].refused());
        }
        lemma_dispatch_round_robin(rs0, d0, res0);
        // every router in the run has n subscribers and its turn after k steps
        assert forall|k: int| 0 <= k <= m implies #[trigger] rs[k].subscribers().len() == n
            && rs[k].turn() == (p + k) % n by {
            lemma_dispatch_steps(rs, data, results, k);
        }
        let last = m - 1;
        assert(dispatched(rs[last], rs[last + 1], data[last], results[last]));
        let t = rs[last].turn();
        lemma_fundamental_div_mod(p + last, n);
        assert(0 <= t < n);
        assert(!rs[last + 1].subscribers()[t].refused());
        assert forall|k: int| 0 <= k < m implies #[trigger] results[k]
            == Ok::<usize, RouteError<T>>(((p + k) % n) as usize) by {
            if k < last {
                assert(res0[k] == results[k]);
            }
        }
    }
}

/// Along a run of dispatches with no refusal, the number of subscribers
/// stays the same and the turn after `k` steps is `(turn + k) % n`.
proof fn lemma_dispatch_steps<T>(
    rs: Seq<Router<T>>,
    data: Seq<T>,
    results: Seq<Result<usize, RouteError<T>>>,
    k: int,
)
    requires
        rs.len() == data.len() + 1,
        results.len() == data.len(),
        rs[0].subscribers().len() > 0,
        rs[0].turn_valid(),
        forall|i: int| 0 <= i < data.len() ==> #[trigger] dispatched(rs[i], rs[i + 1], data[i], results[i]),
        forall|i: int, j: int| 0 < i < rs.len() && 0 <= j < rs[i].subscribers().len()
            ==> !(#[trigger] rs[i].subscribers()[j]).refused(),
        0 <= k <= data.len(),
    ensures
        rs[k].subscribers().len() == rs[0].subscribers().len(),
        rs[k].turn() == (rs[0].turn() + k) % (rs[0].subscribers().len() as int),
    decreases k,
{
    let n = rs[0].subscribers().len() as int;
    let p = rs[0].turn();
    if k == 0 {
        lemma_fundamental_div_mod_converse(p, n, 0, p);
    } else {
        lemma_dispatch_steps(rs, data, results, k - 1);
        let i = k - 1;
        assert(dispatched(rs[i], rs[i + 1], data[i], results[i]));
        let t = rs[i].turn();
        lemma_fundamental_div_mod(p + k - 1, n);
        assert(0 <= t < n);
        assert(!rs[k].subscribers()[t].refused());
        lemma_add_mod_noop_right(1, p + k - 1, n);
    }
}

/// The subscriber that gets the `i`-th delivery counted from turn `p`,
/// among `n` subscribers.
pub open spec fn target_after(p: int, n: int, i: int) -> int {
    (p + i) % n
}

/// Subscriber `j` gets one of the `n` deliveries that follow turn `p`.
pub open spec fn reached_within(p: int, n: int, j: int) -> bool {
    exists|i: int| 0 <= i < n && #[trigger] target_after(p, n, i) == j
}

/// Fairness: any `n` deliveries in a row among `n` subscribers reach every
/// subscriber exactly once.
pub proof fn lemma_round_robin_fair(p: int, n: int)
    requires
        0 < n,
        0 <= p < n,
    ensures
        forall|j: int| 0 <= j < n ==> #[trigger] reached_within(p, n, j),
        forall|i1: int, i2: int|
            0 <= i1 < n && 0 <= i2 < n && #[trigger] target_after(p, n, i1) == #[trigger] target_after(p, n, i2)
                ==> i1 == i2,
{
    assert forall|i: int| 0 <= i < n implies #[trigger] target_after(p, n, i) == (if p + i < n { p + i } else { p + i - n }) by {
        if p + i < n {
            lemma_fundamental_div_mod_converse(p + i, n, 0, p + i);
        } else {
            lemma_fundamental_div_mod_converse(p + i, n, 1, p + i - n);
        }
    }
    assert forall|j: int| 0 <= j < n implies #[trigger] reached_within(p, n, j) by {
        let i: int = if j >= p { j - p } else { j + n - p };
        assert(target_after(p, n, i) == j);
    }
}

/// How many of the first `k` deliveries counted from turn `p` reach
/// subscriber `j`, among `n` subscribers.
pub open spec fn deliveries_to(p: int, n: int, k: nat, j: int) -> nat
    decreases k,
{
    if k == 0 {
        0
    } else {
        deliveries_to(p, n, (k - 1) as nat, j) + if target_after(p, n, k - 1) == j { 1nat } else { 0nat }
    }
}

/// The position, counted from turn `p`, at which subscriber `j` first comes
/// up among `n` subscribers.
pub open spec fn offset(p: int, n: int, j: int) -> int {
    if j >= p {
        j - p
    } else {
        j - p + n
    }
}

/// Even distribution: of `k` deliveries in a row from turn `p`, subscriber
/// `j` gets `k / n`, and one more when it comes up in the last, incomplete
/// round; so every subscriber gets `k / n` or `k / n + 1` of them.
pub proof fn lemma_round_robin_even(p: int, n: int, k: nat, j: int)
    requires
        0 < n,
        0 <= p < n,
        0 <= j < n,
    ensures
        deliveries_to(p, n, k, j) == (k as int) / n + if (k as int) % n > offset(p, n, j) { 1int } else { 0int },
        (k as int) / n <= deliveries_to(p, n, k, j) <= (k as int) / n + 1,
    decreases k,
{
    let d = offset(p, n, j);
    if k == 0 {
        lemma_fundamental_div_mod_converse(0, n, 0, 0);
    } else {
        let k0 = (k - 1) as nat;
        lemma_round_robin_even(p, n, k0, j);
        lemma_fundamental_div_mod(k0 as int, n);
        let q = k0 as int / n;
        let r = k0 as int % n;
        assert(0 <= r < n);
        assert(k0 == n * q + r);
        assert(n * q == q * n && (q + 1) * n == q * n + n) by (nonlinear_arith);
        // where delivery k0 goes
        if p + r < n {
            lemma_fundamental_div_mod_converse(p + k0, n, q, p + r);
        } else {
            lemma_fundamental_div_mod_converse(p + k0, n, q + 1, p + r - n);
        }
        assert((target_after(p, n, k0 as int) == j) <==> r == d);
        // how k splits
        if r + 1 < n {
            lemma_fundamental_div_mod_converse(k as int, n, q, r + 1);
        } else {
            lemma_fundamental_div_mod_converse(k as int, n, q + 1, 0);
        }
    }
}

} // verus!
