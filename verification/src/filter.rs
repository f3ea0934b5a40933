//! The decisions of a filter stage: of each batch, only the items that meet
//! the user's predicate go on.

use vstd::prelude::*;
use crate::channel::{lemma_sent_batch, refused_by, relay, sent_batch, took_one, Inbox, Outbox, RecvFailure, Relay};

verus! {

/// The items of `s` whose flag in `flags` is set, in their order in `s`.
pub open spec fn kept<T>(s: Seq<T>, flags: Seq<bool>) -> Seq<T>
    decreases s.len(),
{
    if s.len() == 0 {
        Seq::empty()
    } else {
        let rest = kept(s.drop_last(), flags.take(s.len() - 1));
        if flags[s.len() - 1] {
            rest.push(s.last())
        } else {
            rest
        }
    }
}

/// `flags[i]` is an answer the predicate can give for `s[i]`, for every item.
pub open spec fn answers<T, F: Fn(&T) -> bool>(pred: F, s: Seq<T>, flags: Seq<bool>) -> bool {
    &&& flags.len() == s.len()
    &&& forall|i: int| 0 <= i < s.len() ==> call_ensures(pred, (&s[i],), #[trigger] flags[i])
}

/// Keeps the items of `data` for which `pred` returns `true`, in order, and
/// drops the others. `pred` is called once per item, first to last.
pub fn filter_batch<T, F: Fn(&T) -> bool>(data: Vec<T>, pred: &F) -> (result: Vec<T>)
    requires
        forall|x: &T| call_requires(*pred, (x,)),
    ensures
        exists|flags: Seq<bool>| answers(*pred, data@, flags) && result@ == kept(data@, flags),
{
    let ghost input = data@;
    let mut result: Vec<T> = Vec::new();
    let ghost mut flags: Seq<bool> = Seq::empty();
    for item in it: data.into_iter()
        invariant
            it.seq() == input,
            forall|x: &T| call_requires(*pred, (x,)),
            flags.len() == it.index(),
            answers(*pred, input.take(it.index() as int), flags),
            result@ == kept(input.take(it.index() as int), flags),
    {
        let keep = pred(&item);
        let ghost k = it.index() as int;
        proof {
            let prefix = input.take(k + 1);
            let f2 = flags.push(keep);
            assert(prefix.drop_last() =~= input.take(k));
            assert(f2.take(k) =~= flags);
            assert(prefix[k] == item);
        }
        if keep {
            result.push(item);
        }
        proof {
            flags = flags.push(keep);
            assert(answers(*pred, input.take(k + 1), flags)) by {
                assert forall|i: int| 0 <= i < k + 1 implies call_ensures(*pred, (&input.take(k + 1)[i],), #[trigger] flags[i]) by {
                    if i < k {
                        assert(input.take(k + 1)[i] == input.take(k)[i]);
                    }
                }
            }
        }
    }
    proof {
        assert(input.take(input.len() as int) =~= input);
    }
    result
}

/// Filters a batch that came in, if one did: a receive that failed yields
/// nothing to send; a batch yields its filtered items, even when none is kept.
pub fn filter_received<T, F: Fn(&T) -> bool>(
    received: Result<Vec<T>, RecvFailure>,
    pred: &F,
) -> (r: Option<Vec<T>>)
    requires
        forall|x: &T| call_requires(*pred, (x,)),
    ensures
        received is Err ==> r is None,
        received matches Ok(data) ==> r matches Some(out) && exists|flags: Seq<bool>|
            answers(*pred, data@, flags) && out@ == kept(data@, flags),
{
    match received {
        Ok(data) => Some(filter_batch(data, pred)),
        Err(_) => None,
    }
}

/// One turn of a filter's worker: waits up to `millis` milliseconds for a
/// batch from `source`, filters it with `pred` and sends the kept items on
/// `sink`.
pub fn filter_step<T, F: Fn(&T) -> bool>(
    source: &mut Inbox<Vec<T>>,
    sink: &mut Outbox<Vec<T>>,
    pred: &F,
    millis: u64,
) -> (r: Relay<Vec<T>>)
    requires
        forall|x: &T| call_requires(*pred, (x,)),
    ensures
        r is Idle ==> *final(sink) == *old(sink) && *final(source) == *old(source),
        r is Sent ==> exists|data: Vec<T>, flags: Seq<bool>| {
            &&& took_one(*old(source), *final(source), data)
            &&& answers(*pred, data@, flags)
            &&& sent_batch(*old(sink), *final(sink), kept(data@, flags))
        },
        r matches Relay::Refused(out) ==> refused_by(*old(sink), *final(sink)) && exists|data: Vec<T>, flags: Seq<bool>| {
            &&& took_one(*old(source), *final(source), data)
            &&& answers(*pred, data@, flags)
            &&& out@ == kept(data@, flags)
        },
{
    let got = source.recv_within(millis);
    let ghost g = got;
    match filter_received(got, pred) {
        None => Relay::Idle,
        Some(out) => {
            let ghost o = out;
            let r = relay(sink, out);
            proof {
                if r is Sent {
                    lemma_sent_batch(*old(sink), *sink, o);
                }
            }
            r
        },
    }
}

/// What a filter passes on is drawn from its batch: never longer than the
/// batch, every item of it an item of the batch that the predicate accepted,
/// taken in the batch's order; a batch that the predicate accepts whole
/// passes unchanged, and one it rejects whole passes as an empty batch.
pub proof fn lemma_kept_is_accepted_subsequence<T>(s: Seq<T>, flags: Seq<bool>)
    requires
        flags.len() == s.len(),
    ensures
        kept(s, flags).len() <= s.len(),
        exists|idx: Seq<int>| {
            &&& idx.len() == kept(s, flags).len()
            &&& forall|j: int| 0 <= j < idx.len() ==> 0 <= #[trigger] idx[j] < s.len()
                && flags[idx[j]] && kept(s, flags)[j] == s[idx[j]]
            &&& forall|j1: int, j2: int| 0 <= j1 < j2 < idx.len() ==> #[trigger] idx[j1] < #[trigger] idx[j2]
        },
        (forall|i: int| 0 <= i < s.len() ==> #[trigger] flags[i]) ==> kept(s, flags) == s,
        (forall|i: int| 0 <= i < s.len() ==> !#[trigger] flags[i]) ==> kept(s, flags) == Seq::<T>::empty(),
    decreases s.len(),
{
    if s.len() == 0 {
        let idx = Seq::<int>::empty();
        assert(idx.len() == kept(s, flags).len());
    } else {
        let n: int = s.len() - 1;
        let s0 = s.drop_last();
        let f0 = flags.take(n);
        lemma_kept_is_accepted_subsequence(s0, f0);
        let idx0 = choose|idx: Seq<int>| {
            &&& idx.len() == kept(s0, f0).len()
            &&& forall|j: int| 0 <= j < idx.len() ==> 0 <= #[trigger] idx[j] < s0.len()
                && f0[idx[j]] && kept(s0, f0)[j] == s0[idx[j]]
            &&& forall|j1: int, j2: int| 0 <= j1 < j2 < idx.len() ==> #[trigger] idx[j1] < #[trigger] idx[j2]
        };
        if flags[n] {
            let idx = idx0.push(n);
            assert forall|j: int| 0 <= j < idx.len() implies 0 <= #[trigger] idx[j] < s.len()
                && flags[idx[j]] && kept(s, flags)[j] == s[idx[j]] by {
                if j < idx0.len() {
                    assert(idx[j] == idx0[j]);
                    assert(f0[idx0[j]] == flags[idx0[j]]);
                }
            }
            assert(idx.len() == kept(s, flags).len());
        } else {
            assert forall|j: int| 0 <= j < idx0.len() implies 0 <= #[trigger] idx0[j] < s.len()
                && flags[idx0[j]] && kept(s, flags)[j] == s[idx0[j]] by {
                assert(f0[idx0[j]] == flags[idx0[j]]);
            }
            assert(idx0.len() == kept(s, flags).len());
        }
        if forall|i: int| 0 <= i < s.len() ==> #[trigger] flags[i] {
            assert forall|i: int| 0 <= i < s0.len() implies #[trigger] f0[i] by {
                assert(flags[i]);
            }
            assert(kept(s, flags) =~= s);
        }
        if forall|i: int| 0 <= i < s.len() ==> !#[trigger] flags[i] {
            assert forall|i: int| 0 <= i < s0.len() implies !#[trigger] f0[i] by {
                assert(!flags[i]);
            }
        }
    }
}

/// A filter works item by item: filtering a batch made of two parts passes
/// what filtering each part passes, one after the other.
pub proof fn lemma_kept_concat<T>(s1: Seq<T>, f1: Seq<bool>, s2: Seq<T>, f2: Seq<bool>)
    requires
        f1.len() == s1.len(),
        f2.len() == s2.len(),
    ensures
        kept(s1 + s2, f1 + f2) == kept(s1, f1) + kept(s2, f2),
    decreases s2.len(),
{
    if s2.len() == 0 {
        assert(s1 + s2 =~= s1);
        assert(f1 + f2 =~= f1);
        assert(kept(s1, f1) + kept(s2, f2) =~= kept(s1, f1));
        assert(f1.take(s1.len() as int) =~= f1);
    } else {
        let s2p = s2.drop_last();
        let f2p = f2.take(s2.len() - 1);
        lemma_kept_concat(s1, f1, s2p, f2p);
        let s = s1 + s2;
        let f = f1 + f2;
        assert(s.drop_last() =~= s1 + s2p);
        assert(f.take(s.len() - 1) =~= f1 + f2p);
        assert(f[s.len() - 1] == f2[s2.len() - 1]);
        assert(s.last() == s2.last());
        if f2[s2.len() - 1] {
            assert(kept(s, f) == kept(s1 + s2p, f1 + f2p).push(s2.last()));
            assert(kept(s1, f1) + kept(s2, f2) =~= (kept(s1, f1) + kept(s2p, f2p)).push(s2.last()));
        } else {
            assert(kept(s, f) == kept(s1 + s2p, f1 + f2p));
        }
    }
}

/// The answers a predicate given as a spec function `p` gives for `s`.
pub open spec fn flags_of<T>(s: Seq<T>, p: spec_fn(T) -> bool) -> Seq<bool> {
    Seq::new(s.len(), |i: int| p(s[i]))
}

/// For a pure predicate, whose every answer is `p`'s, the answers a filter
/// got are `p`'s answers.
pub proof fn lemma_pure_predicate_answers<T, F: Fn(&T) -> bool>(
    pred: F,
    p: spec_fn(T) -> bool,
    s: Seq<T>,
    flags: Seq<bool>,
)
    requires
        answers(pred, s, flags),
        forall|x: &T, b: bool| call_ensures(pred, (x,), b) ==> b == p(*x),
    ensures
        flags == flags_of(s, p),
{
    assert forall|i: int| 0 <= i < s.len() implies flags[i] == #[trigger] flags_of(s, p)[i] by {
        assert(call_ensures(pred, (&s[i],), flags[i]));
    }
    assert(flags =~= flags_of(s, p));
}

/// Filtering with a pure predicate, one item more.
pub proof fn lemma_kept_push<T>(s: Seq<T>, x: T, p: spec_fn(T) -> bool)
    ensures
        kept(s.push(x), flags_of(s.push(x), p)) == if p(x) {
            kept(s, flags_of(s, p)).push(x)
        } else {
            kept(s, flags_of(s, p))
        },
{
    assert(s.push(x).drop_last() =~= s);
    assert(flags_of(s.push(x), p).take(s.len() as int) =~= flags_of(s, p));
}

/// Two filters in a row, with pure predicates `p` then `q`, pass what one
/// filter with both predicates passes; and filtering twice with the same
/// predicate passes what filtering once does.
pub proof fn lemma_filter_twice<T>(s: Seq<T>, p: spec_fn(T) -> bool, q: spec_fn(T) -> bool)
    ensures
        kept(kept(s, flags_of(s, p)), flags_of(kept(s, flags_of(s, p)), q))
            == kept(s, flags_of(s, |x: T| p(x) && q(x))),
        kept(kept(s, flags_of(s, p)), flags_of(kept(s, flags_of(s, p)), p)) == kept(s, flags_of(s, p)),
    decreases s.len(),
{
    let pq = |x: T| p(x) && q(x);
    if s.len() == 0 {
        assert(kept(s, flags_of(s, p)) =~= Seq::<T>::empty());
    } else {
        let s0 = s.drop_last();
        let x = s.last();
        assert(s0.push(x) =~= s);
        lemma_filter_twice(s0, p, q);
        lemma_kept_push(s0, x, p);
        lemma_kept_push(s0, x, pq);
        let k0 = kept(s0, flags_of(s0, p));
        if p(x) {
            lemma_kept_push(k0, x, q);
            lemma_kept_push(k0, x, p);
        }
    }
}

} // verus!
