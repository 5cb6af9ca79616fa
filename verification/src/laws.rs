//! Laws of the queue model: how the queued contents evolve over any run of
//! pushes and pops, stated over the same sequences that the contracts of
//! [`crate::ring::RingBuffer::push`] and [`crate::ring::RingBuffer::pop`]
//! speak of.
//!
//! [`apply_op`] restates those two contracts as one step of a model: a push
//! appends unless only the guard slot is left, a pop removes the oldest
//! element unless there is none. A run of operations is then a sequence of
//! such steps, in the order in which the cursor claims committed — under
//! contention that is the compare-and-swap commit order, and these laws hold
//! for every such order.

use vstd::prelude::*;

verus! {

use vstd::multiset::Multiset;

/// One request made of a queue: push a value, or pop the oldest one.
pub enum QueueOp<T> {
    Push(T),
    Pop,
}

/// The queued contents after one request against contents `s` in a buffer of
/// capacity `cap`: exactly what the contracts of `push` and `pop` state.
pub open spec fn apply_op<T>(s: Seq<T>, cap: int, op: QueueOp<T>) -> Seq<T> {
    match op {
        QueueOp::Push(v) => if s.len() < cap - 1 {
            s.push(v)
        } else {
            s
        },
        QueueOp::Pop => if s.len() > 0 {
            s.drop_first()
        } else {
            s
        },
    }
}

/// The queued contents after a whole run of requests, first request first.
pub open spec fn apply_ops<T>(s: Seq<T>, cap: int, ops: Seq<QueueOp<T>>) -> Seq<T>
    decreases ops.len(),
{
    if ops.len() == 0 {
        s
    } else {
        apply_ops(apply_op(s, cap, ops[0]), cap, ops.drop_first())
    }
}

/// The values whose pushes succeed along a run, in commit order; a push
/// against a full queue contributes nothing.
pub open spec fn accepted_pushes<T>(s: Seq<T>, cap: int, ops: Seq<QueueOp<T>>) -> Seq<T>
    decreases ops.len(),
{
    if ops.len() == 0 {
        Seq::<T>::empty()
    } else {
        let rest = accepted_pushes(apply_op(s, cap, ops[0]), cap, ops.drop_first());
        match ops[0] {
            QueueOp::Push(v) => if s.len() < cap - 1 {
                seq![v] + rest
            } else {
                rest
            },
            QueueOp::Pop => rest,
        }
    }
}

/// The values that successful pops return along a run, in commit order; a
/// pop against an empty queue contributes nothing.
pub open spec fn returned_pops<T>(s: Seq<T>, cap: int, ops: Seq<QueueOp<T>>) -> Seq<T>
    decreases ops.len(),
{
    if ops.len() == 0 {
        Seq::<T>::empty()
    } else {
        let rest = returned_pops(apply_op(s, cap, ops[0]), cap, ops.drop_first());
        match ops[0] {
            QueueOp::Push(_) => rest,
            QueueOp::Pop => if s.len() > 0 {
                seq![s[0]] + rest
            } else {
                rest
            },
        }
    }
}

/// A run of push requests, one per value, in the given order.
pub open spec fn push_ops<T>(vs: Seq<T>) -> Seq<QueueOp<T>> {
    vs.map_values(|v: T| QueueOp::Push(v))
}

/// A run of `k` pop requests.
pub open spec fn pop_ops<T>(k: int) -> Seq<QueueOp<T>> {
    Seq::new(k as nat, |i: int| QueueOp::<T>::Pop)
}

/// No loss and no duplication, for every interleaving: over any run of
/// requests, what was there at the start plus everything whose push was
/// accepted is — as a multiset, so each value counted as often as it was
/// pushed — exactly what the successful pops returned plus what is still
/// queued. Nothing vanishes, nothing is handed out twice, and nothing is
/// handed out that was never pushed.
pub proof fn lemma_no_loss_no_duplication<T>(s: Seq<T>, cap: int, ops: Seq<QueueOp<T>>)
    ensures
        s.to_multiset().add(accepted_pushes(s, cap, ops).to_multiset()) == returned_pops(
            s,
            cap,
            ops,
        ).to_multiset().add(apply_ops(s, cap, ops).to_multiset()),
    decreases ops.len(),
{
    broadcast use vstd::seq_lib::group_to_multiset_ensures;
    broadcast use vstd::multiset::group_multiset_axioms;

    if ops.len() == 0 {
        assert(Seq::<T>::empty().to_multiset() =~= Multiset::<T>::empty());
        assert(s.to_multiset().add(Multiset::<T>::empty()) =~= Multiset::<T>::empty().add(
            s.to_multiset(),
        ));
    } else {
        let s2 = apply_op(s, cap, ops[0]);
        let rest = ops.drop_first();
        lemma_no_loss_no_duplication(s2, cap, rest);
        match ops[0] {
            QueueOp::Push(v) => {
                if s.len() < cap - 1 {
                    let a = accepted_pushes(s2, cap, rest);
                    assert(seq![v] + a =~= a.insert(0, v));
                    vstd::seq_lib::to_multiset_insert(a, 0, v);
                    assert(s.to_multiset().add(a.to_multiset().insert(v)) =~= s.push(
                        v,
                    ).to_multiset().add(a.to_multiset()));
                }
            },
            QueueOp::Pop => {
                if s.len() > 0 {
                    let r = returned_pops(s2, cap, rest);
                    assert(seq![s[0]] + r =~= r.insert(0, s[0]));
                    vstd::seq_lib::to_multiset_insert(r, 0, s[0]);
                    vstd::seq_lib::to_multiset_remove(s, 0);
                    assert(s.remove(0) =~= s.drop_first());
                    assert(s.contains(s[0]));
                    assert(s.drop_first().to_multiset().insert(s[0]) =~= s.to_multiset());
                    assert(r.to_multiset().insert(s[0]).add(
                        apply_ops(s2, cap, rest).to_multiset(),
                    ) =~= r.to_multiset().add(
                        apply_ops(s2, cap, rest).to_multiset(),
                    ).insert(s[0]));
                    assert(s2.to_multiset().add(accepted_pushes(s2, cap, rest).to_multiset()).insert(
                        s[0],
                    ) =~= s.to_multiset().add(accepted_pushes(s2, cap, rest).to_multiset()));
                }
            },
        }
    }
}

/// No loss and no duplication, drained form: a run that leaves the queue
/// empty — started from an empty queue — returns from its pops exactly the
/// values whose pushes were accepted, each exactly once per accepted push.
pub proof fn lemma_drain_exact<T>(cap: int, ops: Seq<QueueOp<T>>)
    requires
        apply_ops(Seq::<T>::empty(), cap, ops).len() == 0,
    ensures
        returned_pops(Seq::<T>::empty(), cap, ops).to_multiset() == accepted_pushes(
            Seq::<T>::empty(),
            cap,
            ops,
        ).to_multiset(),
{
    broadcast use vstd::seq_lib::group_to_multiset_ensures;
    broadcast use vstd::multiset::group_multiset_axioms;

    lemma_no_loss_no_duplication(Seq::<T>::empty(), cap, ops);
    assert(apply_ops(Seq::<T>::empty(), cap, ops).to_multiset() =~= Multiset::<T>::empty());
    assert(Seq::<T>::empty().to_multiset() =~= Multiset::<T>::empty());
    assert(Multiset::<T>::empty().add(
        accepted_pushes(Seq::<T>::empty(), cap, ops).to_multiset(),
    ) =~= accepted_pushes(Seq::<T>::empty(), cap, ops).to_multiset());
    assert(returned_pops(Seq::<T>::empty(), cap, ops).to_multiset().add(Multiset::<T>::empty())
        =~= returned_pops(Seq::<T>::empty(), cap, ops).to_multiset());
}

/// Drained form for distinct values — producers pushing disjoint ranges:
/// when no two accepted pushes carry the same value, a run that leaves the
/// queue empty returns each pushed value from exactly one pop, and returns
/// nothing else.
pub proof fn lemma_drain_exactly_once<T>(cap: int, ops: Seq<QueueOp<T>>)
    requires
        apply_ops(Seq::<T>::empty(), cap, ops).len() == 0,
        accepted_pushes(Seq::<T>::empty(), cap, ops).no_duplicates(),
    ensures
        returned_pops(Seq::<T>::empty(), cap, ops).no_duplicates(),
        forall|v: T|
            returned_pops(Seq::<T>::empty(), cap, ops).contains(v) <==> accepted_pushes(
                Seq::<T>::empty(),
                cap,
                ops,
            ).contains(v),
{
    broadcast use vstd::seq_lib::group_to_multiset_ensures;
    broadcast use vstd::multiset::group_multiset_axioms;

    let accepted = accepted_pushes(Seq::<T>::empty(), cap, ops);
    let returned = returned_pops(Seq::<T>::empty(), cap, ops);
    lemma_drain_exact(cap, ops);
    accepted.lemma_multiset_has_no_duplicates();
    returned.lemma_multiset_has_no_duplicates_conv();
    assert forall|v: T| returned.contains(v) <==> accepted.contains(v) by {
        assert(returned.contains(v) <==> returned.to_multiset().count(v) > 0);
        assert(accepted.contains(v) <==> accepted.to_multiset().count(v) > 0);
    }
}

/// FIFO, sending side: pushes that all fit — at most `cap - 1` elements
/// counting what was already queued — land behind the existing contents in
/// exactly the order they were requested.
pub proof fn lemma_fifo_pushes<T>(s: Seq<T>, cap: int, vs: Seq<T>)
    requires
        s.len() + vs.len() <= cap - 1,
    ensures
        apply_ops(s, cap, push_ops(vs)) == s + vs,
    decreases vs.len(),
{
    if vs.len() == 0 {
        assert(push_ops(vs).len() == 0);
        assert(s + vs =~= s);
    } else {
        assert(push_ops(vs)[0] == QueueOp::Push(vs[0]));
        assert(push_ops(vs).drop_first() =~= push_ops(vs.drop_first()));
        lemma_fifo_pushes(s.push(vs[0]), cap, vs.drop_first());
        assert(s.push(vs[0]) + vs.drop_first() =~= s + vs);
    }
}

/// FIFO, receiving side: `k` pops return the `k` oldest queued values in
/// exactly the order they entered, and leave the rest queued in order.
pub proof fn lemma_fifo_pops<T>(s: Seq<T>, cap: int, k: int)
    requires
        0 <= k <= s.len(),
    ensures
        returned_pops(s, cap, pop_ops(k)) == s.take(k),
        apply_ops(s, cap, pop_ops(k)) == s.skip(k),
    decreases k,
{
    if k == 0 {
        assert(pop_ops::<T>(k).len() == 0);
        assert(s.take(0) =~= Seq::<T>::empty());
        assert(s.skip(0) =~= s);
        assert(returned_pops(s, cap, pop_ops(k)) =~= s.take(0));
    } else {
        assert(pop_ops::<T>(k)[0] == QueueOp::<T>::Pop);
        assert(pop_ops::<T>(k).drop_first() =~= pop_ops::<T>(k - 1));
        lemma_fifo_pops(s.drop_first(), cap, k - 1);
        assert(seq![s[0]] + s.drop_first().take(k - 1) =~= s.take(k));
        assert(s.drop_first().skip(k - 1) =~= s.skip(k));
    }
}

/// FIFO round trip: push a batch that fits, then pop everything — the pops
/// return what was already queued and then the batch, in exactly the order
/// the pushes were requested.
pub proof fn lemma_fifo<T>(s: Seq<T>, cap: int, vs: Seq<T>)
    requires
        s.len() + vs.len() <= cap - 1,
    ensures
        returned_pops(apply_ops(s, cap, push_ops(vs)), cap, pop_ops(s.len() + vs.len() as int)) == s
            + vs,
{
    lemma_fifo_pushes(s, cap, vs);
    lemma_fifo_pops(s + vs, cap, s.len() + vs.len() as int);
    assert((s + vs).take(s.len() + vs.len() as int) =~= s + vs);
}

} // verus!
