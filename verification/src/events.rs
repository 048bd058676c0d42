//! The transcript vocabulary: what passed through the data register, and
//! the shape a well-driven exchange leaves in it.

use vstd::prelude::*;

verus! {

/// One access to the peripheral's data register.
#[derive(Copy, Clone, Debug, PartialEq, Eq, Structural)]
pub enum BusEvent {
    /// A byte was written into the data register for transmission.
    Sent(u8),
    /// A byte was drained from the data register.
    Received(u8),
}

/// A run of `n` filler bytes, as sent while only reading.
pub open spec fn zero_bytes(n: nat) -> Seq<u8> {
    Seq::new(n, |i: int| 0u8)
}

/// The outbound bytes `w`, padded with zero filler up to length `n`.
pub open spec fn pad_with_zeros(w: Seq<u8>, n: nat) -> Seq<u8> {
    Seq::new(n, |i: int| if i < w.len() { w[i] } else { 0u8 })
}

/// `ext` is the trace of an exchange that planned to send `plan`, carried
/// out for some whole number of bytes and possibly one further send: events
/// alternate send then receive, every send carries the planned byte in
/// order, and nothing runs past the plan.
pub open spec fn partial_exchange(ext: Seq<BusEvent>, plan: Seq<u8>) -> bool {
    &&& ext.len() <= 2 * plan.len()
    &&& forall|i: int|
        0 <= i < ext.len() && i % 2 == 0 ==> ext[i] == BusEvent::Sent(plan[i / 2])
    &&& forall|i: int| 0 <= i < ext.len() && i % 2 == 1 ==> ext[i] is Received
}

/// `ext` is the trace of the whole exchange of `plan`: one send and one
/// receive for every planned byte, and nothing else.
pub open spec fn complete_exchange(ext: Seq<BusEvent>, plan: Seq<u8>) -> bool {
    &&& partial_exchange(ext, plan)
    &&& ext.len() == 2 * plan.len()
}

/// The inbound bytes of an alternating exchange trace: the payload of every
/// completed receive, in order.
pub open spec fn received_of(ext: Seq<BusEvent>) -> Seq<u8> {
    Seq::new((ext.len() / 2) as nat, |j: int| ext[2 * j + 1]->Received_0)
}

/// A whole exchange followed by a further exchange trace is itself an
/// exchange trace of the two plans joined, and its inbound bytes are the
/// two runs of inbound bytes joined.
pub proof fn lemma_exchange_concat(e1: Seq<BusEvent>, e2: Seq<BusEvent>, p1: Seq<u8>, p2: Seq<u8>)
    requires
        complete_exchange(e1, p1),
        partial_exchange(e2, p2),
    ensures
        partial_exchange(e1 + e2, p1 + p2),
        e2.len() == 2 * p2.len() ==> complete_exchange(e1 + e2, p1 + p2),
        received_of(e1 + e2) == received_of(e1) + received_of(e2),
{
    let e = e1 + e2;
    let p = p1 + p2;
    assert(e.len() == e1.len() + e2.len());
    assert forall|i: int| 0 <= i < e.len() && i % 2 == 0 implies e[i] == BusEvent::Sent(
        p[i / 2],
    ) by {
        if i < e1.len() {
            assert(e[i] == e1[i]);
            assert(0 <= i / 2 < p1.len());
            assert(p[i / 2] == p1[i / 2]);
        } else {
            let k = i - e1.len();
            assert(e[i] == e2[k]);
            assert(k % 2 == 0 && i / 2 == p1.len() + k / 2) by (nonlinear_arith)
                requires
                    i % 2 == 0,
                    e1.len() == 2 * p1.len(),
                    k == i - e1.len(),
                    0 <= k,
            ;
            assert(e2[k] == BusEvent::Sent(p2[k / 2]));
            assert(p[i / 2] == p2[k / 2]);
        }
    }
    assert forall|i: int| 0 <= i < e.len() && i % 2 == 1 implies e[i] is Received by {
        if i < e1.len() {
            assert(e[i] == e1[i]);
        } else {
            let k = i - e1.len();
            assert(e[i] == e2[k]);
            assert(k % 2 == 1) by (nonlinear_arith)
                requires
                    i % 2 == 1,
                    e1.len() == 2 * p1.len(),
                    k == i - e1.len(),
            ;
        }
    }
    assert(e.len() / 2 == e1.len() / 2 + e2.len() / 2) by (nonlinear_arith)
        requires
            e.len() == e1.len() + e2.len(),
            e1.len() == 2 * p1.len(),
    ;
    assert forall|j: int| 0 <= j < e.len() / 2 implies received_of(e)[j] == (received_of(e1)
        + received_of(e2))[j] by {
        if j < e1.len() / 2 {
            assert(0 <= 2 * j + 1 < e1.len());
            assert(e[2 * j + 1] == e1[2 * j + 1]);
        } else {
            let k = j - e1.len() / 2;
            assert(2 * j + 1 - e1.len() == 2 * k + 1) by (nonlinear_arith)
                requires
                    e1.len() == 2 * p1.len(),
                    k == j - e1.len() / 2,
            ;
            assert(e[2 * j + 1] == e2[2 * k + 1]);
        }
    }
    assert(received_of(e) =~= received_of(e1) + received_of(e2));
}

/// One exchanged byte of a planned run: a transcript that already held a
/// whole exchange of the plan's first `i` bytes, extended by the send of
/// byte `i` — and, when the receive phase completed, by the byte `got` that
/// answered it — holds an exchange trace one step further along the plan.
pub proof fn lemma_exchange_step(
    t0: Seq<BusEvent>,
    t_pre: Seq<BusEvent>,
    t_post: Seq<BusEvent>,
    plan: Seq<u8>,
    i: int,
    got: Option<u8>,
)
    requires
        0 <= i < plan.len(),
        t0.is_prefix_of(t_pre),
        complete_exchange(t_pre.skip(t0.len() as int), plan.take(i)),
        (got matches Some(x) ==> t_post == t_pre.push(BusEvent::Sent(plan[i])).push(
            BusEvent::Received(x),
        )),
        got is None ==> t_post == t_pre.push(BusEvent::Sent(plan[i])),
    ensures
        t0.is_prefix_of(t_post),
        partial_exchange(t_post.skip(t0.len() as int), plan),
        got is Some ==> complete_exchange(t_post.skip(t0.len() as int), plan.take(i + 1)),
        (got matches Some(x) ==> received_of(t_post.skip(t0.len() as int)) == received_of(
            t_pre.skip(t0.len() as int),
        ).push(x)),
        got is None ==> received_of(t_post.skip(t0.len() as int)) == received_of(
            t_pre.skip(t0.len() as int),
        ),
{
    let l = t0.len() as int;
    let e1 = t_pre.skip(l);
    let step = match got {
        Some(x) => seq![BusEvent::Sent(plan[i]), BusEvent::Received(x)],
        None => seq![BusEvent::Sent(plan[i])],
    };
    assert(t_post.skip(l) =~= e1 + step);
    assert(t0.is_prefix_of(t_post)) by {
        assert(t0 =~= t_post.subrange(0, l));
    }
    assert(partial_exchange(step, seq![plan[i]]));
    lemma_exchange_concat(e1, step, plan.take(i), seq![plan[i]]);
    assert(plan.take(i) + seq![plan[i]] =~= plan.take(i + 1));
    assert(plan.take(i + 1).is_prefix_of(plan));
    lemma_exchange_widen(t_post.skip(l), plan.take(i + 1), plan);
    match got {
        Some(x) => {
            assert(received_of(step) =~= seq![x]);
            assert(received_of(t_post.skip(l)) =~= received_of(e1).push(x));
        },
        None => {
            assert(received_of(step) =~= Seq::<u8>::empty());
            assert(received_of(t_post.skip(l)) =~= received_of(e1));
        },
    }
}

/// An exchange trace of a front part of a plan is an exchange trace of the
/// whole plan.
pub proof fn lemma_exchange_widen(ext: Seq<BusEvent>, short: Seq<u8>, plan: Seq<u8>)
    requires
        short.is_prefix_of(plan),
        partial_exchange(ext, short),
    ensures
        partial_exchange(ext, plan),
{
    assert forall|i: int| 0 <= i < ext.len() && i % 2 == 0 implies ext[i] == BusEvent::Sent(
        plan[i / 2],
    ) by {
        assert(ext[i] == BusEvent::Sent(short[i / 2]));
        assert(0 <= i / 2 < short.len());
        assert(short[i / 2] == plan.subrange(0, short.len() as int)[i / 2]);
    }
}

} // verus!
