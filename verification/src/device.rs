//! The device: a bus under exclusive ownership, a chip-select line and a
//! delay source, running whole transactions under one chip-select assertion.

use vstd::prelude::*;
use crate::bus::SpiBus;
use crate::delay::DelayProvider;
use crate::error::Error;
use crate::events::{
    complete_exchange, lemma_exchange_concat, lemma_exchange_widen, partial_exchange,
    pad_with_zeros, received_of, zero_bytes, BusEvent,
};
use crate::peripheral::{Instance, PeriphConfig};
use crate::select::ChipSelectPin;

verus! {

/// One element of a transaction.
pub enum Operation {
    /// Fill the buffer from the bus, sending zero filler.
    Read(Vec<u8>),
    /// Send the buffer, discarding what answers it.
    Write(Vec<u8>),
    /// Exchange over both buffers: fill the first while sending the second,
    /// driving the longer side to the end.
    Transfer(Vec<u8>, Vec<u8>),
    /// Send the buffer and overwrite it in place with the answers.
    TransferInPlace(Vec<u8>),
    /// Block on the delay source for this many nanoseconds.
    DelayNs(u32),
}

/// The mathematical shape of an operation: its buffers as sequences.
pub enum OpView {
    /// See [`Operation::Read`].
    Read(Seq<u8>),
    /// See [`Operation::Write`].
    Write(Seq<u8>),
    /// See [`Operation::Transfer`].
    Transfer(Seq<u8>, Seq<u8>),
    /// See [`Operation::TransferInPlace`].
    TransferInPlace(Seq<u8>),
    /// See [`Operation::DelayNs`].
    DelayNs(u32),
}

impl View for Operation {
    type V = OpView;

    open spec fn view(&self) -> OpView {
        match self {
            Operation::Read(b) => OpView::Read(b@),
            Operation::Write(b) => OpView::Write(b@),
            Operation::Transfer(r, w) => OpView::Transfer(r@, w@),
            Operation::TransferInPlace(b) => OpView::TransferInPlace(b@),
            Operation::DelayNs(ns) => OpView::DelayNs(*ns),
        }
    }
}

/// The bytes an operation puts on the wire: filler for a read, the buffer
/// for a write, the padded write side for an exchange, and nothing for a
/// delay.
pub open spec fn op_plan(op: OpView) -> Seq<u8> {
    match op {
        OpView::Read(b) => zero_bytes(b.len()),
        OpView::Write(b) => b,
        OpView::Transfer(r, w) => pad_with_zeros(
            w,
            if r.len() > w.len() {
                r.len()
            } else {
                w.len()
            },
        ),
        OpView::TransferInPlace(b) => b,
        OpView::DelayNs(_) => Seq::empty(),
    }
}

/// The bytes a whole operation list puts on the wire, in order.
pub open spec fn ops_plan(ops: Seq<OpView>) -> Seq<u8>
    decreases ops.len(),
{
    if ops.len() == 0 {
        Seq::empty()
    } else {
        ops_plan(ops.drop_last()) + op_plan(ops.last())
    }
}

/// The delays a whole operation list requests, in order.
pub open spec fn ops_delays(ops: Seq<OpView>) -> Seq<u32>
    decreases ops.len(),
{
    if ops.len() == 0 {
        Seq::empty()
    } else {
        ops_delays(ops.drop_last()) + (match ops.last() {
            OpView::DelayNs(ns) => seq![ns],
            _ => Seq::empty(),
        })
    }
}

/// Every element of the list is a delay: nothing in it can fail, since
/// nothing touches the bus or the chip-select line.
pub open spec fn only_delays(ops: Seq<OpView>) -> bool {
    forall|k: int| 0 <= k < ops.len() ==> ops[k] is DelayNs
}

/// How one completed operation relates to what it was and to the bytes
/// `recv` that answered its sends: a read holds exactly the answers, a
/// write and a delay are untouched, an exchange's read buffer holds the
/// front of the answers, and an in-place exchange holds all of them.
pub open spec fn op_outcome(before: OpView, after: OpView, recv: Seq<u8>) -> bool {
    match before {
        OpView::Read(b) => after == OpView::Read(recv),
        OpView::Write(b) => after == before,
        OpView::Transfer(r, w) => after == OpView::Transfer(recv.take(r.len() as int), w),
        OpView::TransferInPlace(b) => after == OpView::TransferInPlace(recv),
        OpView::DelayNs(ns) => after == before,
    }
}

/// Splitting an operation list's plan at its last element.
proof fn lemma_ops_plan_take_succ(ops: Seq<OpView>, k: int)
    requires
        0 <= k < ops.len(),
    ensures
        ops_plan(ops.take(k + 1)) == ops_plan(ops.take(k)) + op_plan(ops[k]),
        ops_delays(ops.take(k + 1)) == ops_delays(ops.take(k)) + (match ops[k] {
            OpView::DelayNs(ns) => seq![ns],
            _ => Seq::empty(),
        }),
{
    assert(ops.take(k + 1).drop_last() =~= ops.take(k));
    assert(ops.take(k + 1).last() == ops[k]);
}

/// A front part of an operation list plans a front part of the whole plan.
proof fn lemma_ops_plan_prefix_is_prefix(ops: Seq<OpView>, k: int)
    requires
        0 <= k <= ops.len(),
    ensures
        ops_plan(ops.take(k)).is_prefix_of(ops_plan(ops)),
    decreases ops.len() - k,
{
    if k < ops.len() {
        lemma_ops_plan_take_succ(ops, k);
        lemma_ops_plan_prefix_is_prefix(ops, k + 1);
        assert(ops_plan(ops.take(k)) =~= ops_plan(ops).subrange(
            0,
            ops_plan(ops.take(k)).len() as int,
        ));
    } else {
        assert(ops.take(k) =~= ops);
        assert(ops_plan(ops) =~= ops_plan(ops).subrange(0, ops_plan(ops).len() as int));
    }
}

/// A longer front of an operation list never plans fewer bytes.
proof fn lemma_ops_plan_len_monotone(ops: Seq<OpView>, k1: int, k2: int)
    requires
        0 <= k1 <= k2 <= ops.len(),
    ensures
        ops_plan(ops.take(k1)).len() <= ops_plan(ops.take(k2)).len(),
    decreases k2 - k1,
{
    if k1 < k2 {
        lemma_ops_plan_take_succ(ops, k2 - 1);
        lemma_ops_plan_len_monotone(ops, k1, k2 - 1);
    }
}

/// One step of a transaction: a bus transcript that held a whole exchange
/// of the first `idx` operations' plan, extended by an exchange trace of
/// operation `idx`'s plan, holds an exchange trace of the first `idx + 1`
/// operations' plan.
proof fn lemma_transaction_step(
    t0: Seq<BusEvent>,
    t_pre: Seq<BusEvent>,
    t_post: Seq<BusEvent>,
    views: Seq<OpView>,
    idx: int,
    whole: bool,
)
    requires
        0 <= idx < views.len(),
        t0.is_prefix_of(t_pre),
        complete_exchange(t_pre.skip(t0.len() as int), ops_plan(views.take(idx))),
        t_pre.is_prefix_of(t_post),
        partial_exchange(t_post.skip(t_pre.len() as int), op_plan(views[idx])),
        whole ==> t_post.skip(t_pre.len() as int).len() == 2 * op_plan(views[idx]).len(),
    ensures
        t0.is_prefix_of(t_post),
        partial_exchange(t_post.skip(t0.len() as int), ops_plan(views.take(idx + 1))),
        whole ==> complete_exchange(t_post.skip(t0.len() as int), ops_plan(views.take(idx + 1))),
        received_of(t_post.skip(t0.len() as int)) == received_of(t_pre.skip(t0.len() as int))
            + received_of(t_post.skip(t_pre.len() as int)),
        received_of(t_pre.skip(t0.len() as int)).len() == ops_plan(views.take(idx)).len(),
{
    let e1 = t_pre.skip(t0.len() as int);
    let e2 = t_post.skip(t_pre.len() as int);
    assert(t_pre =~= t0 + e1);
    assert(t_post.skip(t0.len() as int) =~= e1 + e2);
    assert(t0.is_prefix_of(t_post)) by {
        assert(t0 =~= t_post.subrange(0, t0.len() as int));
    }
    lemma_ops_plan_take_succ(views, idx);
    lemma_exchange_concat(e1, e2, ops_plan(views.take(idx)), op_plan(views[idx]));
}

/// A device: a bus, a chip-select line and a delay source, all owned
/// exclusively. Built by [`SpiBus::exclusive`].
pub struct SpiDevice<BUS, CS, DELAY> {
    bus: BUS,
    cs: CS,
    delay: DELAY,
}

impl<BUS, CS, DELAY> SpiDevice<BUS, CS, DELAY> {
    /// The three owned components, for contracts that relate them to what
    /// the device was built from.
    pub closed spec fn parts(&self) -> (BUS, CS, DELAY) {
        (self.bus, self.cs, self.delay)
    }

    /// Put a device together from its three components.
    pub(crate) fn compose(bus: BUS, cs: CS, delay: DELAY) -> (dev: Self)
        ensures
            dev.parts() == (bus, cs, delay),
    {
        SpiDevice { bus, cs, delay }
    }

    /// Tear the device apart, returning the bus, the chip-select line and
    /// the delay source.
    pub fn release(self) -> (r: (BUS, CS, DELAY))
        ensures
            r == self.parts(),
    {
        (self.bus, self.cs, self.delay)
    }
}

impl<SPI: Instance, PINS, CS: ChipSelectPin, DELAY: DelayProvider> SpiDevice<
    SpiBus<SPI, PINS>,
    CS,
    DELAY,
> {
    /// The owned bus's transcript.
    pub closed spec fn bus_transcript(&self) -> Seq<BusEvent> {
        self.bus.transcript()
    }

    /// The owned bus's configuration.
    pub closed spec fn bus_config(&self) -> PeriphConfig {
        self.bus.config()
    }

    /// The owned bus's record of observed fault flags.
    pub closed spec fn bus_faults(&self) -> Seq<Error> {
        self.bus.faults()
    }

    /// The chip-select line's level history.
    pub closed spec fn cs_history(&self) -> Seq<bool> {
        self.cs.history()
    }

    /// Whether the chip-select line keeps its history.
    pub closed spec fn cs_recording(&self) -> bool {
        self.cs.recording()
    }

    /// The delay source's log.
    pub closed spec fn delay_log(&self) -> Seq<u32> {
        self.delay.delays()
    }

    /// Whether the delay source keeps its log.
    pub closed spec fn delay_recording(&self) -> bool {
        self.delay.recording()
    }

    /// Run a whole transaction: assert chip select, run every operation in
    /// order against the owned bus — delays going to the delay source
    /// instead — and deassert chip select.
    ///
    /// The first fault aborts the remaining list at once, and chip select
    /// is then left asserted: the caller owns recovery. A chip-select line
    /// that fails to change state reports `ChipSelectFault`, a channel
    /// distinct from the bus faults. A failing transaction propagates the
    /// first observed fault unchanged — the returned error is exactly the
    /// flag the status poll raised, or `ChipSelectFault` with no flag
    /// observed — its exchange stops within the failed operation's plan,
    /// and its delay log holds exactly the delays of the completed front of
    /// the list.
    ///
    /// On success the bus transcript grows by exactly one whole exchange of
    /// the list's plan — every operation's sends in order, each paired with
    /// one receive — each buffer holds what [`op_outcome`] says of the
    /// bytes answering its own sends, the delay log grows by exactly the
    /// listed delays, and chip select was asserted once and deasserted
    /// once.
    #[verifier::loop_isolation(false)]
    pub fn transaction(&mut self, operations: &mut Vec<Operation>) -> (r: Result<(), Error>)
        ensures
            final(self).bus_config() == old(self).bus_config(),
            final(self).cs_recording() == old(self).cs_recording(),
            final(self).delay_recording() == old(self).delay_recording(),
            final(operations)@.len() == old(operations)@.len(),
            old(self).bus_transcript().is_prefix_of(final(self).bus_transcript()),
            r is Ok ==> final(self).bus_faults() == old(self).bus_faults(),
            (r matches Err(e) ==> (final(self).bus_faults() == old(self).bus_faults().push(e) || (e
                == Error::ChipSelectFault && final(self).bus_faults() == old(self).bus_faults()))),
            r is Ok ==> ({
                let views = old(operations)@.map_values(|op: Operation| op@);
                let after = final(operations)@.map_values(|op: Operation| op@);
                let ext = final(self).bus_transcript().skip(
                    old(self).bus_transcript().len() as int,
                );
                &&& complete_exchange(ext, ops_plan(views))
                &&& (forall|k: int|
                    0 <= k < views.len() ==> op_outcome(
                        views[k],
                        #[trigger] after[k],
                        received_of(ext).subrange(
                            ops_plan(views.take(k)).len() as int,
                            ops_plan(views.take(k + 1)).len() as int,
                        ),
                    ))
                &&& (old(self).cs_recording() ==> final(self).cs_history() == old(
                    self,
                ).cs_history() + seq![false, true])
                &&& (old(self).delay_recording() ==> final(self).delay_log() == old(
                    self,
                ).delay_log() + ops_delays(views))
            }),
            r is Err ==> ({
                let views = old(operations)@.map_values(|op: Operation| op@);
                let ext = final(self).bus_transcript().skip(
                    old(self).bus_transcript().len() as int,
                );
                &&& partial_exchange(ext, ops_plan(views))
                &&& (exists|k: int|
                    #![auto]
                    {
                        &&& 0 <= k <= views.len()
                        &&& 2 * ops_plan(views.take(k)).len() <= ext.len()
                        &&& (k < views.len() ==> ext.len() <= 2 * ops_plan(
                            views.take(k + 1),
                        ).len())
                        &&& (old(self).delay_recording() ==> final(self).delay_log() == old(
                            self,
                        ).delay_log() + ops_delays(views.take(k)))
                    })
                &&& (old(self).cs_recording() ==> (final(self).cs_history() == old(
                    self,
                ).cs_history() || final(self).cs_history() == old(self).cs_history()
                    + seq![false]))
                &&& (old(self).cs_recording() && final(self).cs_history() == old(
                    self,
                ).cs_history() ==> (r == Err::<(), Error>(Error::ChipSelectFault)
                    && final(self).bus_transcript() == old(self).bus_transcript()
                    && final(operations)@ == old(operations)@))
            }),
            !old(self).cs_recording() && only_delays(
                old(operations)@.map_values(|op: Operation| op@),
            ) ==> r is Ok,
    {
        let ghost views = old(operations)@.map_values(|op: Operation| op@);
        match self.cs.set_low() {
            Err(_) => {
                proof {
                    assert(self.bus_transcript().skip(self.bus_transcript().len() as int) =~= Seq::<
                        BusEvent,
                    >::empty());
                    assert(views.take(0) =~= Seq::<OpView>::empty());
                    assert(self.delay_log() =~= self.delay_log() + ops_delays(views.take(0)));
                    assert(2 * ops_plan(views.take(0)).len() <= 0);
                }
                return Err(Error::ChipSelectFault);
            },
            Ok(_) => {
            },
        }
        proof {
            assert(old(self).cs_recording() ==> self.cs.history() == old(self).cs_history().push(
                false,
            ));
        }
        let ghost t0 = self.bus.transcript();
        let ghost cs1 = self.cs;
        let ghost d0 = self.delay.delays();
        let n = operations.len();
        proof {
            assert(t0.skip(t0.len() as int) =~= Seq::<BusEvent>::empty());
            assert(views.take(0) =~= Seq::<OpView>::empty());
            assert(t0.is_prefix_of(t0)) by {
                assert(t0 =~= t0.subrange(0, t0.len() as int));
            }
        }
        let mut idx: usize = 0;
        while idx < n
            invariant
                idx <= n,
                n == views.len(),
                operations@.len() == n,
                views == old(operations)@.map_values(|op: Operation| op@),
                self.cs == cs1,
                self.delay.recording() == old(self).delay_recording(),
                old(self).delay_recording() ==> self.delay.delays() == d0 + ops_delays(
                    views.take(idx as int),
                ),
                !old(self).delay_recording() ==> self.delay.delays() == d0,
                self.bus.config() == old(self).bus_config(),
                self.bus.faults() == old(self).bus_faults(),
                t0.is_prefix_of(self.bus.transcript()),
                complete_exchange(
                    self.bus.transcript().skip(t0.len() as int),
                    ops_plan(views.take(idx as int)),
                ),
                forall|k: int| idx <= k < n ==> operations@[k] == old(operations)@[k],
                forall|k: int|
                    0 <= k < idx ==> op_outcome(
                        views[k],
                        #[trigger] operations@[k]@,
                        received_of(self.bus.transcript().skip(t0.len() as int)).subrange(
                            ops_plan(views.take(k)).len() as int,
                            ops_plan(views.take(k + 1)).len() as int,
                        ),
                    ),
            decreases n - idx,
        {
            let ghost ops_pre = operations@;
            let ghost t_pre = self.bus.transcript();
            let op = operations.remove(idx);
            proof {
                assert(op == ops_pre[idx as int]);
                assert(op@ == views[idx as int]);
            }
            let outcome: Result<(), Error>;
            let stored: Operation;
            match op {
                Operation::Read(mut buf) => {
                    let ghost b0 = buf@;
                    outcome = self.bus.read(&mut buf);
                    proof {
                        lemma_transaction_step(
                            t0,
                            t_pre,
                            self.bus.transcript(),
                            views,
                            idx as int,
                            outcome is Ok,
                        );
                        if outcome is Ok {
                            assert(buf@ =~= received_of(
                                self.bus.transcript().skip(t_pre.len() as int),
                            ));
                        }
                    }
                    stored = Operation::Read(buf);
                },
                Operation::Write(buf) => {
                    outcome = self.bus.write(&buf);
                    proof {
                        lemma_transaction_step(
                            t0,
                            t_pre,
                            self.bus.transcript(),
                            views,
                            idx as int,
                            outcome is Ok,
                        );
                    }
                    stored = Operation::Write(buf);
                },
                Operation::Transfer(mut rbuf, wbuf) => {
                    let ghost r0 = rbuf@;
                    outcome = self.bus.transfer(&mut rbuf, &wbuf);
                    proof {
                        lemma_transaction_step(
                            t0,
                            t_pre,
                            self.bus.transcript(),
                            views,
                            idx as int,
                            outcome is Ok,
                        );
                        if outcome is Ok {
                            assert(rbuf@ =~= received_of(
                                self.bus.transcript().skip(t_pre.len() as int),
                            ).take(r0.len() as int));
                        }
                    }
                    stored = Operation::Transfer(rbuf, wbuf);
                },
                Operation::TransferInPlace(mut buf) => {
                    let ghost b0 = buf@;
                    outcome = self.bus.transfer_in_place(&mut buf);
                    proof {
                        lemma_transaction_step(
                            t0,
                            t_pre,
                            self.bus.transcript(),
                            views,
                            idx as int,
                            outcome is Ok,
                        );
                        if outcome is Ok {
                            assert(buf@ =~= received_of(
                                self.bus.transcript().skip(t_pre.len() as int),
                            ));
                        }
                    }
                    stored = Operation::TransferInPlace(buf);
                },
                Operation::DelayNs(ns) => {
                    self.delay.delay_ns(ns);
                    outcome = Ok(());
                    proof {
                        assert(self.bus.transcript().skip(t_pre.len() as int) =~= Seq::<
                            BusEvent,
                        >::empty());
                        lemma_transaction_step(
                            t0,
                            t_pre,
                            self.bus.transcript(),
                            views,
                            idx as int,
                            true,
                        );
                    }
                    stored = Operation::DelayNs(ns);
                },
            }
            operations.insert(idx, stored);
            proof {
                assert(operations@ =~= ops_pre.update(idx as int, stored));
                lemma_ops_plan_take_succ(views, idx as int);
            }
            match outcome {
                Err(e) => {
                    proof {
                        assert(old(self).cs_recording() ==> self.cs.history() == old(
                            self,
                        ).cs_history().push(false));
                        assert(old(self).cs_history().push(false) =~= old(self).cs_history()
                            + seq![false]);
                        assert(t0.is_prefix_of(self.bus.transcript()));
                        assert(old(self).bus_transcript().is_prefix_of(self.bus.transcript())) by {
                            assert(old(self).bus_transcript() == t0);
                        }
                        lemma_ops_plan_prefix_is_prefix(views, idx as int + 1);
                        lemma_exchange_widen(
                            self.bus.transcript().skip(t0.len() as int),
                            ops_plan(views.take(idx as int + 1)),
                            ops_plan(views),
                        );
                        if only_delays(views) {
                            assert(views[idx as int] is DelayNs);
                            assert(false);
                        }
                        let ext = self.bus.transcript().skip(t0.len() as int);
                        assert(2 * ops_plan(views.take(idx as int)).len() <= ext.len());
                        assert(ext.len() <= 2 * ops_plan(views.take(idx as int + 1)).len());
                        assert(old(self).cs_history().push(false).len() != old(
                            self,
                        ).cs_history().len());
                    }
                    return Err(e);
                },
                Ok(_) => {
                },
            }
            proof {
                let ext_new = self.bus.transcript().skip(t0.len() as int);
                let recv_new = received_of(ext_new);
                let recv_old = received_of(t_pre.skip(t0.len() as int));
                let recv_k = received_of(self.bus.transcript().skip(t_pre.len() as int));
                assert(recv_new == recv_old + recv_k);
                assert(recv_old.len() == ops_plan(views.take(idx as int)).len());
                assert(recv_k.len() == op_plan(views[idx as int]).len());
                assert(recv_new.subrange(
                    ops_plan(views.take(idx as int)).len() as int,
                    ops_plan(views.take(idx as int + 1)).len() as int,
                ) =~= recv_k);
                assert(op_outcome(views[idx as int], stored@, recv_k));
                assert forall|k: int| 0 <= k < idx implies op_outcome(
                    views[k],
                    #[trigger] operations@[k]@,
                    recv_new.subrange(
                        ops_plan(views.take(k)).len() as int,
                        ops_plan(views.take(k + 1)).len() as int,
                    ),
                ) by {
                    lemma_ops_plan_len_monotone(views, k + 1, idx as int);
                    lemma_ops_plan_len_monotone(views, k, k + 1);
                    assert(recv_new.subrange(
                        ops_plan(views.take(k)).len() as int,
                        ops_plan(views.take(k + 1)).len() as int,
                    ) =~= recv_old.subrange(
                        ops_plan(views.take(k)).len() as int,
                        ops_plan(views.take(k + 1)).len() as int,
                    ));
                    assert(operations@[k]@ == ops_pre[k]@);
                }
            }
            idx += 1;
        }
        proof {
            assert(views.take(n as int) =~= views);
        }
        match self.cs.set_high() {
            Err(_) => {
                proof {
                    assert(old(self).cs_recording() ==> self.cs.history() == old(
                        self,
                    ).cs_history().push(false));
                    assert(old(self).cs_history().push(false) =~= old(self).cs_history()
                        + seq![false]);
                    assert(old(self).cs_history().push(false).len() != old(
                        self,
                    ).cs_history().len());
                    let ext = self.bus.transcript().skip(t0.len() as int);
                    assert(2 * ops_plan(views.take(n as int)).len() <= ext.len());
                }
                return Err(Error::ChipSelectFault);
            },
            Ok(_) => {
            },
        }
        proof {
            assert(old(self).cs_recording() ==> self.cs.history() == old(self).cs_history().push(
                false,
            ).push(true));
            assert(old(self).cs_history().push(false).push(true) =~= old(self).cs_history()
                + seq![false, true]);
        }
        Ok(())
    }
}

} // verus!
