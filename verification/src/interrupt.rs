//! The interrupt handler.

use vstd::prelude::*;
use core::marker::PhantomData;
use crate::instance::Instance;
use crate::regs::{
    cntr_set_fsusp, cntr_set_lpmode, epr_ctr_rx, epr_ctr_tx, epr_set_ctr_rx, epr_set_ctr_tx, epr_set_dtog_rx,
    epr_set_dtog_tx, epr_set_stat_rx, epr_set_stat_tx, epr_setup, istr_ctr, istr_ep_id, istr_reset, istr_set_reset,
    istr_set_susp, istr_set_wkup, istr_susp, istr_wkup,
};
use crate::types::{Flag, Op, Waker, EP_COUNT};

verus! {

/// Bit of ISTR: the bus was reset.
pub const ISTR_RESET: u32 = 0x400;

/// Bit of ISTR: the bus went idle.
pub const ISTR_SUSP: u32 = 0x800;

/// Bit of ISTR: the bus woke up.
pub const ISTR_WKUP: u32 = 0x1000;

/// Bit of ISTR: a transfer is complete.
pub const ISTR_CTR: u32 = 0x8000;

/// Bits of CNTR that put the peripheral into suspend mode: low-power mode and forced suspend.
pub const CNTR_SUSPEND: u32 = 0xc;

/// What ISTR holds after a write: a zero clears an event, a one leaves it.
pub open spec fn istr_after_write(held: u32, written: u32) -> u32 {
    held & written
}

/// The accesses on a suspend.
pub open spec fn suspend_ops() -> Seq<Op> {
    seq![
        Op::Store(Flag::Suspend, true),
        Op::ModifyCntr(true),
        Op::WriteIstr(!ISTR_SUSP),
        Op::Wake(Waker::Bus),
    ]
}

/// The accesses on a resume.
pub open spec fn resume_ops() -> Seq<Op> {
    seq![
        Op::Store(Flag::Resume, true),
        Op::ModifyCntr(false),
        Op::WriteIstr(!ISTR_WKUP),
        Op::Wake(Waker::Bus),
    ]
}

/// The accesses on a bus reset.
pub open spec fn reset_ops() -> Seq<Op> {
    seq![Op::Store(Flag::Reset, true), Op::WriteIstr(!ISTR_RESET), Op::Wake(Waker::Bus)]
}

/// The accesses for the bus events in ISTR.
pub open spec fn bus_ops(istr: u32) -> Seq<Op> {
    (if istr & ISTR_SUSP != 0 {
        suspend_ops()
    } else {
        seq![]
    }) + (if istr & ISTR_WKUP != 0 {
        resume_ops()
    } else {
        seq![]
    }) + (if istr & ISTR_RESET != 0 {
        reset_ops()
    } else {
        seq![]
    })
}

/// The word that clears the transfer flags that were read and changes nothing else.
pub open spec fn acknowledge(epr: u32) -> u32 {
    (epr & 0xffff_8f8f) ^ 0x8080
}

/// The accesses for a completed transfer.
pub open spec fn transfer_ops(index: usize, epr: u32) -> Seq<Op> {
    (if crate::epr::ctr_rx(epr) {
        seq![Op::Store(Flag::RxComplete(index), true)] + (if index == 0 && crate::epr::setup(epr) {
            seq![Op::Store(Flag::Ep0Setup, true)]
        } else {
            seq![]
        }) + seq![Op::Wake(Waker::EpOut(index))]
    } else {
        seq![]
    }) + (if crate::epr::ctr_tx(epr) {
        seq![Op::Store(Flag::TxPending(index), false), Op::Wake(Waker::EpIn(index))]
    } else {
        seq![]
    }) + seq![Op::WriteEpr(index, acknowledge(epr))]
}

/// Interrupt handler of the peripheral `T`.
pub struct InterruptHandler<T: Instance> {
    pub _phantom: PhantomData<T>,
}

impl<T: Instance> InterruptHandler<T> {
    /// Handles an interrupt, given ISTR. Returns the index of the endpoint on which a transfer is
    /// complete, if one is: its register has to be passed to `on_transfer` once the accesses
    /// listed here are done.
    pub fn on_interrupt(istr: u32, ops: &mut Vec<Op>) -> (r: Option<usize>)
        requires
            istr & ISTR_CTR != 0 ==> istr & 0xf < EP_COUNT,
        ensures
            final(ops)@ == old(ops)@ + bus_ops(istr),
            r is Some <==> istr & ISTR_CTR != 0,
            r matches Some(index) ==> index == istr & 0xf && index < EP_COUNT,
    {
        proof {
            lemma_istr(istr);
        }
        let ghost before = ops@;
        if istr_susp(istr) {
            ops.push(Op::Store(Flag::Suspend, true));
            ops.push(Op::ModifyCntr(true));
            // Write 0 to clear.
            ops.push(Op::WriteIstr(istr_set_susp(!0u32, false)));
            // Wake the main thread.
            ops.push(Op::Wake(Waker::Bus));
        }
        if istr_wkup(istr) {
            ops.push(Op::Store(Flag::Resume, true));
            ops.push(Op::ModifyCntr(false));
            // Write 0 to clear.
            ops.push(Op::WriteIstr(istr_set_wkup(!0u32, false)));
            // Wake the main thread.
            ops.push(Op::Wake(Waker::Bus));
        }
        if istr_reset(istr) {
            ops.push(Op::Store(Flag::Reset, true));
            // Write 0 to clear.
            ops.push(Op::WriteIstr(istr_set_reset(!0u32, false)));
            // Wake the main thread.
            ops.push(Op::Wake(Waker::Bus));
        }
        proof {
            assert(ops@ =~= before + bus_ops(istr));
        }
        if istr_ctr(istr) {
            Some(istr_ep_id(istr) as usize)
        } else {
            None
        }
    }

    /// Handles a completed transfer on endpoint `index`, given the endpoint's register.
    pub fn on_transfer(index: usize, epr: u32, ops: &mut Vec<Op>)
        requires
            index < EP_COUNT,
        ensures
            final(ops)@ == old(ops)@ + transfer_ops(index, epr),
    {
        let ghost before = ops@;
        let rx = epr_ctr_rx(epr);
        let tx = epr_ctr_tx(epr);
        if rx {
            ops.push(Op::Store(Flag::RxComplete(index), true));
            if index == 0 && epr_setup(epr) {
                ops.push(Op::Store(Flag::Ep0Setup, true));
            }
            ops.push(Op::Wake(Waker::EpOut(index)));
        }
        if tx {
            ops.push(Op::Store(Flag::TxPending(index), false));
            ops.push(Op::Wake(Waker::EpIn(index)));
        }
        let w: u32 = epr_set_dtog_rx(epr, false);
        let w: u32 = epr_set_dtog_tx(w, false);
        let w: u32 = epr_set_stat_rx(w, 0);
        let w: u32 = epr_set_stat_tx(w, 0);
        let w: u32 = epr_set_ctr_rx(w, !rx);
        let w: u32 = epr_set_ctr_tx(w, !tx);
        proof {
            lemma_acknowledge_bits(epr, rx, tx);
        }
        ops.push(Op::WriteEpr(index, w));
        proof {
            assert(ops@ =~= before + transfer_ops(index, epr));
        }
    }

    /// CNTR with suspend mode entered or left.
    pub fn suspend_cntr(cntr: u32, suspended: bool) -> (r: u32)
        ensures
            r == (if suspended {
                cntr | CNTR_SUSPEND
            } else {
                cntr & !CNTR_SUSPEND
            }),
    {
        let w: u32 = cntr_set_fsusp(cntr, suspended);
        proof {
            lemma_suspend_bits(cntr);
        }
        cntr_set_lpmode(w, suspended)
    }
}

proof fn lemma_istr(istr: u32)
    by (bit_vector)
    ensures
        crate::regs::bit(istr, 11) == (istr & 0x800 != 0),
        crate::regs::bit(istr, 12) == (istr & 0x1000 != 0),
        crate::regs::bit(istr, 10) == (istr & 0x400 != 0),
        crate::regs::bit(istr, 15) == (istr & 0x8000 != 0),
        crate::regs::with_bit(!0u32, 11, false) == !0x800u32,
        crate::regs::with_bit(!0u32, 12, false) == !0x1000u32,
        crate::regs::with_bit(!0u32, 10, false) == !0x400u32,
{
}

proof fn lemma_acknowledge_bits(epr: u32, rx: bool, tx: bool)
    by (bit_vector)
    requires
        rx == crate::regs::bit(epr, 15),
        tx == crate::regs::bit(epr, 7),
    ensures
        crate::regs::with_bit(
            crate::regs::with_bit(
                crate::regs::with_pair(
                    crate::regs::with_pair(crate::regs::with_bit(crate::regs::with_bit(epr, 14, false), 6, false), 12, 0),
                    4,
                    0,
                ),
                15,
                !rx,
            ),
            7,
            !tx,
        ) == (epr & 0xffff_8f8f) ^ 0x8080,
{
}

proof fn lemma_suspend_bits(cntr: u32)
    by (bit_vector)
    ensures
        crate::regs::with_bit(crate::regs::with_bit(cntr, 3, true), 2, true) == cntr | 0xc,
        crate::regs::with_bit(crate::regs::with_bit(cntr, 3, false), 2, false) == cntr & !0xcu32,
{
}

/// Clearing one bus event leaves all others pending.
pub proof fn law_clear_one_event(held: u32)
    ensures
        istr_after_write(held, !ISTR_SUSP) == held & !ISTR_SUSP,
        istr_after_write(held, !ISTR_WKUP) == held & !ISTR_WKUP,
        istr_after_write(held, !ISTR_RESET) == held & !ISTR_RESET,
        istr_after_write(held, !ISTR_SUSP) & ISTR_SUSP == 0,
        istr_after_write(held, !ISTR_WKUP) & ISTR_WKUP == 0,
        istr_after_write(held, !ISTR_RESET) & ISTR_RESET == 0,
        istr_after_write(held, !ISTR_SUSP) | ISTR_SUSP == held | ISTR_SUSP,
        istr_after_write(held, !ISTR_WKUP) | ISTR_WKUP == held | ISTR_WKUP,
        istr_after_write(held, !ISTR_RESET) | ISTR_RESET == held | ISTR_RESET,
{
    assert((held & !0x800u32) & 0x800 == 0 && (held & !0x1000u32) & 0x1000 == 0 && (held & !0x400u32) & 0x400 == 0 && (held
        & !0x800u32) | 0x800 == held | 0x800 && (held & !0x1000u32) | 0x1000 == held | 0x1000 && (held & !0x400u32)
        | 0x400 == held | 0x400) by (bit_vector);
}

/// Acknowledging a transfer clears exactly the transfer flags that were read as set: a flag that
/// is raised after the register was read stays, and no toggle or status changes.
pub proof fn law_acknowledge(epr: u32, raised: u32)
    requires
        raised & !0x8080u32 == 0,
    ensures
        crate::epr::after_write(epr | raised, acknowledge(epr)) == ((epr | raised) & !(epr & 0x8080)) & 0xffff,
{
    let a = epr;
    let b = raised;
    assert((((a | b) & ((a & 0xffff_8f8f) ^ 0x8080)) & 0x8080) | (((a | b) ^ ((a & 0xffff_8f8f) ^ 0x8080)) & 0x7070) | ((
    a | b) & 0x0800) | (((a & 0xffff_8f8f) ^ 0x8080) & 0x070f) == ((a | b) & !(a & 0x8080)) & 0xffff) by (bit_vector)
        requires
            b & !0x8080u32 == 0,
    ;
}

/// Leaving suspend mode undoes entering it, for every other bit of CNTR and, if the peripheral
/// was not in suspend mode, for all of them.
pub proof fn law_suspend_resume(cntr: u32)
    ensures
        (cntr | CNTR_SUSPEND) & !CNTR_SUSPEND == cntr & !CNTR_SUSPEND,
        cntr & CNTR_SUSPEND == 0 ==> (cntr | CNTR_SUSPEND) & !CNTR_SUSPEND == cntr,
{
    assert((cntr | 0xc) & !0xcu32 == cntr & !0xcu32 && (cntr & 0xc == 0 ==> (cntr | 0xc) & !0xcu32 == cntr))
        by (bit_vector);
}

/// The interrupt handler sets the flag of each bus event in ISTR, wakes the task that polls the
/// bus if there is any, and leaves the flags of the other events.
pub proof fn law_bus_events_flagged(istr: u32, held: bool)
    ensures
        crate::types::flag_after(held, Flag::Suspend, bus_ops(istr)) == (held || istr & ISTR_SUSP != 0),
        crate::types::flag_after(held, Flag::Resume, bus_ops(istr)) == (held || istr & ISTR_WKUP != 0),
        crate::types::flag_after(held, Flag::Reset, bus_ops(istr)) == (held || istr & ISTR_RESET != 0),
        istr & ISTR_SUSP != 0 || istr & ISTR_WKUP != 0 || istr & ISTR_RESET != 0 ==> bus_ops(istr).last() == Op::Wake(
            Waker::Bus,
        ),
{
    let s = if istr & ISTR_SUSP != 0 {
        suspend_ops()
    } else {
        seq![]
    };
    let w = if istr & ISTR_WKUP != 0 {
        resume_ops()
    } else {
        seq![]
    };
    let r = if istr & ISTR_RESET != 0 {
        reset_ops()
    } else {
        seq![]
    };
    assert forall|h: bool, flag: Flag|
        #![trigger crate::types::flag_after(h, flag, s)]
        crate::types::flag_after(h, flag, s) == (h || (flag == Flag::Suspend && istr & ISTR_SUSP != 0)) by {
        reveal_with_fuel(crate::types::flag_after, 5);
    }
    assert forall|h: bool, flag: Flag|
        #![trigger crate::types::flag_after(h, flag, w)]
        crate::types::flag_after(h, flag, w) == (h || (flag == Flag::Resume && istr & ISTR_WKUP != 0)) by {
        reveal_with_fuel(crate::types::flag_after, 5);
    }
    assert forall|h: bool, flag: Flag|
        #![trigger crate::types::flag_after(h, flag, r)]
        crate::types::flag_after(h, flag, r) == (h || (flag == Flag::Reset && istr & ISTR_RESET != 0)) by {
        reveal_with_fuel(crate::types::flag_after, 5);
    }
    assert forall|flag: Flag|
        #![trigger crate::types::flag_after(held, flag, bus_ops(istr))]
        crate::types::flag_after(held, flag, bus_ops(istr)) == crate::types::flag_after(
            crate::types::flag_after(crate::types::flag_after(held, flag, s), flag, w),
            flag,
            r,
        ) by {
        crate::types::lemma_flag_after_add(held, flag, s + w, r);
        crate::types::lemma_flag_after_add(held, flag, s, w);
    }
}

/// The interrupt handler reports a received packet, a SETUP packet on endpoint 0 as such too, and
/// a sent packet by the flags of the endpoint, and leaves all other flags.
pub proof fn law_transfer_flagged(index: usize, epr: u32, flag: Flag, held: bool)
    ensures
        crate::types::flag_after(held, flag, transfer_ops(index, epr)) == (if flag == Flag::RxComplete(index)
            && crate::epr::ctr_rx(epr) {
            true
        } else if flag == Flag::Ep0Setup && index == 0 && crate::epr::ctr_rx(epr) && crate::epr::setup(epr) {
            true
        } else if flag == Flag::TxPending(index) && crate::epr::ctr_tx(epr) {
            false
        } else {
            held
        }),
{
    let head = seq![Op::Store(Flag::RxComplete(index), true)];
    let setup = if index == 0 && crate::epr::setup(epr) {
        seq![Op::Store(Flag::Ep0Setup, true)]
    } else {
        seq![]
    };
    let wake = seq![Op::Wake(Waker::EpOut(index))];
    let rx = if crate::epr::ctr_rx(epr) {
        head + setup + wake
    } else {
        seq![]
    };
    let tx = if crate::epr::ctr_tx(epr) {
        seq![Op::Store(Flag::TxPending(index), false), Op::Wake(Waker::EpIn(index))]
    } else {
        seq![]
    };
    let last = seq![Op::WriteEpr(index, acknowledge(epr))];
    reveal_with_fuel(crate::types::flag_after, 3);
    crate::types::lemma_flag_after_add(held, flag, rx + tx, last);
    crate::types::lemma_flag_after_add(held, flag, rx, tx);
    crate::types::lemma_flag_after_add(held, flag, head + setup, wake);
    crate::types::lemma_flag_after_add(held, flag, head, setup);
    assert(transfer_ops(index, epr) =~= rx + tx + last);
}

proof fn lemma_events_cleared(held: u32, istr: u32)
    by (bit_vector)
    ensures
        ({
            let a = if istr & 0x800 != 0 {
                held & !0x800u32
            } else {
                held
            };
            let b = if istr & 0x1000 != 0 {
                a & !0x1000u32
            } else {
                a
            };
            (if istr & 0x400 != 0 {
                b & !0x400u32
            } else {
                b
            }) == held & !(istr & 0x1c00)
        }),
        (istr & 0x1c00 != 0) == (istr & 0x800 != 0 || istr & 0x1000 != 0 || istr & 0x400 != 0),
        (held | 0xc) & !0xcu32 == held & !0xcu32,
{
}

proof fn lemma_istr_after_add(held: u32, cntr: u32, a: Seq<Op>, b: Seq<Op>)
    ensures
        crate::model::istr_after(held, a + b) == crate::model::istr_after(crate::model::istr_after(held, a), b),
        crate::model::cntr_after(cntr, a + b) == crate::model::cntr_after(crate::model::cntr_after(cntr, a), b),
    decreases b.len(),
{
    if b.len() == 0 {
        assert(a + b =~= a);
    } else {
        assert((a + b).drop_last() =~= a + b.drop_last());
        lemma_istr_after_add(held, cntr, a, b.drop_last());
    }
}

proof fn lemma_event_ops(held: u32, cntr: u32)
    ensures
        crate::model::istr_after(held, suspend_ops()) == held & !ISTR_SUSP,
        crate::model::istr_after(held, resume_ops()) == held & !ISTR_WKUP,
        crate::model::istr_after(held, reset_ops()) == held & !ISTR_RESET,
        crate::model::cntr_after(cntr, suspend_ops()) == cntr | 0xc,
        crate::model::cntr_after(cntr, resume_ops()) == cntr & !0xcu32,
        crate::model::cntr_after(cntr, reset_ops()) == cntr,
{
    reveal_with_fuel(crate::model::istr_after, 5);
    reveal_with_fuel(crate::model::cntr_after, 5);
}

/// The interrupt handler clears exactly the bus events that it read, even if others were raised
/// since, enters suspend mode on a suspend and leaves it on a resume, which counts if both are
/// there, and wakes the task that polls the bus if and only if there is an event, after all else.
/// It sets the flags of the events and no other flag, and touches nothing else. No flag is set
/// after the event that it stands for is cleared.
pub proof fn law_bus_events(istr: u32, held: u32, cntr: u32, waker: Waker, flag: Flag, stored: bool)
    ensures
        ({
            let ops = bus_ops(istr);
            &&& crate::model::istr_after(held, ops) == held & !(istr & 0x1c00)
            &&& crate::model::cntr_after(cntr, ops) == (if istr & 0x1000 != 0 {
                cntr & !0xcu32
            } else if istr & 0x800 != 0 {
                cntr | 0xc
            } else {
                cntr
            })
            &&& ops.contains(Op::Wake(waker)) <==> waker == Waker::Bus && istr & 0x1c00 != 0
            &&& istr & 0x1c00 != 0 ==> ops.last() == Op::Wake(Waker::Bus)
            &&& crate::types::flag_after(stored, flag, ops) == (stored || (flag == Flag::Suspend && istr & 0x800 != 0) || (
            flag == Flag::Resume && istr & 0x1000 != 0) || (flag == Flag::Reset && istr & 0x400 != 0))
            &&& forall|i: int|
                0 <= i < ops.len() ==> (#[trigger] ops[i]) is Store || ops[i] is Wake || ops[i] is ModifyCntr
                    || ops[i] is WriteIstr
            &&& forall|i: int, j: int|
                0 <= i < j < ops.len() ==> match (#[trigger] ops[i], #[trigger] ops[j]) {
                    (Op::WriteIstr(w), Op::Store(f, _)) => {
                        &&& f == Flag::Suspend ==> w != !0x800u32
                        &&& f == Flag::Resume ==> w != !0x1000u32
                        &&& f == Flag::Reset ==> w != !0x400u32
                    },
                    _ => true,
                }
        }),
{
    let ops = bus_ops(istr);
    let none = Seq::<Op>::empty();
    let s = if istr & ISTR_SUSP != 0 {
        suspend_ops()
    } else {
        none
    };
    let w = if istr & ISTR_WKUP != 0 {
        resume_ops()
    } else {
        none
    };
    let r = if istr & ISTR_RESET != 0 {
        reset_ops()
    } else {
        none
    };
    assert(ops == s + w + r);
    lemma_events_cleared(held, istr);
    lemma_events_cleared(cntr, istr);
    lemma_istr_after_add(held, cntr, s + w, r);
    lemma_istr_after_add(held, cntr, s, w);
    let h1 = crate::model::istr_after(held, s);
    let c1 = crate::model::cntr_after(cntr, s);
    let h2 = crate::model::istr_after(h1, w);
    let c2 = crate::model::cntr_after(c1, w);
    lemma_event_ops(held, cntr);
    lemma_event_ops(h1, c1);
    lemma_event_ops(h2, c2);
    lemma_bus_wakes(istr);
    assert(!0x800u32 != !0x1000u32 && !0x800u32 != !0x400u32 && !0x1000u32 != !0x400u32) by (bit_vector);
    law_bus_events_flagged(istr, stored);
    if flag != Flag::Suspend && flag != Flag::Resume && flag != Flag::Reset {
        lemma_other_flags(ops, flag, stored);
    }
}

proof fn lemma_bus_wakes(istr: u32)
    ensures
        istr & ISTR_SUSP != 0 || istr & ISTR_WKUP != 0 || istr & ISTR_RESET != 0 ==> bus_ops(istr).contains(
            Op::Wake(Waker::Bus),
        ),
        bus_ops(istr).contains(Op::Wake(Waker::Bus)) ==> istr & ISTR_SUSP != 0 || istr & ISTR_WKUP != 0 || istr
            & ISTR_RESET != 0,
        forall|i: int|
            0 <= i < bus_ops(istr).len() ==> match #[trigger] bus_ops(istr)[i] {
                Op::Store(f, _) => f == Flag::Suspend || f == Flag::Resume || f == Flag::Reset,
                Op::Wake(w) => w == Waker::Bus,
                Op::ModifyCntr(_) | Op::WriteIstr(_) => true,
                _ => false,
            },
{
    let ops = bus_ops(istr);
    if ops.len() > 0 {
        law_bus_events_flagged(istr, true);
        assert(ops[ops.len() - 1] == Op::Wake(Waker::Bus));
    }
}

proof fn lemma_other_flags(ops: Seq<Op>, flag: Flag, held: bool)
    requires
        forall|i: int| 0 <= i < ops.len() ==> !((#[trigger] ops[i]) matches Op::Store(f, _) && f == flag),
    ensures
        crate::types::flag_after(held, flag, ops) == held,
    decreases ops.len(),
{
    if ops.len() > 0 {
        let rest = ops.drop_last();
        assert(ops.last() == ops[ops.len() - 1]);
        assert forall|i: int| 0 <= i < rest.len() implies !((#[trigger] rest[i]) matches Op::Store(f, _) && f == flag) by {
            assert(rest[i] == ops[i]);
        }
        lemma_other_flags(rest, flag, held);
    }
}

/// A completed transfer wakes the task on the OUT endpoint exactly if a packet was received, the
/// task on the IN endpoint exactly if one was sent, and no other task. The flags are up to date
/// before the task that they concern is woken.
pub proof fn law_transfer_wakes(index: usize, epr: u32, waker: Waker)
    ensures
        ({
            let ops = transfer_ops(index, epr);
            &&& ops.contains(Op::Wake(waker)) <==> (waker == Waker::EpOut(index) && epr & 0x8000 != 0) || (waker
                == Waker::EpIn(index) && epr & 0x80 != 0)
            &&& forall|i: int, j: int|
                0 <= i < j < ops.len() && #[trigger] ops[i] == Op::Wake(Waker::EpOut(index)) && (#[trigger] ops[j]) is Store
                    ==> ops[j] == Op::Store(Flag::TxPending(index), false)
            &&& forall|i: int, j: int|
                0 <= i < j < ops.len() && #[trigger] ops[i] == Op::Wake(Waker::EpIn(index)) ==> !((#[trigger] ops[j]) is Store)
        }),
{
    let ops = transfer_ops(index, epr);
    crate::epr::law_fields(epr);
    let n: int = if crate::epr::ctr_rx(epr) {
        if index == 0 && crate::epr::setup(epr) {
            3
        } else {
            2
        }
    } else {
        0
    };
    if crate::epr::ctr_rx(epr) {
        assert(ops[n - 1] == Op::Wake(Waker::EpOut(index)));
    }
    if crate::epr::ctr_tx(epr) {
        assert(ops[n + 1] == Op::Wake(Waker::EpIn(index)));
    }
}

/// Handling a completed transfer clears exactly the transfer flags of the endpoint that were read
/// as set, even if others were raised since, changes nothing else of its register, leaves the
/// registers of all other endpoints, and touches nothing but registers, flags and tasks.
pub proof fn law_transfer_acknowledged(index: usize, epr: u32, raised: u32, other: usize, held: u32)
    requires
        raised & !0x8080u32 == 0,
        other != index,
    ensures
        ({
            let ops = transfer_ops(index, epr);
            &&& crate::model::epr_after(epr | raised, index, ops) == ((epr | raised) & !(epr & 0x8080)) & 0xffff
            &&& crate::model::epr_after(held, other, ops) == held
            &&& forall|i: int|
                0 <= i < ops.len() ==> match #[trigger] ops[i] {
                    Op::Store(..) | Op::Wake(_) => true,
                    Op::WriteEpr(k, w) => k == index && i == ops.len() - 1 && w & 0xffff_0000 == epr & 0xffff_0000,
                    _ => false,
                }
        }),
{
    let ops = transfer_ops(index, epr);
    let rest = ops.drop_last();
    assert(((epr & 0xffff_8f8f) ^ 0x8080) & 0xffff_0000 == epr & 0xffff_0000) by (bit_vector);
    assert(ops.last() == Op::WriteEpr(index, acknowledge(epr)));
    assert forall|i: int| 0 <= i < rest.len() implies !((#[trigger] rest[i]) is WriteEpr) by {
        assert(rest[i] == ops[i]);
    }
    crate::model::lemma_epr_after_none(epr | raised, index, rest);
    crate::model::lemma_epr_after_none(held, other, rest);
    law_acknowledge(epr, raised);
}

} // verus!
