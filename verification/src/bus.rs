//! The bus.

use vstd::prelude::*;
use core::marker::PhantomData;
use crate::address::EndpointAddress;
use crate::epr;
use crate::instance::Instance;
use crate::regs::{daddr_set_add, daddr_set_ef, epr_ep_type, epr_stat_rx, epr_stat_tx, EpType, Stat};
use crate::types::{Direction, Event, Flag, Next, Op, Unsupported, Waker, EP_COUNT};

verus! {

/// The USB bus of the peripheral `T`.
pub struct Bus<'d, T: Instance> {
    pub phantom: PhantomData<&'d mut T>,
    /// Types of the endpoints from 1 up.
    pub ep_types: [EpType; 7],
    /// Whether bus power was reported.
    pub inited: bool,
}

/// DADDR with the function enabled and with this address.
pub open spec fn daddr_word(addr: u8) -> u32 {
    (0x80 + addr as int % 0x80) as u32
}

/// DADDR with the function enabled and with this address.
pub(crate) fn daddr(addr: u8) -> (r: u32)
    ensures
        r == daddr_word(addr),
{
    let w: u32 = daddr_set_ef(0, true);
    proof {
        let a = addr as u32;
        assert((crate::regs::with_bit(0, 7, true) & !0x7fu32) | (a & 0x7f) == 0x80 + a % 0x80) by (bit_vector);
    }
    daddr_set_add(w, addr)
}

/// The word that readies endpoint 0 after a bus reset.
pub open spec fn ep0_reset_word() -> u32 {
    epr::word(EpType::Control, 0, Stat::Nak.bits(), Stat::Nak.bits(), false, false)
}

/// The word that readies the endpoint register with this index after a bus reset.
pub open spec fn ep_reset_word(ep_type: EpType, index: int) -> u32 {
    epr::word(ep_type, index as u32, 0, 0, false, false)
}

/// The accesses after a bus reset: device address 0, endpoint 0 ready for a SETUP packet, the
/// others disabled, all tasks woken.
pub open spec fn bus_reset_ops(ep_types: Seq<EpType>) -> Seq<Op> {
    seq![
        Op::Store(Flag::Reset, false),
        Op::WriteDaddr(daddr_word(0)),
        Op::WriteEpr(0, ep0_reset_word()),
    ] + Seq::new(7, |i: int| Op::WriteEpr((i + 1) as usize, ep_reset_word(ep_types[i], i + 1))) + Seq::new(
        EP_COUNT as nat,
        |i: int| Op::Wake(Waker::EpIn(i as usize)),
    ) + Seq::new(EP_COUNT as nat, |i: int| Op::Wake(Waker::EpOut(i as usize)))
}

/// The waker of the task on this endpoint.
pub open spec fn endpoint_waker(addr: EndpointAddress) -> Waker {
    match addr.spec_direction() {
        Direction::In => Waker::EpIn(addr.spec_index() as usize),
        Direction::Out => Waker::EpOut(addr.spec_index() as usize),
    }
}

/// The status of this direction.
pub open spec fn stat_of(dir: Direction, epr: u32) -> Stat {
    match dir {
        Direction::In => epr::stat_tx(epr),
        Direction::Out => epr::stat_rx(epr),
    }
}

/// The word that turns the status of this direction into `to`.
pub open spec fn change_of(dir: Direction, epr: u32, to: Stat) -> u32 {
    match dir {
        Direction::In => epr::change_tx(epr, to),
        Direction::Out => epr::change_rx(epr, to),
    }
}

/// The status that a stalled or no longer stalled endpoint is to get.
pub open spec fn stalled_stat(dir: Direction, stalled: bool) -> Stat {
    if stalled {
        Stat::Stall
    } else if dir == Direction::In {
        Stat::Nak
    } else {
        Stat::Valid
    }
}

/// The status that an enabled or disabled endpoint of this type is to get.
pub open spec fn enabled_stat(dir: Direction, enabled: bool, ep_type: EpType) -> Stat {
    if !enabled {
        Stat::Disabled
    } else if dir == Direction::In && ep_type != EpType::Iso {
        Stat::Nak
    } else {
        Stat::Valid
    }
}

/// Whether there is no more to do to stall an endpoint: it is disabled or stalled.
pub open spec fn stall_done(stat: Stat) -> bool {
    stat == Stat::Disabled || stat == Stat::Stall
}

impl<'d, T: Instance> Bus<'d, T> {
    /// The event that is reported for these flags: power once, then resume before reset before
    /// suspend.
    pub open spec fn next_event(&self, resume: bool, reset: bool, suspend: bool) -> Option<Event> {
        if !self.inited {
            Some(Event::PowerDetected)
        } else if resume {
            Some(Event::Resume)
        } else if reset {
            Some(Event::Reset)
        } else if suspend {
            Some(Event::Suspend)
        } else {
            None
        }
    }

    /// The accesses that go with an event.
    pub open spec fn event_ops(&self, event: Option<Event>) -> Seq<Op> {
        match event {
            Some(Event::Resume) => seq![Op::Store(Flag::Resume, false)],
            Some(Event::Reset) => bus_reset_ops(self.ep_types@),
            Some(Event::Suspend) => seq![Op::Store(Flag::Suspend, false)],
            Some(Event::PowerDetected) | None => seq![],
        }
    }

    /// Looks for a bus event, given the flags that the interrupt handler sets; `None` if the task
    /// has to wait.
    pub fn poll(&mut self, resume: bool, reset: bool, suspend: bool, ops: &mut Vec<Op>) -> (r: Option<Event>)
        ensures
            r == old(self).next_event(resume, reset, suspend),
            final(ops)@ == old(ops)@ + old(self).event_ops(r),
            final(self).inited,
            final(self).ep_types == old(self).ep_types,
    {
        if !self.inited {
            self.inited = true;
            return Some(Event::PowerDetected);
        }
        if resume {
            ops.push(Op::Store(Flag::Resume, false));
            return Some(Event::Resume);
        }
        if reset {
            self.reset(ops);
            return Some(Event::Reset);
        }
        if suspend {
            ops.push(Op::Store(Flag::Suspend, false));
            return Some(Event::Suspend);
        }
        None
    }

    /// Lists the accesses after a bus reset.
    fn reset(&self, ops: &mut Vec<Op>)
        ensures
            final(ops)@ == old(ops)@ + bus_reset_ops(self.ep_types@),
    {
        let ghost before = ops@;
        let ghost all = bus_reset_ops(self.ep_types@);
        ops.push(Op::Store(Flag::Reset, false));
        ops.push(Op::WriteDaddr(daddr(0)));
        let nak: u8 = Stat::Nak.to_bits();
        ops.push(Op::WriteEpr(0, epr::build(EpType::Control, 0, nak, nak, false, false)));
        let mut i: usize = 1;
        assert(ops@ =~= before + all.take(3));
        while i < EP_COUNT
            invariant
                1 <= i <= EP_COUNT,
                all == bus_reset_ops(self.ep_types@),
                ops@ == before + all.take(i + 2),
            decreases EP_COUNT - i,
        {
            let word: u32 = epr::build(self.ep_types[i - 1], i as u8, 0, 0, false, false);
            ops.push(Op::WriteEpr(i, word));
            assert(all.take(i + 3) =~= all.take(i + 2).push(all[i + 2]));
            i = i + 1;
        }
        i = 0;
        while i < EP_COUNT
            invariant
                i <= EP_COUNT,
                all == bus_reset_ops(self.ep_types@),
                ops@ == before + all.take(i + 10),
            decreases EP_COUNT - i,
        {
            ops.push(Op::Wake(Waker::EpIn(i)));
            assert(all.take(i + 11) =~= all.take(i + 10).push(all[i + 10]));
            i = i + 1;
        }
        i = 0;
        while i < EP_COUNT
            invariant
                i <= EP_COUNT,
                all == bus_reset_ops(self.ep_types@),
                ops@ == before + all.take(i + 18),
            decreases EP_COUNT - i,
        {
            ops.push(Op::Wake(Waker::EpOut(i)));
            assert(all.take(i + 19) =~= all.take(i + 18).push(all[i + 18]));
            i = i + 1;
        }
        assert(all.take(26) =~= all);
    }

    /// One round of stalling an endpoint, given the endpoint's register; with `stalled` not set,
    /// one round of making an endpoint that is not stalled ready instead.
    ///
    /// The hardware may change the register at any time, so this goes on until the register is
    /// read as disabled or stalled, whatever `stalled` is. An endpoint that is stalled stays so.
    pub fn endpoint_set_stalled(&mut self, ep_addr: EndpointAddress, stalled: bool, epr: u32, ops: &mut Vec<Op>) -> (r:
        Next<(), ()>)
        requires
            ep_addr.spec_index() < EP_COUNT,
        ensures
            *final(self) == *old(self),
            ({
                let dir = ep_addr.spec_direction();
                if stall_done(stat_of(dir, epr)) {
                    &&& r == Next::<(), ()>::Done(())
                    &&& final(ops)@ == old(ops)@.push(Op::Wake(endpoint_waker(ep_addr)))
                } else {
                    &&& r == Next::<(), ()>::Sample(())
                    &&& final(ops)@ == old(ops)@.push(
                        Op::WriteEpr(
                            ep_addr.spec_index() as usize,
                            change_of(dir, epr, stalled_stat(dir, stalled)),
                        ),
                    )
                }
            }),
    {
        let index: usize = ep_addr.index();
        match ep_addr.direction() {
            Direction::In => match epr_stat_tx(epr) {
                Stat::Disabled | Stat::Stall => {
                    ops.push(Op::Wake(Waker::EpIn(index)));
                    Next::Done(())
                },
                _ => {
                    let want_stat = if stalled {
                        Stat::Stall
                    } else {
                        Stat::Nak
                    };
                    ops.push(Op::WriteEpr(index, epr::set_tx(epr, want_stat)));
                    Next::Sample(())
                },
            },
            Direction::Out => match epr_stat_rx(epr) {
                Stat::Disabled | Stat::Stall => {
                    ops.push(Op::Wake(Waker::EpOut(index)));
                    Next::Done(())
                },
                _ => {
                    let want_stat = if stalled {
                        Stat::Stall
                    } else {
                        Stat::Valid
                    };
                    ops.push(Op::WriteEpr(index, epr::set_rx(epr, want_stat)));
                    Next::Sample(())
                },
            },
        }
    }

    /// Whether an endpoint is stalled, given the endpoint's register.
    pub fn endpoint_is_stalled(&mut self, ep_addr: EndpointAddress, epr: u32) -> (r: bool)
        ensures
            *final(self) == *old(self),
            r == (stat_of(ep_addr.spec_direction(), epr) == Stat::Stall),
    {
        match ep_addr.direction() {
            Direction::In => epr_stat_tx(epr) == Stat::Stall,
            Direction::Out => epr_stat_rx(epr) == Stat::Stall,
        }
    }

    /// One round of enabling or disabling an endpoint, given the endpoint's register read twice:
    /// `kind` tells the endpoint's type, which matters for enabling an IN endpoint, and `epr` is
    /// read after it.
    ///
    /// The hardware may change the register at any time, so this goes on until the register is
    /// read with the status wanted.
    pub fn endpoint_set_enabled(
        &mut self,
        ep_addr: EndpointAddress,
        enabled: bool,
        kind: u32,
        epr: u32,
        ops: &mut Vec<Op>,
    ) -> (r: Next<(), ()>)
        requires
            ep_addr.spec_index() < EP_COUNT,
        ensures
            *final(self) == *old(self),
            ({
                let dir = ep_addr.spec_direction();
                let want = enabled_stat(dir, enabled, epr::ep_type(kind));
                if stat_of(dir, epr) == want {
                    &&& r == Next::<(), ()>::Done(())
                    &&& final(ops)@ == old(ops)@.push(Op::Wake(endpoint_waker(ep_addr)))
                } else {
                    &&& r == Next::<(), ()>::Sample(())
                    &&& final(ops)@ == old(ops)@.push(
                        Op::WriteEpr(ep_addr.spec_index() as usize, change_of(dir, epr, want)),
                    )
                }
            }),
    {
        let index: usize = ep_addr.index();
        match ep_addr.direction() {
            Direction::In => {
                let want_stat = if !enabled {
                    Stat::Disabled
                } else {
                    match epr_ep_type(kind) {
                        EpType::Iso => Stat::Valid,
                        _ => Stat::Nak,
                    }
                };
                if epr_stat_tx(epr) == want_stat {
                    ops.push(Op::Wake(Waker::EpIn(index)));
                    return Next::Done(());
                }
                ops.push(Op::WriteEpr(index, epr::set_tx(epr, want_stat)));
                Next::Sample(())
            },
            Direction::Out => {
                let want_stat = if !enabled {
                    Stat::Disabled
                } else {
                    Stat::Valid
                };
                if epr_stat_rx(epr) == want_stat {
                    ops.push(Op::Wake(Waker::EpOut(index)));
                    return Next::Done(());
                }
                ops.push(Op::WriteEpr(index, epr::set_rx(epr, want_stat)));
                Next::Sample(())
            },
        }
    }

    /// Enables the peripheral: there is nothing to do.
    pub fn enable(&mut self)
        ensures
            *final(self) == *old(self),
    {
    }

    /// Disables the peripheral: there is nothing to do.
    pub fn disable(&mut self)
        ensures
            *final(self) == *old(self),
    {
    }

    /// Waking the host up is not supported.
    pub fn remote_wakeup(&mut self) -> (r: Result<(), Unsupported>)
        ensures
            *final(self) == *old(self),
            r == Err::<(), Unsupported>(Unsupported),
    {
        Err(Unsupported)
    }
}

/// If the hardware does not interfere, stalling an endpoint that is not disabled takes at most
/// one write: the register then holds the status STALL in this direction and is otherwise as it
/// was, and the next round is the last.
pub proof fn law_stall_takes_one_write(dir: Direction, epr: u32)
    ensures
        !stall_done(stat_of(dir, epr)) ==> {
            let after = epr::after_write(epr, change_of(dir, epr, stalled_stat(dir, true)));
            &&& stat_of(dir, after) == Stat::Stall
            &&& stall_done(stat_of(dir, after))
            &&& after == crate::regs::with_pair(
                epr & 0xffff,
                if dir == Direction::In {
                    4
                } else {
                    12
                },
                Stat::Stall.bits(),
            )
        },
{
    epr::law_change(epr, Stat::Stall);
}

/// If the hardware does not interfere, enabling or disabling an endpoint takes at most one write:
/// the register then holds the status wanted in this direction and is otherwise as it was, and
/// the next round is the last.
pub proof fn law_enable_takes_one_write(dir: Direction, enabled: bool, epr: u32)
    ensures
        ({
            let want = enabled_stat(dir, enabled, epr::ep_type(epr));
            let after = epr::after_write(epr, change_of(dir, epr, want));
            &&& stat_of(dir, after) == want
            &&& enabled_stat(dir, enabled, epr::ep_type(after)) == want
            &&& after == crate::regs::with_pair(
                epr & 0xffff,
                if dir == Direction::In {
                    4
                } else {
                    12
                },
                want.bits(),
            )
        }),
{
    epr::law_change(epr, enabled_stat(dir, enabled, epr::ep_type(epr)));
}

impl<'d, T: Instance> Bus<'d, T> {
    /// The flags resume, reset and suspend after these flags were polled.
    pub open spec fn flags_after_poll(&self, flags: (bool, bool, bool)) -> (bool, bool, bool) {
        let ops = self.event_ops(self.next_event(flags.0, flags.1, flags.2));
        (
            crate::types::flag_after(flags.0, Flag::Resume, ops),
            crate::types::flag_after(flags.1, Flag::Reset, ops),
            crate::types::flag_after(flags.2, Flag::Suspend, ops),
        )
    }

    /// Reporting an event clears the flag it stands for and no other.
    pub proof fn law_event_clears_its_flag(self, resume: bool, reset: bool, suspend: bool)
        ensures
            self.flags_after_poll((resume, reset, suspend)) == (match self.next_event(resume, reset, suspend) {
                Some(Event::Resume) => (false, reset, suspend),
                Some(Event::Reset) => (resume, false, suspend),
                Some(Event::Suspend) => (resume, reset, false),
                Some(Event::PowerDetected) | None => (resume, reset, suspend),
            }),
    {
        let ops = self.event_ops(self.next_event(resume, reset, suspend));
        if ops.len() > 0 {
            let head = ops.take(1);
            let tail = ops.skip(1);
            assert(ops =~= head + tail);
            assert(head.drop_last() =~= seq![]);
            assert(head.last() == ops[0]);
            assert forall|i: int| 0 <= i < tail.len() implies !(#[trigger] tail[i] is Store) by {
                assert(tail[i] == ops[i + 1]);
            }
            assert forall|held: bool, flag: Flag|
                #![trigger crate::types::flag_after(held, flag, ops)]
                crate::types::flag_after(held, flag, ops) == crate::types::flag_after(held, flag, head) by {
                crate::types::lemma_flag_after_add(held, flag, head, tail);
                crate::types::lemma_flag_after_none(crate::types::flag_after(held, flag, head), flag, tail);
            }
            assert forall|held: bool, flag: Flag|
                #![trigger crate::types::flag_after(held, flag, head)]
                crate::types::flag_after(held, flag, head) == (match ops[0] {
                    Op::Store(f, v) if f == flag => v,
                    _ => held,
                }) by {
                assert(crate::types::flag_after(held, flag, head.drop_last()) == held);
            }
        }
    }

    /// Polling again and again reports power first, and then each event whose flag is set exactly
    /// once, in the order resume, reset, suspend, until there is nothing left.
    pub proof fn law_poll_reports_all(self, resume: bool, reset: bool, suspend: bool)
        ensures
            self.next_event(resume, reset, suspend) == Some(Event::PowerDetected) <==> !self.inited,
            self.inited ==> {
                let f0 = (resume, reset, suspend);
                let e0 = self.next_event(f0.0, f0.1, f0.2);
                let f1 = self.flags_after_poll(f0);
                let e1 = self.next_event(f1.0, f1.1, f1.2);
                let f2 = self.flags_after_poll(f1);
                let e2 = self.next_event(f2.0, f2.1, f2.2);
                let f3 = self.flags_after_poll(f2);
                &&& f3 == (false, false, false)
                &&& self.next_event(f3.0, f3.1, f3.2) is None
                &&& resume ==> e0 == Some(Event::Resume)
                &&& reset ==> (if resume {
                    e1
                } else {
                    e0
                }) == Some(Event::Reset)
                &&& suspend ==> (if resume && reset {
                    e2
                } else if resume || reset {
                    e1
                } else {
                    e0
                }) == Some(Event::Suspend)
            },
    {
        let f0 = (resume, reset, suspend);
        self.law_event_clears_its_flag(f0.0, f0.1, f0.2);
        let f1 = self.flags_after_poll(f0);
        self.law_event_clears_its_flag(f1.0, f1.1, f1.2);
        let f2 = self.flags_after_poll(f1);
        self.law_event_clears_its_flag(f2.0, f2.1, f2.2);
    }
}

/// A bus reset zeroes the endpoint registers. What is written then leaves endpoint 0 a control
/// endpoint with both directions at NAK, and any other endpoint disabled in both directions, with
/// its type and with its index for a number.
pub proof fn law_bus_reset(ep_type: EpType, index: int)
    requires
        1 <= index < EP_COUNT,
    ensures
        ({
            let ep0 = epr::after_write(0, ep0_reset_word());
            let ep = epr::after_write(0, ep_reset_word(ep_type, index));
            &&& epr::stat_rx(ep0) == Stat::Nak
            &&& epr::stat_tx(ep0) == Stat::Nak
            &&& epr::ep_type(ep0) == EpType::Control
            &&& epr::stat_rx(ep) == Stat::Disabled
            &&& epr::stat_tx(ep) == Stat::Disabled
            &&& epr::ep_type(ep) == ep_type
            &&& ep & 0xf == index
        }),
{
    let w = ep_reset_word(ep_type, index);
    let t = ep_type.bits();
    let i = index as u32;
    assert(w == i + 0x200 * t);
    assert(crate::regs::pair(epr::after_write(0, w), 12) == 0 && crate::regs::pair(epr::after_write(0, w), 4) == 0
        && crate::regs::pair(epr::after_write(0, w), 9) == t && epr::after_write(0, w) & 0xf == i) by (bit_vector)
        requires
            w == i + 0x200 * t,
            i < 8,
            t < 4,
    ;
    let v = ep0_reset_word();
    assert(v == 0x2220);
    assert(crate::regs::pair(epr::after_write(0, 0x2220), 12) == 2 && crate::regs::pair(epr::after_write(0, 0x2220), 4)
        == 2 && crate::regs::pair(epr::after_write(0, 0x2220), 9) == 1) by (bit_vector);
}

/// One round of stalling an endpoint is the last exactly if the endpoint is read as disabled or
/// stalled in its direction. Otherwise it changes the status of that direction, and no other bit,
/// into STALL, or, if a stall is not wanted, into NAK for an IN and VALID for an OUT endpoint. No
/// transfer flag that is raised meanwhile is lost.
pub proof fn law_round_of_stalling(dir: Direction, stalled: bool, epr: u32, held: u32)
    ensures
        ({
            let n: u32 = if dir == Direction::In {
                4
            } else {
                12
            };
            let stat = Stat::of_bits(crate::regs::pair(epr, n));
            let word = change_of(dir, epr, stalled_stat(dir, stalled));
            let to: u32 = if stalled {
                1
            } else if dir == Direction::In {
                2
            } else {
                3
            };
            &&& stall_done(stat_of(dir, epr)) <==> stat == Stat::Disabled || stat == Stat::Stall
            &&& epr::after_write(epr, word) == crate::regs::with_pair(epr & 0xffff, n, to)
            &&& epr::ctr_rx(epr::after_write(held, word)) == epr::ctr_rx(held)
            &&& epr::ctr_tx(epr::after_write(held, word)) == epr::ctr_tx(held)
            &&& word & 0xffff_0000 == epr & 0xffff_0000
        }),
{
    let to = stalled_stat(dir, stalled);
    epr::law_change(epr, to);
    epr::law_change_keeps_flags(held, epr, to);
    lemma_high_half(dir, epr, to);
}

/// One round of enabling an endpoint is the last exactly if the status of its direction is read as
/// wanted: disabled, or NAK for an IN endpoint that is not isochronous, or VALID for any other one.
/// Otherwise it changes the status of that direction, and no other bit, into the one wanted. No
/// transfer flag that is raised meanwhile is lost.
pub proof fn law_round_of_enabling(dir: Direction, enabled: bool, kind: u32, epr: u32, held: u32)
    ensures
        ({
            let n: u32 = if dir == Direction::In {
                4
            } else {
                12
            };
            let want = enabled_stat(dir, enabled, epr::ep_type(kind));
            let word = change_of(dir, epr, want);
            let to: u32 = if !enabled {
                0
            } else if dir == Direction::In && crate::regs::pair(kind, 9) != 2 {
                2
            } else {
                3
            };
            &&& stat_of(dir, epr) == want <==> crate::regs::pair(epr, n) == to
            &&& epr::after_write(epr, word) == crate::regs::with_pair(epr & 0xffff, n, to)
            &&& epr::ctr_rx(epr::after_write(held, word)) == epr::ctr_rx(held)
            &&& epr::ctr_tx(epr::after_write(held, word)) == epr::ctr_tx(held)
            &&& word & 0xffff_0000 == epr & 0xffff_0000
        }),
{
    let want = enabled_stat(dir, enabled, epr::ep_type(kind));
    epr::law_change(epr, want);
    epr::law_change_keeps_flags(held, epr, want);
    epr::law_fields(epr);
    epr::law_fields(kind);
    lemma_high_half(dir, epr, want);
}

proof fn lemma_high_half(dir: Direction, epr: u32, to: Stat)
    ensures
        change_of(dir, epr, to) & 0xffff_0000 == epr & 0xffff_0000,
{
    epr::law_words_made_from_a_register(epr, to);
    let w = change_of(dir, epr, to);
    assert(w & 0xffff_0000 == epr & 0xffff_0000) by (bit_vector)
        requires
            w & 0xffff_0f0f == epr & 0xffff_0f0f,
    ;
}

/// The task that is woken once an endpoint is stalled, enabled or disabled is the one that waits
/// on that endpoint and direction.
pub proof fn law_endpoint_waker(addr: EndpointAddress)
    ensures
        endpoint_waker(addr) == (if addr.raw >= 128 {
            Waker::EpIn((addr.raw - 128) as usize)
        } else {
            Waker::EpOut(addr.raw as usize)
        }),
{
}

/// DADDR holds the low seven bits of the address and, in bit 7, that the function is enabled.
pub proof fn law_device_address(addr: u8)
    ensures
        daddr_word(addr) == 0x80 + addr as int % 0x80,
{
}

proof fn lemma_reset_effect(held: u32, t: u32, ea: u32, both: u32, w: u32)
    by (bit_vector)
    requires
        t < 4,
        ea < 16,
        both < 4,
        w == ea + 0x10 * both + 0x200 * t + 0x1000 * both,
    ensures
        crate::regs::pair(epr::after_write(held, w), 12) == crate::regs::pair(held, 12) ^ both,
        crate::regs::pair(epr::after_write(held, w), 4) == crate::regs::pair(held, 4) ^ both,
        crate::regs::pair(epr::after_write(held, w), 9) == t,
        epr::after_write(held, w) & 0xf == ea,
        epr::after_write(held, w) & 0x8180 == 0,
        epr::after_write(held, w) & 0x4840 == held & 0x4840,
        w < 0x1_0000,
{
}

/// What a bus reset does to the registers, whatever they held: the device answers to address 0.
/// Endpoint 0 becomes a control endpoint whose two statuses change by what makes NAK of disabled,
/// which is what the reset left; every other endpoint gets its type and its index for a number and
/// keeps its statuses. Transfer flags and kind are cleared, data toggles and SETUP kept.
pub proof fn law_bus_reset_registers(ep_types: Seq<EpType>, index: usize, held: u32, daddr: u32)
    requires
        ep_types.len() == 7,
        index < EP_COUNT,
    ensures
        ({
            let ops = bus_reset_ops(ep_types);
            let after = crate::model::epr_after(held, index, ops);
            let change: u32 = if index == 0 {
                2
            } else {
                0
            };
            &&& crate::regs::pair(after, 12) == crate::regs::pair(held, 12) ^ change
            &&& crate::regs::pair(after, 4) == crate::regs::pair(held, 4) ^ change
            &&& crate::regs::pair(after, 9) == (if index == 0 {
                1
            } else {
                ep_types[index - 1].bits()
            })
            &&& after & 0xf == index
            &&& after & 0x8180 == 0
            &&& after & 0x4840 == held & 0x4840
            &&& crate::model::daddr_after(daddr, ops) == 0x80
        }),
{
    let ops = bus_reset_ops(ep_types);
    let at = index + 2;
    assert(ops.len() == 26);
    assert(ops[1] == Op::WriteDaddr(daddr_word(0)));
    crate::model::lemma_daddr_after_one(daddr, ops, 1, daddr_word(0));
    if index == 0 {
        assert(ops[at] == Op::WriteEpr(index, ep0_reset_word()));
        crate::model::lemma_epr_after_one(held, index, ops, at, ep0_reset_word());
        lemma_reset_effect(held, 1, 0, 2, ep0_reset_word());
    } else {
        let t = ep_types[index - 1];
        let w = ep_reset_word(t, index as int);
        assert(ops[at] == Op::WriteEpr(index, w));
        crate::model::lemma_epr_after_one(held, index, ops, at, w);
        lemma_reset_effect(held, t.bits(), index as u32, 0, w);
    }
}

/// A bus reset wakes the tasks on all endpoints in both directions, each once its registers are
/// set up, and not the task that polls the bus. It clears the flag of the reset and no other, and
/// touches nothing but DADDR and the endpoint registers besides.
pub proof fn law_bus_reset_wakes(ep_types: Seq<EpType>, waker: Waker, flag: Flag, stored: bool)
    requires
        ep_types.len() == 7,
    ensures
        ({
            let ops = bus_reset_ops(ep_types);
            &&& ops.contains(Op::Wake(waker)) <==> match waker {
                Waker::Bus => false,
                Waker::EpIn(i) => i < EP_COUNT,
                Waker::EpOut(i) => i < EP_COUNT,
            }
            &&& forall|i: int, j: int| 0 <= i < j < ops.len() && (#[trigger] ops[i]) is Wake ==> (#[trigger] ops[j]) is Wake
            &&& forall|i: int|
                0 <= i < ops.len() ==> match #[trigger] ops[i] {
                    Op::Store(f, v) => f == Flag::Reset && !v,
                    Op::WriteDaddr(_) | Op::Wake(_) => true,
                    Op::WriteEpr(k, w) => k < EP_COUNT && w < 0x1_0000,
                    _ => false,
                }
            &&& ops[0] == Op::Store(Flag::Reset, false)
        }),
{
    let ops = bus_reset_ops(ep_types);
    assert(ops.len() == 26);
    match waker {
        Waker::Bus => {},
        Waker::EpIn(i) => if i < EP_COUNT {
            assert(ops[10 + i] == Op::Wake(waker));
        },
        Waker::EpOut(i) => if i < EP_COUNT {
            assert(ops[18 + i] == Op::Wake(waker));
        },
    }
}

impl<'d, T: Instance> Bus<'d, T> {
    /// An event other than a bus reset causes no access but the one that clears its flag, and no
    /// event and the report of power cause none.
    pub proof fn law_events_touch_nothing_else(self, event: Option<Event>)
        requires
            event != Some(Event::Reset),
        ensures
            ({
                let ops = self.event_ops(event);
                &&& event is None || event == Some(Event::PowerDetected) ==> ops.len() == 0
                &&& event == Some(Event::Resume) || event == Some(Event::Suspend) ==> ops.len() == 1
                    && ops[0] is Store
            }),
    {
    }

    /// The accesses of a bus reset are made for the types of the endpoints that were allocated.
    pub proof fn law_reset_event(self)
        ensures
            self.event_ops(Some(Event::Reset)) == bus_reset_ops(self.ep_types@),
    {
    }
}

} // verus!
