//! The control pipe: endpoint 0 in both directions.

use vstd::prelude::*;
use core::marker::PhantomData;
use crate::address::{In, Out};
use crate::btable;
use crate::endpoint::Endpoint;
use crate::epr;
use crate::instance::Instance;
use crate::regs::{epr_stat_rx, epr_stat_tx, EpType, Stat};
use crate::types::{EndpointError, Flag, Input, Next, Op, PacketBuffer};

verus! {

/// State of receiving a SETUP packet.
#[derive(Clone, Copy, PartialEq, Eq, Structural, Debug)]
pub enum SetupState {
    /// Waiting for a packet.
    Poll,
    /// Reading the length of the packet.
    Count,
    /// Reading the packet, which has this length.
    Data(usize),
}

/// State of receiving a packet of the data stage.
#[derive(Clone, Copy, PartialEq, Eq, Structural, Debug)]
pub enum DataOutState {
    /// Not begun.
    Begin,
    /// Waiting for a packet.
    Poll,
    /// Reading the length of the packet.
    Count,
    /// Reading the packet, which has this length.
    Data(usize),
}

/// State of sending a packet of the data stage.
#[derive(Clone, Copy, PartialEq, Eq, Structural, Debug)]
pub enum DataInState {
    /// Not begun.
    Begin,
    /// Waiting until the packet can be handed over.
    Poll,
}

/// State of accepting a control request.
#[derive(Clone, Copy, PartialEq, Eq, Structural, Debug)]
pub enum AcceptState {
    /// Not begun.
    Begin,
    /// The empty packet is in place; endpoint 0 has to be told to send it.
    Respond,
    /// Waiting until the packet is sent.
    Poll,
}

/// The USB control pipe of the peripheral `T`.
pub struct ControlPipe<'d, T: Instance> {
    pub _phantom: PhantomData<&'d mut T>,
    /// Size of the largest packet, in bytes.
    pub max_packet_size: u16,
    pub ep_in: Endpoint<'d, T, In>,
    pub ep_out: Endpoint<'d, T, Out>,
}

/// A word for endpoint 0 that keeps the transfer flags.
pub open spec fn ep0_word(stat_rx: u32, stat_tx: u32, ep_kind: bool) -> u32 {
    epr::word(EpType::Control, 0, stat_rx, stat_tx, ep_kind, true)
}

/// The bits of a change that is made only if `on`.
pub open spec fn toggle_if(on: bool, from: Stat, to: Stat) -> u32 {
    if on {
        epr::toggle(from, to)
    } else {
        0
    }
}

/// The word that begins receiving a packet of the data stage.
///
/// When a SETUP packet is received, both directions are set to NAK. The first transfer turns
/// reception to VALID, to get the data, and transmission to STALL, so that the host gets a STALL
/// if it switches to the status stage too soon. The last transfer turns transmission to NAK, so
/// that the host waits for the status stage.
pub open spec fn data_out_begin_word(first: bool, last: bool) -> u32 {
    ep0_word(
        toggle_if(first, Stat::Nak, Stat::Valid),
        toggle_if(first, Stat::Nak, Stat::Stall) ^ toggle_if(last, Stat::Stall, Stat::Nak),
        false,
    )
}

/// The word that ends receiving a packet of the data stage: reception stalls after the last
/// packet and is ready for the next one otherwise.
pub open spec fn data_out_end_word(last: bool) -> u32 {
    ep0_word(
        epr::toggle(
            Stat::Nak,
            if last {
                Stat::Stall
            } else {
                Stat::Valid
            },
        ),
        0,
        false,
    )
}

/// The word that begins sending a packet of the data stage: reception stalls from the first
/// packet on and is ready for the status stage from the last one on.
pub open spec fn data_in_begin_word(first: bool, last: bool) -> u32 {
    ep0_word(toggle_if(first, Stat::Nak, Stat::Stall) ^ toggle_if(last, Stat::Stall, Stat::Valid), 0, last)
}

/// The word that hands over a packet of the data stage.
pub open spec fn data_in_end_word(last: bool) -> u32 {
    ep0_word(0, epr::toggle(Stat::Nak, Stat::Valid), last)
}

/// The word that gives both directions of endpoint 0 a status, given the register.
pub open spec fn answer_word(epr: u32, rx: Stat, tx: Stat) -> u32 {
    ep0_word(epr::toggle(epr::stat_rx(epr), rx), epr::toggle(epr::stat_tx(epr), tx), false)
}

/// Builds a word for endpoint 0 that keeps the transfer flags.
fn ep0(stat_rx: u8, stat_tx: u8, ep_kind: bool) -> (r: u32)
    requires
        stat_rx < 4,
        stat_tx < 4,
    ensures
        r == ep0_word(stat_rx as u32, stat_tx as u32, ep_kind),
{
    epr::build(EpType::Control, 0, stat_rx, stat_tx, ep_kind, true)
}

/// The bits of two changes in a row, each made only if its condition holds.
fn toggle_twice(first: bool, a: Stat, b: Stat, last: bool, c: Stat, d: Stat) -> (r: u8)
    ensures
        r == toggle_if(first, a, b) ^ toggle_if(last, c, d),
        r < 4,
{
    let x: u8 = if first {
        epr::toggle_bits(a, b)
    } else {
        0
    };
    let y: u8 = if last {
        epr::toggle_bits(c, d)
    } else {
        0
    };
    proof {
        assert((x ^ y) < 4 && (x ^ y) as u32 == (x as u32) ^ (y as u32)) by (bit_vector)
            requires
                x < 4,
                y < 4,
        ;
    }
    x ^ y
}

impl SetupState {
    /// Whether a transfer in this state can be handed this input.
    pub open spec fn accepts(self, ram: crate::types::UsbRam, input: Input) -> bool {
        match (self, input) {
            (SetupState::Poll, Input::Register { .. }) => true,
            (SetupState::Count, Input::Memory(words)) => words@.len() == 1,
            (SetupState::Data(n), Input::Memory(words)) => words@.len() == crate::buffer::word_count(ram, n as int),
            _ => false,
        }
    }
}

impl DataOutState {
    /// Whether a transfer in this state can be handed this input.
    pub open spec fn accepts(self, ram: crate::types::UsbRam, input: Input) -> bool {
        match (self, input) {
            (DataOutState::Begin, _) => true,
            (DataOutState::Poll, Input::Register { .. }) => true,
            (DataOutState::Count, Input::Memory(words)) => words@.len() == 1,
            (DataOutState::Data(n), Input::Memory(words)) => words@.len() == crate::buffer::word_count(ram, n as int),
            _ => false,
        }
    }
}

impl<'d, T: Instance> ControlPipe<'d, T> {
    /// Whether both endpoints are endpoint 0 and have proper buffers.
    pub open spec fn wf(&self) -> bool {
        &&& self.ep_in.wf()
        &&& self.ep_out.wf()
        &&& self.ep_in.index() == 0
        &&& self.ep_out.index() == 0
    }

    /// The index of the word that holds the length of the packet received.
    pub open spec fn count_word(&self) -> usize {
        btable::length_word(T::CHIP.ram, 0, PacketBuffer::Rx) as usize
    }

    /// Accesses and outcome of one step of receiving a SETUP packet; the packet itself is left
    /// open.
    pub open spec fn setup_step(&self, state: SetupState, input: Input, packet: [u8; 8]) -> (
        Seq<Op>,
        Next<SetupState, [u8; 8]>,
    ) {
        match (state, input) {
            (SetupState::Poll, Input::Register { epr, flag }) => (
                seq![],
                if flag {
                    Next::Fetch(SetupState::Count, self.count_word(), 1)
                } else {
                    Next::Wait(SetupState::Poll)
                },
            ),
            (SetupState::Count, Input::Memory(words)) => (
                seq![],
                match self.ep_out.received(words@[0], 8) {
                    Ok(n) => Next::Fetch(
                        SetupState::Data(n as usize),
                        self.ep_out.buf.first_word() as usize,
                        crate::buffer::word_count(T::CHIP.ram, n) as usize,
                    ),
                    Err(_) => Next::Sample(SetupState::Poll),
                },
            ),
            (SetupState::Data(n), _) => if n == 8 {
                (seq![Op::Store(Flag::Ep0Setup, false)], Next::Done(packet))
            } else {
                (seq![], Next::Sample(SetupState::Poll))
            },
            _ => arbitrary(),
        }
    }

    /// Accesses and outcome of one step of receiving a packet of the data stage into `room` bytes.
    pub open spec fn data_out_step(&self, state: DataOutState, input: Input, room: int, first: bool, last: bool) -> (
        Seq<Op>,
        Next<DataOutState, Result<usize, EndpointError>>,
    ) {
        match (state, input) {
            (DataOutState::Begin, _) => (
                if first || last {
                    seq![Op::WriteEpr(0, data_out_begin_word(first, last))]
                } else {
                    seq![]
                },
                Next::Sample(DataOutState::Poll),
            ),
            (DataOutState::Poll, Input::Register { epr, flag }) => (
                seq![],
                if epr::stat_rx(epr) != Stat::Nak {
                    Next::Wait(DataOutState::Poll)
                } else if flag {
                    Next::Done(Err(EndpointError::Disabled))
                } else {
                    Next::Fetch(DataOutState::Count, self.count_word(), 1)
                },
            ),
            (DataOutState::Count, Input::Memory(words)) => (
                seq![],
                match self.ep_out.received(words@[0], room) {
                    Ok(n) => Next::Fetch(
                        DataOutState::Data(n as usize),
                        self.ep_out.buf.first_word() as usize,
                        crate::buffer::word_count(T::CHIP.ram, n) as usize,
                    ),
                    Err(e) => Next::Done(Err(e)),
                },
            ),
            (DataOutState::Data(n), _) => (
                seq![Op::WriteEpr(0, data_out_end_word(last))],
                Next::Done(Ok(n)),
            ),
            _ => arbitrary(),
        }
    }

    /// Accesses and outcome of one step of sending a packet of the data stage.
    pub open spec fn data_in_step(
        &self,
        state: DataInState,
        epr: u32,
        ep0_setup: bool,
        bytes: Seq<u8>,
        first: bool,
        last: bool,
    ) -> (Seq<Op>, Next<DataInState, Result<(), EndpointError>>) {
        match state {
            DataInState::Begin => if bytes.len() > self.ep_in.info.max_packet_size {
                (seq![], Next::Done(Err(EndpointError::BufferOverflow)))
            } else {
                (
                    if first || last {
                        seq![Op::WriteEpr(0, data_in_begin_word(first, last))]
                    } else {
                        seq![]
                    },
                    Next::Sample(DataInState::Poll),
                )
            },
            DataInState::Poll => if epr::stat_tx(epr) != Stat::Nak {
                (seq![], Next::Wait(DataInState::Poll))
            } else if ep0_setup {
                (seq![], Next::Done(Err(EndpointError::Disabled)))
            } else {
                (
                    self.ep_in.write_data_ops(bytes, PacketBuffer::Tx).push(
                        Op::WriteEpr(0, data_in_end_word(last)),
                    ),
                    Next::Done(Ok(())),
                )
            },
        }
    }

    /// Accesses and outcome of one step of accepting a control request.
    pub open spec fn accept_step(&self, state: AcceptState, epr: u32) -> (Seq<Op>, Next<AcceptState, ()>) {
        match state {
            AcceptState::Begin => (
                self.ep_in.write_data_ops(seq![], PacketBuffer::Tx),
                Next::Sample(AcceptState::Respond),
            ),
            AcceptState::Respond => (
                seq![Op::WriteEpr(0, answer_word(epr, Stat::Stall, Stat::Valid))],
                Next::Sample(AcceptState::Poll),
            ),
            AcceptState::Poll => (
                seq![],
                if epr::stat_tx(epr) == Stat::Nak {
                    Next::Done(())
                } else {
                    Next::Wait(AcceptState::Poll)
                },
            ),
        }
    }

    /// Whether a step of receiving a SETUP packet can be taken.
    pub open spec fn can_setup(&self, state: SetupState, input: Input) -> bool {
        &&& self.wf()
        &&& state.accepts(T::CHIP.ram, input)
        &&& match (state, input) {
            (SetupState::Count, Input::Memory(words)) => self.ep_out.received(words@[0], 8) matches Ok(n) ==> n
                <= self.ep_out.buf.len,
            (SetupState::Data(n), _) => n <= 8 && n <= self.ep_out.buf.len,
            _ => true,
        }
    }

    /// Whether a step of receiving a packet of the data stage into `room` bytes can be taken.
    pub open spec fn can_data_out(&self, state: DataOutState, input: Input, room: int) -> bool {
        &&& self.wf()
        &&& state.accepts(T::CHIP.ram, input)
        &&& match (state, input) {
            (DataOutState::Count, Input::Memory(words)) => self.ep_out.received(words@[0], room) matches Ok(n) ==> n
                <= self.ep_out.buf.len,
            (DataOutState::Data(n), _) => n <= room && n <= self.ep_out.buf.len,
            _ => true,
        }
    }

    /// Whether a step of sending a packet of `len` bytes of the data stage can be taken.
    pub open spec fn can_data_in(&self, state: DataInState, epr: u32, ep0_setup: bool, len: int) -> bool {
        &&& self.wf()
        &&& state == DataInState::Poll && epr::stat_tx(epr) == Stat::Nak && !ep0_setup ==> len <= self.ep_in.buf.len
    }

    /// Whether a step of receiving a SETUP packet can be taken.
    pub fn check_setup(&self, state: SetupState, input: Input) -> (r: bool)
        requires
            self.wf(),
        ensures
            r == self.can_setup(state, input),
    {
        match (state, input) {
            (SetupState::Poll, Input::Register { .. }) => true,
            (SetupState::Count, Input::Memory(words)) => words.len() == 1 && self.ep_out.check_count(words[0], 8),
            (SetupState::Data(n), Input::Memory(words)) => self.ep_out.check_data(n, words.len(), 8),
            _ => false,
        }
    }

    /// Whether a step of receiving a packet of the data stage into `room` bytes can be taken.
    pub fn check_data_out(&self, state: DataOutState, input: Input, room: usize) -> (r: bool)
        requires
            self.wf(),
        ensures
            r == self.can_data_out(state, input, room as int),
    {
        match (state, input) {
            (DataOutState::Begin, _) => true,
            (DataOutState::Poll, Input::Register { .. }) => true,
            (DataOutState::Count, Input::Memory(words)) => words.len() == 1 && self.ep_out.check_count(words[0], room),
            (DataOutState::Data(n), Input::Memory(words)) => self.ep_out.check_data(n, words.len(), room),
            _ => false,
        }
    }

    /// Whether a step of sending a packet of `len` bytes of the data stage can be taken.
    pub fn check_data_in(&self, state: DataInState, epr: u32, ep0_setup: bool, len: usize) -> (r: bool)
        requires
            self.wf(),
        ensures
            r == self.can_data_in(state, epr, ep0_setup, len as int),
    {
        match state {
            DataInState::Begin => true,
            DataInState::Poll => epr_stat_tx(epr) != Stat::Nak || ep0_setup || len <= self.ep_in.buf.len as usize,
        }
    }

    /// Size of the largest packet, in bytes.
    pub fn max_packet_size(&self) -> (r: usize)
        ensures
            r == self.max_packet_size,
    {
        self.max_packet_size as usize
    }

    /// One step of receiving a SETUP packet, given what the step before asked for. The flag to
    /// watch is `Ep0Setup`. A packet that is not 8 bytes long is dropped.
    pub fn setup(&mut self, state: SetupState, input: Input, ops: &mut Vec<Op>) -> (r: Next<SetupState, [u8; 8]>)
        requires
            old(self).can_setup(state, input),
        ensures
            *final(self) == *old(self),
            ({
                let packet = r->Done_0;
                &&& final(ops)@ == old(ops)@ + old(self).setup_step(state, input, packet).0
                &&& r == old(self).setup_step(state, input, packet).1
                &&& r is Done ==> forall|j: int|
                    0 <= j < 8 ==> packet@[j] == crate::buffer::packet_byte(T::CHIP.ram, input->Memory_0@, j)
            }),
    {
        match (state, input) {
            (SetupState::Poll, Input::Register { epr: _, flag }) => {
                if flag {
                    Next::Fetch(SetupState::Count, self.ep_out.read_data_len_word(PacketBuffer::Rx), 1)
                } else {
                    Next::Wait(SetupState::Poll)
                }
            },
            (SetupState::Count, Input::Memory(words)) => match self.ep_out.read_data_len(words[0], 8) {
                Ok(n) => {
                    let (first, count): (usize, usize) = self.ep_out.read_data_words(n);
                    Next::Fetch(SetupState::Data(n), first, count)
                },
                Err(_) => Next::Sample(SetupState::Poll),
            },
            (SetupState::Data(n), Input::Memory(words)) => {
                let mut buf: [u8; 8] = [0; 8];
                self.ep_out.buf.read(words, n, &mut buf);
                if n != 8 {
                    return Next::Sample(SetupState::Poll);
                }
                ops.push(Op::Store(Flag::Ep0Setup, false));
                Next::Done(buf)
            },
            _ => Next::Wait(state),
        }
    }

    /// One step of receiving a packet of the data stage into `buf`, given what the step before
    /// asked for. The flag to watch is `Ep0Setup`.
    ///
    /// The transfer starts in state `Begin`, fails if the host sent another SETUP packet or the
    /// packet does not fit, and returns the packet's length.
    pub fn data_out(
        &mut self,
        state: DataOutState,
        input: Input,
        buf: &mut [u8],
        first: bool,
        last: bool,
        ops: &mut Vec<Op>,
    ) -> (r: Next<DataOutState, Result<usize, EndpointError>>)
        requires
            old(self).can_data_out(state, input, old(buf)@.len() as int),
        ensures
            *final(self) == *old(self),
            final(ops)@ == old(ops)@ + old(self).data_out_step(state, input, old(buf)@.len() as int, first, last).0,
            r == old(self).data_out_step(state, input, old(buf)@.len() as int, first, last).1,
            final(buf)@.len() == old(buf)@.len(),
            state matches DataOutState::Data(n) ==> {
                &&& forall|j: int|
                    0 <= j < n ==> final(buf)@[j] == crate::buffer::packet_byte(T::CHIP.ram, input->Memory_0@, j)
                &&& forall|j: int| n <= j < old(buf)@.len() ==> final(buf)@[j] == old(buf)@[j]
            },
            !(state is Data) ==> final(buf)@ == old(buf)@,
    {
        match (state, input) {
            (DataOutState::Begin, _) => {
                if first || last {
                    // If this is the first and the last transfer, the two changes of the
                    // transmission status cancel out.
                    let stat_rx: u8 = toggle_twice(first, Stat::Nak, Stat::Valid, false, Stat::Nak, Stat::Nak);
                    let stat_tx: u8 = toggle_twice(first, Stat::Nak, Stat::Stall, last, Stat::Stall, Stat::Nak);
                    proof {
                        let x = toggle_if(first, Stat::Nak, Stat::Valid);
                        assert(x ^ 0 == x) by (bit_vector);
                    }
                    ops.push(Op::WriteEpr(0, ep0(stat_rx, stat_tx, false)));
                }
                Next::Sample(DataOutState::Poll)
            },
            (DataOutState::Poll, Input::Register { epr, flag }) => {
                if epr_stat_rx(epr) != Stat::Nak {
                    return Next::Wait(DataOutState::Poll);
                }
                if flag {
                    // Another SETUP packet was received.
                    return Next::Done(Err(EndpointError::Disabled));
                }
                Next::Fetch(DataOutState::Count, self.ep_out.read_data_len_word(PacketBuffer::Rx), 1)
            },
            (DataOutState::Count, Input::Memory(words)) => match self.ep_out.read_data_len(words[0], buf.len()) {
                Ok(n) => {
                    let (word, count): (usize, usize) = self.ep_out.read_data_words(n);
                    Next::Fetch(DataOutState::Data(n), word, count)
                },
                Err(e) => Next::Done(Err(e)),
            },
            (DataOutState::Data(n), Input::Memory(words)) => {
                self.ep_out.buf.read(words, n, buf);
                let stat_rx: u8 = if last {
                    epr::toggle_bits(Stat::Nak, Stat::Stall)
                } else {
                    epr::toggle_bits(Stat::Nak, Stat::Valid)
                };
                ops.push(Op::WriteEpr(0, ep0(stat_rx, 0, false)));
                Next::Done(Ok(n))
            },
            _ => Next::Wait(state),
        }
    }

    /// One step of sending a packet of the data stage, given the register of endpoint 0 and then
    /// whether a SETUP packet is waiting.
    ///
    /// The transfer starts in state `Begin`, is refused at once if the packet is too long, and
    /// fails if the host sent another SETUP packet.
    pub fn data_in(
        &mut self,
        state: DataInState,
        epr: u32,
        ep0_setup: bool,
        data: &[u8],
        first: bool,
        last: bool,
        ops: &mut Vec<Op>,
    ) -> (r: Next<DataInState, Result<(), EndpointError>>)
        requires
            old(self).can_data_in(state, epr, ep0_setup, data@.len() as int),
        ensures
            *final(self) == *old(self),
            final(ops)@ == old(ops)@ + old(self).data_in_step(state, epr, ep0_setup, data@, first, last).0,
            r == old(self).data_in_step(state, epr, ep0_setup, data@, first, last).1,
    {
        match state {
            DataInState::Begin => {
                if data.len() > self.ep_in.info.max_packet_size as usize {
                    return Next::Done(Err(EndpointError::BufferOverflow));
                }
                if first || last {
                    // If this is the first and the last transfer, the two changes add up to one
                    // from NAK to VALID.
                    let stat_rx: u8 = toggle_twice(first, Stat::Nak, Stat::Stall, last, Stat::Stall, Stat::Valid);
                    ops.push(Op::WriteEpr(0, ep0(stat_rx, 0, last)));
                }
                Next::Sample(DataInState::Poll)
            },
            DataInState::Poll => {
                if epr_stat_tx(epr) != Stat::Nak {
                    return Next::Wait(DataInState::Poll);
                }
                if ep0_setup {
                    // Another SETUP packet was received.
                    return Next::Done(Err(EndpointError::Disabled));
                }
                self.ep_in.write_data(data, ops);
                ops.push(Op::WriteEpr(0, ep0(0, epr::toggle_bits(Stat::Nak, Stat::Valid), last)));
                proof {
                    assert(ops@ =~= old(ops)@ + old(self).data_in_step(state, epr, ep0_setup, data@, first, last).0);
                }
                Next::Done(Ok(()))
            },
        }
    }

    /// One step of accepting a control request, given the register of endpoint 0. The transfer
    /// starts in state `Begin` and is over when the status packet is sent.
    pub fn accept(&mut self, state: AcceptState, epr: u32, ops: &mut Vec<Op>) -> (r: Next<AcceptState, ()>)
        requires
            old(self).wf(),
        ensures
            *final(self) == *old(self),
            final(ops)@ == old(ops)@ + old(self).accept_step(state, epr).0,
            r == old(self).accept_step(state, epr).1,
    {
        match state {
            AcceptState::Begin => {
                let empty: [u8; 0] = [];
                self.ep_in.write_data(&empty, ops);
                assert(empty@ =~= seq![]);
                Next::Sample(AcceptState::Respond)
            },
            AcceptState::Respond => {
                // Set OUT=stall, IN=accept
                let word: u32 = self.answer(epr, Stat::Stall, Stat::Valid);
                ops.push(Op::WriteEpr(0, word));
                Next::Sample(AcceptState::Poll)
            },
            AcceptState::Poll => {
                // The address must not be set too soon, which would break the status stage.
                if epr_stat_tx(epr) == Stat::Nak {
                    Next::Done(())
                } else {
                    Next::Wait(AcceptState::Poll)
                }
            },
        }
    }

    /// Rejects a control request, given the register of endpoint 0: both directions stall.
    pub fn reject(&mut self, epr: u32, ops: &mut Vec<Op>)
        ensures
            *final(self) == *old(self),
            final(ops)@ == old(ops)@.push(Op::WriteEpr(0, answer_word(epr, Stat::Stall, Stat::Stall))),
    {
        // Set IN+OUT to stall
        let word: u32 = self.answer(epr, Stat::Stall, Stat::Stall);
        ops.push(Op::WriteEpr(0, word));
    }

    /// One step of accepting a request to set the device address, given the register of
    /// endpoint 0: as `accept`, with the new address set at the end.
    pub fn accept_set_address(&mut self, state: AcceptState, epr: u32, addr: u8, ops: &mut Vec<Op>) -> (r: Next<
        AcceptState,
        (),
    >)
        requires
            old(self).wf(),
        ensures
            *final(self) == *old(self),
            r == old(self).accept_step(state, epr).1,
            final(ops)@ == old(ops)@ + old(self).accept_step(state, epr).0 + (if r is Done {
                seq![Op::WriteDaddr(crate::bus::daddr_word(addr))]
            } else {
                seq![]
            }),
    {
        let next = self.accept(state, epr, ops);
        match next {
            Next::Done(()) => {
                ops.push(Op::WriteDaddr(crate::bus::daddr(addr)));
            },
            _ => {},
        }
        next
    }

    /// The word that gives both directions of endpoint 0 a status.
    fn answer(&self, epr: u32, rx: Stat, tx: Stat) -> (r: u32)
        ensures
            r == answer_word(epr, rx, tx),
    {
        ep0(epr::toggle_bits(epr_stat_rx(epr), rx), epr::toggle_bits(epr_stat_tx(epr), tx), false)
    }
}

proof fn lemma_ep0_word(held: u32, rx: u32, tx: u32, ep_kind: bool)
    requires
        rx < 4,
        tx < 4,
    ensures
        ({
            let after = epr::after_write(held, ep0_word(rx, tx, ep_kind));
            &&& epr::stat_rx(after).bits() == epr::stat_rx(held).bits() ^ rx
            &&& epr::stat_tx(after).bits() == epr::stat_tx(held).bits() ^ tx
            &&& rx == 0 ==> epr::stat_rx(after) == epr::stat_rx(held)
            &&& tx == 0 ==> epr::stat_tx(after) == epr::stat_tx(held)
            &&& epr::ctr_rx(after) == epr::ctr_rx(held)
            &&& epr::ctr_tx(after) == epr::ctr_tx(held)
        }),
{
    epr::law_word(held, EpType::Control, 0, rx, tx, ep_kind);
    let a = epr::stat_rx(held).bits();
    let b = epr::stat_tx(held).bits();
    assert(a ^ 0 == a && b ^ 0 == b) by (bit_vector);
}

proof fn lemma_small(a: Stat, b: Stat, c: Stat, d: Stat)
    ensures
        epr::toggle(a, b) < 4,
        epr::toggle(a, b) ^ epr::toggle(c, d) < 4,
        epr::toggle(a, b) ^ 0 == epr::toggle(a, b),
        0u32 ^ epr::toggle(a, b) == epr::toggle(a, b),
        a.bits() ^ 0 == a.bits(),
{
    let w = a.bits();
    let x = b.bits();
    let y = c.bits();
    let z = d.bits();
    assert((w ^ x) < 4 && ((w ^ x) ^ (y ^ z)) < 4 && (w ^ x) ^ 0 == w ^ x && 0u32 ^ (w ^ x) == w ^ x && w ^ 0 == w)
        by (bit_vector)
        requires
            w < 4,
            x < 4,
            y < 4,
            z < 4,
    ;
}

/// How beginning to receive a packet of the data stage changes endpoint 0: the first transfer
/// finds both directions at NAK and leaves reception VALID, and transmission at STALL unless it
/// is the last one too, in which case transmission stays at NAK. A last transfer that is not the
/// first finds transmission at STALL and leaves it at NAK. No transfer flag is lost.
pub proof fn law_data_out_begin(held: u32, first: bool, last: bool)
    requires
        first || last,
        first ==> epr::stat_rx(held) == Stat::Nak && epr::stat_tx(held) == Stat::Nak,
        !first ==> epr::stat_tx(held) == Stat::Stall,
    ensures
        ({
            let after = epr::after_write(held, data_out_begin_word(first, last));
            &&& epr::stat_rx(after) == (if first {
                Stat::Valid
            } else {
                epr::stat_rx(held)
            })
            &&& epr::stat_tx(after) == (if last {
                Stat::Nak
            } else {
                Stat::Stall
            })
            &&& epr::ctr_rx(after) == epr::ctr_rx(held)
            &&& epr::ctr_tx(after) == epr::ctr_tx(held)
        }),
{
    lemma_small(Stat::Nak, Stat::Valid, Stat::Nak, Stat::Nak);
    lemma_small(Stat::Nak, Stat::Stall, Stat::Stall, Stat::Nak);
    lemma_small(Stat::Stall, Stat::Nak, Stat::Stall, Stat::Nak);
    epr::law_toggle(Stat::Nak, Stat::Valid, Stat::Nak);
    epr::law_toggle(Stat::Nak, Stat::Stall, Stat::Nak);
    epr::law_toggle(Stat::Stall, Stat::Nak, Stat::Nak);
    lemma_ep0_word(
        held,
        toggle_if(first, Stat::Nak, Stat::Valid),
        toggle_if(first, Stat::Nak, Stat::Stall) ^ toggle_if(last, Stat::Stall, Stat::Nak),
        false,
    );
}

/// How the end of receiving a packet of the data stage changes endpoint 0: reception, at NAK,
/// becomes STALL after the last packet and VALID otherwise; nothing else changes.
pub proof fn law_data_out_end(held: u32, last: bool)
    requires
        epr::stat_rx(held) == Stat::Nak,
    ensures
        ({
            let after = epr::after_write(held, data_out_end_word(last));
            &&& epr::stat_rx(after) == (if last {
                Stat::Stall
            } else {
                Stat::Valid
            })
            &&& epr::stat_tx(after) == epr::stat_tx(held)
            &&& epr::ctr_rx(after) == epr::ctr_rx(held)
            &&& epr::ctr_tx(after) == epr::ctr_tx(held)
        }),
{
    let to = if last {
        Stat::Stall
    } else {
        Stat::Valid
    };
    lemma_small(Stat::Nak, to, to, to);
    epr::law_toggle(Stat::Nak, to, to);
    lemma_ep0_word(held, epr::toggle(Stat::Nak, to), 0, false);
}

/// How beginning to send a packet of the data stage changes endpoint 0: reception becomes STALL
/// with the first packet and VALID with the last, straight from NAK if both are one; transmission
/// and transfer flags stay.
pub proof fn law_data_in_begin(held: u32, first: bool, last: bool)
    requires
        first || last,
        epr::stat_rx(held) == (if first {
            Stat::Nak
        } else {
            Stat::Stall
        }),
    ensures
        ({
            let after = epr::after_write(held, data_in_begin_word(first, last));
            &&& epr::stat_rx(after) == (if last {
                Stat::Valid
            } else {
                Stat::Stall
            })
            &&& epr::stat_tx(after) == epr::stat_tx(held)
            &&& epr::ctr_rx(after) == epr::ctr_rx(held)
            &&& epr::ctr_tx(after) == epr::ctr_tx(held)
        }),
{
    lemma_small(Stat::Nak, Stat::Stall, Stat::Stall, Stat::Valid);
    lemma_small(Stat::Stall, Stat::Valid, Stat::Stall, Stat::Valid);
    epr::law_toggle(Stat::Nak, Stat::Stall, Stat::Valid);
    epr::law_toggle(Stat::Nak, Stat::Valid, Stat::Valid);
    epr::law_toggle(Stat::Stall, Stat::Valid, Stat::Valid);
    lemma_ep0_word(
        held,
        toggle_if(first, Stat::Nak, Stat::Stall) ^ toggle_if(last, Stat::Stall, Stat::Valid),
        0,
        last,
    );
}

/// How handing over a packet of the data stage changes endpoint 0: transmission, at NAK, becomes
/// VALID; reception and transfer flags stay.
pub proof fn law_data_in_end(held: u32, last: bool)
    requires
        epr::stat_tx(held) == Stat::Nak,
    ensures
        ({
            let after = epr::after_write(held, data_in_end_word(last));
            &&& epr::stat_tx(after) == Stat::Valid
            &&& epr::stat_rx(after) == epr::stat_rx(held)
            &&& epr::ctr_rx(after) == epr::ctr_rx(held)
            &&& epr::ctr_tx(after) == epr::ctr_tx(held)
        }),
{
    lemma_small(Stat::Nak, Stat::Valid, Stat::Nak, Stat::Nak);
    epr::law_toggle(Stat::Nak, Stat::Valid, Stat::Nak);
    lemma_ep0_word(held, 0, epr::toggle(Stat::Nak, Stat::Valid), last);
}

/// Endpoint 0 after the accesses that begin a packet of the data stage from the host.
pub open spec fn after_data_out_begin(held: u32, first: bool, last: bool) -> u32 {
    if first || last {
        epr::after_write(held, data_out_begin_word(first, last))
    } else {
        held
    }
}

/// Endpoint 0 after the accesses that begin a packet of the data stage to the host.
pub open spec fn after_data_in_begin(held: u32, first: bool, last: bool) -> u32 {
    if first || last {
        epr::after_write(held, data_in_begin_word(first, last))
    } else {
        held
    }
}

/// A control write, packet by packet. The first packet finds both directions at NAK, any other
/// one finds reception VALID and transmission at STALL. While a packet is awaited, reception is
/// VALID, and a host that goes on to the status stage too soon gets a STALL; with the last packet
/// it has to wait. Once the packet has arrived, which turns reception to NAK, endpoint 0 is left as
/// the next packet finds it, or after the last one with reception at STALL and transmission at NAK.
pub proof fn law_control_write(held: u32, arrived: u32, first: bool, last: bool)
    requires
        epr::stat_rx(held) == (if first {
            Stat::Nak
        } else {
            Stat::Valid
        }),
        epr::stat_tx(held) == (if first {
            Stat::Nak
        } else {
            Stat::Stall
        }),
        epr::stat_rx(arrived) == Stat::Nak,
        epr::stat_tx(arrived) == epr::stat_tx(after_data_out_begin(held, first, last)),
    ensures
        ({
            let begun = after_data_out_begin(held, first, last);
            let after = epr::after_write(arrived, data_out_end_word(last));
            &&& epr::stat_rx(begun) == Stat::Valid
            &&& epr::stat_tx(begun) == (if last {
                Stat::Nak
            } else {
                Stat::Stall
            })
            &&& epr::stat_rx(after) == (if last {
                Stat::Stall
            } else {
                Stat::Valid
            })
            &&& epr::stat_tx(after) == epr::stat_tx(begun)
        }),
{
    if first || last {
        law_data_out_begin(held, first, last);
    }
    law_data_out_end(arrived, last);
}

/// A control read, packet by packet. The first packet finds both directions at NAK, any other one
/// finds reception at STALL and transmission at NAK. The packet is handed over with transmission
/// VALID; the host gets a STALL if it goes on to the status stage too soon, and with the last packet
/// reception is VALID. Once the packet is sent, which turns transmission to NAK, endpoint 0 is as
/// the next packet finds it.
pub proof fn law_control_read(held: u32, sent: u32, first: bool, last: bool)
    requires
        epr::stat_rx(held) == (if first {
            Stat::Nak
        } else {
            Stat::Stall
        }),
        epr::stat_tx(held) == Stat::Nak,
        ({
            let handed = epr::after_write(after_data_in_begin(held, first, last), data_in_end_word(last));
            &&& epr::stat_rx(sent) == epr::stat_rx(handed)
            &&& epr::stat_tx(sent) == Stat::Nak
        }),
    ensures
        ({
            let begun = after_data_in_begin(held, first, last);
            let handed = epr::after_write(begun, data_in_end_word(last));
            &&& epr::stat_tx(begun) == Stat::Nak
            &&& epr::stat_tx(handed) == Stat::Valid
            &&& epr::stat_rx(handed) == (if last {
                Stat::Valid
            } else {
                Stat::Stall
            })
            &&& !last ==> epr::stat_rx(sent) == Stat::Stall && epr::stat_tx(sent) == Stat::Nak
        }),
{
    if first || last {
        law_data_in_begin(held, first, last);
    }
    law_data_in_end(after_data_in_begin(held, first, last), last);
}

/// Accepting and rejecting a request give endpoint 0 the statuses they name, whatever it had: a
/// request is accepted with reception at STALL and transmission VALID, and rejected with both at
/// STALL. No transfer flag is lost.
pub proof fn law_answer(epr: u32, rx: Stat, tx: Stat)
    ensures
        ({
            let after = epr::after_write(epr, answer_word(epr, rx, tx));
            &&& epr::stat_rx(after) == rx
            &&& epr::stat_tx(after) == tx
            &&& epr::ctr_rx(after) == epr::ctr_rx(epr)
            &&& epr::ctr_tx(after) == epr::ctr_tx(epr)
        }),
{
    lemma_small(epr::stat_rx(epr), rx, rx, rx);
    lemma_small(epr::stat_tx(epr), tx, tx, tx);
    epr::law_toggle(epr::stat_rx(epr), rx, rx);
    epr::law_toggle(epr::stat_tx(epr), tx, tx);
    lemma_ep0_word(epr, epr::toggle(epr::stat_rx(epr), rx), epr::toggle(epr::stat_tx(epr), tx), false);
}

impl<'d, T: Instance> ControlPipe<'d, T> {
    /// When the host abandons a request and sends another SETUP packet, which sets both directions
    /// to NAK, a waiting data stage is given up at once and without any access, and the SETUP
    /// packet is there to be received.
    pub proof fn law_new_setup_aborts(
        self,
        epr: u32,
        bytes: Seq<u8>,
        room: int,
        first: bool,
        last: bool,
        packet: [u8; 8],
    )
        requires
            epr::stat_rx(epr) == Stat::Nak,
            epr::stat_tx(epr) == Stat::Nak,
        ensures
            self.data_out_step(DataOutState::Poll, Input::Register { epr, flag: true }, room, first, last) == (
                Seq::<Op>::empty(),
                Next::<DataOutState, Result<usize, EndpointError>>::Done(Err(EndpointError::Disabled)),
            ),
            self.data_in_step(DataInState::Poll, epr, true, bytes, first, last) == (
                Seq::<Op>::empty(),
                Next::<DataInState, Result<(), EndpointError>>::Done(Err(EndpointError::Disabled)),
            ),
            self.setup_step(SetupState::Poll, Input::Register { epr, flag: true }, packet).1 == Next::<
                SetupState,
                [u8; 8],
            >::Fetch(SetupState::Count, self.count_word(), 1),
    {
    }

    /// A SETUP packet is only ever returned if it is 8 bytes long, and the flag that announces it
    /// is cleared exactly then.
    pub proof fn law_setup_packet_length(self, state: SetupState, input: Input, packet: [u8; 8], held: bool)
        requires
            state.accepts(T::CHIP.ram, input),
        ensures
            self.setup_step(state, input, packet).1 is Done <==> state == SetupState::Data(8),
            crate::types::flag_after(held, Flag::Ep0Setup, self.setup_step(state, input, packet).0) == (held && state
                != SetupState::Data(8)),
    {
        assert(seq![Op::Store(Flag::Ep0Setup, false)].last() == Op::Store(Flag::Ep0Setup, false));
    }
}

proof fn lemma_ep0_set(held: u32, rx: u32, tx: u32, ep_kind: bool, to_rx: Stat, to_tx: Stat)
    requires
        rx < 4,
        tx < 4,
        epr::stat_rx(held).bits() ^ rx == to_rx.bits(),
        epr::stat_tx(held).bits() ^ tx == to_tx.bits(),
    ensures
        ep0_word(rx, tx, ep_kind) < 0x1_0000,
        crate::model::endpoint_set(
            held,
            epr::after_write(held, ep0_word(rx, tx, ep_kind)),
            to_rx,
            to_tx,
            EpType::Control,
            0,
            ep_kind,
        ),
{
    epr::law_word(held, EpType::Control, 0, rx, tx, ep_kind);
}

/// The only access writes register 0, and only its low half.
pub open spec fn writes_register_0(ops: Seq<Op>) -> bool {
    &&& ops.len() == 1
    &&& ops[0] matches Op::WriteEpr(i, w) && i == 0 && w < 0x1_0000
}

proof fn lemma_one_write(held: u32, word: u32)
    ensures
        crate::model::epr_after(held, 0, seq![Op::WriteEpr(0, word)]) == epr::after_write(held, word),
{
    let ops = seq![Op::WriteEpr(0, word)];
    assert(ops.drop_last() =~= seq![]);
    assert(crate::model::epr_after(held, 0, ops.drop_last()) == held);
}

/// Whatever statuses endpoint 0 is read with, the word that answers a request gives it the ones
/// meant, makes it a control endpoint with number 0, and loses no transfer flag that is raised
/// meanwhile.
pub proof fn law_answer_sets_endpoint_0(epr: u32, held: u32, rx: Stat, tx: Stat)
    requires
        epr::stat_rx(held) == epr::stat_rx(epr),
        epr::stat_tx(held) == epr::stat_tx(epr),
    ensures
        answer_word(epr, rx, tx) < 0x1_0000,
        crate::model::endpoint_set(
            held,
            epr::after_write(held, answer_word(epr, rx, tx)),
            rx,
            tx,
            EpType::Control,
            0,
            false,
        ),
{
    epr::lemma_toggles(epr::stat_rx(epr), rx);
    epr::lemma_toggles(epr::stat_tx(epr), tx);
    epr::law_toggle(epr::stat_rx(epr), rx, rx);
    epr::law_toggle(epr::stat_tx(epr), tx, tx);
    lemma_ep0_set(held, epr::toggle(epr::stat_rx(epr), rx), epr::toggle(epr::stat_tx(epr), tx), false, rx, tx);
}

impl<'d, T: Instance> ControlPipe<'d, T> {
    /// A SETUP packet is waited for until it is announced. Its length is read from the table entry
    /// of the RX buffer of endpoint 0. One that is longer than 8 bytes or shorter is dropped, and
    /// the transfer starts over; one of 8 bytes is returned, and its announcement is cleared.
    /// Nothing else is touched.
    pub proof fn law_setup(
        self,
        epr: u32,
        flag: bool,
        mem: Seq<u32>,
        count: &[u32],
        words: &[u32],
        n: usize,
        packet: [u8; 8],
    )
        requires
            self.wf(),
            crate::model::mem_ok(T::CHIP.ram, mem),
            count@.len() == 1,
            count@[0] == mem[6int / T::CHIP.ram.align() as int],
        ensures
            ({
                let align = T::CHIP.ram.align() as int;
                let (ops, next) = self.setup_step(SetupState::Poll, Input::Register { epr, flag }, packet);
                &&& ops.len() == 0
                &&& next == (if flag {
                    Next::<SetupState, [u8; 8]>::Fetch(SetupState::Count, (6int / align) as usize, 1)
                } else {
                    Next::Wait(SetupState::Poll)
                })
            }),
            ({
                let align = T::CHIP.ram.align() as int;
                let (ops, next) = self.setup_step(SetupState::Count, Input::Memory(count), packet);
                let len = crate::model::mem_half(T::CHIP.ram, mem, 6) % 0x400;
                &&& ops.len() == 0
                &&& next == (if len > 8 {
                    Next::<SetupState, [u8; 8]>::Sample(SetupState::Poll)
                } else {
                    Next::Fetch(
                        SetupState::Data(len as usize),
                        (self.ep_out.buf.addr as int / align) as usize,
                        ((len + align - 1) / align) as usize,
                    )
                })
            }),
            ({
                let (ops, next) = self.setup_step(SetupState::Data(n), Input::Memory(words), packet);
                if n == 8 {
                    &&& next == Next::<SetupState, [u8; 8]>::Done(packet)
                    &&& ops.len() == 1
                    &&& ops[0] == Op::Store(Flag::Ep0Setup, false)
                } else {
                    &&& next == Next::<SetupState, [u8; 8]>::Sample(SetupState::Poll)
                    &&& ops.len() == 0
                }
            }),
    {
        crate::model::lemma_words(T::CHIP.ram);
        btable::law_length_location(T::CHIP.ram, mem, 0, PacketBuffer::Rx);
    }

    /// Beginning to receive a packet of the data stage: the first packet, with both directions at
    /// NAK, makes reception VALID. Transmission is left at STALL until the last packet, which
    /// leaves it at NAK. A packet that is neither first nor last changes nothing.
    pub proof fn law_data_out_begins(self, input: Input, held: u32, room: int, first: bool, last: bool)
        requires
            first ==> epr::stat_rx(held) == Stat::Nak && epr::stat_tx(held) == Stat::Nak,
            !first && last ==> epr::stat_tx(held) == Stat::Stall,
        ensures
            ({
                let (ops, next) = self.data_out_step(DataOutState::Begin, input, room, first, last);
                &&& next == Next::<DataOutState, Result<usize, EndpointError>>::Sample(DataOutState::Poll)
                &&& !first && !last ==> ops.len() == 0
                &&& first || last ==> {
                    &&& writes_register_0(ops)
                    &&& crate::model::endpoint_set(
                        held,
                        crate::model::epr_after(held, 0, ops),
                        if first {
                            Stat::Valid
                        } else {
                            epr::stat_rx(held)
                        },
                        if last {
                            Stat::Nak
                        } else {
                            Stat::Stall
                        },
                        EpType::Control,
                        0,
                        false,
                    )
                }
            }),
    {
        if first || last {
            let rx = toggle_if(first, Stat::Nak, Stat::Valid);
            let tx = toggle_if(first, Stat::Nak, Stat::Stall) ^ toggle_if(last, Stat::Stall, Stat::Nak);
            lemma_small(Stat::Nak, Stat::Valid, Stat::Nak, Stat::Nak);
            lemma_small(Stat::Nak, Stat::Stall, Stat::Stall, Stat::Nak);
            lemma_small(Stat::Stall, Stat::Nak, Stat::Stall, Stat::Nak);
            epr::law_toggle(Stat::Nak, Stat::Valid, Stat::Nak);
            epr::law_toggle(Stat::Nak, Stat::Stall, Stat::Nak);
            epr::law_toggle(Stat::Stall, Stat::Nak, Stat::Nak);
            epr::lemma_toggles(epr::stat_rx(held), Stat::Nak);
            lemma_ep0_set(
                held,
                rx,
                tx,
                false,
                if first {
                    Stat::Valid
                } else {
                    epr::stat_rx(held)
                },
                if last {
                    Stat::Nak
                } else {
                    Stat::Stall
                },
            );
            lemma_one_write(held, data_out_begin_word(first, last));
        }
    }

    /// Receiving a packet of the data stage: the transfer waits until reception is at NAK, and is
    /// given up if another SETUP packet was announced. Then the length is read from the table entry
    /// of the RX buffer of endpoint 0; a packet that does not fit is an error. Nothing is touched.
    pub proof fn law_data_out_goes_on(
        self,
        epr: u32,
        flag: bool,
        mem: Seq<u32>,
        count: &[u32],
        room: int,
        first: bool,
        last: bool,
    )
        requires
            self.wf(),
            crate::model::mem_ok(T::CHIP.ram, mem),
            count@.len() == 1,
            count@[0] == mem[6int / T::CHIP.ram.align() as int],
        ensures
            ({
                let align = T::CHIP.ram.align() as int;
                let (ops, next) = self.data_out_step(DataOutState::Poll, Input::Register { epr, flag }, room, first, last);
                &&& ops.len() == 0
                &&& next == (if Stat::of_bits(crate::regs::pair(epr, 12)) != Stat::Nak {
                    Next::<DataOutState, Result<usize, EndpointError>>::Wait(DataOutState::Poll)
                } else if flag {
                    Next::Done(Err(EndpointError::Disabled))
                } else {
                    Next::Fetch(DataOutState::Count, (6int / align) as usize, 1)
                })
            }),
            ({
                let align = T::CHIP.ram.align() as int;
                let (ops, next) = self.data_out_step(DataOutState::Count, Input::Memory(count), room, first, last);
                let n = crate::model::mem_half(T::CHIP.ram, mem, 6) % 0x400;
                &&& ops.len() == 0
                &&& next == (if n > room {
                    Next::<DataOutState, Result<usize, EndpointError>>::Done(Err(EndpointError::BufferOverflow))
                } else {
                    Next::Fetch(
                        DataOutState::Data(n as usize),
                        (self.ep_out.buf.addr as int / align) as usize,
                        ((n + align - 1) / align) as usize,
                    )
                })
            }),
    {
        crate::model::lemma_words(T::CHIP.ram);
        btable::law_length_location(T::CHIP.ram, mem, 0, PacketBuffer::Rx);
    }

    /// The end of receiving a packet of the data stage returns its length. Reception, at NAK, is
    /// left at STALL after the last packet and VALID for the next one otherwise, and nothing else
    /// changes. The bytes received are those at the address of the buffer of OUT endpoint 0.
    pub proof fn law_data_out_ends(
        self,
        held: u32,
        n: usize,
        words: &[u32],
        mem: Seq<u32>,
        room: int,
        first: bool,
        last: bool,
        j: int,
    )
        requires
            self.wf(),
            n <= self.ep_out.buf.len,
            crate::model::mem_ok(T::CHIP.ram, mem),
            ({
                let align = T::CHIP.ram.align() as int;
                let start = self.ep_out.buf.addr as int / align;
                words@ == mem.subrange(start, start + (n + align - 1) / align)
            }),
            epr::stat_rx(held) == Stat::Nak,
        ensures
            ({
                let (ops, next) = self.data_out_step(DataOutState::Data(n), Input::Memory(words), room, first, last);
                &&& next == Next::<DataOutState, Result<usize, EndpointError>>::Done(Ok(n))
                &&& writes_register_0(ops)
                &&& crate::model::endpoint_set(
                    held,
                    crate::model::epr_after(held, 0, ops),
                    if last {
                        Stat::Stall
                    } else {
                        Stat::Valid
                    },
                    epr::stat_tx(held),
                    EpType::Control,
                    0,
                    false,
                )
                &&& 0 <= j < n ==> crate::buffer::packet_byte(T::CHIP.ram, words@, j) == crate::model::mem_byte(
                    T::CHIP.ram,
                    mem,
                    self.ep_out.buf.addr + j,
                )
            }),
    {
        let to = if last {
            Stat::Stall
        } else {
            Stat::Valid
        };
        self.ep_out.buf.law_bytes_read(mem, n as int, j);
        epr::lemma_toggles(Stat::Nak, to);
        epr::lemma_toggles(epr::stat_tx(held), to);
        epr::law_toggle(Stat::Nak, to, to);
        lemma_ep0_set(held, epr::toggle(Stat::Nak, to), 0, false, to, epr::stat_tx(held));
        lemma_one_write(held, data_out_end_word(last));
    }

    /// Beginning to send a packet of the data stage refuses one that is longer than the packets of
    /// endpoint 0. Reception is left at STALL from the first packet on, and VALID with the last
    /// one, for which the kind bit is set, so that the host can go on to the status stage. A packet
    /// that is neither first nor last changes nothing.
    pub proof fn law_data_in_begins(self, epr: u32, flag: bool, bytes: Seq<u8>, held: u32, first: bool, last: bool)
        requires
            first ==> epr::stat_rx(held) == Stat::Nak,
            !first && last ==> epr::stat_rx(held) == Stat::Stall,
        ensures
            ({
                let (ops, next) = self.data_in_step(DataInState::Begin, epr, flag, bytes, first, last);
                if bytes.len() > self.ep_in.info.max_packet_size {
                    &&& ops.len() == 0
                    &&& next == Next::<DataInState, Result<(), EndpointError>>::Done(Err(EndpointError::BufferOverflow))
                } else {
                    &&& next == Next::<DataInState, Result<(), EndpointError>>::Sample(DataInState::Poll)
                    &&& !first && !last ==> ops.len() == 0
                    &&& first || last ==> {
                        &&& writes_register_0(ops)
                        &&& crate::model::endpoint_set(
                            held,
                            crate::model::epr_after(held, 0, ops),
                            if last {
                                Stat::Valid
                            } else {
                                Stat::Stall
                            },
                            epr::stat_tx(held),
                            EpType::Control,
                            0,
                            last,
                        )
                    }
                }
            }),
    {
        if first || last {
            let to = if last {
                Stat::Valid
            } else {
                Stat::Stall
            };
            lemma_small(Stat::Nak, Stat::Stall, Stat::Stall, Stat::Valid);
            lemma_small(Stat::Stall, Stat::Valid, Stat::Stall, Stat::Valid);
            epr::law_toggle(Stat::Nak, Stat::Stall, Stat::Valid);
            epr::law_toggle(Stat::Nak, Stat::Valid, Stat::Valid);
            epr::law_toggle(Stat::Stall, Stat::Valid, Stat::Valid);
            epr::lemma_toggles(epr::stat_tx(held), Stat::Nak);
            lemma_ep0_set(
                held,
                toggle_if(first, Stat::Nak, Stat::Stall) ^ toggle_if(last, Stat::Stall, Stat::Valid),
                0,
                last,
                to,
                epr::stat_tx(held),
            );
            lemma_one_write(held, data_in_begin_word(first, last));
        }
    }

    /// Sending a packet of the data stage: the transfer waits until transmission is at NAK, and is
    /// given up if another SETUP packet was announced; neither touches anything. Otherwise the
    /// packet and its length are stored for IN endpoint 0, after that transmission is made VALID
    /// and the kind bit set exactly for the last packet, and nothing else changes. That goes for
    /// every packet of a request.
    pub proof fn law_data_in_goes_on(
        self,
        epr: u32,
        flag: bool,
        bytes: Seq<u8>,
        held: u32,
        mem: Seq<u32>,
        first: bool,
        last: bool,
    )
        requires
            self.wf(),
            Stat::of_bits(crate::regs::pair(epr, 4)) == Stat::Nak && !flag ==> bytes.len() <= self.ep_in.buf.len,
            crate::model::mem_ok(T::CHIP.ram, mem),
            epr::stat_tx(held) == epr::stat_tx(epr),
        ensures
            ({
                let (ops, next) = self.data_in_step(DataInState::Poll, epr, flag, bytes, first, last);
                if Stat::of_bits(crate::regs::pair(epr, 4)) != Stat::Nak {
                    &&& ops.len() == 0
                    &&& next == Next::<DataInState, Result<(), EndpointError>>::Wait(DataInState::Poll)
                } else if flag {
                    &&& ops.len() == 0
                    &&& next == Next::<DataInState, Result<(), EndpointError>>::Done(Err(EndpointError::Disabled))
                } else {
                    &&& next == Next::<DataInState, Result<(), EndpointError>>::Done(Ok(()))
                    &&& crate::endpoint::packet_stored(
                        T::CHIP.ram,
                        mem,
                        ops,
                        self.ep_in.buf.addr as int,
                        bytes,
                        0,
                        PacketBuffer::Tx,
                    )
                    &&& crate::model::endpoint_set(
                        held,
                        crate::model::epr_after(held, 0, ops),
                        epr::stat_rx(held),
                        Stat::Valid,
                        EpType::Control,
                        0,
                        last,
                    )
                    &&& crate::model::register_written_last(ops)
                    &&& forall|i: int|
                        0 <= i < ops.len() ==> match #[trigger] ops[i] {
                            Op::WriteMem(..) => true,
                            Op::WriteEpr(k, w) => k == 0 && w < 0x1_0000,
                            _ => false,
                        }
                }
            }),
    {
        if epr::stat_tx(epr) == Stat::Nak && !flag {
            let data = self.ep_in.write_data_ops(bytes, PacketBuffer::Tx);
            let change = epr::toggle(Stat::Nak, Stat::Valid);
            self.ep_in.law_packet_stored(mem, bytes, PacketBuffer::Tx);
            epr::lemma_toggles(Stat::Nak, Stat::Valid);
            epr::lemma_toggles(epr::stat_rx(held), Stat::Nak);
            epr::law_toggle(Stat::Nak, Stat::Valid, Stat::Valid);
            lemma_ep0_set(held, 0, change, last, epr::stat_rx(held), Stat::Valid);
            crate::endpoint::lemma_tail(held, 0, mem, data, data_in_end_word(last), Op::Delay(0));
        }
    }

    /// A control write, packet by packet, by what its steps access. The first packet finds both
    /// directions at NAK, any other one finds reception VALID and transmission at STALL. While a
    /// packet is awaited, reception is VALID, and transmission at STALL, or at NAK for the last one.
    /// Once the packet has arrived, which turns reception to NAK and may set flags and toggles,
    /// endpoint 0 is left as the next packet finds it, and after the last one with reception at
    /// STALL and transmission at NAK, which leaves the status stage to `accept` or `reject`.
    pub proof fn law_control_write_steps(
        self,
        input: Input,
        held: u32,
        arrived: u32,
        n: usize,
        words: &[u32],
        room: int,
        first: bool,
        last: bool,
    )
        requires
            self.wf(),
            n <= self.ep_out.buf.len,
            epr::stat_rx(held) == (if first {
                Stat::Nak
            } else {
                Stat::Valid
            }),
            epr::stat_tx(held) == (if first {
                Stat::Nak
            } else {
                Stat::Stall
            }),
            epr::stat_rx(arrived) == Stat::Nak,
            epr::stat_tx(arrived) == (if last {
                Stat::Nak
            } else {
                Stat::Stall
            }),
        ensures
            ({
                let begun = crate::model::epr_after(
                    held,
                    0,
                    self.data_out_step(DataOutState::Begin, input, room, first, last).0,
                );
                let after = crate::model::epr_after(
                    arrived,
                    0,
                    self.data_out_step(DataOutState::Data(n), Input::Memory(words), room, first, last).0,
                );
                &&& epr::stat_rx(begun) == Stat::Valid
                &&& epr::stat_tx(begun) == (if last {
                    Stat::Nak
                } else {
                    Stat::Stall
                })
                &&& epr::stat_rx(after) == (if last {
                    Stat::Stall
                } else {
                    Stat::Valid
                })
                &&& epr::stat_tx(after) == (if last {
                    Stat::Nak
                } else {
                    Stat::Stall
                })
            }),
    {
        self.law_data_out_begins(input, held, room, first, last);
        if !first && !last {
            assert(self.data_out_step(DataOutState::Begin, input, room, first, last).0 =~= seq![]);
        }
        law_data_out_end(arrived, last);
        lemma_one_write(arrived, data_out_end_word(last));
    }

    /// A control read, packet by packet, by what its steps access. The first packet finds both
    /// directions at NAK, any other one finds reception at STALL and transmission at NAK. The
    /// packet is handed over with transmission VALID, and with reception at STALL, so that a host
    /// that goes on to the status stage too soon gets a STALL, or VALID and the kind bit set for the
    /// last one.
    pub proof fn law_control_read_steps(self, bytes: Seq<u8>, held: u32, mem: Seq<u32>, first: bool, last: bool)
        requires
            self.wf(),
            bytes.len() <= self.ep_in.info.max_packet_size,
            bytes.len() <= self.ep_in.buf.len,
            crate::model::mem_ok(T::CHIP.ram, mem),
            epr::stat_rx(held) == (if first {
                Stat::Nak
            } else {
                Stat::Stall
            }),
            epr::stat_tx(held) == Stat::Nak,
        ensures
            ({
                let begun = crate::model::epr_after(
                    held,
                    0,
                    self.data_in_step(DataInState::Begin, held, false, bytes, first, last).0,
                );
                let (ops, next) = self.data_in_step(DataInState::Poll, begun, false, bytes, first, last);
                let handed = crate::model::epr_after(begun, 0, ops);
                &&& next == Next::<DataInState, Result<(), EndpointError>>::Done(Ok(()))
                &&& crate::endpoint::packet_stored(
                    T::CHIP.ram,
                    mem,
                    ops,
                    self.ep_in.buf.addr as int,
                    bytes,
                    0,
                    PacketBuffer::Tx,
                )
                &&& epr::stat_tx(handed) == Stat::Valid
                &&& epr::stat_rx(handed) == (if last {
                    Stat::Valid
                } else {
                    Stat::Stall
                })
                &&& crate::regs::bit(handed, 8) == last
                &&& epr::ctr_rx(handed) == epr::ctr_rx(held)
                &&& epr::ctr_tx(handed) == epr::ctr_tx(held)
            }),
    {
        let step = self.data_in_step(DataInState::Begin, held, false, bytes, first, last).0;
        let begun = crate::model::epr_after(held, 0, step);
        self.law_data_in_begins(held, false, bytes, held, first, last);
        if !first && !last {
            assert(step =~= seq![]);
            assert(begun == held);
        }
        self.law_data_in_goes_on(begun, false, bytes, begun, mem, first, last);
    }

    /// Accepting a request stores an empty packet for IN endpoint 0, then, with the register read
    /// after that, puts reception at STALL and makes transmission VALID, and waits until
    /// transmission is at NAK. Nothing else changes, and no transfer flag is lost.
    pub proof fn law_accept(self, epr: u32, held: u32, mem: Seq<u32>)
        requires
            self.wf(),
            crate::model::mem_ok(T::CHIP.ram, mem),
            epr::stat_rx(held) == epr::stat_rx(epr),
            epr::stat_tx(held) == epr::stat_tx(epr),
        ensures
            ({
                let (ops, next) = self.accept_step(AcceptState::Begin, epr);
                &&& next == Next::<AcceptState, ()>::Sample(AcceptState::Respond)
                &&& crate::endpoint::packet_stored(
                    T::CHIP.ram,
                    mem,
                    ops,
                    self.ep_in.buf.addr as int,
                    Seq::empty(),
                    0,
                    PacketBuffer::Tx,
                )
                &&& forall|i: int| 0 <= i < ops.len() ==> (#[trigger] ops[i]) is WriteMem
            }),
            ({
                let (ops, next) = self.accept_step(AcceptState::Respond, epr);
                &&& next == Next::<AcceptState, ()>::Sample(AcceptState::Poll)
                &&& writes_register_0(ops)
                &&& crate::model::endpoint_set(
                    held,
                    crate::model::epr_after(held, 0, ops),
                    Stat::Stall,
                    Stat::Valid,
                    EpType::Control,
                    0,
                    false,
                )
            }),
            ({
                let (ops, next) = self.accept_step(AcceptState::Poll, epr);
                &&& ops.len() == 0
                &&& next == (if Stat::of_bits(crate::regs::pair(epr, 4)) == Stat::Nak {
                    Next::<AcceptState, ()>::Done(())
                } else {
                    Next::Wait(AcceptState::Poll)
                })
            }),
    {
        self.ep_in.law_packet_stored(mem, seq![], PacketBuffer::Tx);
        law_answer_sets_endpoint_0(epr, held, Stat::Stall, Stat::Valid);
        lemma_one_write(held, answer_word(epr, Stat::Stall, Stat::Valid));
    }

    /// What a step asks for is what the next one takes: after words of packet memory were asked
    /// for, all of them inside packet memory, a transfer takes just as many words, and otherwise it
    /// takes a sample of the register.
    pub proof fn law_packets_go_on(
        self,
        setup: SetupState,
        data_out: DataOutState,
        input: Input,
        packet: [u8; 8],
        room: int,
        first: bool,
        last: bool,
        epr: u32,
        flag: bool,
        words: &[u32],
    )
        ensures
            self.can_setup(setup, input) ==> match self.setup_step(setup, input, packet).1 {
                Next::Wait(s) | Next::Sample(s) => self.can_setup(s, Input::Register { epr, flag }),
                Next::Fetch(s, at, count) => {
                    &&& s.accepts(T::CHIP.ram, Input::Memory(words)) == (words@.len() == count)
                    &&& at + count <= T::CHIP.ram.spec_words()
                    &&& s is Data && words@.len() == count ==> self.can_setup(s, Input::Memory(words))
                },
                Next::Done(_) => true,
            },
            self.can_data_out(data_out, input, room) ==> match self.data_out_step(data_out, input, room, first, last).1 {
                Next::Wait(s) | Next::Sample(s) => self.can_data_out(s, Input::Register { epr, flag }, room),
                Next::Fetch(s, at, count) => {
                    &&& s.accepts(T::CHIP.ram, Input::Memory(words)) == (words@.len() == count)
                    &&& at + count <= T::CHIP.ram.spec_words()
                    &&& s is Data && words@.len() == count ==> self.can_data_out(s, Input::Memory(words), room)
                },
                Next::Done(_) => true,
            },
    {
        let ram = T::CHIP.ram;
        crate::model::lemma_words(ram);
        let mem = Seq::new(ram.spec_words() as nat, |i: int| 0u32);
        btable::law_length_location(ram, mem, 0, PacketBuffer::Rx);
        match self.setup_step(setup, input, packet).1 {
            Next::Fetch(SetupState::Data(n), _, _) => if self.can_setup(setup, input) {
                self.ep_out.buf.law_bytes_read(mem, n as int, 0);
            },
            _ => {},
        }
        match self.data_out_step(data_out, input, room, first, last).1 {
            Next::Fetch(DataOutState::Data(n), _, _) => if self.can_data_out(data_out, input, room) {
                self.ep_out.buf.law_bytes_read(mem, n as int, 0);
            },
            _ => {},
        }
    }

    /// The first step of a transfer can always be taken, and any other one unless a packet that
    /// fits into the room does not fit the buffer of endpoint 0.
    pub proof fn law_packets_possible(self, input: Input, epr: u32, flag: bool, count: &[u32], room: int, len: int)
        requires
            self.wf(),
            count@.len() == 1,
        ensures
            ({
                let field = if T::CHIP.ram.is_32bit() {
                    count@[0] as int / 0x1_0000
                } else {
                    count@[0] as int % 0x1_0000
                };
                &&& self.can_setup(SetupState::Poll, Input::Register { epr, flag })
                &&& self.can_setup(SetupState::Count, Input::Memory(count)) == !(self.ep_out.buf.len < field % 0x400 <= 8)
                &&& self.can_data_out(DataOutState::Begin, input, room)
                &&& self.can_data_out(DataOutState::Poll, Input::Register { epr, flag }, room)
                &&& self.can_data_out(DataOutState::Count, Input::Memory(count), room) == !(self.ep_out.buf.len < field
                    % 0x400 <= room)
                &&& self.can_data_in(DataInState::Begin, epr, flag, len)
                &&& self.can_data_in(DataInState::Poll, epr, flag, len) == !(Stat::of_bits(crate::regs::pair(epr, 4))
                    == Stat::Nak && !flag && len > self.ep_in.buf.len)
            }),
    {
    }
}

} // verus!
