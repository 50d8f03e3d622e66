//! Endpoints and the transfers on them.

use vstd::prelude::*;
use core::marker::PhantomData;
use crate::address::{Dir, EndpointInfo, In, Out};
use crate::btable;
use crate::buffer::EndpointBuffer;
use crate::epr;
use crate::instance::Instance;
use crate::regs::{epr_dtog_rx, epr_dtog_tx, epr_stat_rx, epr_stat_tx, Stat};
use crate::types::{EndpointError, EndpointType, Family, Flag, Input, Next, Op, PacketBuffer, EP_COUNT};

verus! {

/// A USB endpoint of the peripheral `T` in direction `D`.
pub struct Endpoint<'d, T: Instance, D: Dir> {
    pub _phantom: PhantomData<(&'d mut T, D)>,
    /// What the endpoint is.
    pub info: EndpointInfo,
    /// Where its packets are.
    pub buf: EndpointBuffer<T>,
}

/// State of a transfer from the host.
#[derive(Clone, Copy, PartialEq, Eq, Structural, Debug)]
pub enum ReadState {
    /// Waiting for a packet.
    Poll,
    /// Finding out which of two buffers holds the packet.
    Select,
    /// Reading the length of the packet in this buffer.
    Count(PacketBuffer),
    /// Reading the packet, which has this length.
    Data(usize),
}

/// State of a transfer to the host.
#[derive(Clone, Copy, PartialEq, Eq, Structural, Debug)]
pub enum WriteState {
    /// Not begun.
    Begin,
    /// Waiting until a packet can be handed over.
    Poll,
}

/// The word that makes a single-buffered endpoint ready for the next packet: it turns NAK into
/// VALID for the direction that just transferred one and changes nothing else.
pub open spec fn ready_word(ep_type: EndpointType, index: int, out: bool) -> u32 {
    let change = epr::toggle(Stat::Nak, Stat::Valid);
    epr::word(
        epr::spec_convert_type(ep_type),
        index as u32,
        if out {
            change
        } else {
            0
        },
        if out {
            0
        } else {
            change
        },
        false,
        true,
    )
}

/// The length of the packet that a length field states.
pub open spec fn packet_len(field: int) -> int {
    field % 0x400
}

impl<'d, T: Instance, D: Dir> Endpoint<'d, T, D> {
    /// The endpoint's index.
    pub open spec fn index(&self) -> int {
        self.info.addr.spec_index()
    }

    /// Whether the endpoint has a register and a proper buffer.
    pub open spec fn wf(&self) -> bool {
        &&& self.index() < EP_COUNT
        &&& self.info.addr.spec_direction() == D::spec_dir()
        &&& self.buf.wf()
    }

    /// Whether the endpoint is isochronous.
    pub open spec fn is_iso(&self) -> bool {
        self.info.ep_type == EndpointType::Isochronous
    }

    /// The accesses that put a packet into the endpoint's buffer.
    pub open spec fn write_data_ops(&self, bytes: Seq<u8>, packet_buffer: PacketBuffer) -> Seq<Op> {
        self.buf.write_ops(bytes) + btable::set_length(
            T::CHIP.ram,
            self.index(),
            packet_buffer,
            self.buf.addr,
            bytes.len() as u16,
        )
    }

    /// The length of the packet whose length word this is, or an error if the packet does not fit
    /// into `room` bytes.
    pub open spec fn received(&self, word: u32, room: int) -> Result<int, EndpointError> {
        let n = packet_len(btable::length_field(T::CHIP.ram, word));
        if n > room {
            Err(EndpointError::BufferOverflow)
        } else {
            Ok(n)
        }
    }

    /// What the endpoint is.
    pub fn info(&self) -> (r: &EndpointInfo)
        ensures
            *r == self.info,
    {
        &self.info
    }

    /// Write to a double-buffered endpoint.
    ///
    /// The data buffers overlap, but the length still has to go to the right field. DTOG_TX names
    /// the buffer that the peripheral uses, in which the next packet to transmit goes; the length
    /// belongs to the OTHER buffer, where the last transmitted packet was.
    pub fn write_data_double_buffered(&mut self, buf: &[u8], packet_buffer: PacketBuffer, ops: &mut Vec<Op>)
        requires
            old(self).wf(),
            buf@.len() <= old(self).buf.len,
        ensures
            *final(self) == *old(self),
            final(ops)@ == old(ops)@ + old(self).write_data_ops(buf@, packet_buffer),
    {
        let index: usize = self.info.addr.index();
        self.buf.write(buf, ops);
        let len: u16 = buf.len() as u16;
        match packet_buffer {
            PacketBuffer::Rx => btable::write_in_len_rx(T::CHIP.ram, index, self.buf.addr, len, ops),
            PacketBuffer::Tx => btable::write_in_len_tx(T::CHIP.ram, index, self.buf.addr, len, ops),
        }
        proof {
            assert(ops@ =~= old(ops)@ + old(self).write_data_ops(buf@, packet_buffer));
        }
    }

    /// Write to a single-buffered endpoint.
    pub fn write_data(&mut self, buf: &[u8], ops: &mut Vec<Op>)
        requires
            old(self).wf(),
            buf@.len() <= old(self).buf.len,
        ensures
            *final(self) == *old(self),
            final(ops)@ == old(ops)@ + old(self).write_data_ops(buf@, PacketBuffer::Tx),
    {
        self.write_data_double_buffered(buf, PacketBuffer::Tx, ops);
    }

    /// Read from a double-buffered endpoint, first part: which word holds the packet's length.
    ///
    /// The data buffers overlap, but the length still has to come from the right field. DTOG_RX
    /// names the buffer that the peripheral uses, in which the next received packet goes; the
    /// last packet is in the OTHER buffer.
    pub fn read_data_len_word(&self, packet_buffer: PacketBuffer) -> (r: usize)
        requires
            self.wf(),
        ensures
            r == btable::length_word(T::CHIP.ram, self.index(), packet_buffer),
    {
        btable::out_len_word(T::CHIP.ram, self.info.addr.index(), packet_buffer)
    }

    /// Read from an endpoint, second part: the length of the packet, given the word that holds
    /// it, and given the room for the packet.
    pub fn read_data_len(&self, word: u32, room: usize) -> (r: Result<usize, EndpointError>)
        ensures
            r is Ok <==> self.received(word, room as int) is Ok,
            r matches Ok(n) ==> self.received(word, room as int) == Ok::<int, EndpointError>(n as int) && n < 0x400,
            r matches Err(e) ==> e == EndpointError::BufferOverflow,
    {
        let field: u16 = btable::read_out_len(T::CHIP.ram, word);
        proof {
            assert(field & 0x3ff == field % 0x400) by (bit_vector);
        }
        let rx_len: usize = (field & 0x3ff) as usize;
        if rx_len > room {
            return Err(EndpointError::BufferOverflow);
        }
        Ok(rx_len)
    }

    /// Read from an endpoint, third part: first word and number of words of a packet of this
    /// length.
    pub fn read_data_words(&self, n: usize) -> (r: (usize, usize))
        requires
            n < 0x400,
        ensures
            r.0 == self.buf.first_word(),
            r.1 == crate::buffer::word_count(T::CHIP.ram, n as int),
    {
        let align: usize = T::CHIP.ram.align();
        assert(align == 2 || align == 4);
        (self.buf.addr as usize / align, (n + align - 1) / align)
    }
}

impl<'d, T: Instance> Endpoint<'d, T, In> {
    /// Whether a transfer to the host can go on. An isochronous endpoint does not change its
    /// status to NAK after sending a packet, so the transfer waits for the interrupt instead.
    pub open spec fn write_ready(&self, epr: u32, tx_pending: bool) -> bool {
        if self.is_iso() {
            epr::stat_tx(epr) == Stat::Disabled || !tx_pending
        } else {
            epr::stat_tx(epr) == Stat::Nak || epr::stat_tx(epr) == Stat::Disabled
        }
    }

    /// Accesses and outcome of one step of a transfer to the host.
    pub open spec fn write_step(&self, state: WriteState, epr: u32, tx_pending: bool, bytes: Seq<u8>) -> (
        Seq<Op>,
        Next<WriteState, Result<(), EndpointError>>,
    ) {
        let index = self.index() as usize;
        match state {
            WriteState::Begin => {
                if bytes.len() > self.info.max_packet_size {
                    (seq![], Next::Done(Err(EndpointError::BufferOverflow)))
                } else if self.is_iso() {
                    (
                        self.write_data_ops(
                            bytes,
                            if epr::dtog_tx(epr) {
                                PacketBuffer::Rx
                            } else {
                                PacketBuffer::Tx
                            },
                        ),
                        Next::Sample(WriteState::Poll),
                    )
                } else {
                    (seq![], Next::Sample(WriteState::Poll))
                }
            },
            WriteState::Poll => {
                if !self.write_ready(epr, tx_pending) {
                    (seq![], Next::Wait(WriteState::Poll))
                } else if epr::stat_tx(epr) == Stat::Disabled {
                    (seq![], Next::Done(Err(EndpointError::Disabled)))
                } else if self.is_iso() {
                    (seq![Op::Store(Flag::TxPending(index), true)], Next::Done(Ok(())))
                } else {
                    (
                        self.write_data_ops(bytes, PacketBuffer::Tx) + seq![
                            Op::WriteEpr(index, ready_word(self.info.ep_type, self.index(), false)),
                            Op::Store(Flag::TxPending(index), true),
                        ],
                        Next::Done(Ok(())),
                    )
                }
            },
        }
    }

    /// Whether a step of a transfer of `len` bytes to the host can be taken: what is put into the
    /// buffer has to fit, and an isochronous endpoint is VALID or disabled when no packet is
    /// pending.
    pub open spec fn can_write(&self, state: WriteState, epr: u32, tx_pending: bool, len: int) -> bool {
        &&& self.wf()
        &&& match state {
            WriteState::Begin => self.is_iso() && len <= self.info.max_packet_size ==> len <= self.buf.len,
            WriteState::Poll => if self.is_iso() {
                !tx_pending ==> epr::stat_tx(epr) == Stat::Valid || epr::stat_tx(epr) == Stat::Disabled
            } else {
                epr::stat_tx(epr) == Stat::Nak ==> len <= self.buf.len
            },
        }
    }

    /// Whether a step of a transfer of `len` bytes to the host can be taken.
    pub fn check_write(&self, state: WriteState, epr: u32, tx_pending: bool, len: usize) -> (r: bool)
        requires
            self.wf(),
        ensures
            r == self.can_write(state, epr, tx_pending, len as int),
    {
        let fits = len <= self.buf.len as usize;
        let stat = epr_stat_tx(epr);
        let iso = self.info.ep_type == EndpointType::Isochronous;
        match state {
            WriteState::Begin => !iso || len > self.info.max_packet_size as usize || fits,
            WriteState::Poll => if iso {
                tx_pending || stat == Stat::Valid || stat == Stat::Disabled
            } else {
                stat != Stat::Nak || fits
            },
        }
    }

    /// Whether a task that waits for the endpoint to be enabled can go on, given the endpoint's
    /// register.
    pub fn wait_enabled(&self, epr: u32) -> (ready: bool)
        ensures
            ready == (epr::stat_tx(epr) != Stat::Disabled),
    {
        epr_stat_tx(epr) != Stat::Disabled
    }

    /// One step of sending a packet, given the endpoint's register and then whether a packet is
    /// still pending.
    ///
    /// The transfer starts in state `Begin`, is refused at once if the packet is too long, and
    /// fails if the endpoint is disabled.
    pub fn write(&mut self, state: WriteState, epr: u32, tx_pending: bool, buf: &[u8], ops: &mut Vec<Op>) -> (r: Next<
        WriteState,
        Result<(), EndpointError>,
    >)
        requires
            old(self).can_write(state, epr, tx_pending, buf@.len() as int),
        ensures
            *final(self) == *old(self),
            final(ops)@ == old(ops)@ + old(self).write_step(state, epr, tx_pending, buf@).0,
            r == old(self).write_step(state, epr, tx_pending, buf@).1,
    {
        let index: usize = self.info.addr.index();
        match state {
            WriteState::Begin => {
                if buf.len() > self.info.max_packet_size as usize {
                    return Next::Done(Err(EndpointError::BufferOverflow));
                }
                if self.info.ep_type == EndpointType::Isochronous {
                    // Find the buffer that is in use. Write to the OTHER buffer.
                    let packet_buffer = if epr_dtog_tx(epr) {
                        PacketBuffer::Rx
                    } else {
                        PacketBuffer::Tx
                    };
                    self.write_data_double_buffered(buf, packet_buffer, ops);
                }
                Next::Sample(WriteState::Poll)
            },
            WriteState::Poll => {
                let stat = epr_stat_tx(epr);
                let ready = if self.info.ep_type == EndpointType::Isochronous {
                    stat == Stat::Disabled || !tx_pending
                } else {
                    stat == Stat::Nak || stat == Stat::Disabled
                };
                if !ready {
                    return Next::Wait(WriteState::Poll);
                }
                if stat == Stat::Disabled {
                    return Next::Done(Err(EndpointError::Disabled));
                }
                if self.info.ep_type != EndpointType::Isochronous {
                    self.write_data(buf, ops);
                    let word: u32 = self.ready(false);
                    ops.push(Op::WriteEpr(index, word));
                }
                ops.push(Op::Store(Flag::TxPending(index), true));
                proof {
                    assert(ops@ =~= old(ops)@ + old(self).write_step(state, epr, tx_pending, buf@).0);
                }
                Next::Done(Ok(()))
            },
        }
    }
}

impl ReadState {
    /// Whether a transfer in this state can be handed this input.
    pub open spec fn accepts(self, ram: crate::types::UsbRam, input: Input) -> bool {
        match (self, input) {
            (ReadState::Poll, Input::Register { .. }) => true,
            (ReadState::Select, Input::Register { .. }) => true,
            (ReadState::Count(_), Input::Memory(words)) => words@.len() == 1,
            (ReadState::Data(n), Input::Memory(words)) => words@.len() == crate::buffer::word_count(ram, n as int),
            _ => false,
        }
    }
}

impl<'d, T: Instance> Endpoint<'d, T, Out> {
    /// Whether a packet was received or the endpoint is disabled. An isochronous endpoint does
    /// not change its status to NAK when it receives a packet, so the transfer waits for the
    /// interrupt instead.
    pub open spec fn read_ready(&self, epr: u32, rx_complete: bool) -> bool {
        if self.is_iso() {
            epr::stat_rx(epr) == Stat::Disabled || rx_complete
        } else {
            epr::stat_rx(epr) == Stat::Nak || epr::stat_rx(epr) == Stat::Disabled
        }
    }

    /// The step that reads the length of the packet in this buffer.
    pub open spec fn fetch_count(&self, packet_buffer: PacketBuffer) -> Next<ReadState, Result<usize, EndpointError>> {
        Next::Fetch(
            ReadState::Count(packet_buffer),
            btable::length_word(T::CHIP.ram, self.index(), packet_buffer) as usize,
            1,
        )
    }

    /// Accesses and outcome of one step of a transfer from the host into `room` bytes.
    pub open spec fn read_step(&self, state: ReadState, input: Input, room: int) -> (
        Seq<Op>,
        Next<ReadState, Result<usize, EndpointError>>,
    ) {
        let index = self.index() as usize;
        match (state, input) {
            (ReadState::Poll, Input::Register { epr, flag }) => {
                if !self.read_ready(epr, flag) {
                    (seq![], Next::Wait(ReadState::Poll))
                } else {
                    (
                        (if T::CHIP.family == Family::H5 {
                            seq![Op::BlockFor(800)]
                        } else {
                            seq![]
                        }) + seq![Op::Store(Flag::RxComplete(index), false)],
                        if epr::stat_rx(epr) == Stat::Disabled {
                            Next::Done(Err(EndpointError::Disabled))
                        } else if self.is_iso() {
                            Next::Sample(ReadState::Select)
                        } else {
                            self.fetch_count(PacketBuffer::Rx)
                        },
                    )
                }
            },
            (ReadState::Select, Input::Register { epr, flag }) => (
                seq![],
                self.fetch_count(
                    if epr::dtog_rx(epr) {
                        PacketBuffer::Tx
                    } else {
                        PacketBuffer::Rx
                    },
                ),
            ),
            (ReadState::Count(_), Input::Memory(words)) => (
                seq![],
                match self.received(words@[0], room) {
                    Ok(n) => Next::Fetch(
                        ReadState::Data(n as usize),
                        self.buf.first_word() as usize,
                        crate::buffer::word_count(T::CHIP.ram, n) as usize,
                    ),
                    Err(e) => Next::Done(Err(e)),
                },
            ),
            (ReadState::Data(n), _) => (
                if self.is_iso() {
                    seq![]
                } else {
                    seq![Op::WriteEpr(index, ready_word(self.info.ep_type, self.index(), true))]
                },
                Next::Done(Ok(n)),
            ),
            _ => arbitrary(),
        }
    }

    /// Whether a step of a transfer from the host can be taken.
    pub open spec fn can_read(&self, state: ReadState, input: Input, room: int) -> bool {
        &&& self.wf()
        &&& state.accepts(T::CHIP.ram, input)
        &&& match (state, input) {
            (ReadState::Poll, Input::Register { epr, flag }) => self.is_iso() && flag ==> epr::stat_rx(epr)
                == Stat::Valid || epr::stat_rx(epr) == Stat::Disabled,
            (ReadState::Count(_), Input::Memory(words)) => self.received(words@[0], room) matches Ok(n) ==> n
                <= self.buf.len,
            (ReadState::Data(n), _) => n <= room && n <= self.buf.len,
            _ => true,
        }
    }

    /// Whether a step of a transfer from the host into `room` bytes can be taken.
    pub fn check_read(&self, state: ReadState, input: Input, room: usize) -> (r: bool)
        requires
            self.wf(),
        ensures
            r == self.can_read(state, input, room as int),
    {
        match (state, input) {
            (ReadState::Poll, Input::Register { epr, flag }) => {
                let stat = epr_stat_rx(epr);
                self.info.ep_type != EndpointType::Isochronous || !flag || stat == Stat::Valid || stat == Stat::Disabled
            },
            (ReadState::Select, Input::Register { .. }) => true,
            (ReadState::Count(_), Input::Memory(words)) => words.len() == 1 && self.check_count(words[0], room),
            (ReadState::Data(n), Input::Memory(words)) => self.check_data(n, words.len(), room),
            _ => false,
        }
    }

    /// Whether the packet whose length word this is fits into the endpoint's buffer or else does
    /// not fit into `room` bytes.
    pub(crate) fn check_count(&self, word: u32, room: usize) -> (r: bool)
        ensures
            r == (self.received(word, room as int) matches Ok(n) ==> n <= self.buf.len),
    {
        match self.read_data_len(word, room) {
            Ok(n) => n <= self.buf.len as usize,
            Err(_) => true,
        }
    }

    /// Whether a packet of `n` bytes fits both into the endpoint's buffer and into `room` bytes,
    /// and takes this many words.
    pub(crate) fn check_data(&self, n: usize, words: usize, room: usize) -> (r: bool)
        ensures
            r == (n <= room && n <= self.buf.len && words == crate::buffer::word_count(T::CHIP.ram, n as int)),
    {
        let align: usize = T::CHIP.ram.align();
        assert(align == 2 || align == 4);
        n <= room && n <= self.buf.len as usize && words == (n + align - 1) / align
    }

    /// Whether a task that waits for the endpoint to be enabled can go on, given the endpoint's
    /// register.
    pub fn wait_enabled(&self, epr: u32) -> (ready: bool)
        ensures
            ready == (epr::stat_rx(epr) != Stat::Disabled),
    {
        epr_stat_rx(epr) != Stat::Disabled
    }

    /// One step of receiving a packet into `buf`, given what the step before asked for.
    ///
    /// The transfer starts in state `Poll`, fails if the endpoint is disabled or the packet does
    /// not fit, and returns the packet's length.
    pub fn read(&mut self, state: ReadState, input: Input, buf: &mut [u8], ops: &mut Vec<Op>) -> (r: Next<
        ReadState,
        Result<usize, EndpointError>,
    >)
        requires
            old(self).can_read(state, input, old(buf)@.len() as int),
        ensures
            *final(self) == *old(self),
            final(ops)@ == old(ops)@ + old(self).read_step(state, input, old(buf)@.len() as int).0,
            r == old(self).read_step(state, input, old(buf)@.len() as int).1,
            final(buf)@.len() == old(buf)@.len(),
            state matches ReadState::Data(n) ==> {
                &&& forall|j: int|
                    0 <= j < n ==> final(buf)@[j] == crate::buffer::packet_byte(T::CHIP.ram, input->Memory_0@, j)
                &&& forall|j: int| n <= j < old(buf)@.len() ==> final(buf)@[j] == old(buf)@[j]
            },
            !(state is Data) ==> final(buf)@ == old(buf)@,
    {
        let index: usize = self.info.addr.index();
        match (state, input) {
            (ReadState::Poll, Input::Register { epr, flag }) => {
                let stat = epr_stat_rx(epr);
                let ready = if self.info.ep_type == EndpointType::Isochronous {
                    stat == Stat::Disabled || flag
                } else {
                    stat == Stat::Nak || stat == Stat::Disabled
                };
                if !ready {
                    return Next::Wait(ReadState::Poll);
                }
                // On STM32H5 the transfer interrupt comes a little before the last accesses to
                // packet memory are done; 800 ns are enough in full-speed mode.
                if T::CHIP.family == Family::H5 {
                    ops.push(Op::BlockFor(800));
                }
                ops.push(Op::Store(Flag::RxComplete(index), false));
                proof {
                    assert(ops@ =~= old(ops)@ + old(self).read_step(state, input, buf@.len() as int).0);
                }
                if stat == Stat::Disabled {
                    return Next::Done(Err(EndpointError::Disabled));
                }
                if self.info.ep_type == EndpointType::Isochronous {
                    Next::Sample(ReadState::Select)
                } else {
                    Next::Fetch(ReadState::Count(PacketBuffer::Rx), self.read_data_len_word(PacketBuffer::Rx), 1)
                }
            },
            (ReadState::Select, Input::Register { epr, flag: _ }) => {
                // Find the buffer that is in use. Read from the OTHER buffer.
                let packet_buffer = if epr_dtog_rx(epr) {
                    PacketBuffer::Tx
                } else {
                    PacketBuffer::Rx
                };
                Next::Fetch(ReadState::Count(packet_buffer), self.read_data_len_word(packet_buffer), 1)
            },
            (ReadState::Count(_), Input::Memory(words)) => match self.read_data_len(words[0], buf.len()) {
                Ok(n) => {
                    let (first, count): (usize, usize) = self.read_data_words(n);
                    Next::Fetch(ReadState::Data(n), first, count)
                },
                Err(e) => Next::Done(Err(e)),
            },
            (ReadState::Data(n), Input::Memory(words)) => {
                self.buf.read(words, n, buf);
                if self.info.ep_type != EndpointType::Isochronous {
                    let word: u32 = self.ready(true);
                    ops.push(Op::WriteEpr(index, word));
                }
                Next::Done(Ok(n))
            },
            _ => Next::Wait(state),
        }
    }
}

impl<'d, T: Instance, D: Dir> Endpoint<'d, T, D> {
    /// The word that makes the endpoint ready for the next packet.
    fn ready(&self, out: bool) -> (r: u32)
        requires
            self.index() < EP_COUNT,
        ensures
            r == ready_word(self.info.ep_type, self.index(), out),
    {
        let change: u8 = epr::toggle_bits(Stat::Nak, Stat::Valid);
        let ep_type = epr::convert_type(self.info.ep_type);
        let ea: u8 = self.info.addr.index() as u8;
        if out {
            epr::build(ep_type, ea, change, 0, false, true)
        } else {
            epr::build(ep_type, ea, 0, change, false, true)
        }
    }
}

/// Making a single-buffered endpoint ready for the next packet turns the status of its direction
/// from NAK into VALID; the other direction, the data toggles and the transfer flags stay.
pub proof fn law_ready(held: u32, ep_type: EndpointType, index: int, out: bool)
    requires
        0 <= index < EP_COUNT,
        out ==> epr::stat_rx(held) == Stat::Nak,
        !out ==> epr::stat_tx(held) == Stat::Nak,
    ensures
        ({
            let after = epr::after_write(held, ready_word(ep_type, index, out));
            &&& epr::stat_rx(after) == (if out {
                Stat::Valid
            } else {
                epr::stat_rx(held)
            })
            &&& epr::stat_tx(after) == (if out {
                epr::stat_tx(held)
            } else {
                Stat::Valid
            })
            &&& epr::ep_type(after) == epr::spec_convert_type(ep_type)
            &&& epr::dtog_rx(after) == epr::dtog_rx(held)
            &&& epr::dtog_tx(after) == epr::dtog_tx(held)
            &&& epr::ctr_rx(after) == epr::ctr_rx(held)
            &&& epr::ctr_tx(after) == epr::ctr_tx(held)
        }),
{
    let change = epr::toggle(Stat::Nak, Stat::Valid);
    let a = epr::stat_rx(held).bits();
    let b = epr::stat_tx(held).bits();
    assert(2u32 ^ 3u32 == 1 && 2u32 ^ 1u32 == 3 && a ^ 0 == a && b ^ 0 == b) by (bit_vector);
    if out {
        epr::law_word(held, epr::spec_convert_type(ep_type), index as u32, change, 0, false);
    } else {
        epr::law_word(held, epr::spec_convert_type(ep_type), index as u32, 0, change, false);
    }
}

impl<'d, T: Instance, D: Dir> Endpoint<'d, T, D> {
    /// The length field and the words of a packet of `n` bytes are in packet memory, the field
    /// before the words.
    proof fn lemma_places(self, n: int, packet_buffer: PacketBuffer)
        requires
            self.wf(),
            0 <= n <= self.buf.len,
        ensures
            ({
                let ram = T::CHIP.ram;
                let field = btable::length_word(ram, self.index(), packet_buffer);
                let first = self.buf.first_word();
                let count = crate::buffer::word_count(ram, n);
                &&& 0 <= field < first
                &&& 0 <= count
                &&& first + count <= ram.spec_words()
                &&& n <= 0xffff
            }),
    {
        let ram = T::CHIP.ram;
        let addr = self.buf.addr as int;
        let len = self.buf.len as int;
        if ram.is_32bit() {
            assert(ram.align() == 4);
            assert(ram.spec_words() == ram.size() as int / 4);
            assert(self.buf.first_word() == addr / 4);
            assert(crate::buffer::word_count(ram, n) == (n + 3) / 4);
            assert(addr % 4 == 0 && len % 4 == 0);
        } else {
            assert(ram.align() == 2);
            assert(ram.spec_words() == ram.size() as int / 2);
            assert(self.buf.first_word() == addr / 2);
            assert(crate::buffer::word_count(ram, n) == (n + 1) / 2);
            assert(addr % 2 == 0 && len % 2 == 0);
        }
    }

    /// After a packet was put into an endpoint's buffer, its length and its bytes are what is
    /// read from there, and packet memory outside the buffer and its length field is as it was.
    pub proof fn law_packet_in_memory(self, mem: Seq<u32>, bytes: Seq<u8>, packet_buffer: PacketBuffer, room: int)
        requires
            self.wf(),
            bytes.len() <= self.buf.len,
            mem.len() == T::CHIP.ram.spec_words(),
        ensures
            ({
                let ram = T::CHIP.ram;
                let after = crate::buffer::mem_after(mem, self.write_data_ops(bytes, packet_buffer));
                let field = btable::length_word(ram, self.index(), packet_buffer);
                let first = self.buf.first_word();
                let words = after.subrange(first, first + crate::buffer::word_count(ram, bytes.len() as int));
                &&& after.len() == mem.len()
                &&& btable::length_field(ram, after[field]) == bytes.len()
                &&& bytes.len() < 0x400 && bytes.len() <= room ==> self.received(after[field], room) == Ok::<
                    int,
                    EndpointError,
                >(bytes.len() as int)
                &&& forall|j: int|
                    0 <= j < bytes.len() ==> crate::buffer::packet_byte(ram, words, j) == bytes[j]
                &&& forall|w: int|
                    0 <= w < mem.len() && w != field && !(self.buf.addr <= w * ram.align() < self.buf.addr
                        + self.buf.len) ==> after[w] == mem[w]
            }),
    {
        let ram = T::CHIP.ram;
        let data = self.buf.write_ops(bytes);
        let ops = self.write_data_ops(bytes, packet_buffer);
        let field = btable::length_word(ram, self.index(), packet_buffer);
        let first = self.buf.first_word();
        let count = crate::buffer::word_count(ram, bytes.len() as int);
        let mid = crate::buffer::mem_after(mem, data);
        let after = crate::buffer::mem_after(mem, ops);
        self.buf.law_read_back(mem, bytes);
        self.lemma_places(bytes.len() as int, packet_buffer);
        assert(ops.drop_last() =~= data);
        assert(after =~= mid.update(field, ops.last()->WriteMem_1));
        assert(btable::length_field(ram, after[field]) == bytes.len());
        let words = after.subrange(first, first + count);
        let before = mid.subrange(first, first + count);
        assert(words =~= before);
    }
}

impl<'d, T: Instance> Endpoint<'d, T, In> {
    /// Sending a packet that fits on a single-buffered endpoint that is at NAK takes one step from
    /// the state `Poll`. It leaves the packet and its length in packet memory, turns transmission
    /// to VALID, and marks the endpoint as having a packet pending.
    pub proof fn law_packet_sent(self, epr: u32, tx_pending: bool, mem: Seq<u32>, bytes: Seq<u8>)
        requires
            self.wf(),
            !self.is_iso(),
            epr::stat_tx(epr) == Stat::Nak,
            bytes.len() <= self.info.max_packet_size,
            bytes.len() <= self.buf.len,
            mem.len() == T::CHIP.ram.spec_words(),
        ensures
            self.write_step(WriteState::Begin, epr, tx_pending, bytes) == (
                Seq::<Op>::empty(),
                Next::<WriteState, Result<(), EndpointError>>::Sample(WriteState::Poll),
            ),
            ({
                let ram = T::CHIP.ram;
                let (ops, next) = self.write_step(WriteState::Poll, epr, tx_pending, bytes);
                let after = crate::buffer::mem_after(mem, ops);
                let field = btable::length_word(ram, self.index(), PacketBuffer::Tx);
                let first = self.buf.first_word();
                let words = after.subrange(first, first + crate::buffer::word_count(ram, bytes.len() as int));
                let ready = ready_word(self.info.ep_type, self.index(), false);
                &&& next == Next::<WriteState, Result<(), EndpointError>>::Done(Ok(()))
                &&& btable::length_field(ram, after[field]) == bytes.len()
                &&& forall|j: int|
                    0 <= j < bytes.len() ==> crate::buffer::packet_byte(ram, words, j) == bytes[j]
                &&& ops[ops.len() - 2] == Op::WriteEpr(self.index() as usize, ready)
                &&& epr::stat_tx(epr::after_write(epr, ready)) == Stat::Valid
                &&& crate::types::flag_after(tx_pending, Flag::TxPending(self.index() as usize), ops)
            }),
    {
        let (ops, next) = self.write_step(WriteState::Poll, epr, tx_pending, bytes);
        let data = self.write_data_ops(bytes, PacketBuffer::Tx);
        let one = ops.drop_last();
        assert(one.drop_last() =~= data);
        assert(crate::buffer::mem_after(mem, one) == crate::buffer::mem_after(mem, data));
        assert(crate::buffer::mem_after(mem, ops) == crate::buffer::mem_after(mem, data));
        self.law_packet_in_memory(mem, bytes, PacketBuffer::Tx, 0);
        law_ready(epr, self.info.ep_type, self.index(), false);
    }

    /// A packet that is too long is refused at once, and a packet that waits on a disabled
    /// endpoint is refused; neither step causes any access.
    pub proof fn law_packet_refused(self, epr: u32, tx_pending: bool, bytes: Seq<u8>)
        ensures
            bytes.len() > self.info.max_packet_size ==> self.write_step(WriteState::Begin, epr, tx_pending, bytes) == (
                Seq::<Op>::empty(),
                Next::<WriteState, Result<(), EndpointError>>::Done(Err(EndpointError::BufferOverflow)),
            ),
            epr::stat_tx(epr) == Stat::Disabled ==> self.write_step(WriteState::Poll, epr, tx_pending, bytes) == (
                Seq::<Op>::empty(),
                Next::<WriteState, Result<(), EndpointError>>::Done(Err(EndpointError::Disabled)),
            ),
    {
    }
}

impl<'d, T: Instance> Endpoint<'d, T, Out> {
    /// Receiving a packet on a single-buffered endpoint that is at NAK takes three steps: the
    /// first asks for the word with the packet's length, the second for the packet's words, and
    /// the third returns the length and turns reception to VALID. If the packet does not fit, the
    /// second step is the last one and returns an error.
    pub proof fn law_packet_received(self, epr: u32, flag: bool, count: &[u32], words: &[u32], room: int)
        requires
            self.wf(),
            !self.is_iso(),
            epr::stat_rx(epr) == Stat::Nak,
            count@.len() == 1,
        ensures
            ({
                let n = packet_len(btable::length_field(T::CHIP.ram, count@[0]));
                let field = btable::length_word(T::CHIP.ram, self.index(), PacketBuffer::Rx) as usize;
                let ready = ready_word(self.info.ep_type, self.index(), true);
                &&& self.read_step(ReadState::Poll, Input::Register { epr, flag }, room).1 == Next::<
                    ReadState,
                    Result<usize, EndpointError>,
                >::Fetch(ReadState::Count(PacketBuffer::Rx), field, 1)
                &&& self.read_step(ReadState::Count(PacketBuffer::Rx), Input::Memory(count), room).1 == (if n <= room {
                    Next::<ReadState, Result<usize, EndpointError>>::Fetch(
                        ReadState::Data(n as usize),
                        self.buf.first_word() as usize,
                        crate::buffer::word_count(T::CHIP.ram, n) as usize,
                    )
                } else {
                    Next::Done(Err(EndpointError::BufferOverflow))
                })
                &&& self.read_step(ReadState::Data(n as usize), Input::Memory(words), room) == (
                    seq![Op::WriteEpr(self.index() as usize, ready)],
                    Next::<ReadState, Result<usize, EndpointError>>::Done(Ok(n as usize)),
                )
                &&& epr::stat_rx(epr::after_write(epr, ready)) == Stat::Valid
            }),
    {
        law_ready(epr, self.info.ep_type, self.index(), true);
    }
}

impl<'d, T: Instance> Endpoint<'d, T, In> {
    /// Packets on an isochronous endpoint are paced by the interrupt: a transfer that finds no
    /// packet pending is over at once and leaves one pending, the next transfer waits while it is,
    /// and the interrupt that reports the packet as sent lets it go on.
    pub proof fn law_isochronous_sending(self, epr: u32, bytes: Seq<u8>, interrupt: u32)
        requires
            self.is_iso(),
            epr::stat_tx(epr) == Stat::Valid,
            epr::ctr_tx(interrupt),
        ensures
            ({
                let index = self.index() as usize;
                let pending = Flag::TxPending(index);
                let (ops, next) = self.write_step(WriteState::Poll, epr, false, bytes);
                &&& next == Next::<WriteState, Result<(), EndpointError>>::Done(Ok(()))
                &&& crate::types::flag_after(false, pending, ops)
                &&& self.write_step(WriteState::Poll, epr, true, bytes) == (
                    Seq::<Op>::empty(),
                    Next::<WriteState, Result<(), EndpointError>>::Wait(WriteState::Poll),
                )
                &&& !crate::types::flag_after(true, pending, crate::interrupt::transfer_ops(index, interrupt))
            }),
    {
        let index = self.index() as usize;
        let ops = self.write_step(WriteState::Poll, epr, false, bytes).0;
        assert(ops.last() == Op::Store(Flag::TxPending(index), true));
        crate::interrupt::law_transfer_flagged(index, interrupt, Flag::TxPending(index), true);
    }
}

impl<'d, T: Instance> Endpoint<'d, T, Out> {
    /// Packets on an isochronous endpoint are paced by the interrupt: a transfer waits until the
    /// interrupt reports a packet, then clears that report and reads from the buffer that the
    /// peripheral is not using.
    pub proof fn law_isochronous_receiving(self, epr: u32, interrupt: u32, room: int)
        requires
            self.is_iso(),
            epr::stat_rx(epr) == Stat::Valid,
            epr::ctr_rx(interrupt),
        ensures
            ({
                let index = self.index() as usize;
                let complete = Flag::RxComplete(index);
                let (ops, next) = self.read_step(ReadState::Poll, Input::Register { epr, flag: true }, room);
                &&& self.read_step(ReadState::Poll, Input::Register { epr, flag: false }, room) == (
                    Seq::<Op>::empty(),
                    Next::<ReadState, Result<usize, EndpointError>>::Wait(ReadState::Poll),
                )
                &&& crate::types::flag_after(false, complete, crate::interrupt::transfer_ops(index, interrupt))
                &&& next == Next::<ReadState, Result<usize, EndpointError>>::Sample(ReadState::Select)
                &&& !crate::types::flag_after(true, complete, ops)
                &&& self.read_step(ReadState::Select, Input::Register { epr, flag: false }, room).1 == self.fetch_count(
                    if epr::dtog_rx(epr) {
                        PacketBuffer::Tx
                    } else {
                        PacketBuffer::Rx
                    },
                )
            }),
    {
        let index = self.index() as usize;
        let ops = self.read_step(ReadState::Poll, Input::Register { epr, flag: true }, room).0;
        assert(ops.last() == Op::Store(Flag::RxComplete(index), false));
        crate::interrupt::law_transfer_flagged(index, interrupt, Flag::RxComplete(index), false);
    }
}

/// Whether accesses to packet memory alone put a packet at the address of a buffer and its length
/// into the table entry of this buffer of the endpoint with this index. What is left of the
/// packet's last word becomes zero, with 32-bit words the entry gets the buffer's address too, and
/// every other byte stays.
pub open spec fn packet_stored(
    ram: crate::types::UsbRam,
    mem: Seq<u32>,
    ops: Seq<Op>,
    addr: int,
    bytes: Seq<u8>,
    index: int,
    packet_buffer: PacketBuffer,
) -> bool {
    let after = crate::buffer::mem_after(mem, ops);
    let entry = 8 * index + (if packet_buffer == PacketBuffer::Rx {
        4int
    } else {
        0
    });
    &&& crate::model::mem_ok(ram, after)
    &&& crate::model::mem_half(ram, after, entry + 2) == bytes.len()
    &&& crate::model::mem_half(ram, after, entry) == (if ram.is_32bit() {
        addr
    } else {
        crate::model::mem_half(ram, mem, entry)
    })
    &&& forall|a: int|
        0 <= a < ram.size() && !(entry <= a < entry + 4) ==> #[trigger] crate::model::mem_byte(ram, after, a) == (
        if addr <= a < addr + bytes.len() {
            bytes[a - addr] as int
        } else if addr + bytes.len() <= a && a - a % (ram.align() as int) < addr + bytes.len() {
            0
        } else {
            crate::model::mem_byte(ram, mem, a)
        })
}

impl<'d, T: Instance, D: Dir> Endpoint<'d, T, D> {
    /// Putting a packet into an endpoint's buffer stores its bytes and its length, and takes no
    /// accesses but to packet memory.
    pub proof fn law_packet_stored(self, mem: Seq<u32>, bytes: Seq<u8>, packet_buffer: PacketBuffer)
        requires
            self.wf(),
            bytes.len() <= self.buf.len,
            crate::model::mem_ok(T::CHIP.ram, mem),
        ensures
            ({
                let ops = self.write_data_ops(bytes, packet_buffer);
                &&& packet_stored(
                    T::CHIP.ram,
                    mem,
                    ops,
                    self.buf.addr as int,
                    bytes,
                    self.info.addr.raw as int % 128,
                    packet_buffer,
                )
                &&& forall|i: int| 0 <= i < ops.len() ==> (#[trigger] ops[i]) is WriteMem
            }),
    {
        let ram = T::CHIP.ram;
        let data = self.buf.write_ops(bytes);
        let table = btable::set_length(ram, self.index(), packet_buffer, self.buf.addr, bytes.len() as u16);
        let ops = self.write_data_ops(bytes, packet_buffer);
        let mid = crate::buffer::mem_after(mem, data);
        let after = crate::buffer::mem_after(mem, ops);
        let entry = 8 * self.index() + (if packet_buffer == PacketBuffer::Rx {
            4int
        } else {
            0
        });
        crate::model::lemma_words(ram);
        self.buf.law_bytes_written(mem, bytes);
        btable::law_set_length(ram, mid, self.index(), packet_buffer, self.buf.addr, bytes.len() as u16);
        crate::model::lemma_mem_after_add(mem, data, table);
        assert(crate::model::mem_byte(ram, mid, entry) == crate::model::mem_byte(ram, mem, entry));
        assert(crate::model::mem_byte(ram, mid, entry + 1) == crate::model::mem_byte(ram, mem, entry + 1));
        assert forall|i: int| 0 <= i < ops.len() implies (#[trigger] ops[i]) is WriteMem by {
            if i < data.len() {
                assert(ops[i] == data[i]);
            } else {
                assert(ops[i] == table[i - data.len()]);
            }
        }
    }
}

impl<'d, T: Instance> Endpoint<'d, T, In> {
    /// The first step of sending a packet refuses one that is longer than the endpoint's packets.
    /// It stores the packet of an isochronous endpoint in the buffer that the peripheral is not
    /// using, and leaves everything to the next step on any other endpoint.
    pub proof fn law_write_begins(self, epr: u32, tx_pending: bool, bytes: Seq<u8>, mem: Seq<u32>)
        requires
            self.wf(),
            self.info.ep_type == EndpointType::Isochronous && bytes.len() <= self.info.max_packet_size ==> bytes.len()
                <= self.buf.len,
            crate::model::mem_ok(T::CHIP.ram, mem),
        ensures
            ({
                let (ops, next) = self.write_step(WriteState::Begin, epr, tx_pending, bytes);
                if bytes.len() > self.info.max_packet_size {
                    &&& ops.len() == 0
                    &&& next == Next::<WriteState, Result<(), EndpointError>>::Done(Err(EndpointError::BufferOverflow))
                } else {
                    &&& next == Next::<WriteState, Result<(), EndpointError>>::Sample(WriteState::Poll)
                    &&& self.info.ep_type != EndpointType::Isochronous ==> ops.len() == 0
                    &&& self.info.ep_type == EndpointType::Isochronous ==> {
                        &&& packet_stored(
                            T::CHIP.ram,
                            mem,
                            ops,
                            self.buf.addr as int,
                            bytes,
                            self.info.addr.raw as int % 128,
                            if crate::regs::bit(epr, 6) {
                                PacketBuffer::Rx
                            } else {
                                PacketBuffer::Tx
                            },
                        )
                        &&& forall|i: int| 0 <= i < ops.len() ==> (#[trigger] ops[i]) is WriteMem
                    }
                }
            }),
    {
        if self.is_iso() && bytes.len() <= self.info.max_packet_size {
            self.law_packet_stored(mem, bytes, PacketBuffer::Rx);
            self.law_packet_stored(mem, bytes, PacketBuffer::Tx);
        }
    }

    /// A packet is refused on a disabled endpoint. On an isochronous endpoint the step waits while
    /// a packet is pending and is over otherwise, with a packet pending. On any other endpoint it
    /// waits unless transmission is at NAK, and then stores the packet, turns transmission to VALID
    /// after that, and leaves a packet pending. Nothing else changes, no task is woken, and a
    /// transfer flag that is raised after the register was read is not lost.
    pub proof fn law_write_goes_on(self, epr: u32, tx_pending: bool, bytes: Seq<u8>, mem: Seq<u32>, held: u32)
        requires
            self.wf(),
            epr::stat_tx(held) == epr::stat_tx(epr),
            self.info.ep_type != EndpointType::Isochronous && Stat::of_bits(crate::regs::pair(epr, 4)) == Stat::Nak
                ==> bytes.len() <= self.buf.len,
            crate::model::mem_ok(T::CHIP.ram, mem),
        ensures
            ({
                let (ops, next) = self.write_step(WriteState::Poll, epr, tx_pending, bytes);
                let index = self.info.addr.raw as int % 128;
                let iso = self.info.ep_type == EndpointType::Isochronous;
                let stat = Stat::of_bits(crate::regs::pair(epr, 4));
                let after = crate::model::epr_after(held, index as usize, ops);
                if stat == Stat::Disabled {
                    &&& ops.len() == 0
                    &&& next == Next::<WriteState, Result<(), EndpointError>>::Done(Err(EndpointError::Disabled))
                } else if (if iso {
                    tx_pending
                } else {
                    stat != Stat::Nak
                }) {
                    &&& ops.len() == 0
                    &&& next == Next::<WriteState, Result<(), EndpointError>>::Wait(WriteState::Poll)
                } else {
                    &&& next == Next::<WriteState, Result<(), EndpointError>>::Done(Ok(()))
                    &&& forall|f: Flag, h: bool| #[trigger]
                        crate::types::flag_after(h, f, ops) == (h || f == Flag::TxPending(index as usize))
                    &&& ops.last() == Op::Store(Flag::TxPending(index as usize), true)
                    &&& iso ==> ops.len() == 1
                    &&& !iso ==> {
                        &&& packet_stored(T::CHIP.ram, mem, ops, self.buf.addr as int, bytes, index, PacketBuffer::Tx)
                        &&& crate::model::endpoint_set(
                            held,
                            after,
                            epr::stat_rx(held),
                            Stat::Valid,
                            epr::spec_convert_type(self.info.ep_type),
                            index,
                            false,
                        )
                        &&& crate::model::register_written_last(ops)
                        &&& forall|i: int|
                            0 <= i < ops.len() ==> match #[trigger] ops[i] {
                                Op::WriteMem(..) => true,
                                Op::WriteEpr(k, w) => k == index && w < 0x1_0000,
                                Op::Store(..) => true,
                                _ => false,
                            }
                    }
                }
            }),
    {
        let (ops, next) = self.write_step(WriteState::Poll, epr, tx_pending, bytes);
        let index = self.index();
        let stat = Stat::of_bits(crate::regs::pair(epr, 4));
        let pending = Op::Store(Flag::TxPending(index as usize), true);
        if next is Done && stat != Stat::Disabled {
            assert(ops.last() == pending);
            if self.is_iso() {
                assert(ops =~= seq![pending]);
                assert(ops.drop_last() =~= seq![]);
                reveal_with_fuel(crate::types::flag_after, 2);
            } else {
                let data = self.write_data_ops(bytes, PacketBuffer::Tx);
                let word = ready_word(self.info.ep_type, index, false);
                let tail = seq![Op::WriteEpr(index as usize, word), pending];
                self.law_packet_stored(mem, bytes, PacketBuffer::Tx);
                assert(ops =~= data + tail);
                lemma_tail(held, index as usize, mem, data, word, pending);
                lemma_ready_set(held, self.info.ep_type, index, false);
                assert forall|f: Flag, h: bool| #[trigger]
                    crate::types::flag_after(h, f, ops) == (h || f == Flag::TxPending(index as usize)) by {
                    crate::types::lemma_flag_after_add(h, f, data, tail);
                    crate::types::lemma_flag_after_none(h, f, data);
                    reveal_with_fuel(crate::types::flag_after, 3);
                    assert(tail.drop_last() =~= seq![tail[0]]);
                    assert(tail.drop_last().drop_last() =~= seq![]);
                }
            }
        }
    }
}

/// What a register write and one more access behind accesses to packet memory do.
pub(crate) proof fn lemma_tail(held: u32, index: usize, mem: Seq<u32>, data: Seq<Op>, word: u32, last: Op)
    requires
        forall|i: int| 0 <= i < data.len() ==> (#[trigger] data[i]) is WriteMem,
        !(last is WriteEpr),
        !(last is WriteMem),
    ensures
        crate::model::epr_after(held, index, data + seq![Op::WriteEpr(index, word), last]) == epr::after_write(held, word),
        crate::buffer::mem_after(mem, data + seq![Op::WriteEpr(index, word), last]) == crate::buffer::mem_after(mem, data),
        crate::model::epr_after(held, index, data.push(Op::WriteEpr(index, word))) == epr::after_write(held, word),
        crate::buffer::mem_after(mem, data.push(Op::WriteEpr(index, word))) == crate::buffer::mem_after(mem, data),
{
    let one = data.push(Op::WriteEpr(index, word));
    let two = data + seq![Op::WriteEpr(index, word), last];
    assert(two.drop_last() =~= one);
    assert(one.drop_last() =~= data);
    crate::model::lemma_epr_after_none(held, index, data);
    assert(one.last() == Op::WriteEpr(index, word));
    assert(crate::model::epr_after(held, index, one) == epr::after_write(held, word));
    assert(crate::buffer::mem_after(mem, one) == crate::buffer::mem_after(mem, data));
    assert(two.len() == data.len() + 2);
    assert(two.last() == last);
    assert(crate::model::epr_after(held, index, two) == crate::model::epr_after(held, index, one));
    assert(crate::buffer::mem_after(mem, two) == crate::buffer::mem_after(mem, one));
}

/// Making a single-buffered endpoint ready gives the direction that is at NAK the status VALID, and
/// the register the endpoint's type and number.
proof fn lemma_ready_set(held: u32, ep_type: EndpointType, index: int, out: bool)
    requires
        0 <= index < EP_COUNT,
        out ==> epr::stat_rx(held) == Stat::Nak,
        !out ==> epr::stat_tx(held) == Stat::Nak,
    ensures
        ready_word(ep_type, index, out) < 0x1_0000,
        crate::model::endpoint_set(
            held,
            epr::after_write(held, ready_word(ep_type, index, out)),
            if out {
                Stat::Valid
            } else {
                epr::stat_rx(held)
            },
            if out {
                epr::stat_tx(held)
            } else {
                Stat::Valid
            },
            epr::spec_convert_type(ep_type),
            index,
            false,
        ),
{
    let change = epr::toggle(Stat::Nak, Stat::Valid);
    let t = epr::spec_convert_type(ep_type);
    epr::lemma_toggles(Stat::Nak, Stat::Valid);
    law_ready(held, ep_type, index, out);
    if out {
        epr::law_word(held, t, index as u32, change, 0, false);
    } else {
        epr::law_word(held, t, index as u32, 0, change, false);
    }
}

impl<'d, T: Instance> Endpoint<'d, T, Out> {
    /// Waiting for a packet. An isochronous endpoint waits until the interrupt reports one, any
    /// other endpoint until reception is at NAK; a disabled endpoint does not wait and is an error.
    /// A step that does not wait clears the report of a packet and touches nothing else, on STM32H5
    /// after 800 ns. Unless the endpoint is disabled, an isochronous one goes on to find out which
    /// buffer holds the packet, and any other one asks for the length in its RX buffer.
    pub proof fn law_read_waits(self, epr: u32, flag: bool, room: int)
        requires
            self.wf(),
        ensures
            ({
                let (ops, next) = self.read_step(ReadState::Poll, Input::Register { epr, flag }, room);
                let index = self.info.addr.raw as int % 128;
                let iso = self.info.ep_type == EndpointType::Isochronous;
                let stat = Stat::of_bits(crate::regs::pair(epr, 12));
                if stat != Stat::Disabled && (if iso {
                    !flag
                } else {
                    stat != Stat::Nak
                }) {
                    &&& ops.len() == 0
                    &&& next == Next::<ReadState, Result<usize, EndpointError>>::Wait(ReadState::Poll)
                } else {
                    &&& ops.last() == Op::Store(Flag::RxComplete(index as usize), false)
                    &&& if T::CHIP.family == Family::H5 {
                        ops.len() == 2 && ops[0] == Op::BlockFor(800)
                    } else {
                        ops.len() == 1
                    }
                    &&& next == (if stat == Stat::Disabled {
                        Next::<ReadState, Result<usize, EndpointError>>::Done(Err(EndpointError::Disabled))
                    } else if iso {
                        Next::Sample(ReadState::Select)
                    } else {
                        Next::Fetch(
                            ReadState::Count(PacketBuffer::Rx),
                            ((8 * index + 6) / T::CHIP.ram.align() as int) as usize,
                            1,
                        )
                    })
                }
            }),
    {
        crate::model::lemma_words(T::CHIP.ram);
        let index = self.index();
        if T::CHIP.ram.is_32bit() {
            assert((8 * index + 6) / 4 == 2 * index + 1);
        } else {
            assert((8 * index + 6) / 2 == 4 * index + 3);
        }
    }

    /// The packet of an isochronous endpoint is in the buffer that the peripheral is not using:
    /// the TX buffer if DTOG_RX is set, and the RX buffer otherwise.
    pub proof fn law_read_selects(self, epr: u32, flag: bool, room: int)
        requires
            self.wf(),
        ensures
            ({
                let (ops, next) = self.read_step(ReadState::Select, Input::Register { epr, flag }, room);
                let index = self.info.addr.raw as int % 128;
                let align = T::CHIP.ram.align() as int;
                &&& ops.len() == 0
                &&& next == (if crate::regs::bit(epr, 14) {
                    Next::<ReadState, Result<usize, EndpointError>>::Fetch(
                        ReadState::Count(PacketBuffer::Tx),
                        ((8 * index + 2) / align) as usize,
                        1,
                    )
                } else {
                    Next::Fetch(ReadState::Count(PacketBuffer::Rx), ((8 * index + 6) / align) as usize, 1)
                })
            }),
    {
        crate::model::lemma_words(T::CHIP.ram);
        let index = self.index();
        if T::CHIP.ram.is_32bit() {
            assert((8 * index + 6) / 4 == 2 * index + 1 && (8 * index + 2) / 4 == 2 * index);
        } else {
            assert((8 * index + 6) / 2 == 4 * index + 3 && (8 * index + 2) / 2 == 4 * index + 1);
        }
    }

    /// Given the word of packet memory that was asked for, the packet's length is the low ten bits
    /// of the length field in the table entry of its buffer. A packet that does not fit is an
    /// error; otherwise the words that hold it are asked for, and nothing is touched.
    pub proof fn law_read_counts(self, mem: Seq<u32>, packet_buffer: PacketBuffer, count: &[u32], room: int)
        requires
            self.wf(),
            crate::model::mem_ok(T::CHIP.ram, mem),
            count@.len() == 1,
            ({
                let at = 8 * (self.info.addr.raw as int % 128) + (if packet_buffer == PacketBuffer::Rx {
                    6int
                } else {
                    2
                });
                count@[0] == mem[at / T::CHIP.ram.align() as int]
            }),
        ensures
            ({
                let (ops, next) = self.read_step(ReadState::Count(packet_buffer), Input::Memory(count), room);
                let align = T::CHIP.ram.align() as int;
                let at = 8 * (self.info.addr.raw as int % 128) + (if packet_buffer == PacketBuffer::Rx {
                    6int
                } else {
                    2
                });
                let n = crate::model::mem_half(T::CHIP.ram, mem, at) % 0x400;
                &&& ops.len() == 0
                &&& next == (if n > room {
                    Next::<ReadState, Result<usize, EndpointError>>::Done(Err(EndpointError::BufferOverflow))
                } else {
                    Next::Fetch(
                        ReadState::Data(n as usize),
                        (self.buf.addr as int / align) as usize,
                        ((n + align - 1) / align) as usize,
                    )
                })
            }),
    {
        btable::law_length_location(T::CHIP.ram, mem, self.index(), packet_buffer);
    }

    /// The last step returns the packet's length. On an endpoint that is not isochronous it turns
    /// reception from NAK to VALID and touches nothing else; on an isochronous one it touches
    /// nothing. The bytes received are those at the buffer's address.
    pub proof fn law_read_ends(self, held: u32, n: usize, words: &[u32], mem: Seq<u32>, room: int, j: int)
        requires
            self.wf(),
            n <= self.buf.len,
            crate::model::mem_ok(T::CHIP.ram, mem),
            ({
                let align = T::CHIP.ram.align() as int;
                let first = self.buf.addr as int / align;
                words@ == mem.subrange(first, first + (n + align - 1) / align)
            }),
            self.info.ep_type != EndpointType::Isochronous ==> epr::stat_rx(held) == Stat::Nak,
        ensures
            ({
                let (ops, next) = self.read_step(ReadState::Data(n), Input::Memory(words), room);
                let index = self.info.addr.raw as int % 128;
                &&& next == Next::<ReadState, Result<usize, EndpointError>>::Done(Ok(n))
                &&& self.info.ep_type == EndpointType::Isochronous ==> ops.len() == 0
                &&& self.info.ep_type != EndpointType::Isochronous ==> {
                    &&& ops.len() == 1
                    &&& ops[0] matches Op::WriteEpr(k, w) && k == index && w < 0x1_0000
                    &&& crate::model::endpoint_set(
                        held,
                        crate::model::epr_after(held, index as usize, ops),
                        Stat::Valid,
                        epr::stat_tx(held),
                        epr::spec_convert_type(self.info.ep_type),
                        index,
                        false,
                    )
                }
                &&& 0 <= j < n ==> crate::buffer::packet_byte(T::CHIP.ram, words@, j) == crate::model::mem_byte(
                    T::CHIP.ram,
                    mem,
                    self.buf.addr + j,
                )
            }),
    {
        let index = self.index();
        self.buf.law_bytes_read(mem, n as int, j);
        if !self.is_iso() {
            let word = ready_word(self.info.ep_type, index, true);
            let none = Seq::<Op>::empty();
            lemma_tail(held, index as usize, mem, none, word, Op::Delay(0));
            assert(seq![Op::WriteEpr(index as usize, word)] =~= none.push(Op::WriteEpr(index as usize, word)));
            lemma_ready_set(held, self.info.ep_type, index, true);
        }
    }

    /// What a step asks for is what the next one takes: after words of packet memory were asked
    /// for, all of them inside packet memory, a transfer takes just as many words, and otherwise it
    /// takes a sample of the register.
    pub proof fn law_read_goes_on(self, state: ReadState, input: Input, room: int, epr: u32, flag: bool, words: &[u32])
        requires
            self.can_read(state, input, room),
        ensures
            match self.read_step(state, input, room).1 {
                Next::Wait(s) | Next::Sample(s) => s.accepts(T::CHIP.ram, Input::Register { epr, flag }),
                Next::Fetch(s, first, count) => {
                    &&& s.accepts(T::CHIP.ram, Input::Memory(words)) == (words@.len() == count)
                    &&& first + count <= T::CHIP.ram.spec_words()
                    &&& s is Data && words@.len() == count ==> self.can_read(
                        s,
                        Input::Memory(words),
                        room,
                    )
                },
                Next::Done(_) => true,
            },
    {
        let ram = T::CHIP.ram;
        crate::model::lemma_words(ram);
        let mem = Seq::new(ram.spec_words() as nat, |i: int| 0u32);
        btable::law_length_location(ram, mem, self.index(), PacketBuffer::Rx);
        btable::law_length_location(ram, mem, self.index(), PacketBuffer::Tx);
        match self.read_step(state, input, room).1 {
            Next::Fetch(ReadState::Data(n), _, _) => {
                self.buf.law_bytes_read(mem, n as int, 0);
            },
            _ => {},
        }
    }

    /// A step can be taken with whatever the step before asked for, unless an isochronous endpoint
    /// that is reported to have a packet is neither VALID nor disabled, or a packet that fits into
    /// the room is longer than the endpoint's buffer.
    pub proof fn law_read_possible(self, epr: u32, flag: bool, packet_buffer: PacketBuffer, count: &[u32], room: int)
        requires
            self.wf(),
            count@.len() == 1,
        ensures
            ({
                let stat = Stat::of_bits(crate::regs::pair(epr, 12));
                let field = if T::CHIP.ram.is_32bit() {
                    count@[0] as int / 0x1_0000
                } else {
                    count@[0] as int % 0x1_0000
                };
                &&& self.can_read(ReadState::Poll, Input::Register { epr, flag }, room) == !(self.info.ep_type
                    == EndpointType::Isochronous && flag && (stat == Stat::Nak || stat == Stat::Stall))
                &&& self.can_read(ReadState::Select, Input::Register { epr, flag }, room)
                &&& self.can_read(ReadState::Count(packet_buffer), Input::Memory(count), room) == !(self.buf.len < field
                    % 0x400 <= room)
            }),
    {
    }
}

impl<'d, T: Instance> Endpoint<'d, T, In> {
    /// A step can be taken unless it would put a packet into the buffer that does not fit, or finds
    /// an isochronous endpoint without a packet pending that is neither VALID nor disabled.
    pub proof fn law_write_possible(self, epr: u32, tx_pending: bool, len: int)
        requires
            self.wf(),
        ensures
            ({
                let stat = Stat::of_bits(crate::regs::pair(epr, 4));
                let iso = self.info.ep_type == EndpointType::Isochronous;
                &&& self.can_write(WriteState::Begin, epr, tx_pending, len) == !(iso && self.buf.len < len
                    <= self.info.max_packet_size)
                &&& self.can_write(WriteState::Poll, epr, tx_pending, len) == !(if iso {
                    !tx_pending && (stat == Stat::Nak || stat == Stat::Stall)
                } else {
                    stat == Stat::Nak && len > self.buf.len
                })
            }),
    {
    }
}

/// What it means that a packet is stored: the peripheral finds the packet's length in the third and
/// fourth byte of the table entry of the buffer, and the packet's bytes, in order, at the buffer's
/// address. The other entry of the endpoint, the entries of all other endpoints, and what lies
/// behind the packet's last word or before the buffer are as they were.
pub proof fn law_stored_packet(
    ram: crate::types::UsbRam,
    mem: Seq<u32>,
    ops: Seq<Op>,
    addr: int,
    bytes: Seq<u8>,
    index: int,
    packet_buffer: PacketBuffer,
    a: int,
)
    requires
        packet_stored(ram, mem, ops, addr, bytes, index, packet_buffer),
        0 <= index < EP_COUNT,
        64 <= addr,
        addr + bytes.len() <= ram.size(),
        0 <= a < ram.size(),
    ensures
        ({
            let after = crate::buffer::mem_after(mem, ops);
            let field = 8 * index + (if packet_buffer == PacketBuffer::Rx {
                6int
            } else {
                2
            });
            &&& after.len() == ram.spec_words()
            &&& crate::model::mem_byte(ram, after, field) + 0x100 * crate::model::mem_byte(ram, after, field + 1)
                == bytes.len()
            &&& addr <= a < addr + bytes.len() ==> crate::model::mem_byte(ram, after, a) == bytes[a - addr]
            &&& a < addr && !(field - 2 <= a < field + 2) ==> crate::model::mem_byte(ram, after, a)
                == crate::model::mem_byte(ram, mem, a)
            &&& addr + bytes.len() + 3 <= a ==> crate::model::mem_byte(ram, after, a) == crate::model::mem_byte(
                ram,
                mem,
                a,
            )
            &&& !ram.is_32bit() && (a == field - 2 || a == field - 1) ==> crate::model::mem_half(ram, after, field - 2)
                == crate::model::mem_half(ram, mem, field - 2)
            &&& ram.is_32bit() ==> crate::model::mem_half(ram, after, field - 2) == addr
        }),
{
    crate::model::lemma_words(ram);
    if ram.is_32bit() {
        assert(a % (ram.align() as int) == a % 4);
    } else {
        assert(a % (ram.align() as int) == a % 2);
    }
}

} // verus!
