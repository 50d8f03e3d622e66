//! Setting the peripheral up and handing out endpoints.

use vstd::prelude::*;
use core::marker::PhantomData;
use crate::address::{Dir, EndpointAddress, EndpointInfo, In, Out};
use crate::btable;
use crate::bus::Bus;
use crate::buffer::{align_len_up, calc_out_len, EndpointBuffer};
use crate::control::ControlPipe;
use crate::endpoint::Endpoint;
use crate::epr::convert_type;
use crate::instance::Instance;
use crate::regs::{
    bcdr_set_dppu, btable_set_btable, cntr_set_ctrm, cntr_set_fres, cntr_set_pdwn, cntr_set_resetm, cntr_set_suspm,
    cntr_set_wkupm, EpType,
};
use crate::time::Hertz;
use crate::types::{
    Chip, Direction, EndpointAllocError, EndpointType, Family, Op, PacketBuffer, UsbRam, UsbVersion, Waker, EP_COUNT,
};

verus! {

/// What is allocated of one endpoint register.
#[derive(Clone, Copy, PartialEq, Eq, Structural, Debug)]
pub struct EndpointData {
    /// Type of the endpoints; only valid if one of the directions is used.
    pub ep_type: EndpointType,
    /// Whether the IN direction is used.
    pub used_in: bool,
    /// Whether the OUT direction is used.
    pub used_out: bool,
}

impl EndpointData {
    /// Whether either direction is used.
    pub open spec fn used(self) -> bool {
        self.used_in || self.used_out
    }

    /// Whether this direction is used.
    pub open spec fn used_dir(self, dir: Direction) -> bool {
        match dir {
            Direction::In => self.used_in,
            Direction::Out => self.used_out,
        }
    }

    /// The same register with this direction used by an endpoint of this type.
    pub open spec fn mark(self, dir: Direction, ep_type: EndpointType) -> EndpointData {
        match dir {
            Direction::In => EndpointData { ep_type, used_in: true, ..self },
            Direction::Out => EndpointData { ep_type, used_out: true, ..self },
        }
    }
}

/// A request for an endpoint.
pub ghost struct Request {
    pub dir: Direction,
    pub ep_type: EndpointType,
    /// The address asked for, if any.
    pub addr: Option<EndpointAddress>,
    pub max_packet_size: u16,
}

/// Where an endpoint was placed.
pub ghost struct Placed {
    pub index: int,
    pub dir: Direction,
    /// Address of its buffer.
    pub addr: int,
    /// Length of its buffer.
    pub len: int,
}

impl<'d, T: Instance, D: Dir> Endpoint<'d, T, D> {
    /// Whether this is a proper endpoint at this place with this type, size and interval.
    pub open spec fn is_at(&self, p: Placed, ep_type: EndpointType, max_packet_size: u16, interval_ms: u8) -> bool {
        &&& self.info == (EndpointInfo {
            addr: EndpointAddress::spec_from_parts(p.index, p.dir),
            ep_type,
            max_packet_size,
            interval_ms,
        })
        &&& self.index() == p.index
        &&& self.buf.addr == p.addr
        &&& self.buf.len == p.len
        &&& self.wf()
    }
}

/// What is allocated: endpoint registers and packet memory.
#[verifier::ext_equal]
pub ghost struct DriverView {
    pub alloc: Seq<EndpointData>,
    /// First free address in packet memory.
    pub ep_mem_free: int,
}

impl DriverView {
    /// Nothing is allocated but the buffer table: four 16-bit values per endpoint.
    pub open spec fn fresh() -> DriverView {
        DriverView {
            alloc: Seq::new(
                EP_COUNT as nat,
                |i: int| EndpointData { ep_type: EndpointType::Bulk, used_in: false, used_out: false },
            ),
            ep_mem_free: 64,
        }
    }

    /// Whether packet memory is used in whole words and within its size, and register 0 by
    /// control endpoints only.
    pub open spec fn wf(self, ram: UsbRam) -> bool {
        &&& self.alloc.len() == EP_COUNT
        &&& 64 <= self.ep_mem_free <= ram.size()
        &&& self.ep_mem_free % ram.align() as int == 0
        &&& self.alloc[0].used() ==> self.alloc[0].ep_type == EndpointType::Control
    }

    /// Whether an endpoint of this type and direction can have this index.
    ///
    /// Index 0 is for control endpoints only. A register that is in use takes one endpoint of the
    /// same type in the other direction, unless it is isochronous.
    pub open spec fn available(self, dir: Direction, index: int, ep_type: EndpointType) -> bool {
        &&& 0 <= index < EP_COUNT
        &&& index == 0 ==> ep_type == EndpointType::Control
        &&& self.alloc[index].used() ==> {
            &&& self.alloc[index].ep_type == ep_type
            &&& ep_type != EndpointType::Isochronous
            &&& !self.alloc[index].used_dir(dir)
        }
    }

    /// The least available index from `from` up.
    pub open spec fn first_available(self, dir: Direction, ep_type: EndpointType, from: int) -> Option<int>
        decreases EP_COUNT - from,
    {
        if from >= EP_COUNT {
            None
        } else if self.available(dir, from, ep_type) {
            Some(from)
        } else {
            self.first_available(dir, ep_type, from + 1)
        }
    }

    /// The index that a request gets: the one it asks for, if that is available, or else the
    /// least one that is.
    pub open spec fn chosen(self, dir: Direction, ep_type: EndpointType, addr: Option<EndpointAddress>) -> Option<int> {
        match addr {
            Some(addr) => if self.available(dir, addr.spec_index(), ep_type) {
                Some(addr.spec_index())
            } else {
                None
            },
            None => self.first_available(dir, ep_type, 0),
        }
    }

    /// Whether a request that gets an index also has a proper packet size and finds room in
    /// packet memory.
    pub open spec fn can_alloc(self, ram: UsbRam, req: Request) -> bool {
        self.chosen(req.dir, req.ep_type, req.addr) is Some ==> {
            &&& req.dir == Direction::Out ==> 2 <= req.max_packet_size <= 1024
            &&& self.ep_mem_free + req.buffer_len(ram) <= ram.size()
        }
    }

    /// What is allocated after a request.
    pub open spec fn after(self, ram: UsbRam, req: Request) -> DriverView {
        match self.chosen(req.dir, req.ep_type, req.addr) {
            Some(index) => DriverView {
                alloc: self.alloc.update(index, self.alloc[index].mark(req.dir, req.ep_type)),
                ep_mem_free: self.ep_mem_free + req.buffer_len(ram),
            },
            None => self,
        }
    }

    /// Where a request is placed.
    pub open spec fn placed(self, ram: UsbRam, req: Request) -> Option<Placed> {
        match self.chosen(req.dir, req.ep_type, req.addr) {
            Some(index) => Some(
                Placed { index, dir: req.dir, addr: self.ep_mem_free, len: req.buffer_len(ram) },
            ),
            None => None,
        }
    }

    /// The accesses that a request asks for.
    pub open spec fn alloc_ops(self, ram: UsbRam, req: Request) -> Seq<Op> {
        match self.chosen(req.dir, req.ep_type, req.addr) {
            Some(index) => req.table_ops(ram, index, self.ep_mem_free as u16),
            None => seq![],
        }
    }
}

impl Request {
    /// Length of the buffer that the endpoint needs.
    pub open spec fn buffer_len(self, ram: UsbRam) -> int {
        match self.dir {
            Direction::Out => crate::buffer::out_len(ram, self.max_packet_size),
            Direction::In => crate::buffer::in_len(ram, self.max_packet_size),
        }
    }

    /// The writes that enter the endpoint's buffer into the buffer table. Isochronous endpoints
    /// are double-buffered, and both buffers are the same memory.
    pub open spec fn table_ops(self, ram: UsbRam, index: int, addr: u16) -> Seq<Op> {
        let iso = self.ep_type == EndpointType::Isochronous;
        match self.dir {
            Direction::Out => {
                let bits = crate::buffer::out_len_bits(ram, self.max_packet_size) as u16;
                btable::set_buffer(ram, index, PacketBuffer::Rx, addr, bits) + (if iso {
                    btable::set_buffer(ram, index, PacketBuffer::Tx, addr, bits)
                } else {
                    seq![]
                })
            },
            Direction::In => btable::set_address(ram, index, PacketBuffer::Tx, addr) + (if iso {
                btable::set_address(ram, index, PacketBuffer::Rx, addr)
            } else {
                seq![]
            }),
        }
    }
}

/// The USB driver of the peripheral `T`, before it is started.
pub struct Driver<'d, T: Instance> {
    pub phantom: PhantomData<&'d mut T>,
    /// What is allocated of each endpoint register.
    pub alloc: [EndpointData; EP_COUNT],
    /// First free address in packet memory, in bytes.
    pub ep_mem_free: u16,
}

impl<'d, T: Instance> View for Driver<'d, T> {
    type V = DriverView;

    open spec fn view(&self) -> DriverView {
        DriverView { alloc: self.alloc@, ep_mem_free: self.ep_mem_free as int }
    }
}

impl<'d, T: Instance> Driver<'d, T> {
    /// Takes `len` bytes of packet memory and returns their address.
    pub fn alloc_ep_mem(&mut self, len: u16) -> (addr: u16)
        requires
            len as int % T::CHIP.ram.align() as int == 0,
            old(self).ep_mem_free + len <= T::CHIP.ram.size(),
        ensures
            addr == old(self).ep_mem_free,
            final(self)@ == (DriverView { ep_mem_free: old(self).ep_mem_free + len, ..old(self)@ }),
    {
        let addr: u16 = self.ep_mem_free;
        self.ep_mem_free = self.ep_mem_free + len;
        addr
    }

    /// Whether an endpoint of this type and direction can have this index.
    pub fn is_endpoint_available<D: Dir>(&self, index: usize, ep_type: EndpointType) -> (r: bool)
        ensures
            r == self@.available(D::spec_dir(), index as int, ep_type),
    {
        if index == 0 && ep_type != EndpointType::Control {
            return false;  // endpoint 0 is reserved for control
        }
        if index >= EP_COUNT {
            return false;
        }
        let ep = self.alloc[index];
        let used = ep.used_out || ep.used_in;
        if used && ep.ep_type == EndpointType::Isochronous {
            // Isochronous endpoints are always double-buffered, which makes their register
            // unidirectional: the index cannot be used again.
            return false;
        }
        let used_dir = match D::dir() {
            Direction::Out => ep.used_out,
            Direction::In => ep.used_in,
        };
        !used || (ep.ep_type == ep_type && !used_dir)
    }

    /// Whether a request that gets an index also has a proper packet size and finds room in
    /// packet memory.
    pub fn can_alloc<D: Dir>(
        &self,
        ep_type: EndpointType,
        ep_addr: Option<EndpointAddress>,
        max_packet_size: u16,
    ) -> (r: bool)
        requires
            self@.wf(T::CHIP.ram),
        ensures
            r == self@.can_alloc(
                T::CHIP.ram,
                (Request { dir: D::spec_dir(), ep_type, addr: ep_addr, max_packet_size }),
            ),
    {
        if self.choose_index::<D>(ep_type, ep_addr).is_none() {
            return true;
        }
        let ram = T::CHIP.ram;
        let len: u16 = match D::dir() {
            Direction::Out => {
                if max_packet_size < 2 || max_packet_size > 1024 {
                    return false;
                }
                calc_out_len(ram, max_packet_size).0
            },
            Direction::In => align_len_up(ram, max_packet_size),
        };
        self.ep_mem_free as usize + len as usize <= ram.size()
    }

    /// Whether endpoint 0 is free, the packet size proper, and packet memory has room for both
    /// directions.
    pub fn can_start(&self, control_max_packet_size: u16) -> (r: bool)
        requires
            self@.wf(T::CHIP.ram),
        ensures
            r == self@.can_start(T::CHIP.ram, control_max_packet_size),
    {
        let ram = T::CHIP.ram;
        if self.alloc[0].used_in || self.alloc[0].used_out {
            return false;
        }
        if control_max_packet_size < 2 || control_max_packet_size > 1024 {
            return false;
        }
        let len_out: u16 = calc_out_len(ram, control_max_packet_size).0;
        let len_in: u16 = align_len_up(ram, control_max_packet_size);
        self.ep_mem_free as usize + len_out as usize + len_in as usize <= ram.size()
    }

    /// The index that a request gets.
    fn choose_index<D: Dir>(&self, ep_type: EndpointType, ep_addr: Option<EndpointAddress>) -> (r: Option<usize>)
        ensures
            match self@.chosen(D::spec_dir(), ep_type, ep_addr) {
                Some(index) => r matches Some(i) && i == index && i < EP_COUNT,
                None => r is None,
            },
    {
        if let Some(addr) = ep_addr {
            // Use the address asked for.
            let index: usize = addr.index();
            if self.is_endpoint_available::<D>(index, ep_type) {
                Some(index)
            } else {
                None
            }
        } else {
            // Find any available endpoint.
            let mut i: usize = 0;
            while i < EP_COUNT
                invariant
                    i <= EP_COUNT,
                    self@.first_available(D::spec_dir(), ep_type, 0) == self@.first_available(
                        D::spec_dir(),
                        ep_type,
                        i as int,
                    ),
                    ep_addr is None,
                decreases EP_COUNT - i,
            {
                if self.is_endpoint_available::<D>(i, ep_type) {
                    return Some(i);
                }
                i = i + 1;
            }
            None
        }
    }

    /// Allocates an endpoint in direction `D`: at the index that `ep_addr` names, or at any.
    pub fn alloc_endpoint<D: Dir>(
        &mut self,
        ep_type: EndpointType,
        ep_addr: Option<EndpointAddress>,
        max_packet_size: u16,
        interval_ms: u8,
        ops: &mut Vec<Op>,
    ) -> (r: Result<Endpoint<'d, T, D>, EndpointAllocError>)
        requires
            old(self)@.wf(T::CHIP.ram),
            old(self)@.can_alloc(
                T::CHIP.ram,
                (Request { dir: D::spec_dir(), ep_type, addr: ep_addr, max_packet_size }),
            ),
        ensures
            ({
                let req = Request { dir: D::spec_dir(), ep_type, addr: ep_addr, max_packet_size };
                &&& final(self)@ == old(self)@.after(T::CHIP.ram, req)
                &&& final(self)@.wf(T::CHIP.ram)
                &&& final(ops)@ == old(ops)@ + old(self)@.alloc_ops(T::CHIP.ram, req)
                &&& match old(self)@.placed(T::CHIP.ram, req) {
                    Some(p) => r matches Ok(ep) && ep.is_at(p, ep_type, max_packet_size, interval_ms),
                    None => r is Err,
                }
            }),
    {
        let ghost req = Request { dir: D::spec_dir(), ep_type, addr: ep_addr, max_packet_size };
        let ram = T::CHIP.ram;
        proof {
            self@.law_chosen(D::spec_dir(), ep_type, ep_addr);
        }
        let index: usize = match self.choose_index::<D>(ep_type, ep_addr) {
            Some(i) => i,
            None => {
                return Err(EndpointAllocError);
            },
        };
        let mut ep = self.alloc[index];
        ep.ep_type = ep_type;
        let (addr, len): (u16, u16) = match D::dir() {
            Direction::Out => {
                ep.used_out = true;
                self.alloc[index] = ep;
                proof {
                    crate::buffer::law_out_len(ram, max_packet_size);
                }
                let (len, len_bits): (u16, u16) = calc_out_len(ram, max_packet_size);
                let addr: u16 = self.alloc_ep_mem(len);
                btable::write_out_rx(ram, index, addr, len_bits, ops);
                if ep_type == EndpointType::Isochronous {
                    btable::write_out_tx(ram, index, addr, len_bits, ops);
                }
                (addr, len)
            },
            Direction::In => {
                ep.used_in = true;
                self.alloc[index] = ep;
                let len: u16 = align_len_up(ram, max_packet_size);
                proof {
                    lemma_in_len_aligned(ram, max_packet_size);
                }
                let addr: u16 = self.alloc_ep_mem(len);
                if ram.is_32bit() {
                    btable::write_in_len_tx(ram, index, addr, 0, ops);
                    if ep_type == EndpointType::Isochronous {
                        btable::write_in_len_rx(ram, index, addr, 0, ops);
                    }
                } else {
                    // The length is written when a packet is sent.
                    btable::write_in_tx(ram, index, addr, ops);
                    if ep_type == EndpointType::Isochronous {
                        btable::write_in_rx(ram, index, addr, ops);
                    }
                }
                (addr, len)
            },
        };
        proof {
            assert(ops@ =~= old(ops)@ + old(self)@.alloc_ops(ram, req));
            assert(self@ =~= old(self)@.after(ram, req));
            lemma_sum_aligned(ram, addr as int, len as int);
        }
        Ok(
            Endpoint {
                _phantom: PhantomData,
                info: EndpointInfo {
                    addr: EndpointAddress::from_parts(index, D::dir()),
                    ep_type,
                    max_packet_size,
                    interval_ms,
                },
                buf: EndpointBuffer { addr, len, _phantom: PhantomData },
            },
        )
    }
}

/// CNTR while the peripheral is powered up: reset is held.
pub const CNTR_POWER_UP: u32 = 0x1;

/// CNTR in operation: interrupts on transfers, resume, suspend and reset.
pub const CNTR_RUN: u32 = 0x9c00;

/// BCDR with the pull-up on the data line.
pub const BCDR_PULL_UP: u32 = 0x8000;

/// The accesses that set the peripheral up on this chip, with the system clock at this frequency.
/// The peripheral takes one microsecond to start.
pub open spec fn new_ops(chip: Chip, sys: Hertz) -> Seq<Op> {
    seq![Op::CommonInit, Op::WriteCntr(CNTR_POWER_UP), Op::Delay(sys.0 / 1_000_000)] + (if chip.version
        == UsbVersion::V4 {
        seq![]
    } else {
        seq![Op::WriteBtable(0)]
    }) + (if chip.family == Family::L1 {
        seq![]
    } else {
        seq![Op::ConnectDataPins]
    }) + seq![Op::Wake(Waker::Bus)]
}

/// The accesses that start the peripheral on this chip once endpoint 0 is there.
pub open spec fn start_ops(chip: Chip) -> Seq<Op> {
    seq![Op::WriteCntr(CNTR_RUN)] + (if chip.version == UsbVersion::V3 || chip.version == UsbVersion::V4 {
        seq![Op::WriteBcdr(BCDR_PULL_UP)]
    } else {
        seq![]
    }) + (if chip.family == Family::L1 {
        seq![Op::SyscfgPullUp]
    } else {
        seq![]
    })
}

/// A request for one direction of endpoint 0.
pub open spec fn control_request(dir: Direction, max_packet_size: u16) -> Request {
    Request { dir, ep_type: EndpointType::Control, addr: None, max_packet_size }
}

impl DriverView {
    /// Whether endpoint 0 is free, the packet size proper, and packet memory has room for both
    /// directions.
    pub open spec fn can_start(self, ram: UsbRam, control_max_packet_size: u16) -> bool {
        &&& !self.alloc[0].used()
        &&& 2 <= control_max_packet_size <= 1024
        &&& self.ep_mem_free + control_request(Direction::Out, control_max_packet_size).buffer_len(ram)
            + control_request(Direction::In, control_max_packet_size).buffer_len(ram) <= ram.size()
    }
}

impl<'d, T: Instance> Driver<'d, T> {
    /// Creates a driver with start-of-frame output. The system clock has to be running.
    pub fn new_with_sof(sys: Option<Hertz>, ops: &mut Vec<Op>) -> (r: Self)
        requires
            sys is Some,
            T::CHIP.family != Family::L1,
        ensures
            r@ == DriverView::fresh(),
            r@.wf(T::CHIP.ram),
            final(ops)@ == old(ops)@ + seq![Op::ConnectSofPin] + new_ops(T::CHIP, sys->0),
    {
        ops.push(Op::ConnectSofPin);
        let r = Self::new(sys, ops);
        assert(ops@ =~= old(ops)@ + seq![Op::ConnectSofPin] + new_ops(T::CHIP, sys->0));
        r
    }

    /// Creates a driver. The system clock has to be running.
    pub fn new(sys: Option<Hertz>, ops: &mut Vec<Op>) -> (r: Self)
        requires
            sys is Some,
        ensures
            r@ == DriverView::fresh(),
            r@.wf(T::CHIP.ram),
            final(ops)@ == old(ops)@ + new_ops(T::CHIP, sys->0),
    {
        ops.push(Op::CommonInit);
        let w: u32 = cntr_set_pdwn(0, false);
        let w: u32 = cntr_set_fres(w, true);
        proof {
            assert(crate::regs::with_bit(crate::regs::with_bit(0, 1, false), 0, true) == 0x1) by (bit_vector);
        }
        ops.push(Op::WriteCntr(w));
        // wait t_STARTUP = 1us
        ops.push(Op::Delay(sys.unwrap().0 / 1_000_000));
        if T::CHIP.version != UsbVersion::V4 {
            proof {
                assert((0u32 & !(0x1fffu32 << 3)) | ((0u32 & 0x1fff) << 3) == 0) by (bit_vector);
            }
            ops.push(Op::WriteBtable(btable_set_btable(0, 0)));
        }
        if T::CHIP.family != Family::L1 {
            ops.push(Op::ConnectDataPins);
        }
        // Power is available from the start.
        ops.push(Op::Wake(Waker::Bus));
        assert(ops@ =~= old(ops)@ + new_ops(T::CHIP, sys->0));
        let r = Driver {
            phantom: PhantomData,
            alloc: [EndpointData { ep_type: EndpointType::Bulk, used_in: false, used_out: false };EP_COUNT],
            ep_mem_free: EP_COUNT as u16 * 8,  // for each endpoint, 4 registers, so 8 bytes
        };
        proof {
            assert(r@ =~= DriverView::fresh());
            if T::CHIP.ram.is_32bit() {
                assert(64int % 4 == 0);
            } else {
                assert(64int % 2 == 0);
            }
        }
        r
    }

    /// Allocates an IN endpoint.
    pub fn alloc_endpoint_in(
        &mut self,
        ep_type: EndpointType,
        ep_addr: Option<EndpointAddress>,
        max_packet_size: u16,
        interval_ms: u8,
        ops: &mut Vec<Op>,
    ) -> (r: Result<Endpoint<'d, T, In>, EndpointAllocError>)
        requires
            old(self)@.wf(T::CHIP.ram),
            old(self)@.can_alloc(
                T::CHIP.ram,
                (Request { dir: Direction::In, ep_type, addr: ep_addr, max_packet_size }),
            ),
        ensures
            final(self)@.wf(T::CHIP.ram),
            ({
                let req = Request { dir: Direction::In, ep_type, addr: ep_addr, max_packet_size };
                &&& final(self)@ == old(self)@.after(T::CHIP.ram, req)
                &&& final(ops)@ == old(ops)@ + old(self)@.alloc_ops(T::CHIP.ram, req)
                &&& match old(self)@.placed(T::CHIP.ram, req) {
                    Some(p) => r matches Ok(ep) && ep.is_at(p, ep_type, max_packet_size, interval_ms),
                    None => r is Err,
                }
            }),
    {
        self.alloc_endpoint(ep_type, ep_addr, max_packet_size, interval_ms, ops)
    }

    /// Allocates an OUT endpoint.
    pub fn alloc_endpoint_out(
        &mut self,
        ep_type: EndpointType,
        ep_addr: Option<EndpointAddress>,
        max_packet_size: u16,
        interval_ms: u8,
        ops: &mut Vec<Op>,
    ) -> (r: Result<Endpoint<'d, T, Out>, EndpointAllocError>)
        requires
            old(self)@.wf(T::CHIP.ram),
            old(self)@.can_alloc(
                T::CHIP.ram,
                (Request { dir: Direction::Out, ep_type, addr: ep_addr, max_packet_size }),
            ),
        ensures
            final(self)@.wf(T::CHIP.ram),
            ({
                let req = Request { dir: Direction::Out, ep_type, addr: ep_addr, max_packet_size };
                &&& final(self)@ == old(self)@.after(T::CHIP.ram, req)
                &&& final(ops)@ == old(ops)@ + old(self)@.alloc_ops(T::CHIP.ram, req)
                &&& match old(self)@.placed(T::CHIP.ram, req) {
                    Some(p) => r matches Ok(ep) && ep.is_at(p, ep_type, max_packet_size, interval_ms),
                    None => r is Err,
                }
            }),
    {
        self.alloc_endpoint(ep_type, ep_addr, max_packet_size, interval_ms, ops)
    }

    /// Allocates endpoint 0 and starts the peripheral.
    pub fn start(self, control_max_packet_size: u16, ops: &mut Vec<Op>) -> (r: (Bus<'d, T>, ControlPipe<'d, T>))
        requires
            self@.wf(T::CHIP.ram),
            self@.can_start(T::CHIP.ram, control_max_packet_size),
        ensures
            ({
                let ram = T::CHIP.ram;
                let req_out = control_request(Direction::Out, control_max_packet_size);
                let req_in = control_request(Direction::In, control_max_packet_size);
                let place_out = Placed {
                    index: 0,
                    dir: Direction::Out,
                    addr: self@.ep_mem_free,
                    len: req_out.buffer_len(ram),
                };
                let place_in = Placed {
                    index: 0,
                    dir: Direction::In,
                    addr: self@.ep_mem_free + req_out.buffer_len(ram),
                    len: req_in.buffer_len(ram),
                };
                &&& final(ops)@ == old(ops)@ + req_out.table_ops(ram, 0, place_out.addr as u16) + req_in.table_ops(
                    ram,
                    0,
                    place_in.addr as u16,
                ) + start_ops(T::CHIP)
                &&& forall|i: int|
                    1 <= i < EP_COUNT ==> r.0.ep_types@[i - 1] == crate::epr::spec_convert_type(
                        #[trigger] self@.alloc[i].ep_type,
                    )
                &&& !r.0.inited
                &&& r.1.max_packet_size == control_max_packet_size
                &&& r.1.wf()
                &&& r.1.ep_out.is_at(place_out, EndpointType::Control, control_max_packet_size, 0)
                &&& r.1.ep_in.is_at(place_in, EndpointType::Control, control_max_packet_size, 0)
            }),
    {
        let ram = T::CHIP.ram;
        let ghost req_out = control_request(Direction::Out, control_max_packet_size);
        let ghost req_in = control_request(Direction::In, control_max_packet_size);
        let mut driver = self;
        proof {
            crate::buffer::law_in_len(ram, control_max_packet_size);
            assert(self@.available(Direction::Out, 0, EndpointType::Control));
            assert(self@.chosen(Direction::Out, EndpointType::Control, None) == Some(0int));
            let mid = self@.after(ram, req_out);
            assert(mid.available(Direction::In, 0, EndpointType::Control));
            assert(mid.chosen(Direction::In, EndpointType::Control, None) == Some(0int));
        }
        let ep_out = driver.alloc_endpoint::<Out>(EndpointType::Control, None, control_max_packet_size, 0, ops).unwrap();
        let ep_in = driver.alloc_endpoint::<In>(EndpointType::Control, None, control_max_packet_size, 0, ops).unwrap();
        let w: u32 = cntr_set_pdwn(0, false);
        let w: u32 = cntr_set_fres(w, false);
        let w: u32 = cntr_set_resetm(w, true);
        let w: u32 = cntr_set_suspm(w, true);
        let w: u32 = cntr_set_wkupm(w, true);
        let w: u32 = cntr_set_ctrm(w, true);
        proof {
            lemma_cntr_run();
        }
        ops.push(Op::WriteCntr(w));
        if T::CHIP.version == UsbVersion::V3 || T::CHIP.version == UsbVersion::V4 {
            ops.push(Op::WriteBcdr(bcdr_set_dppu(0, true)));
        }
        if T::CHIP.family == Family::L1 {
            ops.push(Op::SyscfgPullUp);
        }
        assert(ops@ =~= old(ops)@ + req_out.table_ops(ram, 0, self@.ep_mem_free as u16) + req_in.table_ops(
            ram,
            0,
            (self@.ep_mem_free + req_out.buffer_len(ram)) as u16,
        ) + start_ops(T::CHIP));
        let mut ep_types: [EpType; 7] = [EpType::Bulk;7];
        let mut i: usize = 1;
        while i < EP_COUNT
            invariant
                1 <= i <= EP_COUNT,
                forall|j: int| 1 <= j < EP_COUNT ==> driver.alloc@[j] == self@.alloc[j],
                forall|j: int|
                    1 <= j < i ==> ep_types@[j - 1] == crate::epr::spec_convert_type(#[trigger] self@.alloc[j].ep_type),
            decreases EP_COUNT - i,
        {
            ep_types[i - 1] = convert_type(driver.alloc[i].ep_type);
            i = i + 1;
        }
        (
            Bus { phantom: PhantomData, ep_types, inited: false },
            ControlPipe { _phantom: PhantomData, max_packet_size: control_max_packet_size, ep_out, ep_in },
        )
    }
}

proof fn lemma_cntr_run()
    by (bit_vector)
    ensures
        crate::regs::with_bit(
            crate::regs::with_bit(
                crate::regs::with_bit(
                    crate::regs::with_bit(
                        crate::regs::with_bit(crate::regs::with_bit(0, 1, false), 0, false),
                        10,
                        true,
                    ),
                    11,
                    true,
                ),
                12,
                true,
            ),
            15,
            true,
        ) == 0x9c00,
        crate::regs::with_bit(0, 15, true) == 0x8000,
{
}

proof fn lemma_in_len_aligned(ram: UsbRam, len: u16)
    ensures
        crate::buffer::in_len(ram, len) % ram.align() as int == 0,
{
    if ram.is_32bit() {
        assert(ram.align() == 4);
        assert(crate::buffer::in_len(ram, len) == (len + 3) / 4 * 4 % 0x1_0000);
    } else {
        assert(ram.align() == 2);
        assert(crate::buffer::in_len(ram, len) == (len + 1) / 2 * 2 % 0x1_0000);
    }
}

proof fn lemma_sum_aligned(ram: UsbRam, a: int, b: int)
    requires
        a % ram.align() as int == 0,
        b % ram.align() as int == 0,
    ensures
        (a + b) % ram.align() as int == 0,
        ram.is_32bit() ==> a % 4 == 0,
{
    let align = ram.align() as int;
    if ram.is_32bit() {
        assert(align == 4);
        assert(a % 4 == 0 && b % 4 == 0);
        assert((a + b) % 4 == 0);
    } else {
        assert(align == 2);
        assert(a % 2 == 0 && b % 2 == 0);
        assert((a + b) % 2 == 0);
    }
}

proof fn lemma_first_available(v: DriverView, dir: Direction, ep_type: EndpointType, from: int)
    requires
        0 <= from <= EP_COUNT,
    ensures
        match v.first_available(dir, ep_type, from) {
            Some(index) => {
                &&& from <= index
                &&& v.available(dir, index, ep_type)
                &&& forall|i: int| from <= i < index ==> !v.available(dir, i, ep_type)
            },
            None => forall|i: int| from <= i ==> !v.available(dir, i, ep_type),
        },
    decreases EP_COUNT - from,
{
    if from < EP_COUNT {
        lemma_first_available(v, dir, ep_type, from + 1);
    }
}

impl DriverView {
    /// An endpoint gets an index that is available: the one asked for, or, if none was asked for,
    /// the least one. It gets none only if the one asked for is not available, or none is.
    pub proof fn law_chosen(self, dir: Direction, ep_type: EndpointType, addr: Option<EndpointAddress>)
        ensures
            match self.chosen(dir, ep_type, addr) {
                Some(index) => {
                    &&& self.available(dir, index, ep_type)
                    &&& addr matches Some(a) ==> index == a.spec_index()
                    &&& addr is None ==> forall|i: int| 0 <= i < index ==> !self.available(dir, i, ep_type)
                },
                None => match addr {
                    Some(a) => !self.available(dir, a.spec_index(), ep_type),
                    None => forall|i: int| !self.available(dir, i, ep_type),
                },
            },
    {
        lemma_first_available(self, dir, ep_type, 0);
    }
}

/// What is allocated after a list of requests.
pub open spec fn after_all(v: DriverView, ram: UsbRam, reqs: Seq<Request>) -> DriverView
    decreases reqs.len(),
{
    if reqs.len() == 0 {
        v
    } else {
        after_all(v, ram, reqs.drop_last()).after(ram, reqs.last())
    }
}

/// Where the requests of a list are placed, those left out that get no endpoint.
pub open spec fn placed_all(v: DriverView, ram: UsbRam, reqs: Seq<Request>) -> Seq<Placed>
    decreases reqs.len(),
{
    if reqs.len() == 0 {
        seq![]
    } else {
        let before = placed_all(v, ram, reqs.drop_last());
        match after_all(v, ram, reqs.drop_last()).placed(ram, reqs.last()) {
            Some(p) => before.push(p),
            None => before,
        }
    }
}

/// Whether each request of a list can be served when its turn comes.
pub open spec fn can_alloc_all(v: DriverView, ram: UsbRam, reqs: Seq<Request>) -> bool
    decreases reqs.len(),
{
    reqs.len() == 0 || can_alloc_all(v, ram, reqs.drop_last()) && after_all(v, ram, reqs.drop_last()).can_alloc(
        ram,
        reqs.last(),
    )
}

/// Whether endpoints lie in packet memory behind the buffer table, word by word, one after the
/// other, and each has its register and direction for itself.
pub open spec fn well_placed(ram: UsbRam, ps: Seq<Placed>) -> bool {
    &&& forall|i: int|
        0 <= i < ps.len() ==> {
            let p = #[trigger] ps[i];
            &&& 0 <= p.index < EP_COUNT
            &&& 64 <= p.addr
            &&& 0 <= p.len
            &&& p.addr + p.len <= ram.size()
            &&& p.addr % ram.align() as int == 0
            &&& p.len % ram.align() as int == 0
        }
    &&& forall|i: int, j: int|
        0 <= i < j < ps.len() ==> {
            let p = #[trigger] ps[i];
            let q = #[trigger] ps[j];
            &&& p.addr + p.len <= q.addr
            &&& (p.index, p.dir) != (q.index, q.dir)
        }
}

/// Whether a list of endpoints is what is allocated.
spec fn accounted(v: DriverView, ps: Seq<Placed>) -> bool {
    forall|i: int|
        0 <= i < ps.len() ==> {
            let p = #[trigger] ps[i];
            &&& p.addr + p.len <= v.ep_mem_free
            &&& v.alloc[p.index].used_dir(p.dir)
        }
}

proof fn lemma_placed_all(ram: UsbRam, reqs: Seq<Request>)
    requires
        can_alloc_all(DriverView::fresh(), ram, reqs),
    ensures
        after_all(DriverView::fresh(), ram, reqs).wf(ram),
        well_placed(ram, placed_all(DriverView::fresh(), ram, reqs)),
        accounted(after_all(DriverView::fresh(), ram, reqs), placed_all(DriverView::fresh(), ram, reqs)),
    decreases reqs.len(),
{
    let fresh = DriverView::fresh();
    if reqs.len() == 0 {
        if ram.is_32bit() {
            assert(64int % 4 == 0);
        } else {
            assert(64int % 2 == 0);
        }
    } else {
        let rest = reqs.drop_last();
        let req = reqs.last();
        lemma_placed_all(ram, rest);
        let v = after_all(fresh, ram, rest);
        v.law_chosen(req.dir, req.ep_type, req.addr);
        match v.placed(ram, req) {
            Some(p) => {
                match req.dir {
                    Direction::Out => crate::buffer::law_out_len(ram, req.max_packet_size),
                    Direction::In => lemma_in_len_aligned(ram, req.max_packet_size),
                }
                lemma_sum_aligned(ram, v.ep_mem_free, p.len);
            },
            None => {},
        }
    }
}

/// However endpoints are asked for, those that are handed out lie in packet memory behind the
/// buffer table, are made of whole words, do not overlap, and never share both register and
/// direction.
pub proof fn law_endpoints_are_disjoint(ram: UsbRam, reqs: Seq<Request>)
    requires
        can_alloc_all(DriverView::fresh(), ram, reqs),
    ensures
        well_placed(ram, placed_all(DriverView::fresh(), ram, reqs)),
{
    lemma_placed_all(ram, reqs);
}

impl DriverView {
    /// A request that got an endpoint leaves that index unavailable to a second one in the same
    /// direction and to one of another type, and, if it is isochronous, to any other. Index 0
    /// goes to control endpoints only.
    pub proof fn law_no_double_use(self, ram: UsbRam, req: Request, dir: Direction, ep_type: EndpointType)
        requires
            self.wf(ram),
            self.chosen(req.dir, req.ep_type, req.addr) is Some,
        ensures
            ({
                let index = self.chosen(req.dir, req.ep_type, req.addr)->0;
                let after = self.after(ram, req);
                &&& dir == req.dir ==> !after.available(dir, index, ep_type)
                &&& ep_type != req.ep_type ==> !after.available(dir, index, ep_type)
                &&& req.ep_type == EndpointType::Isochronous ==> !after.available(dir, index, ep_type)
                &&& index == 0 ==> req.ep_type == EndpointType::Control
            }),
    {
        self.law_chosen(req.dir, req.ep_type, req.addr);
    }
}

/// The type of the endpoint that a list of requests to a fresh driver got at this index in this
/// direction, if one did.
pub open spec fn owner(ram: UsbRam, reqs: Seq<Request>, index: int, dir: Direction) -> Option<EndpointType>
    decreases reqs.len(),
{
    if reqs.len() == 0 {
        None
    } else {
        let rest = reqs.drop_last();
        let req = reqs.last();
        if after_all(DriverView::fresh(), ram, rest).chosen(req.dir, req.ep_type, req.addr) == Some(index) && req.dir == dir {
            Some(req.ep_type)
        } else {
            owner(ram, rest, index, dir)
        }
    }
}

/// The other direction.
pub open spec fn opposite(dir: Direction) -> Direction {
    match dir {
        Direction::In => Direction::Out,
        Direction::Out => Direction::In,
    }
}

proof fn lemma_owners(ram: UsbRam, reqs: Seq<Request>, index: int)
    requires
        0 <= index < EP_COUNT,
    ensures
        ({
            let v = after_all(DriverView::fresh(), ram, reqs);
            let of_in = owner(ram, reqs, index, Direction::In);
            let of_out = owner(ram, reqs, index, Direction::Out);
            &&& v.alloc.len() == EP_COUNT
            &&& v.alloc[index].used_in == (of_in is Some)
            &&& v.alloc[index].used_out == (of_out is Some)
            &&& of_in matches Some(t) ==> v.alloc[index].ep_type == t
            &&& of_out matches Some(t) ==> v.alloc[index].ep_type == t
            &&& of_in is None && of_out is None ==> v.alloc[index].ep_type == EndpointType::Bulk
        }),
    decreases reqs.len(),
{
    if reqs.len() > 0 {
        let rest = reqs.drop_last();
        let req = reqs.last();
        lemma_owners(ram, rest, index);
        after_all(DriverView::fresh(), ram, rest).law_chosen(req.dir, req.ep_type, req.addr);
    }
}

/// However endpoints were asked for, an index can be had in a direction exactly if no endpoint
/// was handed out there, and the one that was handed out in the other direction, if any, has the
/// same type and is not isochronous. Index 0 can only be had for control endpoints. A register
/// has the type of the endpoints that it was handed out for, and the type bulk before.
pub proof fn law_availability(ram: UsbRam, reqs: Seq<Request>, dir: Direction, index: int, ep_type: EndpointType)
    ensures
        ({
            let v = after_all(DriverView::fresh(), ram, reqs);
            &&& v.available(dir, index, ep_type) <==> {
                &&& 0 <= index < 8
                &&& index == 0 ==> ep_type == EndpointType::Control
                &&& owner(ram, reqs, index, dir) is None
                &&& owner(ram, reqs, index, opposite(dir)) matches Some(t) ==> t == ep_type && t
                    != EndpointType::Isochronous
            }
            &&& 0 <= index < 8 ==> v.alloc[index].ep_type == (match (
                owner(ram, reqs, index, Direction::In),
                owner(ram, reqs, index, Direction::Out),
            ) {
                (Some(t), _) => t,
                (None, Some(t)) => t,
                (None, None) => EndpointType::Bulk,
            })
        }),
{
    if 0 <= index < EP_COUNT {
        lemma_owners(ram, reqs, index);
    }
}

impl DriverView {
    /// A request of a type that is not isochronous leaves the other direction of the index that
    /// it got, if that was unused, to a request of the same type. A register that is unused takes
    /// any type, but register 0 control endpoints only. What a request is refused for, it changes
    /// nothing of, and what it gets, it changes of no other register.
    pub proof fn law_room_for_more(self, ram: UsbRam, req: Request, index: int, dir: Direction, ep_type: EndpointType)
        requires
            self.wf(ram),
            0 <= index < EP_COUNT,
        ensures
            ({
                let after = self.after(ram, req);
                &&& match self.chosen(req.dir, req.ep_type, req.addr) {
                    Some(got) => {
                        &&& req.ep_type != EndpointType::Isochronous && !self.alloc[got].used_dir(opposite(req.dir))
                            ==> after.available(opposite(req.dir), got, req.ep_type)
                        &&& index != got ==> after.available(dir, index, ep_type) == self.available(dir, index, ep_type)
                        &&& after.alloc[got].used_dir(req.dir)
                        &&& after.alloc[got].ep_type == req.ep_type
                    },
                    None => after == self,
                }
                &&& !self.alloc[index].used_in && !self.alloc[index].used_out ==> self.available(dir, index, ep_type) == (
                index > 0 || ep_type == EndpointType::Control)
            }),
    {
        self.law_chosen(req.dir, req.ep_type, req.addr);
    }

    /// A request that gets an index is placed there, in the direction asked for, at the first free
    /// address of packet memory, which grows by the length of the buffer; a request that gets none
    /// is not placed.
    pub proof fn law_placed(self, ram: UsbRam, req: Request)
        ensures
            match (self.chosen(req.dir, req.ep_type, req.addr), self.placed(ram, req)) {
                (Some(index), Some(p)) => {
                    &&& p.index == index
                    &&& p.dir == req.dir
                    &&& p.addr == self.ep_mem_free
                    &&& p.len == req.buffer_len(ram)
                    &&& self.after(ram, req).ep_mem_free == p.addr + p.len
                },
                (None, None) => self.after(ram, req).ep_mem_free == self.ep_mem_free,
                _ => false,
            },
    {
    }

    /// A request can be served unless it gets an index and is for an OUT endpoint with packets of
    /// less than 2 or more than 1024 bytes, or its buffer would end behind packet memory.
    pub proof fn law_can_alloc(self, ram: UsbRam, req: Request)
        ensures
            self.can_alloc(ram, req) == (match self.placed(ram, req) {
                Some(p) => !(p.dir == Direction::Out && (req.max_packet_size < 2 || req.max_packet_size > 1024)) && p.addr
                    + p.len <= ram.size(),
                None => true,
            }),
    {
    }

    /// A driver can be started with packets of 2 to 1024 bytes exactly if asking for a control
    /// endpoint in each direction, OUT first, gets index 0 twice and finds room for both.
    pub proof fn law_can_start(self, ram: UsbRam, size: u16)
        requires
            self.wf(ram),
        ensures
            self.can_start(ram, size) <==> {
                let out = Request {
                    dir: Direction::Out,
                    ep_type: EndpointType::Control,
                    addr: None,
                    max_packet_size: size,
                };
                let back = Request { dir: Direction::In, ..out };
                let mid = self.after(ram, out);
                &&& 2 <= size <= 1024
                &&& self.chosen(out.dir, out.ep_type, None) == Some(0int)
                &&& self.can_alloc(ram, out)
                &&& mid.chosen(back.dir, back.ep_type, None) == Some(0int)
                &&& mid.can_alloc(ram, back)
            },
    {
        let out = Request { dir: Direction::Out, ep_type: EndpointType::Control, addr: None, max_packet_size: size };
        let mid = self.after(ram, out);
        self.law_chosen(Direction::Out, EndpointType::Control, None);
        mid.law_chosen(Direction::In, EndpointType::Control, None);
        crate::buffer::law_in_len(ram, 2);
        if 2 <= size <= 1024 {
            if ram.is_32bit() {
                assert(ram.align() == 4);
            } else {
                assert(ram.align() == 2);
            }
            crate::buffer::law_in_len(ram, size);
        }
        if !self.alloc[0].used() {
            assert(self.available(Direction::Out, 0, EndpointType::Control));
            assert(self.chosen(Direction::Out, EndpointType::Control, None) == Some(0int));
            assert(mid.available(Direction::In, 0, EndpointType::Control));
            assert(mid.chosen(Direction::In, EndpointType::Control, None) == Some(0int));
        }
    }
}

impl Request {
    /// An endpoint's buffer holds a packet of the size asked for. It is the least number of whole
    /// words that does, or for an OUT endpoint of more than 60 bytes the least multiple of 32. An
    /// IN packet size that is 2^16 in whole words gives an empty buffer.
    pub proof fn law_buffer_len(self, ram: UsbRam)
        requires
            self.dir == Direction::Out ==> 2 <= self.max_packet_size <= 1024,
        ensures
            self.dir == Direction::In && self.max_packet_size > 0x1_0000 - ram.align() ==> self.buffer_len(ram) == 0,
            self.dir == Direction::Out || self.max_packet_size <= 0x1_0000 - ram.align() ==> ({
                let unit = if self.dir == Direction::Out && self.max_packet_size > 60 {
                    32int
                } else {
                    ram.align() as int
                };
                &&& self.max_packet_size <= self.buffer_len(ram) < self.max_packet_size + unit
                &&& self.buffer_len(ram) % unit == 0
            }),
    {
        match self.dir {
            Direction::Out => crate::buffer::law_out_len(ram, self.max_packet_size),
            Direction::In => if self.max_packet_size <= 0x1_0000 - ram.align() {
                crate::buffer::law_in_len(ram, self.max_packet_size);
            } else {
                crate::buffer::law_in_len_overflow(ram, self.max_packet_size);
            },
        }
        if ram.is_32bit() {
            assert(ram.align() == 4);
        } else {
            assert(ram.align() == 2);
        }
    }

    /// What entering an endpoint into the buffer table leaves there. An OUT endpoint gets the
    /// address of its buffer and a length field that makes room for just the buffer's length as its
    /// RX entry, an IN endpoint the address as its TX entry. An isochronous endpoint gets the same as
    /// the other entry too; otherwise the other entry stays, and so does all other packet memory.
    pub proof fn law_table_entries(self, ram: UsbRam, mem: Seq<u32>, index: int, addr: u16)
        requires
            crate::model::mem_ok(ram, mem),
            0 <= index < EP_COUNT,
            self.dir == Direction::Out ==> 2 <= self.max_packet_size <= 1024,
        ensures
            ({
                let ops = self.table_ops(ram, index, addr);
                let after = crate::buffer::mem_after(mem, ops);
                let tx = 8 * index;
                let rx = 8 * index + 4;
                let iso = self.ep_type == EndpointType::Isochronous;
                let field = crate::model::mem_half(ram, after, rx + 2);
                &&& forall|i: int| 0 <= i < ops.len() ==> (#[trigger] ops[i]) is WriteMem
                &&& crate::model::mem_ok(ram, after)
                &&& self.dir == Direction::Out ==> {
                    &&& crate::model::mem_half(ram, after, rx) == addr
                    &&& crate::buffer::field_capacity(field) == self.buffer_len(ram)
                    &&& field % 0x400 == 0
                    &&& field >= 0x8000 <==> self.max_packet_size > 60
                    &&& iso ==> {
                        &&& crate::model::mem_half(ram, after, tx) == addr
                        &&& crate::model::mem_half(ram, after, tx + 2) == field
                        &&& crate::model::same_but(ram, mem, after, tx, 8)
                    }
                    &&& !iso ==> crate::model::same_but(ram, mem, after, rx, 4)
                }
                &&& self.dir == Direction::In ==> {
                    &&& crate::model::mem_half(ram, after, tx) == addr
                    &&& crate::model::mem_half(ram, after, tx + 2) == (if ram.is_32bit() {
                        0
                    } else {
                        crate::model::mem_half(ram, mem, tx + 2)
                    })
                    &&& iso ==> {
                        &&& crate::model::mem_half(ram, after, rx) == addr
                        &&& crate::model::mem_half(ram, after, rx + 2) == (if ram.is_32bit() {
                            0
                        } else {
                            crate::model::mem_half(ram, mem, rx + 2)
                        })
                        &&& crate::model::same_but(ram, mem, after, tx, 8)
                    }
                    &&& !iso ==> crate::model::same_but(ram, mem, after, tx, 4)
                }
            }),
    {
        let ops = self.table_ops(ram, index, addr);
        let iso = self.ep_type == EndpointType::Isochronous;
        crate::model::lemma_words(ram);
        match self.dir {
            Direction::Out => {
                let size = self.max_packet_size;
                crate::buffer::law_out_len(ram, size);
                let bits = crate::buffer::out_len_bits(ram, size) as u16;
                let a = btable::set_buffer(ram, index, PacketBuffer::Rx, addr, bits);
                let b = btable::set_buffer(ram, index, PacketBuffer::Tx, addr, bits);
                let mid = crate::buffer::mem_after(mem, a);
                btable::law_set_buffer(ram, mem, index, PacketBuffer::Rx, addr, bits);
                btable::law_set_buffer(ram, mid, index, PacketBuffer::Tx, addr, bits);
                crate::model::lemma_mem_after_add(mem, a, b);
                if iso {
                    assert(ops =~= a + b);
                    lemma_entries_kept(ram, mid, crate::buffer::mem_after(mid, b), 8 * index, 8 * index + 4);
                } else {
                    assert(ops =~= a);
                }
            },
            Direction::In => {
                let a = btable::set_address(ram, index, PacketBuffer::Tx, addr);
                let b = btable::set_address(ram, index, PacketBuffer::Rx, addr);
                let mid = crate::buffer::mem_after(mem, a);
                btable::law_set_address(ram, mem, index, PacketBuffer::Tx, addr);
                btable::law_set_address(ram, mid, index, PacketBuffer::Rx, addr);
                crate::model::lemma_mem_after_add(mem, a, b);
                if iso {
                    assert(ops =~= a + b);
                    lemma_entries_kept(ram, mid, crate::buffer::mem_after(mid, b), 8 * index + 4, 8 * index);
                    lemma_entries_kept(ram, mem, mid, 8 * index, 8 * index + 4);
                } else {
                    assert(ops =~= a);
                }
            },
        }
    }
}

/// An entry that is not among the bytes that changed is as it was.
proof fn lemma_entries_kept(ram: UsbRam, mem: Seq<u32>, after: Seq<u32>, changed: int, kept: int)
    requires
        crate::model::same_but(ram, mem, after, changed, 4),
        0 <= kept,
        kept + 4 <= ram.size(),
        kept + 4 <= changed || changed + 4 <= kept,
    ensures
        crate::model::mem_half(ram, after, kept) == crate::model::mem_half(ram, mem, kept),
        crate::model::mem_half(ram, after, kept + 2) == crate::model::mem_half(ram, mem, kept + 2),
{
    assert(crate::model::mem_byte(ram, after, kept) == crate::model::mem_byte(ram, mem, kept));
    assert(crate::model::mem_byte(ram, after, kept + 1) == crate::model::mem_byte(ram, mem, kept + 1));
    assert(crate::model::mem_byte(ram, after, kept + 2) == crate::model::mem_byte(ram, mem, kept + 2));
    assert(crate::model::mem_byte(ram, after, kept + 3) == crate::model::mem_byte(ram, mem, kept + 3));
}

impl DriverView {
    /// A request enters the endpoint that it gets into the buffer table, at the index and with the
    /// address that it got, and does nothing if it gets none.
    pub proof fn law_alloc_accesses(self, ram: UsbRam, req: Request)
        ensures
            match self.placed(ram, req) {
                Some(p) => self.alloc_ops(ram, req) == req.table_ops(ram, p.index, p.addr as u16),
                None => self.alloc_ops(ram, req).len() == 0,
            },
    {
    }
}

impl<'d, T: Instance, D: Dir> Endpoint<'d, T, D> {
    /// The endpoint that a request gets has the index and direction in its address, the type, packet
    /// size and interval asked for, and the buffer that it was placed at.
    pub proof fn law_endpoint_described(self, p: Placed, ep_type: EndpointType, max_packet_size: u16, interval_ms: u8)
        requires
            0 <= p.index < EP_COUNT,
            self.is_at(p, ep_type, max_packet_size, interval_ms),
        ensures
            self.info.addr.raw == p.index + (if p.dir == Direction::In {
                128int
            } else {
                0
            }),
            self.info.ep_type == ep_type,
            self.info.max_packet_size == max_packet_size,
            self.info.interval_ms == interval_ms,
            self.buf.addr == p.addr,
            self.buf.len == p.len,
    {
    }
}

/// Setting the peripheral up: its clock first, then CNTR with reset held and power up, then a
/// microsecond of the system clock. After that the table address is set to zero unless the chip has
/// none, and the data pins are connected unless they are fixed; at last the task that polls the bus
/// is woken. Each happens once, and nothing else does.
pub proof fn law_new(chip: Chip, sys: Hertz)
    ensures
        ({
            let ops = new_ops(chip, sys);
            &&& ops[0] == Op::CommonInit
            &&& ops[1] == Op::WriteCntr(1)
            &&& ops[2] matches Op::Delay(cycles) && cycles * 1_000_000 <= sys.0 < (cycles + 1) * 1_000_000
            &&& ops.contains(Op::WriteBtable(0)) <==> chip.version != UsbVersion::V4
            &&& ops.contains(Op::ConnectDataPins) <==> chip.family != Family::L1
            &&& ops.last() == Op::Wake(Waker::Bus)
            &&& forall|i: int|
                3 <= i < ops.len() ==> #[trigger] ops[i] == Op::WriteBtable(0) || ops[i] == Op::ConnectDataPins || ops[i]
                    == Op::Wake(Waker::Bus)
            &&& forall|i: int, j: int| 0 <= i < j < ops.len() ==> #[trigger] ops[i] != #[trigger] ops[j]
        }),
{
    let ops = new_ops(chip, sys);
    if chip.version != UsbVersion::V4 {
        assert(ops[3] == Op::WriteBtable(0));
    }
    if chip.family != Family::L1 {
        assert(ops[ops.len() - 2] == Op::ConnectDataPins);
    }
    assert(ops[ops.len() - 1] == Op::Wake(Waker::Bus));
}

/// Starting the peripheral: CNTR releases reset, stays powered and lets through the interrupts on
/// transfers, resume, suspend and reset, bits 15, 12, 11 and 10. Then the pull-up is switched on,
/// in BCDR, bit 15, on the third and fourth version of the registers, and in SYSCFG on STM32L1. Each
/// happens once, and nothing else does.
pub proof fn law_start(chip: Chip)
    ensures
        ({
            let ops = start_ops(chip);
            &&& ops[0] == Op::WriteCntr(0x9c00)
            &&& ops.contains(Op::WriteBcdr(0x8000)) <==> chip.version == UsbVersion::V3 || chip.version == UsbVersion::V4
            &&& ops.contains(Op::SyscfgPullUp) <==> chip.family == Family::L1
            &&& forall|i: int|
                1 <= i < ops.len() ==> #[trigger] ops[i] == Op::WriteBcdr(0x8000) || ops[i] == Op::SyscfgPullUp
            &&& forall|i: int, j: int| 0 <= i < j < ops.len() ==> #[trigger] ops[i] != #[trigger] ops[j]
        }),
{
    let ops = start_ops(chip);
    if chip.version == UsbVersion::V3 || chip.version == UsbVersion::V4 {
        assert(ops[1] == Op::WriteBcdr(0x8000));
    }
    if chip.family == Family::L1 {
        assert(ops[ops.len() - 1] == Op::SyscfgPullUp);
    }
}

/// Packet memory is handed out from behind the buffer table up, without gaps.
pub proof fn law_memory_is_handed_out_in_order(ram: UsbRam, reqs: Seq<Request>)
    ensures
        ({
            let ps = placed_all(DriverView::fresh(), ram, reqs);
            let end = after_all(DriverView::fresh(), ram, reqs).ep_mem_free;
            &&& ps.len() > 0 ==> ps[0].addr == 64
            &&& forall|i: int, j: int|
                0 <= i && j == i + 1 && j < ps.len() ==> (#[trigger] ps[j]).addr == (#[trigger] ps[i]).addr + ps[i].len
            &&& end == (if ps.len() == 0 {
                64
            } else {
                ps.last().addr + ps.last().len
            })
        }),
    decreases reqs.len(),
{
    if reqs.len() > 0 {
        let rest = reqs.drop_last();
        law_memory_is_handed_out_in_order(ram, rest);
        let before = placed_all(DriverView::fresh(), ram, rest);
        let v = after_all(DriverView::fresh(), ram, rest);
        match v.placed(ram, reqs.last()) {
            Some(p) => {
                assert(placed_all(DriverView::fresh(), ram, reqs) == before.push(p));
            },
            None => {
                assert(placed_all(DriverView::fresh(), ram, reqs) == before);
            },
        }
    }
}

impl<'d, T: Instance> Driver<'d, T> {
    /// What is allocated is what the driver's fields say.
    pub proof fn law_view(self)
        ensures
            self@.alloc == self.alloc@,
            self@.ep_mem_free == self.ep_mem_free,
    {
    }
}

/// A driver that is set up has nothing allocated, and packet memory is free behind the buffer
/// table, which has eight bytes for each of the eight endpoints.
pub proof fn law_fresh(index: int)
    requires
        0 <= index < 8,
    ensures
        DriverView::fresh().alloc.len() == 8,
        DriverView::fresh().alloc[index] == (EndpointData {
            ep_type: EndpointType::Bulk,
            used_in: false,
            used_out: false,
        }),
        DriverView::fresh().ep_mem_free == 8 * 8,
{
}

} // verus!
