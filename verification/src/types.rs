//! Plain data shared by the driver's modules.

use vstd::prelude::*;

verus! {

/// Number of endpoint registers.
pub const EP_COUNT: usize = 8;

/// Layout of the packet memory: width of its words and size in bytes.
#[derive(Clone, Copy, PartialEq, Eq, Structural, Debug)]
pub enum UsbRam {
    /// 16-bit words, one per 32-bit slot, 512 bytes.
    Ram16x1_512,
    /// 16-bit words, two per 32-bit slot, 512 bytes.
    Ram16x2_512,
    /// 16-bit words, two per 32-bit slot, 1024 bytes.
    Ram16x2_1024,
    /// 32-bit words, 1024 bytes.
    Ram32_1024,
    /// 32-bit words, 2048 bytes.
    Ram32_2048,
}

impl UsbRam {
    /// Whether the memory is accessed in 32-bit words.
    pub open spec fn spec_is_32bit(self) -> bool {
        self == UsbRam::Ram32_1024 || self == UsbRam::Ram32_2048
    }

    /// Bytes per word, which is also the alignment of every buffer.
    pub open spec fn spec_align(self) -> usize {
        if self.spec_is_32bit() {
            4
        } else {
            2
        }
    }

    /// Size in bytes.
    pub open spec fn spec_size(self) -> usize {
        match self {
            UsbRam::Ram16x1_512 | UsbRam::Ram16x2_512 => 512,
            UsbRam::Ram16x2_1024 | UsbRam::Ram32_1024 => 1024,
            UsbRam::Ram32_2048 => 2048,
        }
    }

    /// Size in words.
    pub open spec fn spec_words(self) -> int {
        self.spec_size() as int / self.spec_align() as int
    }

    /// Whether the memory is accessed in 32-bit words.
    #[verifier::when_used_as_spec(spec_is_32bit)]
    pub fn is_32bit(self) -> (r: bool)
        ensures
            r == self.spec_is_32bit(),
    {
        match self {
            UsbRam::Ram32_1024 | UsbRam::Ram32_2048 => true,
            _ => false,
        }
    }

    /// Bytes per word, which is also the alignment of every buffer.
    #[verifier::when_used_as_spec(spec_align)]
    pub fn align(self) -> (r: usize)
        ensures
            r == self.spec_align(),
    {
        if self.is_32bit() {
            4
        } else {
            2
        }
    }

    /// Size in bytes.
    #[verifier::when_used_as_spec(spec_size)]
    pub fn size(self) -> (r: usize)
        ensures
            r == self.spec_size(),
    {
        match self {
            UsbRam::Ram16x1_512 | UsbRam::Ram16x2_512 => 512,
            UsbRam::Ram16x2_1024 | UsbRam::Ram32_1024 => 1024,
            UsbRam::Ram32_2048 => 2048,
        }
    }
}

/// Version of the USB register block.
#[derive(Clone, Copy, PartialEq, Eq, Structural, Debug)]
pub enum UsbVersion {
    V1,
    V2,
    V3,
    V4,
}

/// Chip family, as far as the driver treats families differently.
#[derive(Clone, Copy, PartialEq, Eq, Structural, Debug)]
pub enum Family {
    /// STM32L1: fixed data pins, pull-up in SYSCFG.
    L1,
    /// STM32H5: a received packet may only be read after a short delay.
    H5,
    /// Any other family.
    Other,
}

/// What the driver needs to know of the chip it runs on.
#[derive(Clone, Copy, PartialEq, Eq, Structural, Debug)]
pub struct Chip {
    /// Layout of the packet memory.
    pub ram: UsbRam,
    /// Version of the register block.
    pub version: UsbVersion,
    /// Chip family.
    pub family: Family,
}

/// Direction of USB traffic, seen from the host.
#[derive(Clone, Copy, PartialEq, Eq, Structural, Debug)]
pub enum Direction {
    /// Host to device.
    Out,
    /// Device to host.
    In,
}

/// USB endpoint transfer type.
#[derive(Clone, Copy, PartialEq, Eq, Structural, Debug)]
pub enum EndpointType {
    Control,
    Isochronous,
    Bulk,
    Interrupt,
}

/// Bus event.
#[derive(Clone, Copy, PartialEq, Eq, Structural, Debug)]
pub enum Event {
    /// The host reset the bus.
    Reset,
    /// The bus went idle.
    Suspend,
    /// The bus woke up.
    Resume,
    /// Bus power is there.
    PowerDetected,
}

/// No endpoint fits the request.
#[derive(Clone, Copy, PartialEq, Eq, Structural, Debug)]
pub struct EndpointAllocError;

/// The peripheral cannot do this.
#[derive(Clone, Copy, PartialEq, Eq, Structural, Debug)]
pub struct Unsupported;

/// Error of a transfer.
#[derive(Clone, Copy, PartialEq, Eq, Structural, Debug)]
pub enum EndpointError {
    /// The packet does not fit the buffer.
    BufferOverflow,
    /// The endpoint is disabled, or the control request was abandoned.
    Disabled,
}

/// Flag shared between the interrupt handler and the tasks.
#[derive(Clone, Copy, PartialEq, Eq, Structural, Debug)]
pub enum Flag {
    /// A bus reset was seen.
    Reset,
    /// A suspend was seen.
    Suspend,
    /// A resume was seen.
    Resume,
    /// A SETUP packet is waiting on endpoint 0.
    Ep0Setup,
    /// A packet was handed over for transmission on this endpoint.
    TxPending(usize),
    /// A packet was received on this endpoint.
    RxComplete(usize),
}

/// Task to wake.
#[derive(Clone, Copy, PartialEq, Eq, Structural, Debug)]
pub enum Waker {
    /// The task that polls the bus.
    Bus,
    /// The task that waits on this IN endpoint.
    EpIn(usize),
    /// The task that waits on this OUT endpoint.
    EpOut(usize),
}

/// One access to the hardware or to the state shared with the interrupt handler.
///
/// The driver's functions list the accesses they ask for; whoever holds the registers performs
/// them in that order.
#[derive(Clone, Copy, PartialEq, Eq, Structural, Debug)]
pub enum Op {
    /// Set a shared flag.
    Store(Flag, bool),
    /// Wake a task.
    Wake(Waker),
    /// Enable the peripheral's clock and supply.
    CommonInit,
    /// Write CNTR.
    WriteCntr(u32),
    /// Read CNTR, pass it through `InterruptHandler::suspend_cntr` with this argument and write
    /// the result back.
    ModifyCntr(bool),
    /// Write ISTR.
    WriteIstr(u32),
    /// Write DADDR.
    WriteDaddr(u32),
    /// Write BTABLE.
    WriteBtable(u32),
    /// Write BCDR.
    WriteBcdr(u32),
    /// Set the USB pull-up bit of SYSCFG.
    SyscfgPullUp,
    /// Write the endpoint register with this index.
    WriteEpr(usize, u32),
    /// Write the word with this index in packet memory.
    WriteMem(usize, u32),
    /// Wait this many processor cycles.
    Delay(u32),
    /// Wait this many nanoseconds.
    BlockFor(u64),
    /// Route the two data pins to the peripheral.
    ConnectDataPins,
    /// Route the start-of-frame pin to the peripheral.
    ConnectSofPin,
}

/// What a transfer needs next, once the accesses it listed are done.
#[derive(PartialEq, Eq, Debug)]
pub enum Next<S, R> {
    /// Wait to be woken, sample the endpoint register and the flag, go on in this state.
    Wait(S),
    /// Sample the endpoint register and the flag at once, go on in this state.
    Sample(S),
    /// Read this many words of packet memory from this word on, go on in this state.
    Fetch(S, usize, usize),
    /// The transfer is over.
    Done(R),
}

/// What a transfer is handed when it goes on.
#[derive(Clone, Copy, Debug)]
pub enum Input<'a> {
    /// The endpoint register and then the flag the transfer watches.
    Register { epr: u32, flag: bool },
    /// The words of packet memory that were asked for.
    Memory(&'a [u32]),
}

/// Selects the packet buffer.
///
/// Double-buffered endpoints use both the `Rx` and the `Tx` buffer of a channel for the same
/// direction of transfer; with single-buffered endpoints one channel can serve both directions.
#[derive(Clone, Copy, PartialEq, Eq, Structural, Debug)]
pub enum PacketBuffer {
    /// The RX buffer, used by single-buffered OUT endpoints.
    Rx,
    /// The TX buffer, used by single-buffered IN endpoints.
    Tx,
}

/// What a flag holds after a list of accesses.
pub open spec fn flag_after(held: bool, flag: Flag, ops: Seq<Op>) -> bool
    decreases ops.len(),
{
    if ops.len() == 0 {
        held
    } else {
        match ops.last() {
            Op::Store(f, v) if f == flag => v,
            _ => flag_after(held, flag, ops.drop_last()),
        }
    }
}

/// A flag after two lists of accesses.
pub proof fn lemma_flag_after_add(held: bool, flag: Flag, a: Seq<Op>, b: Seq<Op>)
    ensures
        flag_after(held, flag, a + b) == flag_after(flag_after(held, flag, a), flag, b),
    decreases b.len(),
{
    if b.len() == 0 {
        assert(a + b =~= a);
    } else {
        assert((a + b).drop_last() =~= a + b.drop_last());
        lemma_flag_after_add(held, flag, a, b.drop_last());
    }
}

/// Accesses that store nothing leave every flag.
pub proof fn lemma_flag_after_none(held: bool, flag: Flag, ops: Seq<Op>)
    requires
        forall|i: int| 0 <= i < ops.len() ==> !(#[trigger] ops[i] is Store),
    ensures
        flag_after(held, flag, ops) == held,
    decreases ops.len(),
{
    if ops.len() > 0 {
        lemma_flag_after_none(held, flag, ops.drop_last());
    }
}

} // verus!
