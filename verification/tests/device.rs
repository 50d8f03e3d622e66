use core::marker::PhantomData;
use stm32_metapac::usb::regs;
use stm32_metapac::usb::vals;
use stm32_usb::buffer::EndpointBuffer;
use stm32_usb::rcc::{RccInfo, RccPeripheral, StopMode};
use stm32_usb::time::Hertz;
use stm32_usb::{
    AcceptState, Bus, Chip, ControlPipe, DataInState, DataOutState, Direction, Driver, Endpoint, EndpointAddress,
    EndpointAllocError, EndpointError, EndpointType, EpType, Event, Family, Flag, In, Input, Instance,
    InterruptHandler, Next, Op, Out, PacketBuffer, ReadState, SetupState, Stat, Unsupported, UsbRam, UsbVersion,
    Waker, WriteState,
};

const INFO: RccInfo = RccInfo {
    reset_offset_or_0xff: 4,
    reset_bit: 23,
    enable_offset: 7,
    enable_bit: 23,
    refcount_idx_or_0xff: 0xff,
    stop_mode: StopMode::Standby,
};

/// 16-bit words, 1024 bytes.
struct Narrow;

impl RccPeripheral for Narrow {
    const RCC_INFO: RccInfo = INFO;

    fn clock_active() -> bool {
        true
    }

    fn frequency() -> Hertz {
        Hertz(48_000_000)
    }

    fn bus_frequency() -> Hertz {
        Hertz(48_000_000)
    }
}

impl Instance for Narrow {
    type Interrupt = ();
    const CHIP: Chip = Chip { ram: UsbRam::Ram16x2_1024, version: UsbVersion::V3, family: Family::Other };
}

/// 32-bit words, 2048 bytes, delay before reading.
struct Wide;

impl RccPeripheral for Wide {
    const RCC_INFO: RccInfo = INFO;

    fn clock_active() -> bool {
        true
    }

    fn frequency() -> Hertz {
        Hertz(48_000_000)
    }

    fn bus_frequency() -> Hertz {
        Hertz(48_000_000)
    }
}

impl Instance for Wide {
    type Interrupt = ();
    const CHIP: Chip = Chip { ram: UsbRam::Ram32_2048, version: UsbVersion::V4, family: Family::H5 };
}

/// Fixed pins, pull-up in SYSCFG, 512 bytes.
struct Old;

impl RccPeripheral for Old {
    const RCC_INFO: RccInfo = INFO;

    fn clock_active() -> bool {
        true
    }

    fn frequency() -> Hertz {
        Hertz(32_000_000)
    }

    fn bus_frequency() -> Hertz {
        Hertz(32_000_000)
    }
}

impl Instance for Old {
    type Interrupt = ();
    const CHIP: Chip = Chip { ram: UsbRam::Ram16x1_512, version: UsbVersion::V1, family: Family::L1 };
}

/// What an endpoint register holds after a write.
fn epr_write(held: u32, w: u32) -> u32 {
    (held & w & 0x8080) | ((held ^ w) & 0x7070) | (held & 0x0800) | (w & 0x070f)
}

fn stat_rx(epr: u32) -> vals::Stat {
    regs::Epr(epr).stat_rx()
}

fn stat_tx(epr: u32) -> vals::Stat {
    regs::Epr(epr).stat_tx()
}

fn epr(rx: vals::Stat, tx: vals::Stat) -> u32 {
    let mut r = regs::Epr(0);
    r.set_stat_rx(rx);
    r.set_stat_tx(tx);
    r.0
}

fn mem_write(mem: &mut [u32], ops: &[Op]) {
    for op in ops {
        if let Op::WriteMem(word, val) = *op {
            mem[word] = val;
        }
    }
}

fn fresh<T: Instance>() -> Driver<'static, T> {
    Driver::new(Some(Hertz(48_000_000)), &mut Vec::new())
}

fn narrow_pipe() -> ControlPipe<'static, Narrow> {
    fresh::<Narrow>().start(64, &mut Vec::new()).1
}

fn ep_in<T: Instance>(ep_type: EndpointType) -> Endpoint<'static, T, In> {
    fresh::<T>().alloc_endpoint_in(ep_type, None, 64, 1, &mut Vec::new()).ok().unwrap()
}

fn ep_out<T: Instance>(ep_type: EndpointType) -> Endpoint<'static, T, Out> {
    fresh::<T>().alloc_endpoint_out(ep_type, None, 64, 1, &mut Vec::new()).ok().unwrap()
}

#[test]
fn new_sets_the_peripheral_up() {
    let mut ops = Vec::new();
    let driver = Driver::<Narrow>::new(Some(Hertz(72_500_000)), &mut ops);
    assert_eq!(
        ops,
        vec![
            Op::CommonInit,
            Op::WriteCntr(1),
            Op::Delay(72),
            Op::WriteBtable(0),
            Op::ConnectDataPins,
            Op::Wake(Waker::Bus),
        ]
    );
    assert_eq!(driver.ep_mem_free, 64);
    assert!(driver.alloc.iter().all(|e| !e.used_in && !e.used_out));
}

#[test]
fn new_leaves_out_what_a_chip_lacks() {
    let mut ops = Vec::new();
    Driver::<Wide>::new(Some(Hertz(48_000_000)), &mut ops);
    assert!(!ops.contains(&Op::WriteBtable(0)));
    assert!(ops.contains(&Op::ConnectDataPins));
    ops.clear();
    Driver::<Old>::new(Some(Hertz(48_000_000)), &mut ops);
    assert!(ops.contains(&Op::WriteBtable(0)));
    assert!(!ops.contains(&Op::ConnectDataPins));
}

#[test]
fn new_with_sof_connects_the_pin_first() {
    let mut ops = Vec::new();
    Driver::<Narrow>::new_with_sof(Some(Hertz(48_000_000)), &mut ops);
    assert_eq!(ops[0], Op::ConnectSofPin);
    assert_eq!(ops[1], Op::CommonInit);
    assert_eq!(ops.len(), 7);
}

#[test]
fn endpoints_get_the_least_free_index() {
    let mut driver = fresh::<Narrow>();
    let mut ops = Vec::new();
    let a = driver.alloc_endpoint_out(EndpointType::Bulk, None, 64, 0, &mut ops).ok().unwrap();
    assert_eq!(a.info.addr, EndpointAddress { raw: 0x01 });
    assert_eq!((a.buf.addr, a.buf.len), (64, 64));
    assert_eq!(ops, vec![Op::WriteMem(6, 64), Op::WriteMem(7, 0x8400)]);
    ops.clear();
    let b = driver.alloc_endpoint_in(EndpointType::Bulk, None, 63, 0, &mut ops).ok().unwrap();
    assert_eq!(b.info.addr, EndpointAddress { raw: 0x81 });
    assert_eq!((b.buf.addr, b.buf.len), (128, 64));
    assert_eq!(ops, vec![Op::WriteMem(4, 128)]);
    let c = driver.alloc_endpoint_in(EndpointType::Bulk, None, 8, 0, &mut ops).ok().unwrap();
    assert_eq!(c.info.addr, EndpointAddress { raw: 0x82 });
    assert_eq!((c.buf.addr, c.buf.len), (192, 8));
    let d = driver.alloc_endpoint_out(EndpointType::Interrupt, None, 8, 5, &mut ops).ok().unwrap();
    assert_eq!(d.info.addr, EndpointAddress { raw: 0x03 });
    assert_eq!(d.info.interval_ms, 5);
    assert_eq!(d.info.max_packet_size, 8);
    assert_eq!(d.info().ep_type, EndpointType::Interrupt);
    assert_eq!(driver.ep_mem_free, 208);
}

#[test]
fn isochronous_endpoints_take_both_table_entries() {
    let mut driver = fresh::<Narrow>();
    let mut ops = Vec::new();
    driver.alloc_endpoint_out(EndpointType::Isochronous, None, 64, 0, &mut ops).ok().unwrap();
    assert_eq!(
        ops,
        vec![
            Op::WriteMem(6, 64),
            Op::WriteMem(7, 0x8400),
            Op::WriteMem(4, 64),
            Op::WriteMem(5, 0x8400),
        ]
    );
    ops.clear();
    let e = driver.alloc_endpoint_in(EndpointType::Isochronous, None, 64, 0, &mut ops).ok().unwrap();
    assert_eq!(e.info.addr.index(), 2);
    assert_eq!(ops, vec![Op::WriteMem(8, 128), Op::WriteMem(10, 128)]);
}

#[test]
fn isochronous_endpoints_with_wide_words() {
    let mut driver = fresh::<Wide>();
    let mut ops = Vec::new();
    driver.alloc_endpoint_in(EndpointType::Isochronous, None, 62, 0, &mut ops).ok().unwrap();
    assert_eq!(ops, vec![Op::WriteMem(2, 64), Op::WriteMem(3, 64)]);
    ops.clear();
    driver.alloc_endpoint_out(EndpointType::Isochronous, None, 62, 0, &mut ops).ok().unwrap();
    assert_eq!(ops, vec![Op::WriteMem(5, 0x8400_0080), Op::WriteMem(4, 0x8400_0080)]);
}

#[test]
fn endpoint_zero_is_for_control() {
    let mut driver = fresh::<Narrow>();
    let at_zero = Some(EndpointAddress { raw: 0x00 });
    let r = driver.alloc_endpoint_out(EndpointType::Bulk, at_zero, 64, 0, &mut Vec::new());
    assert_eq!(r.err(), Some(EndpointAllocError));
    assert!(driver.is_endpoint_available::<Out>(0, EndpointType::Control));
    assert!(!driver.is_endpoint_available::<In>(0, EndpointType::Interrupt));
    assert!(!driver.is_endpoint_available::<In>(8, EndpointType::Interrupt));
}

#[test]
fn refused_requests_change_nothing() {
    let mut driver = fresh::<Narrow>();
    let mut ops = Vec::new();
    let at = Some(EndpointAddress { raw: 0x83 });
    assert!(driver.alloc_endpoint_in(EndpointType::Bulk, at, 64, 0, &mut ops).is_ok());
    let (alloc, free, len) = (driver.alloc, driver.ep_mem_free, ops.len());
    // used direction
    assert!(driver.alloc_endpoint_in(EndpointType::Bulk, at, 64, 0, &mut ops).is_err());
    // other type
    assert!(driver.alloc_endpoint_out(EndpointType::Interrupt, at, 64, 0, &mut ops).is_err());
    // no such endpoint
    let far = Some(EndpointAddress { raw: 0x89 });
    assert!(driver.alloc_endpoint_in(EndpointType::Bulk, far, 64, 0, &mut ops).is_err());
    assert_eq!((driver.alloc, driver.ep_mem_free, ops.len()), (alloc, free, len));
    // same type, other direction
    assert!(driver.alloc_endpoint_out(EndpointType::Bulk, at, 64, 0, &mut ops).is_ok());
}

#[test]
fn isochronous_indices_are_not_shared() {
    let mut driver = fresh::<Narrow>();
    let at = Some(EndpointAddress { raw: 0x03 });
    assert!(driver.alloc_endpoint_out(EndpointType::Isochronous, at, 64, 0, &mut Vec::new()).is_ok());
    assert!(driver.alloc_endpoint_in(EndpointType::Isochronous, at, 64, 0, &mut Vec::new()).is_err());
}

#[test]
fn registers_run_out() {
    let mut driver = fresh::<Narrow>();
    for _ in 1..8 {
        assert!(driver.alloc_endpoint_in(EndpointType::Bulk, None, 8, 0, &mut Vec::new()).is_ok());
    }
    assert!(driver.alloc_endpoint_in(EndpointType::Bulk, None, 8, 0, &mut Vec::new()).is_err());
    assert!(driver.alloc_endpoint_out(EndpointType::Bulk, None, 8, 0, &mut Vec::new()).is_ok());
}

#[test]
fn limits_are_known_beforehand() {
    let mut driver = fresh::<Old>();
    assert!(driver.can_alloc::<Out>(EndpointType::Bulk, None, 448));
    assert!(!driver.can_alloc::<Out>(EndpointType::Bulk, None, 449));
    assert!(!driver.can_alloc::<Out>(EndpointType::Bulk, None, 1));
    assert!(!driver.can_alloc::<Out>(EndpointType::Bulk, None, 1025));
    assert!(driver.can_alloc::<In>(EndpointType::Bulk, None, 0));
    // refused for want of an index, whatever the size
    assert!(driver.can_alloc::<Out>(EndpointType::Bulk, Some(EndpointAddress { raw: 0 }), 1));
    assert!(driver.can_start(192));
    assert!(driver.can_start(224));
    assert!(!driver.can_start(225));
    assert!(!driver.can_start(1));
    assert!(driver.alloc_endpoint_in(EndpointType::Control, None, 8, 0, &mut Vec::new()).is_ok());
    assert!(!driver.can_start(8));
}

#[test]
fn memory_is_handed_out_in_order() {
    let mut driver = fresh::<Narrow>();
    assert_eq!(driver.alloc_ep_mem(10), 64);
    assert_eq!(driver.alloc_ep_mem(6), 74);
    assert_eq!(driver.ep_mem_free, 80);
}

#[test]
fn start_allocates_endpoint_zero_and_runs() {
    let mut driver = fresh::<Narrow>();
    driver.alloc_endpoint_in(EndpointType::Interrupt, None, 8, 0, &mut Vec::new()).ok().unwrap();
    driver.alloc_endpoint_out(EndpointType::Isochronous, None, 64, 0, &mut Vec::new()).ok().unwrap();
    let mut ops = Vec::new();
    let (bus, pipe) = driver.start(64, &mut ops);
    assert_eq!(pipe.max_packet_size(), 64);
    assert_eq!(pipe.ep_out.info.addr, EndpointAddress { raw: 0x00 });
    assert_eq!(pipe.ep_in.info.addr, EndpointAddress { raw: 0x80 });
    assert_eq!((pipe.ep_out.buf.addr, pipe.ep_out.buf.len), (136, 64));
    assert_eq!((pipe.ep_in.buf.addr, pipe.ep_in.buf.len), (200, 64));
    assert_eq!(
        ops,
        vec![
            Op::WriteMem(2, 136),
            Op::WriteMem(3, 0x8400),
            Op::WriteMem(0, 200),
            Op::WriteCntr(0x9c00),
            Op::WriteBcdr(0x8000),
        ]
    );
    assert!(!bus.inited);
    assert_eq!(bus.ep_types[0], EpType::Interrupt);
    assert_eq!(bus.ep_types[1], EpType::Iso);
    assert_eq!(bus.ep_types[2], EpType::Bulk);
}

#[test]
fn pull_up_of_old_chips() {
    let mut ops = Vec::new();
    fresh::<Old>().start(64, &mut ops);
    assert_eq!(ops[ops.len() - 2..], [Op::WriteCntr(0x9c00), Op::SyscfgPullUp]);
}

#[test]
fn suspend_interrupt() {
    let mut ops = Vec::new();
    assert_eq!(InterruptHandler::<Narrow>::on_interrupt(0x0800, &mut ops), None);
    assert_eq!(
        ops,
        vec![
            Op::Store(Flag::Suspend, true),
            Op::ModifyCntr(true),
            Op::WriteIstr(0xffff_f7ff),
            Op::Wake(Waker::Bus),
        ]
    );
    assert_eq!(InterruptHandler::<Narrow>::suspend_cntr(0x9c00, true), 0x9c0c);
    assert_eq!(InterruptHandler::<Narrow>::suspend_cntr(0x9c0c, false), 0x9c00);
}

#[test]
fn all_events_at_once() {
    let mut ops = Vec::new();
    assert_eq!(InterruptHandler::<Narrow>::on_interrupt(0x9c03, &mut ops), Some(3));
    assert_eq!(ops.len(), 11);
    assert_eq!(ops[4], Op::Store(Flag::Resume, true));
    assert_eq!(ops[5], Op::ModifyCntr(false));
    assert_eq!(ops[6], Op::WriteIstr(0xffff_efff));
    assert_eq!(ops[8], Op::Store(Flag::Reset, true));
    assert_eq!(ops[9], Op::WriteIstr(0xffff_fbff));
}

#[test]
fn nothing_to_do() {
    let mut ops = Vec::new();
    assert_eq!(InterruptHandler::<Narrow>::on_interrupt(0x0003, &mut ops), None);
    assert!(ops.is_empty());
}

#[test]
fn setup_interrupt() {
    let mut ops = Vec::new();
    InterruptHandler::<Narrow>::on_transfer(0, 0xaa20, &mut ops);
    assert_eq!(
        ops,
        vec![
            Op::Store(Flag::RxComplete(0), true),
            Op::Store(Flag::Ep0Setup, true),
            Op::Wake(Waker::EpOut(0)),
            Op::WriteEpr(0, 0x0a80),
        ]
    );
    ops.clear();
    // SETUP counts on endpoint 0 only
    InterruptHandler::<Narrow>::on_transfer(1, 0xaa21, &mut ops);
    assert_eq!(ops.len(), 3);
}

#[test]
fn transmit_interrupt() {
    let mut ops = Vec::new();
    InterruptHandler::<Narrow>::on_transfer(2, 0x00a2, &mut ops);
    assert_eq!(
        ops,
        vec![
            Op::Store(Flag::TxPending(2), false),
            Op::Wake(Waker::EpIn(2)),
            Op::WriteEpr(2, 0x8002),
        ]
    );
}

#[test]
fn acknowledging_keeps_late_flags() {
    for low in 0..=0xffffu32 {
        let mut ops = Vec::new();
        InterruptHandler::<Narrow>::on_transfer(1, low, &mut ops);
        let w = match ops[ops.len() - 1] {
            Op::WriteEpr(1, w) => w,
            _ => unreachable!(),
        };
        let mut r = regs::Epr(low);
        r.set_dtog_rx(false);
        r.set_dtog_tx(false);
        r.set_stat_rx(vals::Stat::from_bits(0));
        r.set_stat_tx(vals::Stat::from_bits(0));
        r.set_ctr_rx(!r.ctr_rx());
        r.set_ctr_tx(!r.ctr_tx());
        assert_eq!(w, r.0);
        let late = low | 0x8080;
        assert_eq!(epr_write(late, w), late & !(low & 0x8080));
    }
}

#[test]
fn bus_events_in_order() {
    let (mut bus, _) = fresh::<Narrow>().start(64, &mut Vec::new());
    let mut ops = Vec::new();
    assert_eq!(bus.poll(true, true, true, &mut ops), Some(Event::PowerDetected));
    assert!(ops.is_empty());
    assert_eq!(bus.poll(true, true, true, &mut ops), Some(Event::Resume));
    assert_eq!(ops, vec![Op::Store(Flag::Resume, false)]);
    assert_eq!(bus.poll(false, true, true, &mut ops), Some(Event::Reset));
    ops.clear();
    assert_eq!(bus.poll(false, false, true, &mut ops), Some(Event::Suspend));
    assert_eq!(ops, vec![Op::Store(Flag::Suspend, false)]);
    assert_eq!(bus.poll(false, false, false, &mut ops), None);
}

#[test]
fn bus_reset_sets_registers_up() {
    let mut bus = Bus::<Narrow> { phantom: PhantomData, ep_types: [EpType::Interrupt; 7], inited: true };
    bus.ep_types[1] = EpType::Iso;
    let mut ops = Vec::new();
    assert_eq!(bus.poll(false, true, false, &mut ops), Some(Event::Reset));
    assert_eq!(ops.len(), 26);
    assert_eq!(ops[0], Op::Store(Flag::Reset, false));
    assert_eq!(ops[1], Op::WriteDaddr(0x80));
    assert_eq!(ops[2], Op::WriteEpr(0, 0x2220));
    assert_eq!(ops[3], Op::WriteEpr(1, 0x0601));
    assert_eq!(ops[4], Op::WriteEpr(2, 0x0402));
    assert_eq!(ops[9], Op::WriteEpr(7, 0x0607));
    assert_eq!(ops[10], Op::Wake(Waker::EpIn(0)));
    assert_eq!(ops[17], Op::Wake(Waker::EpIn(7)));
    assert_eq!(ops[18], Op::Wake(Waker::EpOut(0)));
    assert_eq!(ops[25], Op::Wake(Waker::EpOut(7)));
    assert_eq!(stat_rx(epr_write(0, 0x2220)), vals::Stat::NAK);
    assert_eq!(stat_tx(epr_write(0, 0x2220)), vals::Stat::NAK);
}

#[test]
fn stalling_takes_one_write() {
    let (mut bus, _) = fresh::<Narrow>().start(64, &mut Vec::new());
    for low in 0..=0xffffu32 {
        for raw in [0x82u8, 0x02] {
            let addr = EndpointAddress { raw };
            let mut held = low;
            let mut ops = Vec::new();
            let before = if raw == 0x82 { stat_tx(held) } else { stat_rx(held) };
            let rest = if raw == 0x82 { 0xffcf } else { 0xcfff };
            let mut rounds = 0;
            while bus.endpoint_set_stalled(addr, true, held, &mut ops) == Next::Sample(()) {
                rounds += 1;
                match ops[ops.len() - 1] {
                    Op::WriteEpr(2, w) => held = epr_write(held, w),
                    _ => unreachable!(),
                }
            }
            let after = if raw == 0x82 { stat_tx(held) } else { stat_rx(held) };
            if before == vals::Stat::DISABLED {
                assert_eq!(held, low);
            } else {
                assert_eq!(after, vals::Stat::STALL);
                assert_eq!(rounds, if before == vals::Stat::STALL { 0 } else { 1 });
            }
            assert_eq!(held & rest, low & rest);
            assert_eq!(bus.endpoint_is_stalled(addr, held), after == vals::Stat::STALL);
            let waker = if raw == 0x82 { Waker::EpIn(2) } else { Waker::EpOut(2) };
            assert_eq!(ops[ops.len() - 1], Op::Wake(waker));
        }
    }
}

#[test]
fn clearing_a_stall_stops_at_stall() {
    let (mut bus, _) = fresh::<Narrow>().start(64, &mut Vec::new());
    let mut ops = Vec::new();
    let stalled = epr(vals::Stat::STALL, vals::Stat::STALL);
    let addr = EndpointAddress { raw: 0x01 };
    assert_eq!(bus.endpoint_set_stalled(addr, false, stalled, &mut ops), Next::Done(()));
    let nak = epr(vals::Stat::NAK, vals::Stat::NAK);
    assert_eq!(bus.endpoint_set_stalled(addr, false, nak, &mut ops), Next::Sample(()));
    assert_eq!(ops[1], Op::WriteEpr(1, 0x9080));
    let addr = EndpointAddress { raw: 0x81 };
    assert_eq!(bus.endpoint_set_stalled(addr, false, nak, &mut ops), Next::Sample(()));
    assert_eq!(ops[2], Op::WriteEpr(1, 0x8080));
}

#[test]
fn enabling_takes_one_write() {
    let (mut bus, _) = fresh::<Narrow>().start(64, &mut Vec::new());
    for low in 0..=0xffffu32 {
        for raw in [0x82u8, 0x02] {
            for enabled in [false, true] {
                let addr = EndpointAddress { raw };
                let mut held = low;
                let mut ops = Vec::new();
                let mut rounds = 0;
                while bus.endpoint_set_enabled(addr, enabled, held, held, &mut ops) == Next::Sample(()) {
                    rounds += 1;
                    match ops[ops.len() - 1] {
                        Op::WriteEpr(2, w) => held = epr_write(held, w),
                        _ => unreachable!(),
                    }
                }
                assert!(rounds <= 1);
                let want = if !enabled {
                    vals::Stat::DISABLED
                } else if raw == 0x82 && regs::Epr(low).ep_type() != vals::EpType::ISO {
                    vals::Stat::NAK
                } else {
                    vals::Stat::VALID
                };
                assert_eq!(if raw == 0x82 { stat_tx(held) } else { stat_rx(held) }, want);
                let rest = if raw == 0x82 { 0xffcf } else { 0xcfff };
                assert_eq!(held & rest, low & rest);
            }
        }
    }
}

#[test]
fn bus_cannot_wake_the_host() {
    let (mut bus, _) = fresh::<Narrow>().start(64, &mut Vec::new());
    bus.enable();
    bus.disable();
    assert_eq!(bus.remote_wakeup(), Err(Unsupported));
    assert!(!bus.inited);
}

#[test]
fn packets_are_stored_little_endian() {
    let mut buf = EndpointBuffer::<Narrow> { addr: 72, len: 8, _phantom: PhantomData };
    let mut ops = Vec::new();
    buf.write(&[1, 2, 3], &mut ops);
    assert_eq!(ops, vec![Op::WriteMem(36, 0x0201), Op::WriteMem(37, 0x0003)]);
    let mut buf = EndpointBuffer::<Wide> { addr: 72, len: 8, _phantom: PhantomData };
    ops.clear();
    buf.write(&[1, 2, 3, 4, 5], &mut ops);
    assert_eq!(ops, vec![Op::WriteMem(18, 0x0403_0201), Op::WriteMem(19, 0x0000_0005)]);
    ops.clear();
    buf.write(&[], &mut ops);
    assert!(ops.is_empty());
}

#[test]
fn packets_are_read_back() {
    let bytes: Vec<u8> = (0..64u8).map(|i| i.wrapping_mul(37)).collect();
    for n in 0..=64usize {
        let mut narrow = EndpointBuffer::<Narrow> { addr: 128, len: 64, _phantom: PhantomData };
        let mut wide = EndpointBuffer::<Wide> { addr: 128, len: 64, _phantom: PhantomData };
        let mut ops = Vec::new();
        let mut mem = vec![0xffffu32; 512];
        narrow.write(&bytes[..n], &mut ops);
        mem_write(&mut mem, &ops);
        let mut out = [0xaau8; 70];
        narrow.read(&mem[64..64 + (n + 1) / 2], n, &mut out);
        assert_eq!(out[..n], bytes[..n]);
        assert!(out[n..].iter().all(|&b| b == 0xaa));
        ops.clear();
        wide.write(&bytes[..n], &mut ops);
        mem_write(&mut mem, &ops);
        let mut out = [0xaau8; 70];
        wide.read(&mem[32..32 + (n + 3) / 4], n, &mut out);
        assert_eq!(out[..n], bytes[..n]);
        assert!(out[n..].iter().all(|&b| b == 0xaa));
    }
}

#[test]
fn bulk_write() {
    let mut ep = ep_in::<Narrow>(EndpointType::Bulk);
    let mut ops = Vec::new();
    let data = [1u8, 2, 3];
    let nak = epr(vals::Stat::NAK, vals::Stat::NAK);
    let busy = epr(vals::Stat::NAK, vals::Stat::VALID);
    assert_eq!(ep.write(WriteState::Begin, nak, false, &data, &mut ops), Next::Sample(WriteState::Poll));
    assert_eq!(ep.write(WriteState::Poll, busy, true, &data, &mut ops), Next::Wait(WriteState::Poll));
    assert!(ops.is_empty());
    assert_eq!(ep.write(WriteState::Poll, nak, true, &data, &mut ops), Next::Done(Ok(())));
    assert_eq!(
        ops,
        vec![
            Op::WriteMem(32, 0x0201),
            Op::WriteMem(33, 0x0003),
            Op::WriteMem(5, 3),
            Op::WriteEpr(1, 0x8091),
            Op::Store(Flag::TxPending(1), true),
        ]
    );
    assert_eq!(stat_tx(epr_write(nak, 0x8091)), vals::Stat::VALID);
    assert_eq!(stat_rx(epr_write(nak, 0x8091)), vals::Stat::NAK);
}

#[test]
fn write_errors() {
    let mut ep = ep_in::<Narrow>(EndpointType::Bulk);
    let mut ops = Vec::new();
    assert_eq!(
        ep.write(WriteState::Begin, 0, false, &[0; 65], &mut ops),
        Next::Done(Err(EndpointError::BufferOverflow))
    );
    assert_eq!(
        ep.write(WriteState::Poll, 0, false, &[0; 64], &mut ops),
        Next::Done(Err(EndpointError::Disabled))
    );
    assert!(ops.is_empty());
}

#[test]
fn isochronous_write() {
    let mut ep = ep_in::<Narrow>(EndpointType::Isochronous);
    let mut ops = Vec::new();
    let valid = epr(vals::Stat::DISABLED, vals::Stat::VALID);
    let mut toggled = regs::Epr(valid);
    toggled.set_dtog_tx(true);
    assert_eq!(ep.write(WriteState::Begin, valid, true, &[9], &mut ops), Next::Sample(WriteState::Poll));
    assert_eq!(ops, vec![Op::WriteMem(32, 9), Op::WriteMem(5, 1)]);
    ops.clear();
    assert_eq!(ep.write(WriteState::Begin, toggled.0, true, &[9], &mut ops), Next::Sample(WriteState::Poll));
    assert_eq!(ops, vec![Op::WriteMem(32, 9), Op::WriteMem(7, 1)]);
    ops.clear();
    assert_eq!(ep.write(WriteState::Poll, valid, true, &[9], &mut ops), Next::Wait(WriteState::Poll));
    assert_eq!(ep.write(WriteState::Poll, valid, false, &[9], &mut ops), Next::Done(Ok(())));
    assert_eq!(ops, vec![Op::Store(Flag::TxPending(1), true)]);
}

#[test]
fn bulk_read() {
    let mut ep = ep_out::<Narrow>(EndpointType::Bulk);
    let mut ops = Vec::new();
    let mut buf = [0xaau8; 8];
    let nak = epr(vals::Stat::NAK, vals::Stat::VALID);
    let valid = epr(vals::Stat::VALID, vals::Stat::NAK);
    let input = Input::Register { epr: valid, flag: true };
    assert_eq!(ep.read(ReadState::Poll, input, &mut buf, &mut ops), Next::Wait(ReadState::Poll));
    let input = Input::Register { epr: nak, flag: false };
    let count = ReadState::Count(PacketBuffer::Rx);
    assert_eq!(ep.read(ReadState::Poll, input, &mut buf, &mut ops), Next::Fetch(count, 7, 1));
    assert_eq!(ops, vec![Op::Store(Flag::RxComplete(1), false)]);
    ops.clear();
    assert_eq!(
        ep.read(count, Input::Memory(&[0x8403]), &mut buf, &mut ops),
        Next::Fetch(ReadState::Data(3), 32, 2)
    );
    assert_eq!(
        ep.read(ReadState::Data(3), Input::Memory(&[0x0201, 0xff03]), &mut buf, &mut ops),
        Next::Done(Ok(3))
    );
    assert_eq!(buf, [1, 2, 3, 0xaa, 0xaa, 0xaa, 0xaa, 0xaa]);
    assert_eq!(ops, vec![Op::WriteEpr(1, 0x9081)]);
    assert_eq!(stat_rx(epr_write(nak, 0x9081)), vals::Stat::VALID);
    assert_eq!(stat_tx(epr_write(nak, 0x9081)), vals::Stat::VALID);
}

#[test]
fn read_errors() {
    let mut ep = ep_out::<Narrow>(EndpointType::Bulk);
    let mut ops = Vec::new();
    let mut buf = [0u8; 8];
    let input = Input::Register { epr: 0, flag: false };
    assert_eq!(
        ep.read(ReadState::Poll, input, &mut buf, &mut ops),
        Next::Done(Err(EndpointError::Disabled))
    );
    ops.clear();
    assert_eq!(
        ep.read(ReadState::Count(PacketBuffer::Rx), Input::Memory(&[9]), &mut buf, &mut ops),
        Next::Done(Err(EndpointError::BufferOverflow))
    );
    assert!(ops.is_empty());
}

#[test]
fn isochronous_read_with_delay() {
    let mut ep = ep_out::<Wide>(EndpointType::Isochronous);
    let mut ops = Vec::new();
    let mut buf = [0u8; 8];
    let valid = epr(vals::Stat::VALID, vals::Stat::DISABLED);
    let mut toggled = regs::Epr(valid);
    toggled.set_dtog_rx(true);
    let input = Input::Register { epr: valid, flag: false };
    assert_eq!(ep.read(ReadState::Poll, input, &mut buf, &mut ops), Next::Wait(ReadState::Poll));
    let input = Input::Register { epr: valid, flag: true };
    assert_eq!(ep.read(ReadState::Poll, input, &mut buf, &mut ops), Next::Sample(ReadState::Select));
    assert_eq!(ops, vec![Op::BlockFor(800), Op::Store(Flag::RxComplete(1), false)]);
    let rx = ReadState::Count(PacketBuffer::Rx);
    let tx = ReadState::Count(PacketBuffer::Tx);
    assert_eq!(ep.read(ReadState::Select, input, &mut buf, &mut ops), Next::Fetch(rx, 3, 1));
    let input = Input::Register { epr: toggled.0, flag: true };
    assert_eq!(ep.read(ReadState::Select, input, &mut buf, &mut ops), Next::Fetch(tx, 2, 1));
    ops.clear();
    assert_eq!(
        ep.read(tx, Input::Memory(&[0x8405_0040]), &mut buf, &mut ops),
        Next::Fetch(ReadState::Data(5), 16, 2)
    );
    assert_eq!(
        ep.read(ReadState::Data(5), Input::Memory(&[0x0403_0201, 5]), &mut buf, &mut ops),
        Next::Done(Ok(5))
    );
    assert_eq!(buf, [1, 2, 3, 4, 5, 0, 0, 0]);
    assert!(ops.is_empty());
}

#[test]
fn waiting_for_enable() {
    let i = ep_in::<Narrow>(EndpointType::Bulk);
    let o = ep_out::<Narrow>(EndpointType::Bulk);
    let rx_only = epr(vals::Stat::VALID, vals::Stat::DISABLED);
    let tx_only = epr(vals::Stat::DISABLED, vals::Stat::NAK);
    assert!(!i.wait_enabled(rx_only));
    assert!(i.wait_enabled(tx_only));
    assert!(o.wait_enabled(rx_only));
    assert!(!o.wait_enabled(tx_only));
}

#[test]
fn setup_packets() {
    let mut pipe = narrow_pipe();
    let mut ops = Vec::new();
    let none = Input::Register { epr: 0, flag: false };
    let some = Input::Register { epr: 0, flag: true };
    assert_eq!(pipe.setup(SetupState::Poll, none, &mut ops), Next::Wait(SetupState::Poll));
    assert_eq!(pipe.setup(SetupState::Poll, some, &mut ops), Next::Fetch(SetupState::Count, 3, 1));
    // too long
    assert_eq!(pipe.setup(SetupState::Count, Input::Memory(&[9]), &mut ops), Next::Sample(SetupState::Poll));
    // too short
    assert_eq!(
        pipe.setup(SetupState::Count, Input::Memory(&[0x8401]), &mut ops),
        Next::Fetch(SetupState::Data(1), 32, 1)
    );
    assert_eq!(pipe.setup(SetupState::Data(1), Input::Memory(&[7]), &mut ops), Next::Sample(SetupState::Poll));
    assert!(ops.is_empty());
    assert_eq!(
        pipe.setup(SetupState::Count, Input::Memory(&[0x8408]), &mut ops),
        Next::Fetch(SetupState::Data(8), 32, 4)
    );
    assert_eq!(
        pipe.setup(SetupState::Data(8), Input::Memory(&[0x0680, 0x0100, 0x0000, 0x0040]), &mut ops),
        Next::Done([0x80, 0x06, 0x00, 0x01, 0x00, 0x00, 0x40, 0x00])
    );
    assert_eq!(ops, vec![Op::Store(Flag::Ep0Setup, false)]);
}

fn last_word(ops: &[Op]) -> u32 {
    match ops[ops.len() - 1] {
        Op::WriteEpr(0, w) => w,
        _ => unreachable!(),
    }
}

#[test]
fn control_write_in_three_packets() {
    let mut pipe = narrow_pipe();
    let mut buf = [0u8; 64];
    let mut held = epr(vals::Stat::NAK, vals::Stat::NAK);
    for (first, last) in [(true, false), (false, false), (false, true)] {
        let mut ops = Vec::new();
        let start = Input::Register { epr: held, flag: false };
        assert_eq!(
            pipe.data_out(DataOutState::Begin, start, &mut buf, first, last, &mut ops),
            Next::Sample(DataOutState::Poll)
        );
        if first || last {
            held = epr_write(held, last_word(&ops));
        } else {
            assert!(ops.is_empty());
        }
        assert_eq!(stat_rx(held), vals::Stat::VALID);
        assert_eq!(stat_tx(held), if last { vals::Stat::NAK } else { vals::Stat::STALL });
        ops.clear();
        let waiting = Input::Register { epr: held, flag: false };
        assert_eq!(
            pipe.data_out(DataOutState::Poll, waiting, &mut buf, first, last, &mut ops),
            Next::Wait(DataOutState::Poll)
        );
        // the packet arrives
        held ^= 0x1000;
        assert_eq!(stat_rx(held), vals::Stat::NAK);
        let arrived = Input::Register { epr: held, flag: false };
        assert_eq!(
            pipe.data_out(DataOutState::Poll, arrived, &mut buf, first, last, &mut ops),
            Next::Fetch(DataOutState::Count, 3, 1)
        );
        assert_eq!(
            pipe.data_out(DataOutState::Count, Input::Memory(&[0x8402]), &mut buf, first, last, &mut ops),
            Next::Fetch(DataOutState::Data(2), 32, 1)
        );
        assert!(ops.is_empty());
        assert_eq!(
            pipe.data_out(DataOutState::Data(2), Input::Memory(&[0x2211]), &mut buf, first, last, &mut ops),
            Next::Done(Ok(2))
        );
        assert_eq!(buf[..3], [0x11, 0x22, 0]);
        held = epr_write(held, last_word(&ops));
        assert_eq!(stat_rx(held), if last { vals::Stat::STALL } else { vals::Stat::VALID });
    }
}

#[test]
fn control_write_in_one_packet() {
    let mut pipe = narrow_pipe();
    let mut ops = Vec::new();
    let held = epr(vals::Stat::NAK, vals::Stat::NAK);
    let start = Input::Register { epr: held, flag: false };
    pipe.data_out(DataOutState::Begin, start, &mut [], true, true, &mut ops);
    assert_eq!(last_word(&ops), 0x9280);
    let after = epr_write(held, last_word(&ops));
    assert_eq!((stat_rx(after), stat_tx(after)), (vals::Stat::VALID, vals::Stat::NAK));
    assert_eq!(
        pipe.data_out(DataOutState::Count, Input::Memory(&[1]), &mut [], true, true, &mut ops),
        Next::Done(Err(EndpointError::BufferOverflow))
    );
}

#[test]
fn control_read_in_three_packets() {
    let mut pipe = narrow_pipe();
    let mut held = epr(vals::Stat::NAK, vals::Stat::NAK);
    for (first, last) in [(true, false), (false, false), (false, true)] {
        let mut ops = Vec::new();
        let data = [5u8, 6, 7];
        assert_eq!(
            pipe.data_in(DataInState::Begin, held, false, &data, first, last, &mut ops),
            Next::Sample(DataInState::Poll)
        );
        if first || last {
            held = epr_write(held, last_word(&ops));
        } else {
            assert!(ops.is_empty());
        }
        assert_eq!(stat_rx(held), if last { vals::Stat::VALID } else { vals::Stat::STALL });
        assert_eq!(stat_tx(held), vals::Stat::NAK);
        ops.clear();
        assert_eq!(
            pipe.data_in(DataInState::Poll, held, false, &data, first, last, &mut ops),
            Next::Done(Ok(()))
        );
        assert_eq!(ops[..3], [Op::WriteMem(64, 0x0605), Op::WriteMem(65, 7), Op::WriteMem(1, 3)]);
        held = epr_write(held, last_word(&ops));
        assert_eq!(stat_tx(held), vals::Stat::VALID);
        assert_eq!(regs::Epr(held).ep_kind(), last);
        assert_eq!(
            pipe.data_in(DataInState::Poll, held, false, &data, first, last, &mut ops),
            Next::Wait(DataInState::Poll)
        );
        // the packet is sent
        held ^= 0x0010;
    }
}

#[test]
fn control_read_in_one_packet() {
    let mut pipe = narrow_pipe();
    let mut ops = Vec::new();
    let held = epr(vals::Stat::NAK, vals::Stat::NAK);
    pipe.data_in(DataInState::Begin, held, false, &[], true, true, &mut ops);
    assert_eq!(last_word(&ops), 0x9380);
    assert_eq!(stat_rx(epr_write(held, last_word(&ops))), vals::Stat::VALID);
    ops.clear();
    assert_eq!(
        pipe.data_in(DataInState::Begin, held, false, &[0; 65], true, true, &mut ops),
        Next::Done(Err(EndpointError::BufferOverflow))
    );
    assert!(ops.is_empty());
}

#[test]
fn another_setup_packet_aborts() {
    let mut pipe = narrow_pipe();
    let mut ops = Vec::new();
    let held = epr(vals::Stat::NAK, vals::Stat::NAK);
    let input = Input::Register { epr: held, flag: true };
    assert_eq!(
        pipe.data_out(DataOutState::Poll, input, &mut [0; 8], false, false, &mut ops),
        Next::Done(Err(EndpointError::Disabled))
    );
    assert_eq!(
        pipe.data_in(DataInState::Poll, held, true, &[1], false, false, &mut ops),
        Next::Done(Err(EndpointError::Disabled))
    );
    assert!(ops.is_empty());
}

#[test]
fn accepting() {
    let mut pipe = narrow_pipe();
    for low in 0..=0xffffu32 {
        let mut ops = Vec::new();
        assert_eq!(pipe.accept(AcceptState::Begin, low, &mut ops), Next::Sample(AcceptState::Respond));
        assert_eq!(ops, vec![Op::WriteMem(1, 0)]);
        assert_eq!(pipe.accept(AcceptState::Respond, low, &mut ops), Next::Sample(AcceptState::Poll));
        let after = epr_write(low, last_word(&ops));
        assert_eq!((stat_rx(after), stat_tx(after)), (vals::Stat::STALL, vals::Stat::VALID));
        assert_eq!(after & 0xc0c0, low & 0xc0c0);
        let done = stat_tx(low) == vals::Stat::NAK;
        let next = pipe.accept(AcceptState::Poll, low, &mut ops);
        assert_eq!(next, if done { Next::Done(()) } else { Next::Wait(AcceptState::Poll) });
    }
}

#[test]
fn rejecting() {
    let mut pipe = narrow_pipe();
    for low in 0..=0xffffu32 {
        let mut ops = Vec::new();
        pipe.reject(low, &mut ops);
        let after = epr_write(low, last_word(&ops));
        assert_eq!((stat_rx(after), stat_tx(after)), (vals::Stat::STALL, vals::Stat::STALL));
        assert_eq!(after & 0xc0c0, low & 0xc0c0);
    }
}

#[test]
fn setting_the_address() {
    let mut pipe = narrow_pipe();
    let mut ops = Vec::new();
    let nak = epr(vals::Stat::STALL, vals::Stat::NAK);
    assert_eq!(
        pipe.accept_set_address(AcceptState::Begin, nak, 5, &mut ops),
        Next::Sample(AcceptState::Respond)
    );
    assert_eq!(
        pipe.accept_set_address(AcceptState::Respond, nak, 5, &mut ops),
        Next::Sample(AcceptState::Poll)
    );
    assert_eq!(ops.len(), 2);
    assert_eq!(pipe.accept_set_address(AcceptState::Poll, nak, 5, &mut ops), Next::Done(()));
    assert_eq!(ops[2], Op::WriteDaddr(0x85));
    pipe.accept_set_address(AcceptState::Poll, nak, 0xff, &mut ops);
    assert_eq!(ops[3], Op::WriteDaddr(0xff));
}

#[test]
fn status_codes() {
    assert_eq!(Stat::Disabled.to_bits(), vals::Stat::DISABLED.to_bits());
    assert_eq!(Stat::Stall.to_bits(), vals::Stat::STALL.to_bits());
    assert_eq!(Stat::Nak.to_bits(), vals::Stat::NAK.to_bits());
    assert_eq!(Stat::Valid.to_bits(), vals::Stat::VALID.to_bits());
}

#[test]
fn directions_of_endpoints() {
    assert_eq!(ep_in::<Narrow>(EndpointType::Bulk).info.addr.direction(), Direction::In);
    assert_eq!(ep_out::<Narrow>(EndpointType::Bulk).info.addr.direction(), Direction::Out);
}

#[test]
fn isochronous_endpoints_are_paced_by_the_interrupt() {
    let mut ep = ep_in::<Narrow>(EndpointType::Isochronous);
    let valid = epr(vals::Stat::DISABLED, vals::Stat::VALID);
    let mut sent = regs::Epr(valid);
    sent.set_ctr_tx(true);
    let mut ops = Vec::new();
    assert_eq!(ep.write(WriteState::Poll, valid, false, &[9], &mut ops), Next::Done(Ok(())));
    assert_eq!(ops, vec![Op::Store(Flag::TxPending(1), true)]);
    ops.clear();
    assert_eq!(ep.write(WriteState::Poll, valid, true, &[9], &mut ops), Next::Wait(WriteState::Poll));
    InterruptHandler::<Narrow>::on_transfer(1, sent.0, &mut ops);
    assert_eq!(ops[0], Op::Store(Flag::TxPending(1), false));

    let mut ep = ep_out::<Narrow>(EndpointType::Isochronous);
    let valid = epr(vals::Stat::VALID, vals::Stat::DISABLED);
    let mut arrived = regs::Epr(valid);
    arrived.set_ctr_rx(true);
    ops.clear();
    let waiting = Input::Register { epr: valid, flag: false };
    assert_eq!(ep.read(ReadState::Poll, waiting, &mut [0; 8], &mut ops), Next::Wait(ReadState::Poll));
    InterruptHandler::<Narrow>::on_transfer(1, arrived.0, &mut ops);
    assert_eq!(ops[0], Op::Store(Flag::RxComplete(1), true));
    ops.clear();
    let ready = Input::Register { epr: valid, flag: true };
    assert_eq!(ep.read(ReadState::Poll, ready, &mut [0; 8], &mut ops), Next::Sample(ReadState::Select));
    assert_eq!(ops, vec![Op::Store(Flag::RxComplete(1), false)]);
}

#[test]
fn writes_stay_in_their_buffer() {
    let mut driver = fresh::<Wide>();
    let mut a = driver.alloc_endpoint_in(EndpointType::Bulk, None, 6, 0, &mut Vec::new()).ok().unwrap();
    let mut b = driver.alloc_endpoint_in(EndpointType::Bulk, None, 8, 0, &mut Vec::new()).ok().unwrap();
    assert_eq!(a.buf.addr + a.buf.len, b.buf.addr);
    let mut mem = vec![0u32; 512];
    let mut ops = Vec::new();
    a.write_data(&[1; 6], &mut ops);
    mem_write(&mut mem, &ops);
    let before = mem.clone();
    ops.clear();
    b.write_data(&[2; 8], &mut ops);
    mem_write(&mut mem, &ops);
    assert_eq!(mem[16..18], [0x0101_0101, 0x0000_0101]);
    assert_eq!(mem[18..20], [0x0202_0202, 0x0202_0202]);
    assert_eq!(mem[2], 0x0006_0040);
    assert_eq!(mem[4], 0x0008_0048);
    for w in 0..512 {
        assert!(mem[w] == before[w] || w == 4 || w == 18 || w == 19);
    }
}

#[test]
fn steps_that_can_be_taken_to_the_host() {
    let ep = ep_in::<Narrow>(EndpointType::Bulk);
    let nak = epr(vals::Stat::NAK, vals::Stat::NAK);
    let valid = epr(vals::Stat::VALID, vals::Stat::VALID);
    assert!(ep.check_write(WriteState::Begin, nak, false, 1000));
    assert!(ep.check_write(WriteState::Poll, nak, false, 64));
    assert!(!ep.check_write(WriteState::Poll, nak, false, 65));
    assert!(ep.check_write(WriteState::Poll, 0, false, 65));
    let iso = ep_in::<Narrow>(EndpointType::Isochronous);
    assert!(iso.check_write(WriteState::Poll, valid, false, 64));
    assert!(iso.check_write(WriteState::Poll, nak, true, 64));
    assert!(!iso.check_write(WriteState::Poll, nak, false, 64));
    let pipe = narrow_pipe();
    assert!(pipe.check_data_in(DataInState::Begin, nak, false, 65));
    assert!(!pipe.check_data_in(DataInState::Poll, nak, false, 65));
    assert!(pipe.check_data_in(DataInState::Poll, nak, true, 65));
}

#[test]
fn steps_that_can_be_taken_from_the_host() {
    let ep = ep_out::<Narrow>(EndpointType::Bulk);
    let register = Input::Register { epr: 0, flag: true };
    assert!(ep.check_read(ReadState::Poll, register, 100));
    assert!(!ep.check_read(ReadState::Poll, Input::Memory(&[0]), 100));
    let count = ReadState::Count(PacketBuffer::Rx);
    assert!(ep.check_read(count, Input::Memory(&[64]), 100));
    assert!(!ep.check_read(count, Input::Memory(&[65]), 100));
    assert!(ep.check_read(count, Input::Memory(&[65]), 64));
    assert!(!ep.check_read(count, Input::Memory(&[]), 100));
    assert!(ep.check_read(ReadState::Data(3), Input::Memory(&[1, 2]), 3));
    assert!(!ep.check_read(ReadState::Data(3), Input::Memory(&[1]), 3));
    assert!(!ep.check_read(ReadState::Data(3), Input::Memory(&[1, 2]), 2));
    let iso = ep_out::<Narrow>(EndpointType::Isochronous);
    let nak = epr(vals::Stat::NAK, vals::Stat::NAK);
    assert!(!iso.check_read(ReadState::Poll, Input::Register { epr: nak, flag: true }, 8));
    assert!(iso.check_read(ReadState::Poll, Input::Register { epr: nak, flag: false }, 8));
    let pipe = narrow_pipe();
    assert!(pipe.check_setup(SetupState::Count, Input::Memory(&[8])));
    assert!(!pipe.check_setup(SetupState::Data(9), Input::Memory(&[0; 5])));
    assert!(pipe.check_data_out(DataOutState::Begin, Input::Memory(&[]), 0));
    assert!(pipe.check_data_out(DataOutState::Count, Input::Memory(&[65]), 64));
    assert!(!pipe.check_data_out(DataOutState::Count, Input::Memory(&[65]), 65));
}

#[test]
fn packets_reach_the_word_count_of_their_length() {
    let mut ep = ep_out::<Wide>(EndpointType::Bulk);
    assert_eq!(ep.read_data_len_word(PacketBuffer::Rx), 3);
    assert_eq!(ep.read_data_len(0xffff_0000, 2000), Ok(0x3ff));
    assert_eq!(ep.read_data_len(0x0009_0000, 8), Err(EndpointError::BufferOverflow));
    assert_eq!(ep.read_data_words(9), (16, 3));
    let mut ops = Vec::new();
    ep.write_data_double_buffered(&[7], PacketBuffer::Rx, &mut ops);
    assert_eq!(ops, vec![Op::WriteMem(16, 7), Op::WriteMem(3, 0x0001_0040)]);
}
