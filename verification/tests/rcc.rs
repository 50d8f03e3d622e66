use core::cell::RefCell;
use critical_section::CriticalSection;
use stm32_usb::rcc;
use stm32_usb::rcc::{ClockFreqs, Rcc, RccInfo, RccOp, RccPeripheral, StopMode};
use stm32_usb::time::Hertz;
use stm32_usb::util;

/// Shares its bits, has a reset bit.
struct Shared;

impl RccPeripheral for Shared {
    const RCC_INFO: RccInfo = RccInfo {
        reset_offset_or_0xff: 4,
        reset_bit: 23,
        enable_offset: 7,
        enable_bit: 22,
        refcount_idx_or_0xff: 1,
        stop_mode: StopMode::Stop1,
    };

    fn clock_active() -> bool {
        true
    }

    fn frequency() -> Hertz {
        Hertz(48_000_000)
    }

    fn bus_frequency() -> Hertz {
        Hertz(24_000_000)
    }
}

/// Has its enable bit to itself, no reset bit.
struct Own;

impl RccPeripheral for Own {
    const RCC_INFO: RccInfo = RccInfo {
        reset_offset_or_0xff: 0xff,
        reset_bit: 0xff,
        enable_offset: 5,
        enable_bit: 0,
        refcount_idx_or_0xff: 0xff,
        stop_mode: StopMode::Stop2,
    };

    fn clock_active() -> bool {
        true
    }

    fn frequency() -> Hertz {
        Hertz(8_000_000)
    }

    fn bus_frequency() -> Hertz {
        Hertz(8_000_000)
    }
}

fn counts(low_power: bool) -> Rcc {
    Rcc { refcounts: vec![0, 0, 0], low_power, refcount_stop1: 0, refcount_stop2: 0 }
}

fn enable_and_reset<T: RccPeripheral>(rcc: &mut Rcc) -> Vec<RccOp> {
    let mut accesses = Vec::new();
    rcc::enable_and_reset::<T>(rcc, |_cs, ops| accesses = ops);
    accesses
}

fn disable<T: RccPeripheral>(rcc: &mut Rcc) -> Vec<RccOp> {
    let mut accesses = Vec::new();
    rcc::disable::<T>(rcc, |_cs, ops| accesses = ops);
    accesses
}

fn perform(words: &mut [u32], ops: &[RccOp]) {
    for op in ops {
        match *op {
            RccOp::SetBit { offset, .. } | RccOp::ClearBit { offset, .. } | RccOp::Read { offset } => {
                words[offset as usize] = op.apply(words[offset as usize]);
            }
            RccOp::Barrier => {}
        }
    }
}

#[test]
fn enable_sets_and_clears_bits_in_order() {
    let mut rcc = counts(false);
    let ops = enable_and_reset::<Shared>(&mut rcc);
    assert_eq!(
        ops,
        vec![
            RccOp::SetBit { offset: 4, bit: 23 },
            RccOp::SetBit { offset: 7, bit: 22 },
            RccOp::Read { offset: 7 },
            RccOp::Barrier,
            RccOp::ClearBit { offset: 4, bit: 23 },
        ]
    );
    assert_eq!(rcc.refcounts, vec![0, 1, 0]);
    assert_eq!(rcc.refcount_stop1, 0);
}

#[test]
fn enable_without_reset_bit() {
    let mut rcc = counts(true);
    let ops = enable_and_reset::<Own>(&mut rcc);
    assert_eq!(
        ops,
        vec![RccOp::SetBit { offset: 5, bit: 0 }, RccOp::Read { offset: 5 }, RccOp::Barrier]
    );
    assert_eq!(rcc.refcounts, vec![0, 0, 0]);
    assert_eq!(rcc.refcount_stop2, 1);
    assert_eq!(rcc.refcount_stop1, 0);
}

#[test]
fn unshared_peripheral_is_enabled_each_time() {
    let mut rcc = counts(false);
    assert_eq!(enable_and_reset::<Own>(&mut rcc).len(), 3);
    assert_eq!(enable_and_reset::<Own>(&mut rcc).len(), 3);
    assert_eq!(disable::<Own>(&mut rcc), vec![RccOp::ClearBit { offset: 5, bit: 0 }]);
}

#[test]
fn shared_peripheral_is_powered_while_used() {
    let mut rcc = counts(true);
    let mut words = [0u32; 16];
    words[7] = 0x8000_0001;
    perform(&mut words, &enable_and_reset::<Shared>(&mut rcc));
    assert_eq!(words[7], 0x8040_0001);
    assert_eq!(words[4], 0);
    assert_eq!(rcc.refcount_stop1, 1);
    assert!(enable_and_reset::<Shared>(&mut rcc).is_empty());
    assert_eq!(rcc.refcounts[1], 2);
    assert_eq!(rcc.refcount_stop1, 1);
    assert!(disable::<Shared>(&mut rcc).is_empty());
    assert_eq!(words[7], 0x8040_0001);
    perform(&mut words, &disable::<Shared>(&mut rcc));
    assert_eq!(words[7], 0x8000_0001);
    assert_eq!(rcc.refcounts, vec![0, 0, 0]);
    assert_eq!(rcc.refcount_stop1, 0);
}

#[test]
fn with_cs_appends_accesses() {
    let mut rcc = counts(false);
    let mut ops = vec![RccOp::Barrier];
    critical_section::with(|cs| rcc::enable_and_reset_with_cs::<Own>(cs, &mut rcc, &mut ops));
    assert_eq!(ops.len(), 4);
    critical_section::with(|cs| rcc::disable_with_cs::<Own>(cs, &mut rcc, &mut ops));
    assert_eq!(ops[4], RccOp::ClearBit { offset: 5, bit: 0 });
}

#[test]
fn accesses_are_performed_once_under_a_token() {
    let mut rcc = counts(false);
    let mut words = [0u32; 16];
    let mut calls = 0;
    for _ in 0..2 {
        rcc::enable_and_reset::<Shared>(&mut rcc, |cs: CriticalSection<'_>, ops| {
            // the token can be used to reach what only critical sections may
            let guarded = critical_section::Mutex::new(7);
            assert_eq!(*guarded.borrow(cs), 7);
            calls += 1;
            perform(&mut words, &ops);
        });
    }
    assert_eq!(calls, 2);
    assert_eq!(words[7], 1 << 22);
}

#[test]
fn count_limits() {
    let mut rcc = counts(true);
    assert!(rcc.can_enable(&Shared::RCC_INFO));
    assert!(!rcc.can_disable(&Shared::RCC_INFO));
    rcc.refcounts[1] = 255;
    assert!(!rcc.can_enable(&Shared::RCC_INFO));
    assert!(rcc.can_disable(&Shared::RCC_INFO));
    rcc.refcounts = vec![0];
    assert!(!rcc.can_enable(&Shared::RCC_INFO));
    assert!(!rcc.can_disable(&Own::RCC_INFO));
    rcc.refcount_stop2 = u32::MAX;
    assert!(!rcc.can_enable(&Own::RCC_INFO));
    assert!(rcc.can_disable(&Own::RCC_INFO));
}

#[test]
fn info_encodes_what_is_missing() {
    let info = RccInfo::new(Some((4, 23)), (7, 22), Some(1), StopMode::Stop1);
    assert_eq!(info, Shared::RCC_INFO);
    let info = RccInfo::new(None, (5, 0), None, StopMode::Stop2);
    assert_eq!(info, Own::RCC_INFO);
}

#[test]
fn standby_is_not_counted() {
    let info = RccInfo::new(None, (5, 3), None, StopMode::Standby);
    let mut rcc = counts(true);
    let mut accesses = Vec::new();
    info.enable_and_reset(&mut rcc, |_cs, ops| accesses = ops);
    assert_eq!(accesses[0], RccOp::SetBit { offset: 5, bit: 3 });
    assert_eq!((rcc.refcount_stop1, rcc.refcount_stop2), (0, 0));
    info.disable(&mut rcc, |_cs, ops| accesses = ops);
    assert_eq!(accesses, vec![RccOp::ClearBit { offset: 5, bit: 3 }]);
}

#[test]
fn apply_touches_one_bit() {
    assert_eq!(RccOp::SetBit { offset: 0, bit: 31 }.apply(1), 0x8000_0001);
    assert_eq!(RccOp::ClearBit { offset: 0, bit: 0 }.apply(3), 2);
    assert_eq!(RccOp::Read { offset: 0 }.apply(3), 3);
    assert_eq!(RccOp::Barrier.apply(3), 3);
}

#[test]
fn reinit_forgets_stop_modes_last() {
    let log = RefCell::new(Vec::new());
    let mut rcc = Rcc { refcounts: vec![2, 0, 0], low_power: true, refcount_stop1: 3, refcount_stop2: 4 };
    let init = |config: &str, mut counts: Rcc| {
        log.borrow_mut().push(format!("init {} {}", config, counts.refcount_stop2));
        enable_and_reset::<Own>(&mut counts);
        counts
    };
    let start = |cs: CriticalSection<'_>, mut counts: Rcc| {
        log.borrow_mut().push(format!("start {}", counts.refcount_stop2));
        rcc::enable_and_reset_with_cs::<Shared>(cs, &mut counts, &mut Vec::new());
        counts
    };
    rcc::reinit("config", init, Some(start), &mut rcc);
    assert_eq!(log.into_inner(), vec!["init config 4", "start 5"]);
    // what either action counted is forgotten too
    assert_eq!((rcc.refcount_stop1, rcc.refcount_stop2), (0, 0));
    assert_eq!(rcc.refcounts, vec![2, 1, 0]);
    assert!(rcc.low_power);
}

#[test]
fn reinit_without_stop_modes_or_time_driver() {
    let started = RefCell::new(false);
    let mut rcc = Rcc { refcounts: vec![2], low_power: false, refcount_stop1: 3, refcount_stop2: 4 };
    let init = |config: u8, mut counts: Rcc| {
        counts.refcounts[0] += config;
        counts
    };
    let start = |_cs: CriticalSection<'_>, counts: Rcc| {
        *started.borrow_mut() = true;
        counts
    };
    rcc::reinit(7u8, init, false.then_some(start), &mut rcc);
    assert!(!started.into_inner());
    assert_eq!((rcc.refcount_stop1, rcc.refcount_stop2), (3, 4));
    assert_eq!(rcc.refcounts, vec![9]);
}

#[test]
fn init_rcc_inside_a_critical_section() {
    let mut rcc = Rcc { refcounts: vec![], low_power: true, refcount_stop1: 1, refcount_stop2: 1 };
    let init = |_config: (), counts: Rcc| counts;
    let start = |_cs: CriticalSection<'_>, mut counts: Rcc| {
        counts.refcount_stop1 = 9;
        counts
    };
    critical_section::with(|cs| rcc::init_rcc(cs, (), init, Some(start), &mut rcc));
    assert_eq!((rcc.refcount_stop1, rcc.refcount_stop2), (0, 0));
}

#[test]
fn uses_are_counted() {
    let mut rcc = counts(true);
    let mut words = [0u32; 16];
    let mut users = 0u8;
    for enable in [true, true, false, true, false, false] {
        let ops = if enable {
            users += 1;
            enable_and_reset::<Shared>(&mut rcc)
        } else {
            users -= 1;
            disable::<Shared>(&mut rcc)
        };
        perform(&mut words, &ops);
        assert_eq!(rcc.refcounts, vec![0, users, 0]);
        assert_eq!(words[7] & (1 << 22) != 0, users > 0);
        assert_eq!(rcc.refcount_stop1, if users > 0 { 1 } else { 0 });
    }
    assert_eq!(users, 0);
}

#[test]
fn clock_frequencies_are_kept() {
    let mut freqs = ClockFreqs::new();
    freqs.set_freqs((Hertz(1), Hertz(2)));
    assert_eq!(*rcc::clocks(&freqs), (Hertz(1), Hertz(2)));
    freqs.set_freqs((Hertz(3), Hertz(4)));
    assert_eq!(*freqs.get_freqs(), (Hertz(3), Hertz(4)));
}

#[test]
fn frequency_is_that_of_the_peripheral() {
    assert_eq!(rcc::frequency::<Shared>(), Hertz(48_000_000));
    assert_eq!(rcc::frequency::<Own>(), Hertz(8_000_000));
    assert_eq!(Shared::bus_frequency(), Hertz(24_000_000));
}

#[test]
fn pclk_undivided() {
    assert_eq!(util::calc_pclk(Hertz(48_000_000), 1u32), (Hertz(48_000_000), Hertz(48_000_000)));
}

#[test]
fn pclk_divided() {
    assert_eq!(util::calc_pclk(Hertz(48_000_000), 2u32), (Hertz(24_000_000), Hertz(48_000_000)));
    assert_eq!(util::calc_pclk(Hertz(48_000_000), 4u32), (Hertz(12_000_000), Hertz(24_000_000)));
    assert_eq!(util::calc_pclk(Hertz(7), 2u32), (Hertz(3), Hertz(6)));
}

#[test]
fn all_equal_cases() {
    assert!(util::all_equal(Vec::<u32>::new().into_iter()));
    assert!(util::all_equal([5u32].into_iter()));
    assert!(util::all_equal([5u32, 5, 5].into_iter()));
    assert!(!util::all_equal([5u32, 5, 6].into_iter()));
    assert!(!util::all_equal([4u32, 5, 5].into_iter()));
}

#[test]
fn get_equal_cases() {
    assert_eq!(util::get_equal(Vec::<u32>::new().into_iter()), Ok(None));
    assert_eq!(util::get_equal([5u32].into_iter()), Ok(Some(5)));
    assert_eq!(util::get_equal([5u32, 5].into_iter()), Ok(Some(5)));
    assert_eq!(util::get_equal([5u32, 6].into_iter()), Err(()));
}
