//! Reset and clock control: switching peripherals on and off.
//!
//! The clock control registers are 32-bit words, named by their offset in words from the start
//! of the register block.

use vstd::prelude::*;
use critical_section::CriticalSection;
use crate::time::Hertz;

verus! {

/// Token that shows that the code runs inside a critical section.
#[verifier::external_type_specification]
#[verifier::external_body]
pub struct ExCriticalSection<'cs>(critical_section::CriticalSection<'cs>);

/// `critical_section::with` calls the closure once, with a token, and returns what it returned.
pub assume_specification<R>[ critical_section::with::<R> ](f: impl FnOnce(CriticalSection) -> R) -> (r: R)
    requires
        forall|cs: CriticalSection| call_requires(f, (cs,)),
    ensures
        exists|cs: CriticalSection| call_ensures(f, (cs,), r),
;

/// Deepest stop mode that a running peripheral leaves open.
#[derive(Clone, Copy, PartialEq, Eq, Structural, Debug)]
pub enum StopMode {
    Standby,
    Stop2,
    Stop1,
}

/// One access to the clock control registers.
///
/// Functions list the accesses they ask for; whoever holds the registers performs them in that
/// order.
#[derive(Clone, Copy, PartialEq, Eq, Structural, Debug)]
pub enum RccOp {
    /// Read the word at this offset, set this bit, write it back.
    SetBit { offset: u8, bit: u8 },
    /// Read the word at this offset, clear this bit, write it back.
    ClearBit { offset: u8, bit: u8 },
    /// Read the word at this offset and drop it.
    Read { offset: u8 },
    /// Wait until all memory accesses are done.
    Barrier,
}

impl RccOp {
    /// The offset of the word that is accessed, if any.
    pub open spec fn target(self) -> Option<u8> {
        match self {
            RccOp::SetBit { offset, .. } | RccOp::ClearBit { offset, .. } | RccOp::Read { offset } => Some(offset),
            RccOp::Barrier => None,
        }
    }

    /// Whether the bit is inside a word.
    pub open spec fn wf(self) -> bool {
        match self {
            RccOp::SetBit { bit, .. } | RccOp::ClearBit { bit, .. } => bit < 32,
            RccOp::Read { .. } | RccOp::Barrier => true,
        }
    }

    /// The word after the access.
    pub open spec fn spec_apply(self, val: u32) -> u32 {
        match self {
            RccOp::SetBit { bit, .. } => val | (1u32 << bit),
            RccOp::ClearBit { bit, .. } => val & !(1u32 << bit),
            RccOp::Read { .. } | RccOp::Barrier => val,
        }
    }

    /// The word to write back when `val` was read.
    pub fn apply(self, val: u32) -> (r: u32)
        requires
            self.wf(),
        ensures
            r == self.spec_apply(val),
    {
        match self {
            RccOp::SetBit { bit, .. } => val | 1u32 << bit,
            RccOp::ClearBit { bit, .. } => val & !(1u32 << bit),
            RccOp::Read { .. } | RccOp::Barrier => val,
        }
    }
}

/// Whether `perform` can be called with this list of accesses under any token.
pub open spec fn can_perform<F>(perform: F, ops: Seq<RccOp>) -> bool where F: FnOnce(CriticalSection, Vec<RccOp>) {
    forall|cs: CriticalSection, list: Vec<RccOp>| list@ == ops ==> #[trigger] call_requires(perform, (cs, list))
}

/// Whether `perform` was called with this list of accesses under the token of a critical section.
pub open spec fn performed<F>(perform: F, ops: Seq<RccOp>) -> bool where F: FnOnce(CriticalSection, Vec<RccOp>) {
    exists|cs: CriticalSection, list: Vec<RccOp>| list@ == ops && #[trigger] call_ensures(perform, (cs, list), ())
}

/// How many users each shared peripheral and each stop mode has.
pub struct Rcc {
    /// Users of the peripherals that share their bits with others.
    pub refcounts: Vec<u8>,
    /// Whether the stop modes are counted.
    pub low_power: bool,
    /// Running peripherals that leave at most stop mode 1 open.
    pub refcount_stop1: u32,
    /// Running peripherals that leave at most stop mode 2 open.
    pub refcount_stop2: u32,
}

/// The counts of an `Rcc`.
#[verifier::ext_equal]
pub ghost struct RccView {
    pub refcounts: Seq<u8>,
    pub low_power: bool,
    pub refcount_stop1: nat,
    pub refcount_stop2: nat,
}

impl View for Rcc {
    type V = RccView;

    open spec fn view(&self) -> RccView {
        RccView {
            refcounts: self.refcounts@,
            low_power: self.low_power,
            refcount_stop1: self.refcount_stop1 as nat,
            refcount_stop2: self.refcount_stop2 as nat,
        }
    }
}

impl RccView {
    /// The counts with `d` more running peripherals of this stop mode.
    pub open spec fn count_stop(self, mode: StopMode, d: int) -> RccView {
        if !self.low_power {
            self
        } else {
            match mode {
                StopMode::Standby => self,
                StopMode::Stop2 => RccView { refcount_stop2: (self.refcount_stop2 + d) as nat, ..self },
                StopMode::Stop1 => RccView { refcount_stop1: (self.refcount_stop1 + d) as nat, ..self },
            }
        }
    }

    /// The counts with `d` more users of a shared peripheral.
    pub open spec fn count_users(self, idx: int, d: int) -> RccView {
        RccView { refcounts: self.refcounts.update(idx, (self.refcounts[idx] + d) as u8), ..self }
    }
}

/// What it takes to reset, enable and disable a peripheral.
#[derive(Clone, Copy, PartialEq, Eq, Structural, Debug)]
pub struct RccInfo {
    /// Offset of the reset register, or 0xff if the peripheral has no reset bit.
    pub reset_offset_or_0xff: u8,
    /// Position of the reset bit.
    pub reset_bit: u8,
    /// Offset of the enable register.
    pub enable_offset: u8,
    /// Position of the enable bit.
    pub enable_bit: u8,
    /// Index of the user count if the bits are shared with other peripherals, else 0xff.
    pub refcount_idx_or_0xff: u8,
    /// Deepest stop mode that the running peripheral leaves open.
    pub stop_mode: StopMode,
}

impl RccInfo {
    /// Offset and position of the reset bit, if there is one.
    pub open spec fn reset_location(self) -> Option<(u8, u8)> {
        if self.reset_offset_or_0xff == 0xff {
            None
        } else {
            Some((self.reset_offset_or_0xff, self.reset_bit))
        }
    }

    /// Index of the user count, if the bits are shared.
    pub open spec fn refcount_index(self) -> Option<int> {
        if self.refcount_idx_or_0xff == 0xff {
            None
        } else {
            Some(self.refcount_idx_or_0xff as int)
        }
    }

    /// Whether the bits are inside a word.
    pub open spec fn wf(self) -> bool {
        &&& self.enable_bit < 32
        &&& self.reset_location() matches Some((_, bit)) ==> bit < 32
    }

    /// Whether this is an enable that finds no other user.
    pub open spec fn is_first(self, v: RccView) -> bool {
        self.refcount_index() matches Some(idx) ==> v.refcounts[idx] == 0
    }

    /// Whether this is a disable that leaves no other user.
    pub open spec fn is_last(self, v: RccView) -> bool {
        self.refcount_index() matches Some(idx) ==> v.refcounts[idx] == 1
    }

    /// Whether one more user can be counted.
    pub open spec fn can_enable(self, v: RccView) -> bool {
        &&& self.refcount_index() matches Some(idx) ==> idx < v.refcounts.len() && v.refcounts[idx] < 0xff
        &&& self.is_first(v) ==> self.wf()
        &&& self.is_first(v) && v.low_power ==> match self.stop_mode {
            StopMode::Standby => true,
            StopMode::Stop2 => v.refcount_stop2 < u32::MAX,
            StopMode::Stop1 => v.refcount_stop1 < u32::MAX,
        }
    }

    /// Whether one user fewer can be counted.
    pub open spec fn can_disable(self, v: RccView) -> bool {
        &&& self.refcount_index() matches Some(idx) ==> idx < v.refcounts.len() && v.refcounts[idx] > 0
        &&& self.is_last(v) ==> self.enable_bit < 32
        &&& self.is_last(v) && v.low_power ==> match self.stop_mode {
            StopMode::Standby => true,
            StopMode::Stop2 => v.refcount_stop2 > 0,
            StopMode::Stop1 => v.refcount_stop1 > 0,
        }
    }

    /// The counts after an enable.
    pub open spec fn after_enable(self, v: RccView) -> RccView {
        let users = match self.refcount_index() {
            Some(idx) => v.count_users(idx, 1),
            None => v,
        };
        if self.is_first(v) {
            users.count_stop(self.stop_mode, 1)
        } else {
            users
        }
    }

    /// The counts after a disable.
    pub open spec fn after_disable(self, v: RccView) -> RccView {
        let users = match self.refcount_index() {
            Some(idx) => v.count_users(idx, -1),
            None => v,
        };
        if self.is_last(v) {
            users.count_stop(self.stop_mode, -1)
        } else {
            users
        }
    }

    /// The accesses that set the enable bit while the reset bit is held.
    pub open spec fn power_up(self) -> Seq<RccOp> {
        let clock = seq![
            RccOp::SetBit { offset: self.enable_offset, bit: self.enable_bit },
            RccOp::Read { offset: self.enable_offset },
            RccOp::Barrier,
        ];
        match self.reset_location() {
            Some((offset, bit)) => seq![RccOp::SetBit { offset, bit }] + clock + seq![RccOp::ClearBit { offset, bit }],
            None => clock,
        }
    }

    /// The accesses of an enable: none if the peripheral is in use already.
    pub open spec fn enable_ops(self, v: RccView) -> Seq<RccOp> {
        if self.is_first(v) {
            self.power_up()
        } else {
            seq![]
        }
    }

    /// The accesses of a disable: none if the peripheral stays in use.
    pub open spec fn disable_ops(self, v: RccView) -> Seq<RccOp> {
        if self.is_last(v) {
            seq![RccOp::ClearBit { offset: self.enable_offset, bit: self.enable_bit }]
        } else {
            seq![]
        }
    }

    /// Describes a peripheral.
    ///
    /// `reset_offset_and_bit`, if set, is the place of its reset bit, `enable_offset_and_bit` the
    /// place of its enable bit, and `refcount_idx`, if set, the index of its user count.
    pub fn new(
        reset_offset_and_bit: Option<(u8, u8)>,
        enable_offset_and_bit: (u8, u8),
        refcount_idx: Option<u8>,
        stop_mode: StopMode,
    ) -> (r: Self)
        ensures
            (r.reset_offset_or_0xff, r.reset_bit) == (match reset_offset_and_bit {
                Some(at) => at,
                None => (0xff, 0xff),
            }),
            (r.enable_offset, r.enable_bit) == enable_offset_and_bit,
            r.refcount_idx_or_0xff == (match refcount_idx {
                Some(idx) => idx,
                None => 0xff,
            }),
            r.stop_mode == stop_mode,
            !(reset_offset_and_bit matches Some((0xff, _))) ==> r.reset_location() == reset_offset_and_bit,
            refcount_idx != Some(0xffu8) ==> (r.refcount_index() matches Some(idx) ==> refcount_idx == Some(idx as u8)) && (
            r.refcount_index() is None ==> refcount_idx is None),
    {
        let (reset_offset_or_0xff, reset_bit): (u8, u8) = match reset_offset_and_bit {
            Some((offset, bit)) => (offset, bit),
            None => (0xff, 0xff),
        };
        let (enable_offset, enable_bit): (u8, u8) = enable_offset_and_bit;
        let refcount_idx_or_0xff: u8 = match refcount_idx {
            Some(idx) => idx,
            None => 0xff,
        };
        RccInfo { reset_offset_or_0xff, reset_bit, enable_offset, enable_bit, refcount_idx_or_0xff, stop_mode }
    }

    /// Counts one more user of the peripheral; the first one enables and resets it. The accesses
    /// listed belong inside the critical section of the token.
    pub fn enable_and_reset_with_cs(&self, _cs: CriticalSection, rcc: &mut Rcc, ops: &mut Vec<RccOp>)
        requires
            self.can_enable(old(rcc)@),
        ensures
            final(rcc)@ == self.after_enable(old(rcc)@),
            final(ops)@ == old(ops)@ + self.enable_ops(old(rcc)@),
    {
        if self.refcount_idx_or_0xff != 0xff {
            let refcount_idx: usize = self.refcount_idx_or_0xff as usize;
            let refcount: u8 = rcc.refcounts[refcount_idx] + 1;
            rcc.refcounts.set(refcount_idx, refcount);
            if refcount > 1 {
                return;
            }
        }
        if rcc.low_power {
            match self.stop_mode {
                StopMode::Standby => {},
                StopMode::Stop2 => {
                    rcc.refcount_stop2 = rcc.refcount_stop2 + 1;
                },
                StopMode::Stop1 => {
                    rcc.refcount_stop1 = rcc.refcount_stop1 + 1;
                },
            }
        }
        // set the reset bit
        let reset = self.reset_ptr();
        if let Some(offset) = reset {
            ops.push(RccOp::SetBit { offset, bit: self.reset_bit });
        }
        // set the enable bit
        let enable: u8 = self.enable_ptr();
        ops.push(RccOp::SetBit { offset: enable, bit: self.enable_bit });
        // two peripheral clock cycles have to pass before the clock is active: dummy read, barrier
        ops.push(RccOp::Read { offset: enable });
        ops.push(RccOp::Barrier);
        // clear the reset bit
        if let Some(offset) = reset {
            ops.push(RccOp::ClearBit { offset, bit: self.reset_bit });
        }
    }

    /// Counts one user of the peripheral fewer; the last one disables it. The accesses listed
    /// belong inside the critical section of the token.
    pub fn disable_with_cs(&self, _cs: CriticalSection, rcc: &mut Rcc, ops: &mut Vec<RccOp>)
        requires
            self.can_disable(old(rcc)@),
        ensures
            final(rcc)@ == self.after_disable(old(rcc)@),
            final(ops)@ == old(ops)@ + self.disable_ops(old(rcc)@),
    {
        if self.refcount_idx_or_0xff != 0xff {
            let refcount_idx: usize = self.refcount_idx_or_0xff as usize;
            let refcount: u8 = rcc.refcounts[refcount_idx] - 1;
            rcc.refcounts.set(refcount_idx, refcount);
            if refcount > 0 {
                return;
            }
        }
        if rcc.low_power {
            match self.stop_mode {
                StopMode::Standby => {},
                StopMode::Stop2 => {
                    rcc.refcount_stop2 = rcc.refcount_stop2 - 1;
                },
                StopMode::Stop1 => {
                    rcc.refcount_stop1 = rcc.refcount_stop1 - 1;
                },
            }
        }
        // clear the enable bit
        ops.push(RccOp::ClearBit { offset: self.enable_ptr(), bit: self.enable_bit });
    }

    /// Enables and resets the peripheral for one more user: the users are counted and the
    /// accesses that this takes are handed to `perform`, both inside one critical section.
    pub fn enable_and_reset(&self, rcc: &mut Rcc, perform: impl FnOnce(CriticalSection, Vec<RccOp>))
        requires
            self.can_enable(old(rcc)@),
            can_perform(perform, self.enable_ops(old(rcc)@)),
        ensures
            final(rcc)@ == self.after_enable(old(rcc)@),
            performed(perform, self.enable_ops(old(rcc)@)),
    {
        let info = *self;
        let taken = rcc.take();
        let section = move |cs: CriticalSection| -> (r: Rcc)
            requires
                info.can_enable(taken@) && can_perform(perform, info.enable_ops(taken@))
            ensures
                r@ == info.after_enable(taken@) && performed(perform, info.enable_ops(taken@))
        {
            let mut counts = taken;
            let mut ops: Vec<RccOp> = Vec::new();
            info.enable_and_reset_with_cs(cs, &mut counts, &mut ops);
            perform(cs, ops);
            counts
        };
        *rcc = critical_section::with(section);
    }

    /// Disables the peripheral for one user fewer: the users are counted and the
    /// accesses that this takes are handed to `perform`, both inside one critical section.
    pub fn disable(&self, rcc: &mut Rcc, perform: impl FnOnce(CriticalSection, Vec<RccOp>))
        requires
            self.can_disable(old(rcc)@),
            can_perform(perform, self.disable_ops(old(rcc)@)),
        ensures
            final(rcc)@ == self.after_disable(old(rcc)@),
            performed(perform, self.disable_ops(old(rcc)@)),
    {
        let info = *self;
        let taken = rcc.take();
        let section = move |cs: CriticalSection| -> (r: Rcc)
            requires
                info.can_disable(taken@) && can_perform(perform, info.disable_ops(taken@))
            ensures
                r@ == info.after_disable(taken@) && performed(perform, info.disable_ops(taken@))
        {
            let mut counts = taken;
            let mut ops: Vec<RccOp> = Vec::new();
            info.disable_with_cs(cs, &mut counts, &mut ops);
            perform(cs, ops);
            counts
        };
        *rcc = critical_section::with(section);
    }

    /// Offset of the reset register, if the peripheral has a reset bit.
    fn reset_ptr(&self) -> (r: Option<u8>)
        ensures
            r == (match self.reset_location() {
                Some((offset, _)) => Some(offset),
                None => None,
            }),
    {
        if self.reset_offset_or_0xff != 0xff {
            Some(self.reset_offset_or_0xff)
        } else {
            None
        }
    }

    /// Offset of the enable register.
    fn enable_ptr(&self) -> (r: u8)
        ensures
            r == self.enable_offset,
    {
        self.enable_offset
    }
}

impl Rcc {
    /// Whether one more user of a peripheral can be counted.
    pub fn can_enable(&self, info: &RccInfo) -> (r: bool)
        ensures
            r == info.can_enable(self@),
    {
        if info.refcount_idx_or_0xff != 0xff {
            let idx: usize = info.refcount_idx_or_0xff as usize;
            if idx >= self.refcounts.len() || self.refcounts[idx] == 0xff {
                return false;
            }
            if self.refcounts[idx] > 0 {
                return true;
            }
        }
        info.enable_bit < 32 && (info.reset_offset_or_0xff == 0xff || info.reset_bit < 32) && (!self.low_power
            || match info.stop_mode {
            StopMode::Standby => true,
            StopMode::Stop2 => self.refcount_stop2 < u32::MAX,
            StopMode::Stop1 => self.refcount_stop1 < u32::MAX,
        })
    }

    /// Whether one user of a peripheral fewer can be counted.
    pub fn can_disable(&self, info: &RccInfo) -> (r: bool)
        ensures
            r == info.can_disable(self@),
    {
        if info.refcount_idx_or_0xff != 0xff {
            let idx: usize = info.refcount_idx_or_0xff as usize;
            if idx >= self.refcounts.len() || self.refcounts[idx] == 0 {
                return false;
            }
            if self.refcounts[idx] > 1 {
                return true;
            }
        }
        info.enable_bit < 32 && (!self.low_power || match info.stop_mode {
            StopMode::Standby => true,
            StopMode::Stop2 => self.refcount_stop2 > 0,
            StopMode::Stop1 => self.refcount_stop1 > 0,
        })
    }

    /// Moves the counts out.
    fn take(&mut self) -> (r: Rcc)
        ensures
            r == *old(self),
    {
        let mut taken = Rcc { refcounts: Vec::new(), low_power: false, refcount_stop1: 0, refcount_stop2: 0 };
        core::mem::swap(self, &mut taken);
        taken
    }
}

/// A peripheral that the clock control switches on and off.
pub trait RccPeripheral {
    /// What it takes to reset, enable and disable the peripheral.
    const RCC_INFO: RccInfo;

    /// Whether the kernel clock of the peripheral is active.
    spec fn clock_active() -> bool;

    /// Kernel clock frequency of the peripheral, whose clock has to be active.
    fn frequency() -> Hertz
        requires
            Self::clock_active(),
    ;

    /// Frequency of the bus the peripheral is on.
    fn bus_frequency() -> Hertz;
}

/// Kernel clock frequency of the peripheral `T`.
///
/// The clock has to be active.
pub fn frequency<T: RccPeripheral>() -> (r: Hertz)
    requires
        T::clock_active(),
    ensures
        call_ensures(T::frequency, (), r),
{
    T::frequency()
}

/// Enables and resets peripheral `T`. The accesses listed belong inside the critical section of the token.
///
/// The peripheral must not be in use.
pub fn enable_and_reset_with_cs<T: RccPeripheral>(cs: CriticalSection, rcc: &mut Rcc, ops: &mut Vec<RccOp>)
    requires
        T::RCC_INFO.can_enable(old(rcc)@),
    ensures
        final(rcc)@ == T::RCC_INFO.after_enable(old(rcc)@),
        final(ops)@ == old(ops)@ + T::RCC_INFO.enable_ops(old(rcc)@),
{
    T::RCC_INFO.enable_and_reset_with_cs(cs, rcc, ops);
}

/// Disables peripheral `T`. The accesses listed belong inside the critical section of the token.
///
/// The peripheral must not be in use.
pub fn disable_with_cs<T: RccPeripheral>(cs: CriticalSection, rcc: &mut Rcc, ops: &mut Vec<RccOp>)
    requires
        T::RCC_INFO.can_disable(old(rcc)@),
    ensures
        final(rcc)@ == T::RCC_INFO.after_disable(old(rcc)@),
        final(ops)@ == old(ops)@ + T::RCC_INFO.disable_ops(old(rcc)@),
{
    T::RCC_INFO.disable_with_cs(cs, rcc, ops);
}

/// Enables and resets peripheral `T`. The accesses that this takes are handed to `perform` inside the
/// critical section in which the users are counted.
///
/// The peripheral must not be in use.
pub fn enable_and_reset<T: RccPeripheral>(rcc: &mut Rcc, perform: impl FnOnce(CriticalSection, Vec<RccOp>))
    requires
        T::RCC_INFO.can_enable(old(rcc)@),
        can_perform(perform, T::RCC_INFO.enable_ops(old(rcc)@)),
    ensures
        final(rcc)@ == T::RCC_INFO.after_enable(old(rcc)@),
        performed(perform, T::RCC_INFO.enable_ops(old(rcc)@)),
{
    T::RCC_INFO.enable_and_reset(rcc, perform)
}

/// Disables peripheral `T`. The accesses that this takes are handed to `perform` inside the
/// critical section in which the users are counted.
///
/// The peripheral must not be in use.
pub fn disable<T: RccPeripheral>(rcc: &mut Rcc, perform: impl FnOnce(CriticalSection, Vec<RccOp>))
    requires
        T::RCC_INFO.can_disable(old(rcc)@),
        can_perform(perform, T::RCC_INFO.disable_ops(old(rcc)@)),
    ensures
        final(rcc)@ == T::RCC_INFO.after_disable(old(rcc)@),
        performed(perform, T::RCC_INFO.disable_ops(old(rcc)@)),
{
    T::RCC_INFO.disable(rcc, perform)
}

impl RccView {
    /// The counts with no stop mode in use, if stop modes are counted.
    pub open spec fn forget_stop_modes(self, low_power: bool) -> RccView {
        if low_power {
            RccView { refcount_stop1: 0, refcount_stop2: 0, ..self }
        } else {
            self
        }
    }
}

/// Whether `init`, given the configuration and the counts `before`, can leave the counts
/// `configured`, and the start of the time driver, given those, the counts `started`. Without a
/// time driver nothing happens in between.
pub open spec fn init_steps<C, F, G>(
    config: C,
    init: F,
    time_driver: Option<G>,
    cs: CriticalSection,
    before: Rcc,
    configured: Rcc,
    started: Rcc,
) -> bool where F: FnOnce(C, Rcc) -> Rcc, G: FnOnce(CriticalSection, Rcc) -> Rcc {
    &&& call_ensures(init, (config, before), configured)
    &&& match time_driver {
        Some(start) => call_ensures(start, (cs, configured), started),
        None => started == configured,
    }
}

/// Whether `init` can be called with the configuration and the counts `before`, and the start of
/// the time driver with whatever counts `init` leaves.
pub open spec fn can_init<C, F, G>(
    config: C,
    init: F,
    time_driver: Option<G>,
    cs: CriticalSection,
    before: Rcc,
) -> bool where F: FnOnce(C, Rcc) -> Rcc, G: FnOnce(CriticalSection, Rcc) -> Rcc {
    &&& call_requires(init, (config, before))
    &&& time_driver matches Some(start) ==> forall|configured: Rcc|
        call_ensures(init, (config, before), configured) ==> #[trigger] call_requires(start, (cs, configured))
}

/// Applies a clock configuration with `init`, starts the time driver after that, if there is one,
/// and in the end forgets which stop modes are in use. Both actions may count users; they are
/// handed the counts and hand them back.
pub fn init_rcc<C, F, G>(cs: CriticalSection, config: C, init: F, time_driver: Option<G>, rcc: &mut Rcc) where
    F: FnOnce(C, Rcc) -> Rcc,
    G: FnOnce(CriticalSection, Rcc) -> Rcc,

    requires
        can_init(config, init, time_driver, cs, *old(rcc)),
    ensures
        exists|configured: Rcc, started: Rcc|
            #[trigger] init_steps(config, init, time_driver, cs, *old(rcc), configured, started) && final(rcc)@
                == started@.forget_stop_modes(old(rcc).low_power),
{
    let ghost before = *rcc;
    let low_power = rcc.low_power;
    let mut counts = init(config, rcc.take());
    let ghost configured = counts;
    // must be after the clocks are configured
    if let Some(start) = time_driver {
        counts = start(cs, counts);
    }
    let ghost started = counts;
    if low_power {
        counts.refcount_stop2 = 0;
        counts.refcount_stop1 = 0;
    }
    *rcc = counts;
    assert(init_steps(config, init, time_driver, cs, before, configured, started));
}

/// Replaces the clock configuration: `init_rcc` inside a critical section.
///
/// This is useful when the clock has to change after peripherals were configured, for instance
/// because an external clock is configured over a bus. Only the clock control and the time
/// driver are configured anew.
pub fn reinit<C, F, G>(config: C, init: F, time_driver: Option<G>, rcc: &mut Rcc) where
    F: FnOnce(C, Rcc) -> Rcc,
    G: FnOnce(CriticalSection, Rcc) -> Rcc,

    requires
        forall|cs: CriticalSection| #[trigger] can_init(config, init, time_driver, cs, *old(rcc)),
    ensures
        exists|cs: CriticalSection, configured: Rcc, started: Rcc|
            #[trigger] init_steps(config, init, time_driver, cs, *old(rcc), configured, started) && final(rcc)@
                == started@.forget_stop_modes(old(rcc).low_power),
{
    let taken = rcc.take();
    let section = move |cs: CriticalSection| -> (r: Rcc)
        requires
            can_init(config, init, time_driver, cs, taken)
        ensures
            exists|configured: Rcc, started: Rcc|
                #[trigger] init_steps(config, init, time_driver, cs, taken, configured, started) && r@
                    == started@.forget_stop_modes(taken.low_power)
    {
        let mut counts = taken;
        init_rcc(cs, config, init, time_driver, &mut counts);
        counts
    };
    *rcc = critical_section::with(section);
}

/// The clock frequencies in force, once the clocks are configured.
pub struct ClockFreqs<C> {
    freqs: Option<C>,
}

impl<C> View for ClockFreqs<C> {
    type V = Option<C>;

    closed spec fn view(&self) -> Option<C> {
        self.freqs
    }
}

impl<C> ClockFreqs<C> {
    /// No clocks are configured yet.
    pub fn new() -> (r: Self)
        ensures
            r@ is None,
    {
        ClockFreqs { freqs: None }
    }

    /// Sets the clock frequencies.
    pub fn set_freqs(&mut self, freqs: C)
        ensures
            final(self)@ == Some(freqs),
    {
        self.freqs = Some(freqs);
    }

    /// The clock frequencies. The clocks have to be configured.
    pub fn get_freqs(&self) -> (r: &C)
        requires
            self@ is Some,
        ensures
            Some(*r) == self@,
    {
        self.freqs.as_ref().unwrap()
    }
}

/// The current clock frequencies of the chip. The clocks have to be configured.
pub fn clocks<C>(freqs: &ClockFreqs<C>) -> (r: &C)
    requires
        freqs@ is Some,
    ensures
        Some(*r) == freqs@,
{
    freqs.get_freqs()
}

/// The clock control registers after a list of accesses.
pub open spec fn run(words: Seq<u32>, ops: Seq<RccOp>) -> Seq<u32>
    decreases ops.len(),
{
    if ops.len() == 0 {
        words
    } else {
        let before = run(words, ops.drop_last());
        match ops.last().target() {
            Some(offset) => before.update(offset as int, ops.last().spec_apply(before[offset as int])),
            None => before,
        }
    }
}

/// Whether the word at this offset has this bit set.
pub open spec fn is_set(words: Seq<u32>, offset: u8, bit: u8) -> bool {
    crate::regs::bit(words[offset as int], bit as u32)
}

proof fn lemma_set_bit(val: u32, b: u8, k: u8)
    requires
        b < 32,
        k < 32,
    ensures
        crate::regs::bit(val | (1u32 << b), k as u32) == (k == b || crate::regs::bit(val, k as u32)),
        crate::regs::bit(val & !(1u32 << b), k as u32) == (k != b && crate::regs::bit(val, k as u32)),
{
    assert((((val | (1u32 << b)) >> (k as u32)) & 1 != 0) == (k == b || (val >> (k as u32)) & 1 != 0)) by (bit_vector)
        requires
            b < 32,
            k < 32,
    ;
    assert((((val & !(1u32 << b)) >> (k as u32)) & 1 != 0) == (k != b && (val >> (k as u32)) & 1 != 0)) by (bit_vector)
        requires
            b < 32,
            k < 32,
    ;
}

proof fn lemma_run_push(words: Seq<u32>, ops: Seq<RccOp>, op: RccOp)
    ensures
        run(words, ops.push(op)) == (match op.target() {
            Some(offset) => run(words, ops).update(offset as int, op.spec_apply(run(words, ops)[offset as int])),
            None => run(words, ops),
        }),
{
    assert(ops.push(op).drop_last() =~= ops);
}

impl RccInfo {
    /// Whether the registers are there and the enable bit and the reset bit are not the same.
    pub open spec fn fits(self, words: Seq<u32>) -> bool {
        &&& self.wf()
        &&& self.enable_offset < words.len()
        &&& self.reset_location() matches Some((offset, bit)) ==> {
            &&& offset < words.len()
            &&& (offset, bit) != (self.enable_offset, self.enable_bit)
        }
    }

    /// Powering a peripheral up leaves its enable bit set and its reset bit clear, and every
    /// other bit of the clock control registers as it was.
    pub proof fn law_power_up(self, words: Seq<u32>, offset: u8, bit: u8)
        requires
            self.fits(words),
            offset < words.len(),
            bit < 32,
        ensures
            run(words, self.power_up()).len() == words.len(),
            is_set(run(words, self.power_up()), offset, bit) == (if (offset, bit) == (
                self.enable_offset,
                self.enable_bit,
            ) {
                true
            } else if self.reset_location() == Some((offset, bit)) {
                false
            } else {
                is_set(words, offset, bit)
            }),
    {
        let en = RccOp::SetBit { offset: self.enable_offset, bit: self.enable_bit };
        let rd = RccOp::Read { offset: self.enable_offset };
        let none: Seq<RccOp> = seq![];
        assert(run(words, none) == words);
        match self.reset_location() {
            Some((r_offset, r_bit)) => {
                let rs = RccOp::SetBit { offset: r_offset, bit: r_bit };
                let rc = RccOp::ClearBit { offset: r_offset, bit: r_bit };
                let s1 = none.push(rs);
                let s2 = s1.push(en);
                let s3 = s2.push(rd);
                let s4 = s3.push(RccOp::Barrier);
                let s5 = s4.push(rc);
                assert(self.power_up() =~= s5);
                lemma_run_push(words, none, rs);
                lemma_run_push(words, s1, en);
                lemma_run_push(words, s2, rd);
                lemma_run_push(words, s3, RccOp::Barrier);
                lemma_run_push(words, s4, rc);
                let w0 = words[offset as int];
                lemma_set_bit(w0, r_bit, bit);
                let w1 = run(words, s1)[offset as int];
                lemma_set_bit(w1, self.enable_bit, bit);
                let w4 = run(words, s4)[offset as int];
                lemma_set_bit(w4, r_bit, bit);
            },
            None => {
                let s1 = none.push(en);
                let s2 = s1.push(rd);
                let s3 = s2.push(RccOp::Barrier);
                assert(self.power_up() =~= s3);
                lemma_run_push(words, none, en);
                lemma_run_push(words, s1, rd);
                lemma_run_push(words, s2, RccOp::Barrier);
                lemma_set_bit(words[offset as int], self.enable_bit, bit);
            },
        }
    }

    /// Disabling a peripheral whose last user it is clears its enable bit and leaves every other
    /// bit of the clock control registers as it was; with users left it leaves all of them.
    pub proof fn law_disable(self, v: RccView, words: Seq<u32>, offset: u8, bit: u8)
        requires
            self.fits(words),
            offset < words.len(),
            bit < 32,
        ensures
            run(words, self.disable_ops(v)).len() == words.len(),
            is_set(run(words, self.disable_ops(v)), offset, bit) == (is_set(words, offset, bit) && !(self.is_last(v) && (
                offset,
                bit,
            ) == (self.enable_offset, self.enable_bit))),
    {
        let none: Seq<RccOp> = seq![];
        let off = RccOp::ClearBit { offset: self.enable_offset, bit: self.enable_bit };
        assert(run(words, none) == words);
        if self.is_last(v) {
            assert(self.disable_ops(v) =~= none.push(off));
            lemma_run_push(words, none, off);
            lemma_set_bit(words[offset as int], self.enable_bit, bit);
        } else {
            assert(self.disable_ops(v) =~= none);
        }
    }

    /// A disable is always possible after an enable and restores all counts. If the peripheral
    /// was in use before, neither touches a register.
    pub proof fn law_disable_undoes_enable(self, v: RccView)
        requires
            self.can_enable(v),
        ensures
            self.can_disable(self.after_enable(v)),
            self.after_disable(self.after_enable(v)) == v,
            self.is_last(self.after_enable(v)) == self.is_first(v),
            !self.is_first(v) ==> self.enable_ops(v).len() == 0 && self.disable_ops(self.after_enable(v)).len() == 0,
    {
        assert(self.after_disable(self.after_enable(v)) =~= v);
    }

    /// Whether the enable bit of a shared peripheral is set exactly while it has users.
    pub open spec fn powered_while_used(self, v: RccView, words: Seq<u32>) -> bool {
        self.refcount_index() matches Some(idx) ==> is_set(words, self.enable_offset, self.enable_bit) == (
        v.refcounts[idx] > 0)
    }

    /// Enabling and disabling keep the enable bit of a shared peripheral set exactly while it has
    /// users.
    pub proof fn law_powered_while_used(self, v: RccView, words: Seq<u32>)
        requires
            self.fits(words),
            self.powered_while_used(v, words),
        ensures
            self.can_enable(v) ==> self.powered_while_used(self.after_enable(v), run(words, self.enable_ops(v))),
            self.can_disable(v) ==> self.powered_while_used(self.after_disable(v), run(words, self.disable_ops(v))),
    {
        let none: Seq<RccOp> = seq![];
        assert(run(words, none) == words);
        self.law_power_up(words, self.enable_offset, self.enable_bit);
        self.law_disable(v, words, self.enable_offset, self.enable_bit);
        if !self.is_first(v) {
            assert(self.enable_ops(v) =~= none);
        }
    }

    /// Whether each of a list of enables (`true`) and disables (`false`) is possible when its turn
    /// comes.
    pub open spec fn can_use_all(self, v: RccView, uses: Seq<bool>) -> bool
        decreases uses.len(),
    {
        uses.len() == 0 || {
            let before = self.counts_after(v, uses.drop_last());
            &&& self.can_use_all(v, uses.drop_last())
            &&& if uses.last() {
                self.can_enable(before)
            } else {
                self.can_disable(before)
            }
        }
    }

    /// The counts after a list of enables and disables.
    pub open spec fn counts_after(self, v: RccView, uses: Seq<bool>) -> RccView
        decreases uses.len(),
    {
        if uses.len() == 0 {
            v
        } else {
            let before = self.counts_after(v, uses.drop_last());
            if uses.last() {
                self.after_enable(before)
            } else {
                self.after_disable(before)
            }
        }
    }

    /// The clock control registers after a list of enables and disables.
    pub open spec fn words_after(self, v: RccView, words: Seq<u32>, uses: Seq<bool>) -> Seq<u32>
        decreases uses.len(),
    {
        if uses.len() == 0 {
            words
        } else {
            let counts = self.counts_after(v, uses.drop_last());
            let before = self.words_after(v, words, uses.drop_last());
            run(
                before,
                if uses.last() {
                    self.enable_ops(counts)
                } else {
                    self.disable_ops(counts)
                },
            )
        }
    }

    /// After any list of enables and disables of a peripheral, the number of its users has grown
    /// by the enables less the disables, if its bits are shared, and its enable bit is set exactly
    /// if it has users, given that this held before. After as many disables as enables all counts
    /// are as before.
    pub proof fn law_uses_are_counted(self, v: RccView, words: Seq<u32>, uses: Seq<bool>)
        requires
            self.can_use_all(v, uses),
            self.fits(words),
            self.powered_while_used(v, words),
        ensures
            self.refcount_index() matches Some(idx) ==> {
                let users = self.counts_after(v, uses).refcounts[idx];
                &&& users == v.refcounts[idx] + enables(uses) - (uses.len() - enables(uses))
                &&& is_set(self.words_after(v, words, uses), self.enable_offset, self.enable_bit) == (users > 0)
            },
            enables(uses) == uses.len() - enables(uses) ==> self.counts_after(v, uses) == v,
    {
        self.lemma_uses(v, words, uses);
        if enables(uses) == uses.len() - enables(uses) {
            assert(self.counts_after(v, uses) =~= v);
        }
    }

    /// By how much a list of enables and disables raises the count of the peripheral's stop mode.
    spec fn stop_growth(self, v: RccView, uses: Seq<bool>) -> int {
        match self.refcount_index() {
            Some(idx) => {
                let now = if self.counts_after(v, uses).refcounts[idx] > 0 {
                    1int
                } else {
                    0
                };
                let then = if v.refcounts[idx] > 0 {
                    1int
                } else {
                    0
                };
                now - then
            },
            None => 2 * enables(uses) - uses.len(),
        }
    }

    proof fn lemma_uses(self, v: RccView, words: Seq<u32>, uses: Seq<bool>)
        requires
            self.can_use_all(v, uses),
            self.fits(words),
            self.powered_while_used(v, words),
        ensures
            self.fits(self.words_after(v, words, uses)),
            self.powered_while_used(self.counts_after(v, uses), self.words_after(v, words, uses)),
            ({
                let after = self.counts_after(v, uses);
                let grown = self.stop_growth(v, uses);
                &&& after.low_power == v.low_power
                &&& after.refcounts.len() == v.refcounts.len()
                &&& forall|i: int|
                    0 <= i < v.refcounts.len() && self.refcount_index() != Some(i) ==> after.refcounts[i]
                        == v.refcounts[i]
                &&& self.refcount_index() matches Some(idx) ==> after.refcounts[idx] == v.refcounts[idx] + 2 * enables(
                    uses,
                ) - uses.len()
                &&& after.refcount_stop1 == v.refcount_stop1 + (if v.low_power && self.stop_mode == StopMode::Stop1 {
                    grown
                } else {
                    0
                })
                &&& after.refcount_stop2 == v.refcount_stop2 + (if v.low_power && self.stop_mode == StopMode::Stop2 {
                    grown
                } else {
                    0
                })
            }),
        decreases uses.len(),
    {
        if uses.len() > 0 {
            let rest = uses.drop_last();
            self.lemma_uses(v, words, rest);
            let counts = self.counts_after(v, rest);
            let before = self.words_after(v, words, rest);
            self.law_powered_while_used(counts, before);
            self.law_power_up(before, self.enable_offset, self.enable_bit);
            self.law_disable(counts, before, self.enable_offset, self.enable_bit);
        }
    }
}

/// Number of enables in a list of enables (`true`) and disables (`false`).
pub open spec fn enables(uses: Seq<bool>) -> int
    decreases uses.len(),
{
    if uses.len() == 0 {
        0
    } else {
        enables(uses.drop_last()) + (if uses.last() {
            1int
        } else {
            0
        })
    }
}

impl RccOp {
    /// Setting or clearing a bit does so and leaves every other bit of the word; the other accesses
    /// leave all of them.
    pub proof fn law_apply(self, val: u32, k: u8)
        requires
            self.wf(),
            k < 32,
        ensures
            crate::regs::bit(self.spec_apply(val), k as u32) == (match self {
                RccOp::SetBit { bit, .. } => k == bit || crate::regs::bit(val, k as u32),
                RccOp::ClearBit { bit, .. } => k != bit && crate::regs::bit(val, k as u32),
                RccOp::Read { .. } | RccOp::Barrier => crate::regs::bit(val, k as u32),
            }),
            self is Read || self is Barrier ==> self.spec_apply(val) == val,
    {
        match self {
            RccOp::SetBit { bit, .. } => lemma_set_bit(val, bit, k),
            RccOp::ClearBit { bit, .. } => lemma_set_bit(val, bit, k),
            _ => {},
        }
    }
}

impl RccInfo {
    /// Powering a peripheral up resets it. If it has a reset bit, that bit is set before anything
    /// else, and stays set until the enable bit is set, the enable register has been read and all
    /// accesses are done; only then is it cleared. Without a reset bit only the enable bit is set,
    /// the register read, and the accesses waited for.
    pub proof fn law_reset_held_during_power_up(self, words: Seq<u32>, n: int)
        requires
            self.fits(words),
        ensures
            ({
                let ops = self.power_up();
                let k = if self.reset_offset_or_0xff == 0xff {
                    0int
                } else {
                    1
                };
                &&& ops.len() == 3 + 2 * k
                &&& ops[k] == RccOp::SetBit { offset: self.enable_offset, bit: self.enable_bit }
                &&& ops[k + 1] == RccOp::Read { offset: self.enable_offset }
                &&& ops[k + 2] == RccOp::Barrier
                &&& k + 1 <= n <= ops.len() ==> is_set(run(words, ops.take(n)), self.enable_offset, self.enable_bit)
                &&& k == 1 ==> {
                    &&& 1 <= n <= 4 ==> is_set(run(words, ops.take(n)), self.reset_offset_or_0xff, self.reset_bit)
                    &&& !is_set(run(words, ops), self.reset_offset_or_0xff, self.reset_bit)
                }
            }),
    {
        let ops = self.power_up();
        let en = RccOp::SetBit { offset: self.enable_offset, bit: self.enable_bit };
        let rd = RccOp::Read { offset: self.enable_offset };
        let none: Seq<RccOp> = seq![];
        assert(run(words, none) == words);
        self.law_power_up(words, self.enable_offset, self.enable_bit);
        match self.reset_location() {
            Some((r_offset, r_bit)) => {
                let rs = RccOp::SetBit { offset: r_offset, bit: r_bit };
                let rc = RccOp::ClearBit { offset: r_offset, bit: r_bit };
                let s1 = none.push(rs);
                let s2 = s1.push(en);
                let s3 = s2.push(rd);
                let s4 = s3.push(RccOp::Barrier);
                let s5 = s4.push(rc);
                assert(ops =~= s5);
                assert(ops.take(1) =~= s1 && ops.take(2) =~= s2 && ops.take(3) =~= s3 && ops.take(4) =~= s4 && ops.take(5)
                    =~= s5);
                lemma_run_push(words, none, rs);
                lemma_run_push(words, s1, en);
                lemma_run_push(words, s2, rd);
                lemma_run_push(words, s3, RccOp::Barrier);
                self.law_power_up(words, r_offset, r_bit);
                let w1 = run(words, s1);
                lemma_set_bit(words[r_offset as int], r_bit, r_bit);
                lemma_set_bit(w1[r_offset as int], self.enable_bit, r_bit);
                lemma_set_bit(w1[self.enable_offset as int], self.enable_bit, self.enable_bit);
            },
            None => {
                let s1 = none.push(en);
                let s2 = s1.push(rd);
                let s3 = s2.push(RccOp::Barrier);
                assert(ops =~= s3);
                assert(ops.take(1) =~= s1 && ops.take(2) =~= s2 && ops.take(3) =~= s3);
                lemma_run_push(words, none, en);
                lemma_run_push(words, s1, rd);
                lemma_run_push(words, s2, RccOp::Barrier);
                lemma_set_bit(words[self.enable_offset as int], self.enable_bit, self.enable_bit);
            },
        }
    }

    /// An enable powers the peripheral up if its bits are not shared or it has no user yet, and
    /// touches no register otherwise. A disable clears the enable bit and nothing else if the bits
    /// are not shared or there is one user, and touches no register otherwise.
    pub proof fn law_first_and_last_user(self, v: RccView)
        ensures
            ({
                let shared = self.refcount_idx_or_0xff != 0xff;
                let users = v.refcounts[self.refcount_idx_or_0xff as int];
                &&& self.enable_ops(v) == (if !shared || users == 0 {
                    self.power_up()
                } else {
                    Seq::empty()
                })
                &&& if !shared || users == 1 {
                    &&& self.disable_ops(v).len() == 1
                    &&& self.disable_ops(v)[0] == RccOp::ClearBit { offset: self.enable_offset, bit: self.enable_bit }
                } else {
                    self.disable_ops(v).len() == 0
                }
            }),
    {
    }

    /// An enable adds one user of a shared peripheral, and one running peripheral of its stop mode
    /// if it is the first user and stop modes are counted; a disable takes away the same. No other
    /// count changes.
    pub proof fn law_counts(self, v: RccView, i: int)
        requires
            0 <= i < v.refcounts.len(),
        ensures
            ({
                let shared = self.refcount_idx_or_0xff != 0xff;
                let users = v.refcounts[self.refcount_idx_or_0xff as int];
                let mine = shared && self.refcount_idx_or_0xff == i;
                let stop1 = v.low_power && self.stop_mode == StopMode::Stop1;
                let stop2 = v.low_power && self.stop_mode == StopMode::Stop2;
                let up = self.after_enable(v);
                let down = self.after_disable(v);
                &&& self.can_enable(v) ==> {
                    &&& up.low_power == v.low_power
                    &&& up.refcounts.len() == v.refcounts.len()
                    &&& up.refcounts[i] == v.refcounts[i] + (if mine {
                        1int
                    } else {
                        0
                    })
                    &&& up.refcount_stop1 == v.refcount_stop1 + (if stop1 && (!shared || users == 0) {
                        1int
                    } else {
                        0
                    })
                    &&& up.refcount_stop2 == v.refcount_stop2 + (if stop2 && (!shared || users == 0) {
                        1int
                    } else {
                        0
                    })
                }
                &&& self.can_disable(v) ==> {
                    &&& down.low_power == v.low_power
                    &&& down.refcounts.len() == v.refcounts.len()
                    &&& down.refcounts[i] == v.refcounts[i] - (if mine {
                        1int
                    } else {
                        0
                    })
                    &&& down.refcount_stop1 == v.refcount_stop1 - (if stop1 && (!shared || users == 1) {
                        1int
                    } else {
                        0
                    })
                    &&& down.refcount_stop2 == v.refcount_stop2 - (if stop2 && (!shared || users == 1) {
                        1int
                    } else {
                        0
                    })
                }
            }),
    {
    }

    /// The counts of a peripheral that is not shared, as `law_counts` has them where there are no
    /// counts of users at all.
    pub proof fn law_counts_without_users(self, v: RccView)
        requires
            v.refcounts.len() == 0,
        ensures
            ({
                let stop1 = if v.low_power && self.stop_mode == StopMode::Stop1 {
                    1int
                } else {
                    0
                };
                let stop2 = if v.low_power && self.stop_mode == StopMode::Stop2 {
                    1int
                } else {
                    0
                };
                let up = self.after_enable(v);
                let down = self.after_disable(v);
                &&& self.can_enable(v) ==> up == (RccView {
                    refcount_stop1: (v.refcount_stop1 + stop1) as nat,
                    refcount_stop2: (v.refcount_stop2 + stop2) as nat,
                    ..v
                })
                &&& self.can_disable(v) ==> down == (RccView {
                    refcount_stop1: (v.refcount_stop1 - stop1) as nat,
                    refcount_stop2: (v.refcount_stop2 - stop2) as nat,
                    ..v
                })
            }),
    {
    }

    /// When a peripheral can be enabled: its count of users, if it is shared, is there and below
    /// 255. If it is the first user, the bits are inside a word, and the count of its stop mode, if
    /// it is counted, is below its limit.
    pub proof fn law_can_enable(self, v: RccView)
        ensures
            ({
                let shared = self.refcount_idx_or_0xff != 0xff;
                let users = v.refcounts[self.refcount_idx_or_0xff as int];
                let there = shared ==> self.refcount_idx_or_0xff < v.refcounts.len();
                self.can_enable(v) == (there && (if shared && users > 0 {
                    users < 255
                } else {
                    &&& self.enable_bit < 32
                    &&& self.reset_offset_or_0xff == 0xff || self.reset_bit < 32
                    &&& v.low_power && self.stop_mode == StopMode::Stop1 ==> v.refcount_stop1 < 0xffff_ffff
                    &&& v.low_power && self.stop_mode == StopMode::Stop2 ==> v.refcount_stop2 < 0xffff_ffff
                }))
            }),
    {
    }

    /// When a peripheral can be disabled: its count of users, if it is shared, is there and not
    /// zero. If it is the last user, the enable bit is inside a word, and the count of its stop
    /// mode, if it is counted, is not zero.
    pub proof fn law_can_disable(self, v: RccView)
        ensures
            ({
                let shared = self.refcount_idx_or_0xff != 0xff;
                let users = v.refcounts[self.refcount_idx_or_0xff as int];
                let there = shared ==> self.refcount_idx_or_0xff < v.refcounts.len() && users > 0;
                self.can_disable(v) == (there && (shared && users > 1 || {
                    &&& self.enable_bit < 32
                    &&& v.low_power && self.stop_mode == StopMode::Stop1 ==> v.refcount_stop1 > 0
                    &&& v.low_power && self.stop_mode == StopMode::Stop2 ==> v.refcount_stop2 > 0
                }))
            }),
    {
    }
}

/// Accesses that were performed were handed to the function that performs them, all of them and in
/// order, under the token of a critical section.
pub proof fn law_performed<F>(perform: F, ops: Seq<RccOp>) where F: FnOnce(CriticalSection, Vec<RccOp>)
    requires
        performed(perform, ops),
    ensures
        exists|cs: CriticalSection, list: Vec<RccOp>| list@ == ops && #[trigger] call_ensures(perform, (cs, list), ()),
{
}

/// Replacing the clock configuration applies it to the counts there were, and starts the time
/// driver, if there is one, with what that left.
pub proof fn law_init_order<C, F, G>(
    config: C,
    init: F,
    time_driver: Option<G>,
    cs: CriticalSection,
    before: Rcc,
    configured: Rcc,
    started: Rcc,
) where F: FnOnce(C, Rcc) -> Rcc, G: FnOnce(CriticalSection, Rcc) -> Rcc
    requires
        init_steps(config, init, time_driver, cs, before, configured, started),
    ensures
        call_ensures(init, (config, before), configured),
        time_driver matches Some(start) ==> call_ensures(start, (cs, configured), started),
        time_driver is None ==> started == configured,
{
}

/// Replacing the clock configuration leaves no stop mode in use, if stop modes are counted, and the
/// counts of users in any case.
pub proof fn law_stop_modes_forgotten(v: RccView, low_power: bool)
    ensures
        ({
            let after = v.forget_stop_modes(low_power);
            &&& after.refcounts == v.refcounts
            &&& after.low_power == v.low_power
            &&& low_power ==> after.refcount_stop1 == 0 && after.refcount_stop2 == 0
            &&& !low_power ==> after == v
        }),
{
}

/// A function that takes the accesses under any token can be asked to perform them.
pub proof fn law_can_perform<F>(perform: F, ops: Seq<RccOp>) where F: FnOnce(CriticalSection, Vec<RccOp>)
    requires
        forall|cs: CriticalSection, list: Vec<RccOp>| list@ == ops ==> #[trigger] call_requires(perform, (cs, list)),
    ensures
        can_perform(perform, ops),
{
}

/// A configuration can be applied if the function that applies it takes it with the counts there
/// are, and the start of the time driver, if there is one, takes whatever that leaves.
pub proof fn law_can_init<C, F, G>(config: C, init: F, time_driver: Option<G>, cs: CriticalSection, before: Rcc) where
    F: FnOnce(C, Rcc) -> Rcc,
    G: FnOnce(CriticalSection, Rcc) -> Rcc,

    requires
        call_requires(init, (config, before)),
        time_driver matches Some(start) ==> forall|configured: Rcc|
            call_ensures(init, (config, before), configured) ==> #[trigger] call_requires(start, (cs, configured)),
    ensures
        can_init(config, init, time_driver, cs, before),
{
}

impl Rcc {
    /// The counts are what the fields say.
    pub proof fn law_view(self)
        ensures
            self@.refcounts == self.refcounts@,
            self@.low_power == self.low_power,
            self@.refcount_stop1 == self.refcount_stop1,
            self@.refcount_stop2 == self.refcount_stop2,
    {
    }
}

} // verus!
