//! Values of the USB registers.
//!
//! A register is handled as the 32-bit word that is read from or written to it. The fields
//! inside a word are read and set by `stm32_metapac`.

use vstd::prelude::*;
use stm32_metapac::usb::regs;
use stm32_metapac::usb::vals;

verus! {

/// Status of one direction of an endpoint.
#[derive(Clone, Copy, PartialEq, Eq, Structural, Debug)]
pub enum Stat {
    /// Requests are ignored.
    Disabled,
    /// Requests are answered with STALL.
    Stall,
    /// Requests are answered with NAK.
    Nak,
    /// Requests are acknowledged.
    Valid,
}

impl Stat {
    /// The two bits that stand for the status in an endpoint register.
    pub open spec fn bits(self) -> u32 {
        match self {
            Stat::Disabled => 0,
            Stat::Stall => 1,
            Stat::Nak => 2,
            Stat::Valid => 3,
        }
    }

    /// The status that two bits of an endpoint register stand for.
    pub open spec fn of_bits(b: u32) -> Stat {
        if b == 0 {
            Stat::Disabled
        } else if b == 1 {
            Stat::Stall
        } else if b == 2 {
            Stat::Nak
        } else {
            Stat::Valid
        }
    }

    /// The two bits that stand for the status in an endpoint register.
    pub fn to_bits(self) -> (r: u8)
        ensures
            r == self.bits(),
    {
        match self {
            Stat::Disabled => 0,
            Stat::Stall => 1,
            Stat::Nak => 2,
            Stat::Valid => 3,
        }
    }
}

/// Endpoint type as the endpoint register encodes it.
#[derive(Clone, Copy, PartialEq, Eq, Structural, Debug)]
pub enum EpType {
    Bulk,
    Control,
    Iso,
    Interrupt,
}

impl EpType {
    /// The two bits that stand for the type in an endpoint register.
    pub open spec fn bits(self) -> u32 {
        match self {
            EpType::Bulk => 0,
            EpType::Control => 1,
            EpType::Iso => 2,
            EpType::Interrupt => 3,
        }
    }

    /// The type that two bits of an endpoint register stand for.
    pub open spec fn of_bits(b: u32) -> EpType {
        if b == 0 {
            EpType::Bulk
        } else if b == 1 {
            EpType::Control
        } else if b == 2 {
            EpType::Iso
        } else {
            EpType::Interrupt
        }
    }
}

/// Bit `n` of a word.
pub open spec fn bit(w: u32, n: u32) -> bool {
    (w >> n) & 1 != 0
}

/// A word with bit `n` set to `v`.
pub open spec fn with_bit(w: u32, n: u32, v: bool) -> u32 {
    (w & !(1u32 << n)) | ((if v {
        1u32
    } else {
        0u32
    }) << n)
}

/// The two bits of a word from bit `n` up.
pub open spec fn pair(w: u32, n: u32) -> u32 {
    (w >> n) & 3
}

/// A word with the two bits from bit `n` up set to the low bits of `v`.
pub open spec fn with_pair(w: u32, n: u32, v: u32) -> u32 {
    (w & !(3u32 << n)) | ((v & 3) << n)
}

/// `Epr::set_ea`: sets bits 0 to 3 to the four low bits of the argument and keeps the others.
#[verifier::external_body]
pub(crate) fn epr_set_ea(w: u32, ea: u8) -> (r: u32)
    ensures
        r == (w & !0xfu32) | ((ea as u32) & 0xf),
{
    let mut word = regs::Epr(w);
    word.set_ea(ea);
    word.0
}

/// `Epr::stat_tx`: the status in bits 4 and 5.
#[verifier::external_body]
pub(crate) fn epr_stat_tx(w: u32) -> (r: Stat)
    ensures
        r == Stat::of_bits(pair(w, 4)),
{
    match regs::Epr(w).stat_tx() {
        vals::Stat::DISABLED => Stat::Disabled,
        vals::Stat::STALL => Stat::Stall,
        vals::Stat::NAK => Stat::Nak,
        vals::Stat::VALID => Stat::Valid,
    }
}

/// `Epr::set_stat_tx` of `Stat::from_bits`: sets bits 4 and 5 to the two low bits of the argument
/// and keeps the others.
#[verifier::external_body]
pub(crate) fn epr_set_stat_tx(w: u32, bits: u8) -> (r: u32)
    ensures
        r == with_pair(w, 4, bits as u32),
{
    let mut word = regs::Epr(w);
    word.set_stat_tx(vals::Stat::from_bits(bits));
    word.0
}

/// `Epr::dtog_tx`: bit 6.
#[verifier::external_body]
pub(crate) fn epr_dtog_tx(w: u32) -> (r: bool)
    ensures
        r == bit(w, 6),
{
    regs::Epr(w).dtog_tx()
}

/// `Epr::set_dtog_tx`: sets bit 6 to the argument and keeps the others.
#[verifier::external_body]
pub(crate) fn epr_set_dtog_tx(w: u32, v: bool) -> (r: u32)
    ensures
        r == with_bit(w, 6, v),
{
    let mut word = regs::Epr(w);
    word.set_dtog_tx(v);
    word.0
}

/// `Epr::ctr_tx`: bit 7.
#[verifier::external_body]
pub(crate) fn epr_ctr_tx(w: u32) -> (r: bool)
    ensures
        r == bit(w, 7),
{
    regs::Epr(w).ctr_tx()
}

/// `Epr::set_ctr_tx`: sets bit 7 to the argument and keeps the others.
#[verifier::external_body]
pub(crate) fn epr_set_ctr_tx(w: u32, v: bool) -> (r: u32)
    ensures
        r == with_bit(w, 7, v),
{
    let mut word = regs::Epr(w);
    word.set_ctr_tx(v);
    word.0
}

/// `Epr::set_ep_kind`: sets bit 8 to the argument and keeps the others.
#[verifier::external_body]
pub(crate) fn epr_set_ep_kind(w: u32, v: bool) -> (r: u32)
    ensures
        r == with_bit(w, 8, v),
{
    let mut word = regs::Epr(w);
    word.set_ep_kind(v);
    word.0
}

/// `Epr::ep_type`: the type in bits 9 and 10.
#[verifier::external_body]
pub(crate) fn epr_ep_type(w: u32) -> (r: EpType)
    ensures
        r == EpType::of_bits(pair(w, 9)),
{
    match regs::Epr(w).ep_type() {
        vals::EpType::BULK => EpType::Bulk,
        vals::EpType::CONTROL => EpType::Control,
        vals::EpType::ISO => EpType::Iso,
        vals::EpType::INTERRUPT => EpType::Interrupt,
    }
}

/// `Epr::set_ep_type`: sets bits 9 and 10 to the type's code and keeps the others.
#[verifier::external_body]
pub(crate) fn epr_set_ep_type(w: u32, ep_type: EpType) -> (r: u32)
    ensures
        r == with_pair(w, 9, ep_type.bits()),
{
    let mut word = regs::Epr(w);
    word.set_ep_type(match ep_type {
        EpType::Bulk => vals::EpType::BULK,
        EpType::Control => vals::EpType::CONTROL,
        EpType::Iso => vals::EpType::ISO,
        EpType::Interrupt => vals::EpType::INTERRUPT,
    });
    word.0
}

/// `Epr::setup`: bit 11.
#[verifier::external_body]
pub(crate) fn epr_setup(w: u32) -> (r: bool)
    ensures
        r == bit(w, 11),
{
    regs::Epr(w).setup()
}

/// `Epr::stat_rx`: the status in bits 12 and 13.
#[verifier::external_body]
pub(crate) fn epr_stat_rx(w: u32) -> (r: Stat)
    ensures
        r == Stat::of_bits(pair(w, 12)),
{
    match regs::Epr(w).stat_rx() {
        vals::Stat::DISABLED => Stat::Disabled,
        vals::Stat::STALL => Stat::Stall,
        vals::Stat::NAK => Stat::Nak,
        vals::Stat::VALID => Stat::Valid,
    }
}

/// `Epr::set_stat_rx` of `Stat::from_bits`: sets bits 12 and 13 to the two low bits of the argument
/// and keeps the others.
#[verifier::external_body]
pub(crate) fn epr_set_stat_rx(w: u32, bits: u8) -> (r: u32)
    ensures
        r == with_pair(w, 12, bits as u32),
{
    let mut word = regs::Epr(w);
    word.set_stat_rx(vals::Stat::from_bits(bits));
    word.0
}

/// `Epr::dtog_rx`: bit 14.
#[verifier::external_body]
pub(crate) fn epr_dtog_rx(w: u32) -> (r: bool)
    ensures
        r == bit(w, 14),
{
    regs::Epr(w).dtog_rx()
}

/// `Epr::set_dtog_rx`: sets bit 14 to the argument and keeps the others.
#[verifier::external_body]
pub(crate) fn epr_set_dtog_rx(w: u32, v: bool) -> (r: u32)
    ensures
        r == with_bit(w, 14, v),
{
    let mut word = regs::Epr(w);
    word.set_dtog_rx(v);
    word.0
}

/// `Epr::ctr_rx`: bit 15.
#[verifier::external_body]
pub(crate) fn epr_ctr_rx(w: u32) -> (r: bool)
    ensures
        r == bit(w, 15),
{
    regs::Epr(w).ctr_rx()
}

/// `Epr::set_ctr_rx`: sets bit 15 to the argument and keeps the others.
#[verifier::external_body]
pub(crate) fn epr_set_ctr_rx(w: u32, v: bool) -> (r: u32)
    ensures
        r == with_bit(w, 15, v),
{
    let mut word = regs::Epr(w);
    word.set_ctr_rx(v);
    word.0
}

/// `Istr::ep_id`: the number in bits 0 to 3.
#[verifier::external_body]
pub(crate) fn istr_ep_id(w: u32) -> (r: u8)
    ensures
        r as u32 == w & 0xf,
{
    regs::Istr(w).ep_id()
}

/// `Istr::reset`: bit 10.
#[verifier::external_body]
pub(crate) fn istr_reset(w: u32) -> (r: bool)
    ensures
        r == bit(w, 10),
{
    regs::Istr(w).reset()
}

/// `Istr::set_reset`: sets bit 10 to the argument and keeps the others.
#[verifier::external_body]
pub(crate) fn istr_set_reset(w: u32, v: bool) -> (r: u32)
    ensures
        r == with_bit(w, 10, v),
{
    let mut word = regs::Istr(w);
    word.set_reset(v);
    word.0
}

/// `Istr::susp`: bit 11.
#[verifier::external_body]
pub(crate) fn istr_susp(w: u32) -> (r: bool)
    ensures
        r == bit(w, 11),
{
    regs::Istr(w).susp()
}

/// `Istr::set_susp`: sets bit 11 to the argument and keeps the others.
#[verifier::external_body]
pub(crate) fn istr_set_susp(w: u32, v: bool) -> (r: u32)
    ensures
        r == with_bit(w, 11, v),
{
    let mut word = regs::Istr(w);
    word.set_susp(v);
    word.0
}

/// `Istr::wkup`: bit 12.
#[verifier::external_body]
pub(crate) fn istr_wkup(w: u32) -> (r: bool)
    ensures
        r == bit(w, 12),
{
    regs::Istr(w).wkup()
}

/// `Istr::set_wkup`: sets bit 12 to the argument and keeps the others.
#[verifier::external_body]
pub(crate) fn istr_set_wkup(w: u32, v: bool) -> (r: u32)
    ensures
        r == with_bit(w, 12, v),
{
    let mut word = regs::Istr(w);
    word.set_wkup(v);
    word.0
}

/// `Istr::ctr`: bit 15.
#[verifier::external_body]
pub(crate) fn istr_ctr(w: u32) -> (r: bool)
    ensures
        r == bit(w, 15),
{
    regs::Istr(w).ctr()
}

/// `Cntr::set_fres`: sets bit 0 to the argument and keeps the others.
#[verifier::external_body]
pub(crate) fn cntr_set_fres(w: u32, v: bool) -> (r: u32)
    ensures
        r == with_bit(w, 0, v),
{
    let mut word = regs::Cntr(w);
    word.set_fres(v);
    word.0
}

/// `Cntr::set_pdwn`: sets bit 1 to the argument and keeps the others.
#[verifier::external_body]
pub(crate) fn cntr_set_pdwn(w: u32, v: bool) -> (r: u32)
    ensures
        r == with_bit(w, 1, v),
{
    let mut word = regs::Cntr(w);
    word.set_pdwn(v);
    word.0
}

/// `Cntr::set_lpmode`: sets bit 2 to the argument and keeps the others.
#[verifier::external_body]
pub(crate) fn cntr_set_lpmode(w: u32, v: bool) -> (r: u32)
    ensures
        r == with_bit(w, 2, v),
{
    let mut word = regs::Cntr(w);
    word.set_lpmode(v);
    word.0
}

/// `Cntr::set_fsusp`: sets bit 3 to the argument and keeps the others.
#[verifier::external_body]
pub(crate) fn cntr_set_fsusp(w: u32, v: bool) -> (r: u32)
    ensures
        r == with_bit(w, 3, v),
{
    let mut word = regs::Cntr(w);
    word.set_fsusp(v);
    word.0
}

/// `Cntr::set_resetm`: sets bit 10 to the argument and keeps the others.
#[verifier::external_body]
pub(crate) fn cntr_set_resetm(w: u32, v: bool) -> (r: u32)
    ensures
        r == with_bit(w, 10, v),
{
    let mut word = regs::Cntr(w);
    word.set_resetm(v);
    word.0
}

/// `Cntr::set_suspm`: sets bit 11 to the argument and keeps the others.
#[verifier::external_body]
pub(crate) fn cntr_set_suspm(w: u32, v: bool) -> (r: u32)
    ensures
        r == with_bit(w, 11, v),
{
    let mut word = regs::Cntr(w);
    word.set_suspm(v);
    word.0
}

/// `Cntr::set_wkupm`: sets bit 12 to the argument and keeps the others.
#[verifier::external_body]
pub(crate) fn cntr_set_wkupm(w: u32, v: bool) -> (r: u32)
    ensures
        r == with_bit(w, 12, v),
{
    let mut word = regs::Cntr(w);
    word.set_wkupm(v);
    word.0
}

/// `Cntr::set_ctrm`: sets bit 15 to the argument and keeps the others.
#[verifier::external_body]
pub(crate) fn cntr_set_ctrm(w: u32, v: bool) -> (r: u32)
    ensures
        r == with_bit(w, 15, v),
{
    let mut word = regs::Cntr(w);
    word.set_ctrm(v);
    word.0
}

/// `Daddr::set_add`: sets bits 0 to 6 to the seven low bits of the argument and keeps the others.
#[verifier::external_body]
pub(crate) fn daddr_set_add(w: u32, add: u8) -> (r: u32)
    ensures
        r == (w & !0x7fu32) | ((add as u32) & 0x7f),
{
    let mut word = regs::Daddr(w);
    word.set_add(add);
    word.0
}

/// `Daddr::set_ef`: sets bit 7 to the argument and keeps the others.
#[verifier::external_body]
pub(crate) fn daddr_set_ef(w: u32, v: bool) -> (r: u32)
    ensures
        r == with_bit(w, 7, v),
{
    let mut word = regs::Daddr(w);
    word.set_ef(v);
    word.0
}

/// `Btable::set_btable`: sets bits 3 to 15 to the thirteen low bits of the argument and keeps the
/// others.
#[verifier::external_body]
pub(crate) fn btable_set_btable(w: u32, btable: u16) -> (r: u32)
    ensures
        r == (w & !(0x1fffu32 << 3)) | (((btable as u32) & 0x1fff) << 3),
{
    let mut word = regs::Btable(w);
    word.set_btable(btable);
    word.0
}

/// `Bcdr::set_dppu`: sets bit 15 to the argument and keeps the others.
#[verifier::external_body]
pub(crate) fn bcdr_set_dppu(w: u32, v: bool) -> (r: u32)
    ensures
        r == with_bit(w, 15, v),
{
    let mut word = regs::Bcdr(w);
    word.set_dppu(v);
    word.0
}

} // verus!
