//! Endpoint registers.
//!
//! Writing an endpoint register does not store the word written. The two status fields and the
//! two data toggles change where the word holds a one, and the two transfer flags are cleared
//! where it holds a zero. What follows is about words that do to the register what is meant.

use vstd::prelude::*;
use crate::regs::{
    epr_set_ctr_rx, epr_set_ctr_tx, epr_set_dtog_rx, epr_set_dtog_tx, epr_set_ea, epr_set_ep_kind, epr_set_ep_type,
    epr_set_stat_rx, epr_set_stat_tx, epr_stat_rx, epr_stat_tx, EpType, Stat,
};
use crate::types::EndpointType;

verus! {

/// Status of reception.
pub open spec fn stat_rx(epr: u32) -> Stat {
    Stat::of_bits(crate::regs::pair(epr, 12))
}

/// Status of transmission.
pub open spec fn stat_tx(epr: u32) -> Stat {
    Stat::of_bits(crate::regs::pair(epr, 4))
}

/// Endpoint type.
pub open spec fn ep_type(epr: u32) -> EpType {
    EpType::of_bits(crate::regs::pair(epr, 9))
}

/// Whether a packet was received.
pub open spec fn ctr_rx(epr: u32) -> bool {
    crate::regs::bit(epr, 15)
}

/// Whether a packet was sent.
pub open spec fn ctr_tx(epr: u32) -> bool {
    crate::regs::bit(epr, 7)
}

/// Whether the packet received last was a SETUP packet.
pub open spec fn setup(epr: u32) -> bool {
    crate::regs::bit(epr, 11)
}

/// Data toggle of reception.
pub open spec fn dtog_rx(epr: u32) -> bool {
    crate::regs::bit(epr, 14)
}

/// Data toggle of transmission.
pub open spec fn dtog_tx(epr: u32) -> bool {
    crate::regs::bit(epr, 6)
}

/// The bits that turn one status into another when they are written to its field.
pub open spec fn toggle(from: Stat, to: Stat) -> u32 {
    from.bits() ^ to.bits()
}

/// What the low half of an endpoint register holds once `written` is written to it while it
/// holds `held`: status fields and data toggles change where `written` holds a one, transfer
/// flags are cleared where it holds a zero, SETUP cannot be written, and the rest is stored.
pub open spec fn after_write(held: u32, written: u32) -> u32 {
    (held & written & 0x8080) | ((held ^ written) & 0x7070) | (held & 0x0800) | (written & 0x070f)
}

/// The word with these fields and with the data toggles zero. `stat_rx` and `stat_tx` are the
/// bits of the status fields; `keep` is both transfer flags.
pub open spec fn word(ep_type: EpType, ea: u32, stat_rx: u32, stat_tx: u32, ep_kind: bool, keep: bool) -> u32 {
    (ea + 0x10 * stat_tx + (if ep_kind {
        0x100int
    } else {
        0
    }) + 0x200 * ep_type.bits() + 0x1000 * stat_rx + (if keep {
        0x8080int
    } else {
        0
    })) as u32
}

/// The register's code for an endpoint type.
pub open spec fn spec_convert_type(t: EndpointType) -> EpType {
    match t {
        EndpointType::Bulk => EpType::Bulk,
        EndpointType::Control => EpType::Control,
        EndpointType::Interrupt => EpType::Interrupt,
        EndpointType::Isochronous => EpType::Iso,
    }
}

/// The register's code for an endpoint type.
pub fn convert_type(t: EndpointType) -> (r: EpType)
    ensures
        r == spec_convert_type(t),
{
    match t {
        EndpointType::Bulk => EpType::Bulk,
        EndpointType::Control => EpType::Control,
        EndpointType::Interrupt => EpType::Interrupt,
        EndpointType::Isochronous => EpType::Iso,
    }
}

/// The word that leaves an endpoint register as it is, made from the word read.
pub open spec fn spec_invariant_word(r: u32) -> u32 {
    (r & 0xffff_8f8f) | 0x8080
}

/// The word that leaves an endpoint register as it is, made from the word read.
pub fn invariant_word(r: u32) -> (w: u32)
    ensures
        w == spec_invariant_word(r),
{
    let w: u32 = epr_set_ctr_rx(r, true);  // don't clear
    let w: u32 = epr_set_ctr_tx(w, true);  // don't clear
    let w: u32 = epr_set_dtog_rx(w, false);  // don't toggle
    let w: u32 = epr_set_dtog_tx(w, false);  // don't toggle
    let w: u32 = epr_set_stat_rx(w, 0);
    let w: u32 = epr_set_stat_tx(w, 0);
    proof {
        lemma_invariant_bits(r);
    }
    w
}

proof fn lemma_invariant_bits(r: u32)
    by (bit_vector)
    ensures
        crate::regs::with_pair(
            crate::regs::with_pair(
                crate::regs::with_bit(
                    crate::regs::with_bit(crate::regs::with_bit(crate::regs::with_bit(r, 15, true), 7, true), 14, false),
                    6,
                    false,
                ),
                12,
                0,
            ),
            4,
            0,
        ) == (r & 0xffff_8f8f) | 0x8080,
{
}

/// Builds the word with these fields on top of a zero word.
pub(crate) fn build(
    ep_type: EpType,
    ea: u8,
    stat_rx: u8,
    stat_tx: u8,
    ep_kind: bool,
    keep: bool,
) -> (w: u32)
    requires
        ea < 16,
        stat_rx < 4,
        stat_tx < 4,
    ensures
        w == word(ep_type, ea as u32, stat_rx as u32, stat_tx as u32, ep_kind, keep),
{
    let w: u32 = epr_set_ep_type(0, ep_type);
    let w: u32 = epr_set_ea(w, ea);
    let w: u32 = epr_set_stat_rx(w, stat_rx);
    let w: u32 = epr_set_stat_tx(w, stat_tx);
    let w: u32 = epr_set_ep_kind(w, ep_kind);
    let w: u32 = epr_set_ctr_rx(w, keep);
    let w: u32 = epr_set_ctr_tx(w, keep);
    proof {
        lemma_word_bits(ep_type.bits(), ea as u32, stat_rx as u32, stat_tx as u32, ep_kind, keep);
    }
    w
}

proof fn lemma_word_bits(t: u32, ea: u32, rx: u32, tx: u32, kind: bool, keep: bool)
    by (bit_vector)
    requires
        t < 4,
        ea < 16,
        rx < 4,
        tx < 4,
    ensures
        crate::regs::with_bit(
            crate::regs::with_bit(
                crate::regs::with_bit(
                    crate::regs::with_pair(
                        crate::regs::with_pair(
                            (crate::regs::with_pair(0, 9, t) & !0xfu32) | (ea & 0xf),
                            12,
                            rx,
                        ),
                        4,
                        tx,
                    ),
                    8,
                    kind,
                ),
                15,
                keep,
            ),
            7,
            keep,
        ) == ea + 0x10 * tx + (if kind {
            0x100u32
        } else {
            0
        }) + 0x200 * t + 0x1000 * rx + (if keep {
            0x8080u32
        } else {
            0
        }),
{
}

/// The word that turns the status of reception that was read into `to` and changes nothing else.
pub open spec fn change_rx(r: u32, to: Stat) -> u32 {
    spec_invariant_word(r) | (toggle(stat_rx(r), to) << 12)
}

/// The word that turns the status of transmission that was read into `to` and changes nothing
/// else.
pub open spec fn change_tx(r: u32, to: Stat) -> u32 {
    spec_invariant_word(r) | (toggle(stat_tx(r), to) << 4)
}

/// The word that turns the status of reception that was read into `to`.
pub(crate) fn set_rx(r: u32, to: Stat) -> (w: u32)
    ensures
        w == change_rx(r, to),
{
    let from = epr_stat_rx(r);
    let bits: u8 = toggle_bits(from, to);
    proof {
        lemma_change_bits(r, bits as u32);
    }
    epr_set_stat_rx(invariant_word(r), bits)
}

/// The word that turns the status of transmission that was read into `to`.
pub(crate) fn set_tx(r: u32, to: Stat) -> (w: u32)
    ensures
        w == change_tx(r, to),
{
    let from = epr_stat_tx(r);
    let bits: u8 = toggle_bits(from, to);
    proof {
        lemma_change_bits(r, bits as u32);
    }
    epr_set_stat_tx(invariant_word(r), bits)
}

/// The bits that turn one status into another when they are written to its field.
pub(crate) fn toggle_bits(from: Stat, to: Stat) -> (r: u8)
    ensures
        r == toggle(from, to),
        r < 4,
{
    let a: u8 = from.to_bits();
    let b: u8 = to.to_bits();
    proof {
        assert((a ^ b) < 4 && (a ^ b) as u32 == (a as u32) ^ (b as u32)) by (bit_vector)
            requires
                a < 4,
                b < 4,
        ;
    }
    a ^ b
}

proof fn lemma_change_bits(r: u32, b: u32)
    by (bit_vector)
    requires
        b < 4,
    ensures
        crate::regs::with_pair((r & 0xffff_8f8f) | 0x8080, 12, b) == ((r & 0xffff_8f8f) | 0x8080) | (b << 12),
        crate::regs::with_pair((r & 0xffff_8f8f) | 0x8080, 4, b) == ((r & 0xffff_8f8f) | 0x8080) | (b << 4),
{
}

proof fn lemma_stat_bits(b: u32)
    requires
        b < 4,
    ensures
        Stat::of_bits(b).bits() == b,
{
}

proof fn lemma_pair_bound(w: u32, n: u32)
    ensures
        crate::regs::pair(w, n) < 4,
{
    assert(((w >> n) & 3) < 4) by (bit_vector);
}

/// Writing the invariant word leaves the register as it was, whatever it held.
pub proof fn law_invariant_word(r: u32)
    ensures
        after_write(r, spec_invariant_word(r)) == r & 0xffff,
{
    assert((r & ((r & 0xffff_8f8f) | 0x8080) & 0x8080) | ((r ^ ((r & 0xffff_8f8f) | 0x8080)) & 0x7070) | (r & 0x0800) | (
    ((r & 0xffff_8f8f) | 0x8080) & 0x070f) == r & 0xffff) by (bit_vector);
}

/// Writing the word made to change one status gives that field the status wanted and leaves the
/// rest of the register as it was.
pub proof fn law_change(r: u32, to: Stat)
    ensures
        after_write(r, change_rx(r, to)) == crate::regs::with_pair(r & 0xffff, 12, to.bits()),
        after_write(r, change_tx(r, to)) == crate::regs::with_pair(r & 0xffff, 4, to.bits()),
        stat_rx(after_write(r, change_rx(r, to))) == to,
        stat_tx(after_write(r, change_tx(r, to))) == to,
        ep_type(after_write(r, change_rx(r, to))) == ep_type(r),
        ep_type(after_write(r, change_tx(r, to))) == ep_type(r),
{
    lemma_pair_bound(r, 12);
    lemma_pair_bound(r, 4);
    lemma_stat_bits(crate::regs::pair(r, 12));
    lemma_stat_bits(crate::regs::pair(r, 4));
    lemma_change_effect(r, to.bits());
}

proof fn lemma_change_effect(r: u32, t: u32)
    by (bit_vector)
    requires
        t < 4,
    ensures
        after_write(r, ((r & 0xffff_8f8f) | 0x8080) | ((crate::regs::pair(r, 12) ^ t) << 12)) == crate::regs::with_pair(
            r & 0xffff,
            12,
            t,
        ),
        after_write(r, ((r & 0xffff_8f8f) | 0x8080) | ((crate::regs::pair(r, 4) ^ t) << 4)) == crate::regs::with_pair(
            r & 0xffff,
            4,
            t,
        ),
        crate::regs::pair(crate::regs::with_pair(r & 0xffff, 12, t), 12) == t,
        crate::regs::pair(crate::regs::with_pair(r & 0xffff, 4, t), 4) == t,
        crate::regs::pair(crate::regs::with_pair(r & 0xffff, 12, t), 9) == crate::regs::pair(r, 9),
        crate::regs::pair(crate::regs::with_pair(r & 0xffff, 4, t), 9) == crate::regs::pair(r, 9),
{
}

/// Writing the word made to change one status loses no transfer flag, even one that is raised
/// after the register was read.
pub proof fn law_change_keeps_flags(held: u32, r: u32, to: Stat)
    ensures
        ctr_rx(after_write(held, change_rx(r, to))) == ctr_rx(held),
        ctr_tx(after_write(held, change_rx(r, to))) == ctr_tx(held),
        ctr_rx(after_write(held, change_tx(r, to))) == ctr_rx(held),
        ctr_tx(after_write(held, change_tx(r, to))) == ctr_tx(held),
{
    let a = toggle(stat_rx(r), to) << 12;
    let b = toggle(stat_tx(r), to) << 4;
    lemma_flags_kept(held, r, a);
    lemma_flags_kept(held, r, b);
}

proof fn lemma_flags_kept(held: u32, r: u32, x: u32)
    by (bit_vector)
    ensures
        crate::regs::bit(after_write(held, ((r & 0xffff_8f8f) | 0x8080) | x), 15) == crate::regs::bit(held, 15),
        crate::regs::bit(after_write(held, ((r & 0xffff_8f8f) | 0x8080) | x), 7) == crate::regs::bit(held, 7),
{
}

/// Writing a built word with both transfer flags set changes the status fields by exactly the
/// bits given, sets the endpoint's type, number and kind, and keeps toggles and transfer flags.
pub proof fn law_word(
    held: u32,
    t: EpType,
    ea: u32,
    rx: u32,
    tx: u32,
    ep_kind: bool,
)
    requires
        ea < 16,
        rx < 4,
        tx < 4,
    ensures
        ({
            let after = after_write(held, word(t, ea, rx, tx, ep_kind, true));
            &&& stat_rx(after).bits() == stat_rx(held).bits() ^ rx
            &&& stat_tx(after).bits() == stat_tx(held).bits() ^ tx
            &&& ep_type(after) == t
            &&& after & 0xf == ea
            &&& crate::regs::bit(after, 8) == ep_kind
            &&& dtog_rx(after) == dtog_rx(held)
            &&& dtog_tx(after) == dtog_tx(held)
            &&& ctr_rx(after) == ctr_rx(held)
            &&& ctr_tx(after) == ctr_tx(held)
            &&& setup(after) == setup(held)
        }),
{
    let w = word(t, ea, rx, tx, ep_kind, true);
    lemma_word_bits(t.bits(), ea, rx, tx, ep_kind, true);
    let after = after_write(held, w);
    lemma_pair_bound(held, 12);
    lemma_pair_bound(held, 4);
    lemma_pair_bound(after, 12);
    lemma_pair_bound(after, 4);
    lemma_stat_bits(crate::regs::pair(held, 12));
    lemma_stat_bits(crate::regs::pair(held, 4));
    lemma_stat_bits(crate::regs::pair(after, 12));
    lemma_stat_bits(crate::regs::pair(after, 4));
    lemma_word_effect(held, t.bits(), ea, rx, tx, ep_kind, w);
}

proof fn lemma_word_effect(held: u32, t: u32, ea: u32, rx: u32, tx: u32, kind: bool, w: u32)
    by (bit_vector)
    requires
        t < 4,
        ea < 16,
        rx < 4,
        tx < 4,
        w == ea + 0x10 * tx + (if kind {
            0x100u32
        } else {
            0
        }) + 0x200 * t + 0x1000 * rx + 0x8080,
    ensures
        crate::regs::pair(after_write(held, w), 12) == crate::regs::pair(held, 12) ^ rx,
        crate::regs::pair(after_write(held, w), 4) == crate::regs::pair(held, 4) ^ tx,
        crate::regs::pair(after_write(held, w), 9) == t,
        after_write(held, w) & 0xf == ea,
        crate::regs::bit(after_write(held, w), 8) == kind,
        crate::regs::bit(after_write(held, w), 14) == crate::regs::bit(held, 14),
        crate::regs::bit(after_write(held, w), 6) == crate::regs::bit(held, 6),
        crate::regs::bit(after_write(held, w), 15) == crate::regs::bit(held, 15),
        crate::regs::bit(after_write(held, w), 7) == crate::regs::bit(held, 7),
        crate::regs::bit(after_write(held, w), 11) == crate::regs::bit(held, 11),
{
}

/// Writing the bits that turn one status into another does so, and a sequence of such changes
/// adds up.
pub proof fn law_toggle(a: Stat, b: Stat, c: Stat)
    ensures
        a.bits() ^ toggle(a, b) == b.bits(),
        toggle(a, b) ^ toggle(b, c) == toggle(a, c),
        toggle(a, a) == 0,
{
    let x = a.bits();
    let y = b.bits();
    let z = c.bits();
    assert(x ^ (x ^ y) == y && (x ^ y) ^ (y ^ z) == x ^ z && x ^ x == 0) by (bit_vector);
}

/// Toggle bits are two bits.
pub(crate) proof fn lemma_toggles(a: Stat, b: Stat)
    ensures
        toggle(a, b) < 4,
        toggle(a, b) ^ 0 == toggle(a, b),
        0u32 ^ toggle(a, b) == toggle(a, b),
        a.bits() ^ 0 == a.bits(),
{
    let x = a.bits();
    let y = b.bits();
    assert((x ^ y) < 4 && (x ^ y) ^ 0 == x ^ y && 0u32 ^ (x ^ y) == x ^ y && x ^ 0 == x) by (bit_vector)
        requires
            x < 4,
            y < 4,
    ;
}

/// Where the fields of an endpoint register are.
pub proof fn law_fields(epr: u32)
    ensures
        stat_rx(epr).bits() == (epr >> 12) & 3,
        stat_tx(epr).bits() == (epr >> 4) & 3,
        ep_type(epr).bits() == (epr >> 9) & 3,
        ctr_rx(epr) == (epr & 0x8000 != 0),
        dtog_rx(epr) == (epr & 0x4000 != 0),
        setup(epr) == (epr & 0x800 != 0),
        ctr_tx(epr) == (epr & 0x80 != 0),
        dtog_tx(epr) == (epr & 0x40 != 0),
{
    lemma_pair_bound(epr, 12);
    lemma_pair_bound(epr, 4);
    lemma_pair_bound(epr, 9);
    lemma_stat_bits(crate::regs::pair(epr, 12));
    lemma_stat_bits(crate::regs::pair(epr, 4));
    assert(((epr >> 15) & 1 != 0) == (epr & 0x8000 != 0) && ((epr >> 14) & 1 != 0) == (epr & 0x4000 != 0) && ((epr >> 11)
        & 1 != 0) == (epr & 0x800 != 0) && ((epr >> 7) & 1 != 0) == (epr & 0x80 != 0) && ((epr >> 6) & 1 != 0) == (epr
        & 0x40 != 0)) by (bit_vector);
}

/// The words that leave a register as it is or change one status: the status fields hold only the
/// change, the data toggles are zero, the transfer flags one, and every other bit is as it was
/// read.
pub proof fn law_words_made_from_a_register(r: u32, to: Stat)
    ensures
        spec_invariant_word(r) & 0xf0f0 == 0x8080,
        spec_invariant_word(r) & 0xffff_0f0f == r & 0xffff_0f0f,
        change_rx(r, to) & 0xffff_0f0f == r & 0xffff_0f0f,
        change_rx(r, to) & 0xc0f0 == 0x8080,
        (change_rx(r, to) >> 12) & 3 == toggle(stat_rx(r), to),
        change_tx(r, to) & 0xffff_0f0f == r & 0xffff_0f0f,
        change_tx(r, to) & 0xf0c0 == 0x8080,
        (change_tx(r, to) >> 4) & 3 == toggle(stat_tx(r), to),
{
    let a = toggle(stat_rx(r), to);
    let b = toggle(stat_tx(r), to);
    lemma_toggles(stat_rx(r), to);
    lemma_toggles(stat_tx(r), to);
    lemma_made_words(r, a);
    lemma_made_words(r, b);
}

proof fn lemma_made_words(r: u32, x: u32)
    by (bit_vector)
    requires
        x < 4,
    ensures
        ((r & 0xffff_8f8f) | 0x8080) & 0xf0f0 == 0x8080,
        ((r & 0xffff_8f8f) | 0x8080) & 0xffff_0f0f == r & 0xffff_0f0f,
        (((r & 0xffff_8f8f) | 0x8080) | (x << 12)) & 0xffff_0f0f == r & 0xffff_0f0f,
        (((r & 0xffff_8f8f) | 0x8080) | (x << 12)) & 0xc0f0 == 0x8080,
        ((((r & 0xffff_8f8f) | 0x8080) | (x << 12)) >> 12) & 3 == x,
        (((r & 0xffff_8f8f) | 0x8080) | (x << 4)) & 0xffff_0f0f == r & 0xffff_0f0f,
        (((r & 0xffff_8f8f) | 0x8080) | (x << 4)) & 0xf0c0 == 0x8080,
        ((((r & 0xffff_8f8f) | 0x8080) | (x << 4)) >> 4) & 3 == x,
{
}

} // verus!
