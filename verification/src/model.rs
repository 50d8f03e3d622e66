//! What accesses do to the peripheral.
//!
//! The registers hold what a list of accesses leaves in them as long as the hardware does not
//! change them meanwhile. Packet memory is a row of bytes, whatever the width of its words.

use vstd::prelude::*;
use crate::regs::{EpType, Stat};
use crate::types::{Op, UsbRam};

verus! {

/// What the endpoint register with this index holds after a list of accesses.
pub open spec fn epr_after(held: u32, index: usize, ops: Seq<Op>) -> u32
    decreases ops.len(),
{
    if ops.len() == 0 {
        held
    } else {
        let before = epr_after(held, index, ops.drop_last());
        match ops.last() {
            Op::WriteEpr(i, w) if i == index => crate::epr::after_write(before, w),
            _ => before,
        }
    }
}

/// What DADDR holds after a list of accesses.
pub open spec fn daddr_after(held: u32, ops: Seq<Op>) -> u32
    decreases ops.len(),
{
    if ops.len() == 0 {
        held
    } else {
        match ops.last() {
            Op::WriteDaddr(w) => w,
            _ => daddr_after(held, ops.drop_last()),
        }
    }
}

/// What ISTR holds after a list of accesses: a zero that is written clears an event.
pub open spec fn istr_after(held: u32, ops: Seq<Op>) -> u32
    decreases ops.len(),
{
    if ops.len() == 0 {
        held
    } else {
        let before = istr_after(held, ops.drop_last());
        match ops.last() {
            Op::WriteIstr(w) => before & w,
            _ => before,
        }
    }
}

/// What CNTR holds after a list of accesses; bits 2 and 3 are low-power mode and forced suspend.
pub open spec fn cntr_after(held: u32, ops: Seq<Op>) -> u32
    decreases ops.len(),
{
    if ops.len() == 0 {
        held
    } else {
        let before = cntr_after(held, ops.drop_last());
        match ops.last() {
            Op::WriteCntr(w) => w,
            Op::ModifyCntr(suspended) => if suspended {
                before | 0xc
            } else {
                before & !0xcu32
            },
            _ => before,
        }
    }
}

/// Whether a list of accesses writes an endpoint register at most once, and not before packet
/// memory.
pub open spec fn register_written_last(ops: Seq<Op>) -> bool {
    forall|i: int, j: int|
        0 <= i < j < ops.len() && (#[trigger] ops[i]) is WriteEpr ==> !((#[trigger] ops[j]) is WriteMem) && !(
        ops[j] is WriteEpr)
}

/// Whether an endpoint register that held `held` got these statuses, this type, number and kind,
/// and kept its data toggles, its transfer flags and SETUP.
pub open spec fn endpoint_set(
    held: u32,
    after: u32,
    rx: Stat,
    tx: Stat,
    ep_type: EpType,
    number: int,
    kind: bool,
) -> bool {
    &&& crate::epr::stat_rx(after) == rx
    &&& crate::epr::stat_tx(after) == tx
    &&& crate::epr::ep_type(after) == ep_type
    &&& after & 0xf == number
    &&& crate::regs::bit(after, 8) == kind
    &&& crate::epr::dtog_rx(after) == crate::epr::dtog_rx(held)
    &&& crate::epr::dtog_tx(after) == crate::epr::dtog_tx(held)
    &&& crate::epr::ctr_rx(after) == crate::epr::ctr_rx(held)
    &&& crate::epr::ctr_tx(after) == crate::epr::ctr_tx(held)
    &&& crate::epr::setup(after) == crate::epr::setup(held)
}

/// Whether this is the content of a packet memory of this layout.
pub open spec fn mem_ok(ram: UsbRam, mem: Seq<u32>) -> bool {
    &&& mem.len() == ram.spec_words()
    &&& !ram.is_32bit() ==> forall|i: int| 0 <= i < mem.len() ==> (#[trigger] mem[i]) < 0x1_0000
}

/// The byte at this address of packet memory.
pub open spec fn mem_byte(ram: UsbRam, mem: Seq<u32>, a: int) -> int {
    if ram.is_32bit() {
        let w = mem[a / 4] as int;
        if a % 4 == 0 {
            w % 0x100
        } else if a % 4 == 1 {
            w / 0x100 % 0x100
        } else if a % 4 == 2 {
            w / 0x1_0000 % 0x100
        } else {
            w / 0x100_0000 % 0x100
        }
    } else {
        let w = mem[a / 2] as int;
        if a % 2 == 0 {
            w % 0x100
        } else {
            w / 0x100 % 0x100
        }
    }
}

/// The 16-bit number at this address of packet memory, low byte first.
pub open spec fn mem_half(ram: UsbRam, mem: Seq<u32>, a: int) -> int {
    mem_byte(ram, mem, a) + 0x100 * mem_byte(ram, mem, a + 1)
}

/// Whether two contents of packet memory are the same but for the `n` bytes from `a` up.
pub open spec fn same_but(ram: UsbRam, mem: Seq<u32>, after: Seq<u32>, a: int, n: int) -> bool {
    forall|b: int|
        0 <= b < ram.size() && !(a <= b < a + n) ==> #[trigger] mem_byte(ram, after, b) == mem_byte(ram, mem, b)
}

pub(crate) proof fn lemma_epr_after_add(held: u32, index: usize, a: Seq<Op>, b: Seq<Op>)
    ensures
        epr_after(held, index, a + b) == epr_after(epr_after(held, index, a), index, b),
    decreases b.len(),
{
    if b.len() == 0 {
        assert(a + b =~= a);
    } else {
        assert((a + b).drop_last() =~= a + b.drop_last());
        lemma_epr_after_add(held, index, a, b.drop_last());
    }
}

pub(crate) proof fn lemma_epr_after_none(held: u32, index: usize, ops: Seq<Op>)
    requires
        forall|i: int| 0 <= i < ops.len() ==> !((#[trigger] ops[i]) is WriteEpr),
    ensures
        epr_after(held, index, ops) == held,
    decreases ops.len(),
{
    if ops.len() > 0 {
        assert(ops.last() == ops[ops.len() - 1]);
        assert forall|i: int| 0 <= i < ops.drop_last().len() implies !((#[trigger] ops.drop_last()[i]) is WriteEpr) by {
            assert(ops.drop_last()[i] == ops[i]);
        }
        lemma_epr_after_none(held, index, ops.drop_last());
    }
}

pub(crate) proof fn lemma_mem_after_add(mem: Seq<u32>, a: Seq<Op>, b: Seq<Op>)
    ensures
        crate::buffer::mem_after(mem, a + b) == crate::buffer::mem_after(crate::buffer::mem_after(mem, a), b),
    decreases b.len(),
{
    if b.len() == 0 {
        assert(a + b =~= a);
    } else {
        assert((a + b).drop_last() =~= a + b.drop_last());
        lemma_mem_after_add(mem, a, b.drop_last());
    }
}

pub(crate) proof fn lemma_mem_after_none(mem: Seq<u32>, ops: Seq<Op>)
    requires
        forall|i: int| 0 <= i < ops.len() ==> !((#[trigger] ops[i]) is WriteMem),
    ensures
        crate::buffer::mem_after(mem, ops) == mem,
    decreases ops.len(),
{
    if ops.len() > 0 {
        assert(ops.last() == ops[ops.len() - 1]);
        assert forall|i: int| 0 <= i < ops.drop_last().len() implies !((#[trigger] ops.drop_last()[i]) is WriteMem) by {
            assert(ops.drop_last()[i] == ops[i]);
        }
        lemma_mem_after_none(mem, ops.drop_last());
    }
}

/// The two numbers in a 32-bit word, and the one in a 16-bit word.
pub(crate) proof fn lemma_halves(ram: UsbRam, mem: Seq<u32>, i: int)
    requires
        mem_ok(ram, mem),
        0 <= i < mem.len(),
    ensures
        ram.is_32bit() ==> mem_half(ram, mem, 4 * i) == mem[i] as int % 0x1_0000 && mem_half(ram, mem, 4 * i + 2)
            == mem[i] as int / 0x1_0000,
        !ram.is_32bit() ==> mem_half(ram, mem, 2 * i) == mem[i],
{
    let w = mem[i] as int;
    if ram.is_32bit() {
        assert((4 * i) / 4 == i && (4 * i + 1) / 4 == i && (4 * i + 2) / 4 == i && (4 * i + 3) / 4 == i);
        assert((4 * i) % 4 == 0 && (4 * i + 1) % 4 == 1 && (4 * i + 2) % 4 == 2 && (4 * i + 3) % 4 == 3);
        assert(w % 0x100 + 0x100 * (w / 0x100 % 0x100) == w % 0x1_0000);
        assert(w / 0x1_0000 % 0x100 + 0x100 * (w / 0x100_0000 % 0x100) == w / 0x1_0000);
    } else {
        assert((2 * i) / 2 == i && (2 * i + 1) / 2 == i);
        assert((2 * i) % 2 == 0 && (2 * i + 1) % 2 == 1);
    }
}

/// What writing one 32-bit word does to packet memory.
pub(crate) proof fn lemma_wide_word_written(ram: UsbRam, mem: Seq<u32>, w: int, val: u32)
    requires
        ram.is_32bit(),
        mem_ok(ram, mem),
        0 <= w < mem.len(),
    ensures
        mem_ok(ram, mem.update(w, val)),
        mem_half(ram, mem.update(w, val), 4 * w) == val as int % 0x1_0000,
        mem_half(ram, mem.update(w, val), 4 * w + 2) == val as int / 0x1_0000,
        same_but(ram, mem, mem.update(w, val), 4 * w, 4),
{
    let after = mem.update(w, val);
    lemma_words(ram);
    lemma_halves(ram, after, w);
    assert forall|b: int| 0 <= b < ram.size() && !(4 * w <= b < 4 * w + 4) implies #[trigger] mem_byte(ram, after, b)
        == mem_byte(ram, mem, b) by {
        assert(b / 4 != w && 0 <= b / 4 < mem.len());
        assert(after[b / 4] == mem[b / 4]);
    }
}

/// What writing one 16-bit word does to packet memory.
pub(crate) proof fn lemma_narrow_word_written(ram: UsbRam, mem: Seq<u32>, w: int, val: u32)
    requires
        !ram.is_32bit(),
        mem_ok(ram, mem),
        0 <= w < mem.len(),
        val < 0x1_0000,
    ensures
        mem_ok(ram, mem.update(w, val)),
        mem_half(ram, mem.update(w, val), 2 * w) == val,
        same_but(ram, mem, mem.update(w, val), 2 * w, 2),
{
    let after = mem.update(w, val);
    lemma_words(ram);
    lemma_halves(ram, after, w);
    assert forall|b: int| 0 <= b < ram.size() && !(2 * w <= b < 2 * w + 2) implies #[trigger] mem_byte(ram, after, b)
        == mem_byte(ram, mem, b) by {
        assert(b / 2 != w && 0 <= b / 2 < mem.len());
        assert(after[b / 2] == mem[b / 2]);
    }
}

/// A number at a place where nothing changed.
pub(crate) proof fn lemma_half_kept(ram: UsbRam, mem: Seq<u32>, after: Seq<u32>, a: int, n: int, at: int)
    requires
        same_but(ram, mem, after, a, n),
        0 <= at,
        at + 2 <= ram.size(),
        at + 2 <= a || a + n <= at,
    ensures
        mem_half(ram, after, at) == mem_half(ram, mem, at),
{
    assert(mem_byte(ram, after, at) == mem_byte(ram, mem, at));
    assert(mem_byte(ram, after, at + 1) == mem_byte(ram, mem, at + 1));
}

/// One 16-bit write after another.
pub(crate) proof fn lemma_same_but_both(ram: UsbRam, a: Seq<u32>, b: Seq<u32>, c: Seq<u32>, at: int)
    requires
        same_but(ram, a, b, at, 2),
        same_but(ram, b, c, at + 2, 2),
    ensures
        same_but(ram, a, c, at, 4),
{
    assert forall|x: int| 0 <= x < ram.size() && !(at <= x < at + 4) implies #[trigger] mem_byte(ram, c, x) == mem_byte(
        ram,
        a,
        x,
    ) by {
        assert(mem_byte(ram, b, x) == mem_byte(ram, a, x));
    }
}

/// The number of words of packet memory.
pub(crate) proof fn lemma_words(ram: UsbRam)
    ensures
        ram.is_32bit() ==> ram.align() == 4 && ram.spec_words() * 4 == ram.size(),
        !ram.is_32bit() ==> ram.align() == 2 && ram.spec_words() * 2 == ram.size(),
        ram.size() >= 512,
{
    if ram.is_32bit() {
        assert(ram.align() == 4);
        assert(ram.spec_words() == ram.size() as int / 4);
    } else {
        assert(ram.align() == 2);
        assert(ram.spec_words() == ram.size() as int / 2);
    }
}

pub(crate) proof fn lemma_epr_after_other(held: u32, index: usize, ops: Seq<Op>)
    requires
        forall|i: int| 0 <= i < ops.len() ==> !((#[trigger] ops[i]) matches Op::WriteEpr(k, _) && k == index),
    ensures
        epr_after(held, index, ops) == held,
    decreases ops.len(),
{
    if ops.len() > 0 {
        let rest = ops.drop_last();
        assert(ops.last() == ops[ops.len() - 1]);
        assert forall|i: int| 0 <= i < rest.len() implies !((#[trigger] rest[i]) matches Op::WriteEpr(k, _) && k == index) by {
            assert(rest[i] == ops[i]);
        }
        lemma_epr_after_other(held, index, rest);
    }
}

/// A register that is written by one access only.
pub(crate) proof fn lemma_epr_after_one(held: u32, index: usize, ops: Seq<Op>, at: int, word: u32)
    requires
        0 <= at < ops.len(),
        ops[at] == Op::WriteEpr(index, word),
        forall|i: int|
            0 <= i < ops.len() && i != at ==> !((#[trigger] ops[i]) matches Op::WriteEpr(k, _) && k == index),
    ensures
        epr_after(held, index, ops) == crate::epr::after_write(held, word),
{
    let pre = ops.take(at);
    let one = ops.take(at + 1);
    let post = ops.skip(at + 1);
    assert(one.drop_last() =~= pre);
    assert(one.last() == ops[at]);
    assert(ops =~= one + post);
    assert forall|i: int| 0 <= i < pre.len() implies !((#[trigger] pre[i]) matches Op::WriteEpr(k, _) && k == index) by {
        assert(pre[i] == ops[i]);
    }
    assert forall|i: int| 0 <= i < post.len() implies !((#[trigger] post[i]) matches Op::WriteEpr(k, _) && k == index) by {
        assert(post[i] == ops[at + 1 + i]);
    }
    lemma_epr_after_add(held, index, one, post);
    lemma_epr_after_other(held, index, pre);
    lemma_epr_after_other(epr_after(held, index, one), index, post);
}

/// DADDR after a list of which one access writes it.
pub(crate) proof fn lemma_daddr_after_one(held: u32, ops: Seq<Op>, at: int, word: u32)
    requires
        0 <= at < ops.len(),
        ops[at] == Op::WriteDaddr(word),
        forall|i: int| 0 <= i < ops.len() && i != at ==> !((#[trigger] ops[i]) is WriteDaddr),
    ensures
        daddr_after(held, ops) == word,
    decreases ops.len(),
{
    if at < ops.len() - 1 {
        let rest = ops.drop_last();
        assert(ops.last() == ops[ops.len() - 1]);
        assert(rest[at] == ops[at]);
        assert forall|i: int| 0 <= i < rest.len() && i != at implies !((#[trigger] rest[i]) is WriteDaddr) by {
            assert(rest[i] == ops[i]);
        }
        lemma_daddr_after_one(held, rest, at, word);
    }
}

proof fn lemma_low_half(after: u32, held: u32, t: u32, rx: u32, tx: u32, n: u32, kind: bool)
    by (bit_vector)
    requires
        n < 16,
        (after >> 12) & 3 == rx,
        (after >> 4) & 3 == tx,
        (after >> 9) & 3 == t,
        after & 0xf == n,
        ((after >> 8) & 1 != 0) == kind,
        ((after >> 14) & 1 != 0) == ((held >> 14) & 1 != 0),
        ((after >> 6) & 1 != 0) == ((held >> 6) & 1 != 0),
        ((after >> 15) & 1 != 0) == ((held >> 15) & 1 != 0),
        ((after >> 7) & 1 != 0) == ((held >> 7) & 1 != 0),
        ((after >> 11) & 1 != 0) == ((held >> 11) & 1 != 0),
    ensures
        after & 0xffff == n + 0x10 * tx + (if kind {
            0x100u32
        } else {
            0
        }) + 0x200 * t + 0x1000 * rx + (held & 0xc8c0),
{
}

/// What it means that an endpoint register got its fields: its low half holds the number, the two
/// statuses, the kind and the type in their places, and the transfer flags, data toggles and SETUP
/// that it held.
pub proof fn law_endpoint_set(
    held: u32,
    after: u32,
    rx: Stat,
    tx: Stat,
    ep_type: EpType,
    number: int,
    kind: bool,
)
    requires
        endpoint_set(held, after, rx, tx, ep_type, number, kind),
        0 <= number < 16,
    ensures
        after & 0xffff == number + 0x10 * tx.bits() + (if kind {
            0x100int
        } else {
            0
        }) + 0x200 * ep_type.bits() + 0x1000 * rx.bits() + (held & 0xc8c0),
{
    crate::epr::law_fields(after);
    crate::epr::law_fields(held);
    lemma_low_half(after, held, ep_type.bits(), rx.bits(), tx.bits(), number as u32, kind);
}

} // verus!
