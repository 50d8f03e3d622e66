//! The table at the start of packet memory that says where each endpoint's buffers are.
//!
//! With 16-bit words an endpoint has four words: address and length of the TX buffer, address
//! and length of the RX buffer. With 32-bit words it has two, each with the address in the low
//! and the length in the high half.

use vstd::prelude::*;
use crate::types::{Op, PacketBuffer, UsbRam, EP_COUNT};

verus! {

/// A buffer's address and length in one 32-bit word.
pub open spec fn packed(addr: u16, len: u16) -> u32 {
    (addr + 0x1_0000 * len) as u32
}

/// The writes that set a buffer's address and length field.
pub open spec fn set_buffer(ram: UsbRam, index: int, buffer: PacketBuffer, addr: u16, len_bits: u16) -> Seq<Op> {
    let half = if buffer == PacketBuffer::Tx {
        0int
    } else {
        1
    };
    if ram.is_32bit() {
        seq![Op::WriteMem((index * 2 + half) as usize, packed(addr, len_bits))]
    } else {
        seq![
            Op::WriteMem((index * 4 + 2 * half) as usize, addr as u32),
            Op::WriteMem((index * 4 + 2 * half + 1) as usize, len_bits as u32),
        ]
    }
}

/// The writes that set an IN buffer's address; no packet is in it yet.
pub open spec fn set_address(ram: UsbRam, index: int, buffer: PacketBuffer, addr: u16) -> Seq<Op> {
    let half = if buffer == PacketBuffer::Tx {
        0int
    } else {
        1
    };
    if ram.is_32bit() {
        seq![Op::WriteMem((index * 2 + half) as usize, packed(addr, 0))]
    } else {
        seq![Op::WriteMem((index * 4 + 2 * half) as usize, addr as u32)]
    }
}

/// The writes that set the length of the packet in an IN buffer.
pub open spec fn set_length(ram: UsbRam, index: int, buffer: PacketBuffer, addr: u16, len: u16) -> Seq<Op> {
    let half = if buffer == PacketBuffer::Tx {
        0int
    } else {
        1
    };
    if ram.is_32bit() {
        seq![Op::WriteMem((index * 2 + half) as usize, packed(addr, len))]
    } else {
        seq![Op::WriteMem((index * 4 + 2 * half + 1) as usize, len as u32)]
    }
}

/// Index of the word that holds the length of the packet in an OUT buffer.
pub open spec fn length_word(ram: UsbRam, index: int, buffer: PacketBuffer) -> int {
    let half = if buffer == PacketBuffer::Tx {
        0int
    } else {
        1
    };
    if ram.is_32bit() {
        index * 2 + half
    } else {
        index * 4 + 2 * half + 1
    }
}

/// The length field in the word with index `length_word`.
pub open spec fn length_field(ram: UsbRam, word: u32) -> int {
    if ram.is_32bit() {
        word as int / 0x1_0000
    } else {
        word as int % 0x1_0000
    }
}

proof fn lemma_packed(addr: u16, len: u16)
    ensures
        (addr as u32) | ((len as u32) << 16) == packed(addr, len),
{
    let a = addr as u32;
    let l = len as u32;
    assert((a | (l << 16)) == a + 0x1_0000 * l) by (bit_vector)
        requires
            a < 0x1_0000,
            l < 0x1_0000,
    ;
}

/// Packs a buffer's address and length into one word.
fn pack(addr: u16, len: u16) -> (r: u32)
    ensures
        r == packed(addr, len),
{
    proof {
        lemma_packed(addr, len);
    }
    (addr as u32) | ((len as u32) << 16)
}

/// Sets the address of the TX buffer, for 16-bit words.
pub fn write_in_tx(ram: UsbRam, index: usize, addr: u16, ops: &mut Vec<Op>)
    requires
        index < EP_COUNT,
        !ram.is_32bit(),
    ensures
        final(ops)@ == old(ops)@ + set_address(ram, index as int, PacketBuffer::Tx, addr),
{
    ops.push(Op::WriteMem(index * 4 + 0, addr as u32));
}

/// Sets the address of the RX buffer, for 16-bit words.
pub fn write_in_rx(ram: UsbRam, index: usize, addr: u16, ops: &mut Vec<Op>)
    requires
        index < EP_COUNT,
        !ram.is_32bit(),
    ensures
        final(ops)@ == old(ops)@ + set_address(ram, index as int, PacketBuffer::Rx, addr),
{
    ops.push(Op::WriteMem(index * 4 + 2, addr as u32));
}

/// Sets the length of the packet in the TX buffer; with 32-bit words its address as well.
pub fn write_in_len_tx(ram: UsbRam, index: usize, addr: u16, len: u16, ops: &mut Vec<Op>)
    requires
        index < EP_COUNT,
        ram.is_32bit() ==> addr % 4 == 0,
    ensures
        final(ops)@ == old(ops)@ + set_length(ram, index as int, PacketBuffer::Tx, addr, len),
{
    if ram.is_32bit() {
        ops.push(Op::WriteMem(index * 2, pack(addr, len)));
    } else {
        ops.push(Op::WriteMem(index * 4 + 1, len as u32));
    }
}

/// Sets the length of the packet in the RX buffer; with 32-bit words its address as well.
pub fn write_in_len_rx(ram: UsbRam, index: usize, addr: u16, len: u16, ops: &mut Vec<Op>)
    requires
        index < EP_COUNT,
        ram.is_32bit() ==> addr % 4 == 0,
    ensures
        final(ops)@ == old(ops)@ + set_length(ram, index as int, PacketBuffer::Rx, addr, len),
{
    if ram.is_32bit() {
        ops.push(Op::WriteMem(index * 2 + 1, pack(addr, len)));
    } else {
        ops.push(Op::WriteMem(index * 4 + 3, len as u32));
    }
}

/// Sets address and size of the RX buffer.
pub fn write_out_rx(ram: UsbRam, index: usize, addr: u16, max_len_bits: u16, ops: &mut Vec<Op>)
    requires
        index < EP_COUNT,
    ensures
        final(ops)@ == old(ops)@ + set_buffer(ram, index as int, PacketBuffer::Rx, addr, max_len_bits),
{
    if ram.is_32bit() {
        ops.push(Op::WriteMem(index * 2 + 1, pack(addr, max_len_bits)));
    } else {
        ops.push(Op::WriteMem(index * 4 + 2, addr as u32));
        ops.push(Op::WriteMem(index * 4 + 3, max_len_bits as u32));
    }
}

/// Sets address and size of the TX buffer.
pub fn write_out_tx(ram: UsbRam, index: usize, addr: u16, max_len_bits: u16, ops: &mut Vec<Op>)
    requires
        index < EP_COUNT,
    ensures
        final(ops)@ == old(ops)@ + set_buffer(ram, index as int, PacketBuffer::Tx, addr, max_len_bits),
{
    if ram.is_32bit() {
        ops.push(Op::WriteMem(index * 2, pack(addr, max_len_bits)));
    } else {
        ops.push(Op::WriteMem(index * 4 + 0, addr as u32));
        ops.push(Op::WriteMem(index * 4 + 1, max_len_bits as u32));
    }
}

/// Index of the word that holds the length of the packet in this buffer.
pub fn out_len_word(ram: UsbRam, index: usize, buffer: PacketBuffer) -> (r: usize)
    requires
        index < EP_COUNT,
    ensures
        r == length_word(ram, index as int, buffer),
{
    match (ram.is_32bit(), buffer) {
        (true, PacketBuffer::Tx) => index * 2,
        (true, PacketBuffer::Rx) => index * 2 + 1,
        (false, PacketBuffer::Tx) => index * 4 + 1,
        (false, PacketBuffer::Rx) => index * 4 + 3,
    }
}

/// The length field of the word that `out_len_word` names.
pub fn read_out_len(ram: UsbRam, word: u32) -> (r: u16)
    ensures
        r == length_field(ram, word),
{
    proof {
        assert((word >> 16) as u16 == word / 0x1_0000) by (bit_vector);
        assert(word as u16 == word % 0x1_0000) by (bit_vector);
    }
    if ram.is_32bit() {
        (word >> 16) as u16
    } else {
        #[verifier::truncate]
        (word as u16)
    }
}

/// The length field that was entered for one buffer is what is read back, whatever is entered
/// afterwards for any other buffer: address and length, address alone, or length.
pub proof fn law_length_read_back(
    ram: UsbRam,
    mem: Seq<u32>,
    index: int,
    buffer: PacketBuffer,
    addr: u16,
    len_bits: u16,
    other_index: int,
    other_buffer: PacketBuffer,
    other_addr: u16,
    other_bits: u16,
)
    requires
        mem.len() == ram.spec_words(),
        0 <= index < EP_COUNT,
        0 <= other_index < EP_COUNT,
        (index, buffer) != (other_index, other_buffer),
    ensures
        ({
            let word = length_word(ram, index, buffer);
            let entry = set_buffer(ram, index, buffer, addr, len_bits);
            let a = set_buffer(ram, other_index, other_buffer, other_addr, other_bits);
            let b = set_address(ram, other_index, other_buffer, other_addr);
            let c = set_length(ram, other_index, other_buffer, other_addr, other_bits);
            &&& length_field(ram, crate::buffer::mem_after(mem, entry)[word]) == len_bits
            &&& length_field(ram, crate::buffer::mem_after(mem, entry + a)[word]) == len_bits
            &&& length_field(ram, crate::buffer::mem_after(mem, entry + b)[word]) == len_bits
            &&& length_field(ram, crate::buffer::mem_after(mem, entry + c)[word]) == len_bits
        }),
{
    let entry = set_buffer(ram, index, buffer, addr, len_bits);
    let a = set_buffer(ram, other_index, other_buffer, other_addr, other_bits);
    let b = set_address(ram, other_index, other_buffer, other_addr);
    let c = set_length(ram, other_index, other_buffer, other_addr, other_bits);
    let mid = crate::buffer::mem_after(mem, entry);
    let word = length_word(ram, index, buffer);
    crate::model::lemma_words(ram);
    crate::model::lemma_mem_after_add(mem, entry, a);
    crate::model::lemma_mem_after_add(mem, entry, b);
    crate::model::lemma_mem_after_add(mem, entry, c);
    if ram.is_32bit() {
        lemma_one_write(mem, entry);
        lemma_one_write(mid, a);
    } else {
        lemma_two_writes(mem, entry);
        lemma_two_writes(mid, a);
    }
    lemma_one_write(mid, b);
    lemma_one_write(mid, c);
    assert(length_field(ram, mid[word]) == len_bits);
}

/// Address of the entry of a buffer in the buffer table: eight bytes per endpoint, the TX buffer
/// first. The entry holds the buffer's address and then its length.
spec fn entry_address(index: int, buffer: PacketBuffer) -> int {
    8 * index + (if buffer == PacketBuffer::Rx {
        4int
    } else {
        0
    })
}

/// Entering a buffer leaves its address and its length field in the table, and every other byte
/// of packet memory as it was.
pub proof fn law_set_buffer(ram: UsbRam, mem: Seq<u32>, index: int, buffer: PacketBuffer, addr: u16, len_bits: u16)
    requires
        crate::model::mem_ok(ram, mem),
        0 <= index < EP_COUNT,
    ensures
        ({
            let ops = set_buffer(ram, index, buffer, addr, len_bits);
            let after = crate::buffer::mem_after(mem, ops);
            let entry = 8 * index + (if buffer == PacketBuffer::Rx {
                4int
            } else {
                0
            });
            &&& forall|i: int| 0 <= i < ops.len() ==> (#[trigger] ops[i]) is WriteMem
            &&& crate::model::mem_ok(ram, after)
            &&& crate::model::mem_half(ram, after, entry) == addr
            &&& crate::model::mem_half(ram, after, entry + 2) == len_bits
            &&& crate::model::same_but(ram, mem, after, entry, 4)
        }),
{
    let ops = set_buffer(ram, index, buffer, addr, len_bits);
    let after = crate::buffer::mem_after(mem, ops);
    let entry = entry_address(index, buffer);
    crate::model::lemma_words(ram);
    if ram.is_32bit() {
        let w = entry / 4;
        lemma_one_write(mem, ops);
        assert(after == mem.update(w, packed(addr, len_bits)));
        crate::model::lemma_wide_word_written(ram, mem, w, packed(addr, len_bits));
        assert(4 * w == entry);
    } else {
        let w = entry / 2;
        let mid = mem.update(w, addr as u32);
        lemma_two_writes(mem, ops);
        assert(after == mid.update(w + 1, len_bits as u32));
        assert(2 * w == entry);
        crate::model::lemma_narrow_word_written(ram, mem, w, addr as u32);
        crate::model::lemma_narrow_word_written(ram, mid, w + 1, len_bits as u32);
        crate::model::lemma_half_kept(ram, mid, after, entry + 2, 2, entry);
        crate::model::lemma_same_but_both(ram, mem, mid, after, entry);
    }
}

proof fn lemma_one_write(mem: Seq<u32>, ops: Seq<Op>)
    requires
        ops.len() == 1,
        ops[0] is WriteMem,
    ensures
        crate::buffer::mem_after(mem, ops) == mem.update(ops[0]->WriteMem_0 as int, ops[0]->WriteMem_1),
{
    assert(ops.drop_last() =~= seq![]);
    assert(crate::buffer::mem_after(mem, ops.drop_last()) == mem);
    assert(ops.last() == ops[0]);
}

proof fn lemma_two_writes(mem: Seq<u32>, ops: Seq<Op>)
    requires
        ops.len() == 2,
        ops[0] is WriteMem,
        ops[1] is WriteMem,
    ensures
        crate::buffer::mem_after(mem, ops) == mem.update(ops[0]->WriteMem_0 as int, ops[0]->WriteMem_1).update(
            ops[1]->WriteMem_0 as int,
            ops[1]->WriteMem_1,
        ),
{
    let one = ops.drop_last();
    lemma_one_write(mem, one);
    assert(one[0] == ops[0]);
    assert(ops.last() == ops[1]);
}

/// Entering the address of an IN buffer leaves the address in the table, and every other byte of
/// packet memory as it was, but that with 32-bit words the length becomes zero.
pub proof fn law_set_address(ram: UsbRam, mem: Seq<u32>, index: int, buffer: PacketBuffer, addr: u16)
    requires
        crate::model::mem_ok(ram, mem),
        0 <= index < EP_COUNT,
    ensures
        ({
            let ops = set_address(ram, index, buffer, addr);
            let after = crate::buffer::mem_after(mem, ops);
            let entry = 8 * index + (if buffer == PacketBuffer::Rx {
                4int
            } else {
                0
            });
            &&& forall|i: int| 0 <= i < ops.len() ==> (#[trigger] ops[i]) is WriteMem
            &&& crate::model::mem_ok(ram, after)
            &&& crate::model::mem_half(ram, after, entry) == addr
            &&& crate::model::mem_half(ram, after, entry + 2) == (if ram.is_32bit() {
                0
            } else {
                crate::model::mem_half(ram, mem, entry + 2)
            })
            &&& crate::model::same_but(ram, mem, after, entry, 4)
        }),
{
    let ops = set_address(ram, index, buffer, addr);
    let after = crate::buffer::mem_after(mem, ops);
    let entry = entry_address(index, buffer);
    crate::model::lemma_words(ram);
    lemma_one_write(mem, ops);
    if ram.is_32bit() {
        let w = entry / 4;
        assert(after == mem.update(w, packed(addr, 0)));
        crate::model::lemma_wide_word_written(ram, mem, w, packed(addr, 0));
        assert(4 * w == entry);
    } else {
        let w = entry / 2;
        assert(after == mem.update(w, addr as u32));
        assert(2 * w == entry);
        crate::model::lemma_narrow_word_written(ram, mem, w, addr as u32);
        crate::model::lemma_half_kept(ram, mem, after, entry, 2, entry + 2);
    }
}

/// Entering the length of a packet leaves the length in the table, and every other byte of packet
/// memory as it was, but that with 32-bit words the address is entered too.
pub proof fn law_set_length(ram: UsbRam, mem: Seq<u32>, index: int, buffer: PacketBuffer, addr: u16, len: u16)
    requires
        crate::model::mem_ok(ram, mem),
        0 <= index < EP_COUNT,
    ensures
        ({
            let ops = set_length(ram, index, buffer, addr, len);
            let after = crate::buffer::mem_after(mem, ops);
            let entry = 8 * index + (if buffer == PacketBuffer::Rx {
                4int
            } else {
                0
            });
            &&& forall|i: int| 0 <= i < ops.len() ==> (#[trigger] ops[i]) is WriteMem
            &&& crate::model::mem_ok(ram, after)
            &&& crate::model::mem_half(ram, after, entry) == (if ram.is_32bit() {
                addr as int
            } else {
                crate::model::mem_half(ram, mem, entry)
            })
            &&& crate::model::mem_half(ram, after, entry + 2) == len
            &&& crate::model::same_but(ram, mem, after, entry, 4)
        }),
{
    let ops = set_length(ram, index, buffer, addr, len);
    let after = crate::buffer::mem_after(mem, ops);
    let entry = entry_address(index, buffer);
    crate::model::lemma_words(ram);
    lemma_one_write(mem, ops);
    if ram.is_32bit() {
        let w = entry / 4;
        assert(after == mem.update(w, packed(addr, len)));
        crate::model::lemma_wide_word_written(ram, mem, w, packed(addr, len));
        assert(4 * w == entry);
    } else {
        let w = entry / 2 + 1;
        assert(after == mem.update(w, len as u32));
        assert(2 * w == entry + 2);
        crate::model::lemma_narrow_word_written(ram, mem, w, len as u32);
        crate::model::lemma_half_kept(ram, mem, after, entry + 2, 2, entry);
    }
}

/// The length of the packet in a buffer is read from the third and fourth byte of the buffer's
/// entry.
pub proof fn law_length_location(ram: UsbRam, mem: Seq<u32>, index: int, buffer: PacketBuffer)
    requires
        crate::model::mem_ok(ram, mem),
        0 <= index < EP_COUNT,
    ensures
        ({
            let at = 8 * index + (if buffer == PacketBuffer::Rx {
                6int
            } else {
                2
            });
            &&& length_word(ram, index, buffer) == at / ram.align() as int
            &&& 0 <= length_word(ram, index, buffer) < mem.len()
            &&& length_field(ram, mem[length_word(ram, index, buffer)]) == crate::model::mem_half(ram, mem, at)
        }),
{
    let entry = entry_address(index, buffer);
    crate::model::lemma_words(ram);
    if ram.is_32bit() {
        crate::model::lemma_halves(ram, mem, entry / 4);
        assert((entry + 2) / 4 == entry / 4);
    } else {
        crate::model::lemma_halves(ram, mem, entry / 2 + 1);
    }
}

} // verus!
