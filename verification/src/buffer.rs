//! Packet buffers.

use vstd::prelude::*;
use core::marker::PhantomData;
use crate::instance::Instance;
use crate::types::{Op, UsbRam};

verus! {

/// `n` rounded up to a multiple of `a`.
pub open spec fn align_up(n: int, a: int) -> int {
    (n + a - 1) / a * a
}

/// Length of the buffer of an IN endpoint with packets of up to `len` bytes: the next multiple
/// of the word size, in 16 bits.
pub open spec fn in_len(ram: UsbRam, len: u16) -> int {
    align_up(len as int, ram.align() as int) % 0x1_0000
}

/// Length of the buffer of an OUT endpoint with packets of up to `len` bytes.
pub open spec fn out_len(ram: UsbRam, len: u16) -> int {
    if len <= 60 {
        align_up(len as int, ram.align() as int)
    } else {
        align_up(len as int, 32)
    }
}

/// The field that states the length of an OUT buffer: bit 15 selects blocks of 32 rather than 2
/// bytes, and the bits from 10 up hold the number of blocks, less one for blocks of 32.
pub open spec fn out_len_bits(ram: UsbRam, len: u16) -> int {
    if len <= 60 {
        out_len(ram, len) / 2 * 0x400
    } else {
        0x8000 + (out_len(ram, len) / 32 - 1) * 0x400
    }
}

/// The number of bytes that a length field makes room for.
pub open spec fn field_capacity(bits: int) -> int {
    if bits >= 0x8000 {
        ((bits - 0x8000) / 0x400 + 1) * 32
    } else {
        bits / 0x400 * 2
    }
}

/// Rounds a length up to a multiple of the word size.
pub fn align_len_up(ram: UsbRam, len: u16) -> (r: u16)
    ensures
        r == in_len(ram, len),
{
    let align: u32 = ram.align() as u32;
    proof {
        if ram.is_32bit() {
            assert(align == 4);
        } else {
            assert(align == 2);
        }
    }
    let up: u32 = (len as u32 + align - 1) / align * align;
    proof {
        assert(up as u16 == up % 0x1_0000) by (bit_vector);
    }
    #[verifier::truncate]
    (up as u16)
}

/// Length of the buffer of an OUT endpoint, and the field that states it.
pub fn calc_out_len(ram: UsbRam, len: u16) -> (r: (u16, u16))
    requires
        2 <= len <= 1024,
    ensures
        r.0 == out_len(ram, len),
        r.1 == out_len_bits(ram, len),
{
    if len <= 60 {
        // 62 would do with 16-bit words, but not with 32-bit words.
        let up: u16 = align_len_up(ram, len);
        let half: u16 = up / 2;
        proof {
            assert(half << 10 == half * 0x400) by (bit_vector)
                requires
                    half <= 30,
            ;
        }
        (up, half << 10)
    } else {
        let blocks: u16 = (len + 31) / 32;
        let less: u16 = blocks - 1;
        proof {
            assert(((less << 10) | 0x8000) == less * 0x400 + 0x8000) by (bit_vector)
                requires
                    less < 32,
            ;
        }
        (blocks * 32, (less << 10) | 0x8000)
    }
}

/// The length field of an OUT buffer makes room for exactly the buffer's length, which is at
/// least the packet size asked for and a multiple of the word size. Up to 60 bytes it is the least
/// such multiple, counted in blocks of 2 bytes, and above that the least multiple of 32, counted
/// in blocks of 32 bytes.
pub proof fn law_out_len(ram: UsbRam, len: u16)
    requires
        2 <= len <= 1024,
    ensures
        field_capacity(out_len_bits(ram, len)) == out_len(ram, len),
        len <= out_len(ram, len) < len + 32,
        out_len(ram, len) <= 1024,
        out_len(ram, len) % ram.align() as int == 0,
        len <= 60 ==> out_len(ram, len) < len + ram.align(),
        len > 60 ==> out_len(ram, len) % 32 == 0,
        0 <= out_len_bits(ram, len) < 0x1_0000,
        out_len_bits(ram, len) % 0x400 == 0,
        out_len_bits(ram, len) >= 0x8000 <==> len > 60,
        len <= 60 ==> out_len_bits(ram, len) / 0x400 * 2 == out_len(ram, len),
        len > 60 ==> ((out_len_bits(ram, len) - 0x8000) / 0x400 + 1) * 32 == out_len(ram, len),
{
    if ram.is_32bit() {
        assert(ram.align() == 4);
    } else {
        assert(ram.align() == 2);
    }
}

/// The length of an IN buffer is the packet size rounded up to a multiple of the word size,
/// as long as the result is less than 2^16.
///
/// A packet size beyond that gives a buffer without any bytes: see `law_in_len_overflow`.
pub proof fn law_in_len(ram: UsbRam, len: u16)
    requires
        len <= 0x1_0000 - ram.align(),
    ensures
        len <= in_len(ram, len) < len + ram.align(),
        in_len(ram, len) % ram.align() as int == 0,
{
    if ram.is_32bit() {
        assert(ram.align() == 4);
    } else {
        assert(ram.align() == 2);
    }
}

/// The length of an IN buffer is zero if the packet size rounded up is 2^16.
pub proof fn law_in_len_overflow(ram: UsbRam, len: u16)
    requires
        len > 0x1_0000 - ram.align(),
    ensures
        in_len(ram, len) == 0,
{
    if ram.is_32bit() {
        assert(ram.align() == 4);
    } else {
        assert(ram.align() == 2);
    }
}

/// Byte `j` of a packet, zero past its end.
pub open spec fn byte_at(bytes: Seq<u8>, j: int) -> int {
    if 0 <= j < bytes.len() {
        bytes[j] as int
    } else {
        0
    }
}

/// Word `i` of a packet: its bytes in little-endian order, filled up with zeros.
pub open spec fn packet_word(ram: UsbRam, bytes: Seq<u8>, i: int) -> u32 {
    if ram.is_32bit() {
        (byte_at(bytes, 4 * i) + 0x100 * byte_at(bytes, 4 * i + 1) + 0x1_0000 * byte_at(bytes, 4 * i + 2) + 0x100_0000
            * byte_at(bytes, 4 * i + 3)) as u32
    } else {
        (byte_at(bytes, 2 * i) + 0x100 * byte_at(bytes, 2 * i + 1)) as u32
    }
}

/// Number of words that `n` bytes take.
pub open spec fn word_count(ram: UsbRam, n: int) -> int {
    (n + ram.align() - 1) / ram.align() as int
}

/// Byte `k` of a word, counted from the low end.
pub open spec fn word_byte(word: u32, k: int) -> u8 {
    (if k == 0 {
        word as int % 0x100
    } else if k == 1 {
        word as int / 0x100 % 0x100
    } else if k == 2 {
        word as int / 0x1_0000 % 0x100
    } else {
        word as int / 0x100_0000 % 0x100
    }) as u8
}

/// Byte `j` of the packet in these words.
pub open spec fn packet_byte(ram: UsbRam, words: Seq<u32>, j: int) -> u8 {
    word_byte(words[j / ram.align() as int], j % ram.align() as int)
}

/// Packet memory after a list of accesses.
pub open spec fn mem_after(mem: Seq<u32>, ops: Seq<Op>) -> Seq<u32>
    decreases ops.len(),
{
    if ops.len() == 0 {
        mem
    } else {
        let before = mem_after(mem, ops.drop_last());
        match ops.last() {
            Op::WriteMem(word, val) => before.update(word as int, val),
            _ => before,
        }
    }
}

/// A packet buffer of the peripheral `T`.
pub struct EndpointBuffer<T: Instance> {
    /// Address in packet memory, in bytes.
    pub addr: u16,
    /// Length in bytes.
    pub len: u16,
    pub _phantom: PhantomData<T>,
}

impl<T: Instance> EndpointBuffer<T> {
    /// Whether the buffer is made of whole words inside packet memory, behind the buffer table.
    pub open spec fn wf(&self) -> bool {
        let align = T::CHIP.ram.align() as int;
        &&& self.addr as int % align == 0
        &&& self.len as int % align == 0
        &&& 64 <= self.addr
        &&& self.addr + self.len <= T::CHIP.ram.size()
    }

    /// Index of the buffer's first word.
    pub open spec fn first_word(&self) -> int {
        self.addr as int / T::CHIP.ram.align() as int
    }

    /// The accesses that write a packet.
    pub open spec fn write_ops(&self, bytes: Seq<u8>) -> Seq<Op> {
        Seq::new(
            word_count(T::CHIP.ram, bytes.len() as int) as nat,
            |i: int| Op::WriteMem((self.first_word() + i) as usize, packet_word(T::CHIP.ram, bytes, i)),
        )
    }

    /// Takes a packet of `n` bytes out of the words it was read in, into the first `n` bytes of
    /// `buf`.
    pub fn read(&mut self, words: &[u32], n: usize, buf: &mut [u8])
        requires
            n <= old(self).len,
            n <= old(buf)@.len(),
            words@.len() == word_count(T::CHIP.ram, n as int),
        ensures
            *final(self) == *old(self),
            final(buf)@.len() == old(buf)@.len(),
            forall|j: int| 0 <= j < n ==> final(buf)@[j] == packet_byte(T::CHIP.ram, words@, j),
            forall|j: int| n <= j < old(buf)@.len() ==> final(buf)@[j] == old(buf)@[j],
    {
        let ram = T::CHIP.ram;
        let align: usize = ram.align();
        let mut j: usize = 0;
        while j < n
            invariant
                ram == T::CHIP.ram,
                align == ram.align(),
                j <= n <= buf@.len(),
                buf@.len() == old(buf)@.len(),
                words@.len() == word_count(ram, n as int),
                forall|i: int| 0 <= i < j ==> buf@[i] == packet_byte(ram, words@, i),
                forall|i: int| j <= i < buf@.len() ==> buf@[i] == old(buf)@[i],
            decreases n - j,
        {
            assert(align == 2 || align == 4);
            let word: u32 = words[j / align];
            let k: u32 = (j % align) as u32;
            let byte: u8 = nth_byte(word, k);
            buf[j] = byte;
            j = j + 1;
        }
    }

    /// Lists the accesses that write a packet.
    pub fn write(&mut self, buf: &[u8], ops: &mut Vec<Op>)
        requires
            buf@.len() <= old(self).len,
        ensures
            *final(self) == *old(self),
            final(ops)@ == old(ops)@ + old(self).write_ops(buf@),
    {
        let ram = T::CHIP.ram;
        let align: usize = ram.align();
        assert(align == 2 || align == 4);
        let words: usize = (buf.len() + align - 1) / align;
        let first: usize = self.addr as usize / align;
        let mut i: usize = 0;
        while i < words
            invariant
                ram == T::CHIP.ram,
                align == ram.align(),
                buf@.len() <= 0xffff,
                words == word_count(ram, buf@.len() as int),
                first == self.first_word(),
                first <= 0xffff,
                *self == *old(self),
                i <= words,
                ops@ == old(ops)@ + self.write_ops(buf@).take(i as int),
            decreases words - i,
        {
            assert(align == 2 || align == 4);
            let val: u32 = if ram.is_32bit() {
                byte_or_zero(buf, 4 * i) + 0x100 * byte_or_zero(buf, 4 * i + 1) + 0x1_0000 * byte_or_zero(buf, 4 * i + 2)
                    + 0x100_0000 * byte_or_zero(buf, 4 * i + 3)
            } else {
                byte_or_zero(buf, 2 * i) + 0x100 * byte_or_zero(buf, 2 * i + 1)
            };
            ops.push(Op::WriteMem(first + i, val));
            assert(self.write_ops(buf@).take(i + 1) =~= self.write_ops(buf@).take(i as int).push(
                self.write_ops(buf@)[i as int],
            ));
            i = i + 1;
        }
        assert(self.write_ops(buf@).take(words as int) =~= self.write_ops(buf@));
    }
}

/// Byte `j` of a packet, zero past its end.
fn byte_or_zero(buf: &[u8], j: usize) -> (r: u32)
    ensures
        r == byte_at(buf@, j as int),
        r <= 0xff,
{
    if j < buf.len() {
        buf[j] as u32
    } else {
        0
    }
}

/// Byte `k` of a word, counted from the low end.
fn nth_byte(word: u32, k: u32) -> (r: u8)
    requires
        k < 4,
    ensures
        r == word_byte(word, k as int),
{
    proof {
        assert((word >> 0u32) & 0xff == word % 0x100 && (word >> 8u32) & 0xff == word / 0x100 % 0x100 && (word >> 16u32)
            & 0xff == word / 0x1_0000 % 0x100 && (word >> 24u32) & 0xff == word / 0x100_0000 % 0x100) by (bit_vector);
    }
    ((word >> (8 * k)) & 0xff) as u8
}

proof fn lemma_writes<T: Instance>(buffer: EndpointBuffer<T>, mem: Seq<u32>, bytes: Seq<u8>, n: int)
    requires
        0 <= n <= word_count(T::CHIP.ram, bytes.len() as int),
        buffer.first_word() + n <= mem.len() <= usize::MAX,
    ensures
        mem_after(mem, buffer.write_ops(bytes).take(n)) == Seq::new(
            mem.len(),
            |w: int|
                if buffer.first_word() <= w < buffer.first_word() + n {
                    packet_word(T::CHIP.ram, bytes, w - buffer.first_word())
                } else {
                    mem[w]
                },
        ),
    decreases n,
{
    let ops = buffer.write_ops(bytes);
    if n > 0 {
        lemma_writes(buffer, mem, bytes, n - 1);
        assert(ops.take(n).drop_last() =~= ops.take(n - 1));
        assert(ops.take(n).last() == ops[n - 1]);
    }
    assert(mem_after(mem, ops.take(n)) =~= Seq::new(
        mem.len(),
        |w: int|
            if buffer.first_word() <= w < buffer.first_word() + n {
                packet_word(T::CHIP.ram, bytes, w - buffer.first_word())
            } else {
                mem[w]
            },
    ));
}

proof fn lemma_packet_byte(ram: UsbRam, bytes: Seq<u8>, j: int)
    requires
        0 <= j < bytes.len(),
    ensures
        word_byte(packet_word(ram, bytes, j / ram.align() as int), j % ram.align() as int) == bytes[j],
{
    let i = j / ram.align() as int;
    if ram.is_32bit() {
        assert(ram.align() == 4);
        let b0 = byte_at(bytes, 4 * i);
        let b1 = byte_at(bytes, 4 * i + 1);
        let b2 = byte_at(bytes, 4 * i + 2);
        let b3 = byte_at(bytes, 4 * i + 3);
        let w = b0 + 0x100 * b1 + 0x1_0000 * b2 + 0x100_0000 * b3;
        assert(packet_word(ram, bytes, i) == w);
        assert(w % 0x100 == b0);
        assert(w / 0x100 == b1 + 0x100 * b2 + 0x1_0000 * b3);
        assert(w / 0x1_0000 == b2 + 0x100 * b3);
        assert(w / 0x100_0000 == b3);
    } else {
        assert(ram.align() == 2);
    }
}

proof fn lemma_words(a: int, addr: int, len: int, size: int, n: int)
    requires
        a == 2 || a == 4,
        addr % a == 0,
        len % a == 0,
        size % a == 0,
        0 <= addr,
        0 <= n <= len,
        addr + len <= size,
    ensures
        (n + a - 1) / a <= len / a,
        addr / a + len / a <= size / a,
        addr / a * a == addr,
        len / a * a == len,
        size / a * a == size,
        forall|j: int| 0 <= j < n ==> 0 <= #[trigger] (j / a) < (n + a - 1) / a,
{
    if a == 2 {
        assert((n + 1) / 2 <= len / 2);
        assert(addr / 2 + len / 2 <= size / 2);
        assert(forall|j: int| 0 <= j < n ==> 0 <= #[trigger] (j / 2) < (n + 1) / 2);
    } else {
        assert((n + 3) / 4 <= len / 4);
        assert(addr / 4 + len / 4 <= size / 4);
        assert(forall|j: int| 0 <= j < n ==> 0 <= #[trigger] (j / 4) < (n + 3) / 4);
    }
}

impl<T: Instance> EndpointBuffer<T> {
    /// What is read from a buffer after a packet was written to it is the packet, and no word of
    /// packet memory outside the buffer changes.
    pub proof fn law_read_back(self, mem: Seq<u32>, bytes: Seq<u8>)
        requires
            self.wf(),
            bytes.len() <= self.len,
            mem.len() == T::CHIP.ram.spec_words(),
        ensures
            ({
                let count = word_count(T::CHIP.ram, bytes.len() as int);
                let after = mem_after(mem, self.write_ops(bytes));
                let words = after.subrange(self.first_word(), self.first_word() + count);
                &&& after.len() == mem.len()
                &&& forall|j: int| 0 <= j < bytes.len() ==> packet_byte(T::CHIP.ram, words, j) == bytes[j]
                &&& forall|w: int|
                    0 <= w < mem.len() && !(self.addr <= w * T::CHIP.ram.align() < self.addr + self.len) ==> after[w]
                        == mem[w]
            }),
    {
        let ram = T::CHIP.ram;
        let count = word_count(ram, bytes.len() as int);
        let a = ram.align() as int;
        assert(ram.size() as int % a == 0) by {
            if ram.is_32bit() {
                assert(a == 4);
            } else {
                assert(a == 2);
            }
        }
        lemma_words(a, self.addr as int, self.len as int, ram.size() as int, bytes.len() as int);
        let after = mem_after(mem, self.write_ops(bytes));
        let words = after.subrange(self.first_word(), self.first_word() + count);
        assert(self.write_ops(bytes).take(count) =~= self.write_ops(bytes));
        lemma_writes(self, mem, bytes, count);
        assert forall|j: int| 0 <= j < bytes.len() implies packet_byte(ram, words, j) == bytes[j] by {
            lemma_packet_byte(ram, bytes, j);
            let i = j / ram.align() as int;
            assert(0 <= i < count);
            assert(words[i] == packet_word(ram, bytes, i));
        }
        assert forall|w: int|
            0 <= w < mem.len() && !(self.addr <= w * T::CHIP.ram.align() < self.addr + self.len) implies after[w]
            == mem[w] by {
            let f = self.first_word();
            if f <= w < f + count {
                assert(f * a <= w * a < (f + self.len as int / a) * a) by (nonlinear_arith)
                    requires
                        f <= w < f + self.len as int / a,
                        a > 0,
                ;
                assert((f + self.len as int / a) * a == f * a + self.len as int / a * a) by (nonlinear_arith);
            }
        }
    }

    /// Writing a packet to a buffer leaves every packet in a buffer that does not overlap it.
    pub proof fn law_write_is_local(self, other: EndpointBuffer<T>, mem: Seq<u32>, bytes: Seq<u8>, w: int)
        requires
            self.wf(),
            other.wf(),
            self.addr + self.len <= other.addr || other.addr + other.len <= self.addr,
            bytes.len() <= self.len,
            mem.len() == T::CHIP.ram.spec_words(),
            other.addr <= w * T::CHIP.ram.align() < other.addr + other.len,
        ensures
            mem_after(mem, self.write_ops(bytes))[w] == mem[w],
    {
        let a = T::CHIP.ram.align() as int;
        let size = T::CHIP.ram.size() as int;
        if T::CHIP.ram.is_32bit() {
            assert(w * 4 < size);
        } else {
            assert(w * 2 < size);
        }
        self.law_read_back(mem, bytes);
    }
}

proof fn lemma_packet_word(ram: UsbRam, bytes: Seq<u8>, i: int)
    requires
        0 <= i,
    ensures
        !ram.is_32bit() ==> {
            let w = packet_word(ram, bytes, i) as int;
            &&& w < 0x1_0000
            &&& w % 0x100 == byte_at(bytes, 2 * i)
            &&& w / 0x100 % 0x100 == byte_at(bytes, 2 * i + 1)
        },
        ram.is_32bit() ==> {
            let w = packet_word(ram, bytes, i) as int;
            &&& w % 0x100 == byte_at(bytes, 4 * i)
            &&& w / 0x100 % 0x100 == byte_at(bytes, 4 * i + 1)
            &&& w / 0x1_0000 % 0x100 == byte_at(bytes, 4 * i + 2)
            &&& w / 0x100_0000 % 0x100 == byte_at(bytes, 4 * i + 3)
        },
{
    if ram.is_32bit() {
        let b0 = byte_at(bytes, 4 * i);
        let b1 = byte_at(bytes, 4 * i + 1);
        let b2 = byte_at(bytes, 4 * i + 2);
        let b3 = byte_at(bytes, 4 * i + 3);
        let w = b0 + 0x100 * b1 + 0x1_0000 * b2 + 0x100_0000 * b3;
        assert(packet_word(ram, bytes, i) == w);
        assert(w % 0x100 == b0);
        assert(w / 0x100 == b1 + 0x100 * b2 + 0x1_0000 * b3);
        assert(w / 0x1_0000 == b2 + 0x100 * b3);
        assert(w / 0x100_0000 == b3);
    } else {
        let b0 = byte_at(bytes, 2 * i);
        let b1 = byte_at(bytes, 2 * i + 1);
        assert(packet_word(ram, bytes, i) == b0 + 0x100 * b1);
    }
}

impl<T: Instance> EndpointBuffer<T> {
    /// Writing a packet puts its bytes, in order, at the addresses from the buffer's up. What is
    /// left of the last word becomes zero, and every other byte of packet memory stays.
    pub proof fn law_bytes_written(self, mem: Seq<u32>, bytes: Seq<u8>)
        requires
            self.wf(),
            bytes.len() <= self.len,
            crate::model::mem_ok(T::CHIP.ram, mem),
        ensures
            ({
                let ram = T::CHIP.ram;
                let ops = self.write_ops(bytes);
                let after = mem_after(mem, ops);
                &&& forall|i: int| 0 <= i < ops.len() ==> (#[trigger] ops[i]) is WriteMem
                &&& crate::model::mem_ok(ram, after)
                &&& forall|a: int|
                    0 <= a < ram.size() ==> #[trigger] crate::model::mem_byte(ram, after, a) == (if self.addr <= a
                        < self.addr + bytes.len() {
                        bytes[a - self.addr] as int
                    } else if self.addr + bytes.len() <= a && a - a % (ram.align() as int) < self.addr + bytes.len() {
                        0
                    } else {
                        crate::model::mem_byte(ram, mem, a)
                    })
            }),
    {
        let ram = T::CHIP.ram;
        let ops = self.write_ops(bytes);
        let after = mem_after(mem, ops);
        let count = word_count(ram, bytes.len() as int);
        let first = self.first_word();
        let addr = self.addr as int;
        crate::model::lemma_words(ram);
        assert(ops.take(count) =~= ops);
        if ram.is_32bit() {
            assert(first == addr / 4 && count == (bytes.len() + 3) / 4 && addr % 4 == 0 && self.len as int % 4 == 0);
            assert(first + count <= mem.len());
        } else {
            assert(first == addr / 2 && count == (bytes.len() + 1) / 2 && addr % 2 == 0 && self.len as int % 2 == 0);
            assert(first + count <= mem.len());
        }
        lemma_writes(self, mem, bytes, count);
        assert forall|i: int| 0 <= i < after.len() && !ram.is_32bit() implies (#[trigger] after[i]) < 0x1_0000 by {
            if first <= i < first + count {
                lemma_packet_word(ram, bytes, i - first);
            }
        }
        assert forall|a: int| 0 <= a < ram.size() implies #[trigger] crate::model::mem_byte(ram, after, a) == (if self.addr
            <= a < self.addr + bytes.len() {
            bytes[a - self.addr] as int
        } else if self.addr + bytes.len() <= a && a - a % (ram.align() as int) < self.addr + bytes.len() {
            0
        } else {
            crate::model::mem_byte(ram, mem, a)
        }) by {
            if ram.is_32bit() {
                let i = a / 4 - first;
                assert(a % ram.align() as int == a % 4);
                if 0 <= i < count {
                    lemma_packet_word(ram, bytes, i);
                    assert(after[a / 4] == packet_word(ram, bytes, i));
                    assert(4 * i + a % 4 == a - addr);
                } else {
                    assert(after[a / 4] == mem[a / 4]);
                }
            } else {
                let i = a / 2 - first;
                assert(a % ram.align() as int == a % 2);
                if 0 <= i < count {
                    lemma_packet_word(ram, bytes, i);
                    assert(after[a / 2] == packet_word(ram, bytes, i));
                    assert(2 * i + a % 2 == a - addr);
                } else {
                    assert(after[a / 2] == mem[a / 2]);
                }
            }
        }
    }

    /// The words in which a packet of `n` bytes is read start at the buffer's address and are just
    /// enough for `n` bytes, and byte `j` of the packet is the byte at the buffer's address plus
    /// `j`.
    pub proof fn law_bytes_read(self, mem: Seq<u32>, n: int, j: int)
        requires
            self.wf(),
            0 <= n <= self.len,
            crate::model::mem_ok(T::CHIP.ram, mem),
        ensures
            ({
                let ram = T::CHIP.ram;
                let first = self.first_word();
                let count = word_count(ram, n);
                &&& first * ram.align() == self.addr
                &&& n <= count * ram.align() < n + ram.align()
                &&& 0 <= first && 0 <= count && first + count <= mem.len()
                &&& 0 <= j < n ==> packet_byte(ram, mem.subrange(first, first + count), j) == crate::model::mem_byte(
                    ram,
                    mem,
                    self.addr + j,
                )
            }),
    {
        let ram = T::CHIP.ram;
        let first = self.first_word();
        let count = word_count(ram, n);
        let addr = self.addr as int;
        crate::model::lemma_words(ram);
        let words = mem.subrange(first, first + count);
        if ram.is_32bit() {
            assert(first == addr / 4 && count == (n + 3) / 4 && addr % 4 == 0 && self.len as int % 4 == 0);
            assert(first + count <= mem.len());
            if 0 <= j < n {
                assert(j / 4 < count);
                assert((addr + j) / 4 == first + j / 4 && (addr + j) % 4 == j % 4);
                assert(words[j / 4] == mem[first + j / 4]);
            }
        } else {
            assert(first == addr / 2 && count == (n + 1) / 2 && addr % 2 == 0 && self.len as int % 2 == 0);
            assert(first + count <= mem.len());
            if 0 <= j < n {
                assert(j / 2 < count);
                assert((addr + j) / 2 == first + j / 2 && (addr + j) % 2 == j % 2);
                assert(words[j / 2] == mem[first + j / 2]);
            }
        }
    }
}

} // verus!
