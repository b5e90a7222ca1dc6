//! The bytecode file format's constants and the stream that bytecode is
//! written to.
use vstd::prelude::*;
use vstd::bytes::{
    spec_u16_to_le_bytes, spec_u32_to_le_bytes, spec_u64_to_le_bytes, u16_to_le_bytes,
    u32_to_le_bytes, u64_to_le_bytes,
};
use crate::opcode::Opcode;

verus! {

/// The magic number that opens a bytecode file.
pub const F750_MAGIC: u32 = 0xF750_0721;

/// The version of the bytecode file format.
pub const F750_VERSION: u32 = 1;

/// The unsigned LEB128 encoding of `v`: seven bits per byte, least
/// significant group first, the high bit set on every byte but the last.
pub open spec fn varint_bytes(v: nat) -> Seq<u8>
    decreases v,
{
    if v < 128 {
        seq![v as u8]
    } else {
        seq![((v % 128) + 128) as u8] + varint_bytes(v / 128)
    }
}

/// The value an unsigned LEB128 encoding stands for, read from the first
/// byte whose high bit is clear, and the number of bytes it spans.
pub open spec fn varint_decode(s: Seq<u8>) -> Option<(nat, nat)>
    decreases s.len(),
{
    if s.len() == 0 {
        None
    } else if s[0] < 128 {
        Some((s[0] as nat, 1))
    } else {
        match varint_decode(s.drop_first()) {
            Some((v, n)) => Some(((s[0] - 128) as nat + 128 * v, n + 1)),
            None => None,
        }
    }
}

/// The big-endian bytes of a 16-bit value.
pub open spec fn spec_u16_to_be_bytes(v: u16) -> Seq<u8> {
    spec_u16_to_le_bytes(v).reverse()
}

/// The big-endian bytes of a 32-bit value.
pub open spec fn spec_u32_to_be_bytes(v: u32) -> Seq<u8> {
    spec_u32_to_le_bytes(v).reverse()
}

/// The big-endian bytes of a 64-bit value.
pub open spec fn spec_u64_to_be_bytes(v: u64) -> Seq<u8> {
    spec_u64_to_le_bytes(v).reverse()
}

/// Whether `encode`, asked for the big-endian bytes of the floating point
/// value written as `text` (a 64-bit one when `double`, else a 32-bit
/// one), may answer `bytes`.
pub open spec fn float_encoding<F: Fn(&String, bool) -> Vec<u8>>(encode: F, text: Seq<char>, double: bool, bytes: Seq<u8>) -> bool {
    exists|t: &String, b: Vec<u8>| t@ == text && b@ == bytes && encode.ensures((t, double), b)
}

/// The bytes of a string followed by a zero byte.
pub open spec fn cstr_bytes(s: Seq<char>) -> Seq<u8> {
    vstd::utf8::encode_utf8(s) + seq![0u8]
}

/// A growable byte buffer that bytecode is written to.
#[derive(Debug)]
pub struct BytecodeStream {
    bytes: Vec<u8>,
}

impl View for BytecodeStream {
    type V = Seq<u8>;

    closed spec fn view(&self) -> Seq<u8> {
        self.bytes@
    }
}

impl BytecodeStream {
    /// An empty stream with room reserved for `cap` bytes.
    pub fn new(cap: usize) -> (r: Self)
        ensures
            r@ == Seq::<u8>::empty(),
    {
        BytecodeStream { bytes: Vec::with_capacity(cap) }
    }

    /// Returns the bytes written so far.
    pub fn bytes_ref(&self) -> (r: &[u8])
        ensures
            r@ == self@,
    {
        self.bytes.as_slice()
    }

    /// Returns the bytes written.
    pub fn into_bytes(self) -> (r: Vec<u8>)
        ensures
            r@ == self@,
    {
        self.bytes
    }

    /// Appends the byte that encodes `opcode`.
    pub fn write_opcode(&mut self, opcode: Opcode)
        ensures
            final(self)@ == old(self)@.push(opcode.spec_code()),
    {
        self.bytes.push(opcode.code());
    }

    /// Appends a byte.
    pub fn write_u8(&mut self, value: u8)
        ensures
            final(self)@ == old(self)@.push(value),
    {
        self.bytes.push(value);
    }

    /// Appends the bytes of `v` in order.
    fn append(&mut self, v: &[u8])
        ensures
            final(self)@ == old(self)@ + v@,
    {
        for i in 0..v.len()
            invariant
                self@ == old(self)@ + v@.subrange(0, i as int),
        {
            self.bytes.push(v[i]);
            assert(v@.subrange(0, i + 1) =~= v@.subrange(0, i as int).push(v@[i as int]));
        }
        assert(v@.subrange(0, v@.len() as int) =~= v@);
    }

    /// Appends the bytes of `v` in reverse order.
    fn append_reversed(&mut self, v: &[u8])
        ensures
            final(self)@ == old(self)@ + v@.reverse(),
    {
        let n = v.len();
        for i in 0..n
            invariant
                n == v@.len(),
                self@ == old(self)@ + v@.reverse().subrange(0, i as int),
        {
            self.bytes.push(v[n - 1 - i]);
            assert(v@.reverse().subrange(0, i + 1) =~= v@.reverse().subrange(0, i as int).push(v@[n - 1 - i]));
        }
        assert(v@.reverse().subrange(0, n as int) =~= v@.reverse());
    }

    /// Appends the bytes `encode` gives for the floating point value
    /// written as `text`.
    pub(crate) fn write_float<F: Fn(&String, bool) -> Vec<u8>>(&mut self, text: &String, double: bool, encode: &F)
        requires
            forall|t: &String, d: bool| encode.requires((t, d)),
        ensures
            exists|b: Seq<u8>| float_encoding(*encode, text@, double, b) && final(self)@ == old(self)@ + b,
    {
        let b = encode(text, double);
        assert(float_encoding(*encode, text@, double, b@));
        self.append(b.as_slice());
    }

    /// Appends a 16-bit value, big-endian.
    pub(crate) fn write_be_u16(&mut self, value: u16)
        ensures
            final(self)@ == old(self)@ + spec_u16_to_be_bytes(value),
    {
        let b = u16_to_le_bytes(value);
        self.append_reversed(b.as_slice());
    }

    /// Appends a 32-bit value, big-endian.
    pub(crate) fn write_be_u32(&mut self, value: u32)
        ensures
            final(self)@ == old(self)@ + spec_u32_to_be_bytes(value),
    {
        let b = u32_to_le_bytes(value);
        self.append_reversed(b.as_slice());
    }

    /// Appends a 64-bit value, big-endian.
    pub(crate) fn write_be_u64(&mut self, value: u64)
        ensures
            final(self)@ == old(self)@ + spec_u64_to_be_bytes(value),
    {
        let b = u64_to_le_bytes(value);
        self.append_reversed(b.as_slice());
    }

    /// Appends a 16-bit value, little-endian.
    pub fn write_u16(&mut self, value: u16)
        ensures
            final(self)@ == old(self)@ + spec_u16_to_le_bytes(value),
    {
        let b = u16_to_le_bytes(value);
        self.append(b.as_slice());
    }

    /// Appends a 32-bit value, little-endian.
    pub fn write_u32(&mut self, value: u32)
        ensures
            final(self)@ == old(self)@ + spec_u32_to_le_bytes(value),
    {
        let b = u32_to_le_bytes(value);
        self.append(b.as_slice());
    }

    /// Appends a 64-bit value, little-endian.
    pub fn write_u64(&mut self, value: u64)
        ensures
            final(self)@ == old(self)@ + spec_u64_to_le_bytes(value),
    {
        let b = u64_to_le_bytes(value);
        self.append(b.as_slice());
    }

    /// Appends raw bytes.
    pub fn write_bytes(&mut self, bytes: &[u8])
        ensures
            final(self)@ == old(self)@ + bytes@,
    {
        self.append(bytes);
    }

    /// Appends a signed byte, in two's complement.
    pub fn write_i8(&mut self, value: i8)
        ensures
            final(self)@ == old(self)@.push(value as u8),
    {
        self.bytes.push(value as u8);
    }

    /// Appends a signed 16-bit value, two's complement, little-endian.
    pub fn write_i16(&mut self, value: i16)
        ensures
            final(self)@ == old(self)@ + spec_u16_to_le_bytes(value as u16),
    {
        self.write_u16(value as u16);
    }

    /// Appends a signed 32-bit value, two's complement, little-endian.
    pub fn write_i32(&mut self, value: i32)
        ensures
            final(self)@ == old(self)@ + spec_u32_to_le_bytes(value as u32),
    {
        self.write_u32(value as u32);
    }

    /// Appends a signed 64-bit value, two's complement, little-endian.
    pub fn write_i64(&mut self, value: i64)
        ensures
            final(self)@ == old(self)@ + spec_u64_to_le_bytes(value as u64),
    {
        self.write_u64(value as u64);
    }

    /// Appends `value` as an unsigned LEB128 integer.
    pub fn write_varint64(&mut self, value: u64)
        ensures
            final(self)@ == old(self)@ + varint_bytes(value as nat),
    {
        let mut v = value;
        let ghost mut prefix: Seq<u8> = Seq::empty();
        while v >= 128
            invariant
                varint_bytes(value as nat) == prefix + varint_bytes(v as nat),
                self@ == old(self)@ + prefix,
            decreases v,
        {
            let byte = ((v % 128) + 128) as u8;
            self.bytes.push(byte);
            proof {
                assert(varint_bytes(v as nat) == seq![byte] + varint_bytes((v / 128) as nat));
                assert(prefix + varint_bytes(v as nat) =~= prefix.push(byte) + varint_bytes((v / 128) as nat));
                prefix = prefix.push(byte);
            }
            v = v / 128;
        }
        self.bytes.push(v as u8);
        assert(self@ =~= old(self)@ + varint_bytes(value as nat));
    }

    /// Appends the UTF-8 bytes of `s` and a terminating zero byte.
    pub fn write_cstr(&mut self, s: &str)
        ensures
            final(self)@ == old(self)@ + cstr_bytes(s@),
    {
        self.append(s.as_bytes());
        self.bytes.push(0);
    }
}

/// Decoding the LEB128 bytes written for `v`, followed by anything, gives
/// `v` back and the number of bytes written.
pub proof fn lemma_varint_roundtrip(v: nat, tail: Seq<u8>)
    ensures
        varint_decode(varint_bytes(v) + tail) == Some((v, varint_bytes(v).len())),
    decreases v,
{
    if v < 128 {
        assert((varint_bytes(v) + tail)[0] == v as u8);
    } else {
        lemma_varint_roundtrip(v / 128, tail);
        let s = varint_bytes(v) + tail;
        assert(s.drop_first() =~= varint_bytes(v / 128) + tail);
        assert(s[0] == ((v % 128) + 128) as u8);
    }
}

} // verus!
