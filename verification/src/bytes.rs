use vstd::prelude::*;

verus! {

/// The unsigned value of four bytes read most significant first.
pub open spec fn be_u32(b0: u8, b1: u8, b2: u8, b3: u8) -> u32 {
    (b0 as int * 0x100_0000 + b1 as int * 0x1_0000 + b2 as int * 0x100 + b3 as int) as u32
}

/// The two's-complement value of a 32-bit pattern.
pub open spec fn signed(v: u32) -> i32 {
    if v < 0x8000_0000 {
        v as i32
    } else {
        (v - 0x1_0000_0000) as i32
    }
}

/// The signed value of four bytes read most significant first.
pub open spec fn be_i32(b0: u8, b1: u8, b2: u8, b3: u8) -> i32 {
    signed(be_u32(b0, b1, b2, b3))
}

/// The big-endian `u32` stored at `s[at..at + 4]`.
pub open spec fn be_u32_at(s: Seq<u8>, at: int) -> u32 {
    be_u32(s[at], s[at + 1], s[at + 2], s[at + 3])
}

/// The big-endian `i32` stored at `s[at..at + 4]`.
pub open spec fn be_i32_at(s: Seq<u8>, at: int) -> i32 {
    be_i32(s[at], s[at + 1], s[at + 2], s[at + 3])
}

/// The four bytes of `v`, least significant first.
pub open spec fn le_bytes(v: u32) -> Seq<u8> {
    seq![
        (v % 0x100) as u8,
        ((v / 0x100) % 0x100) as u8,
        ((v / 0x1_0000) % 0x100) as u8,
        (v / 0x100_0000) as u8,
    ]
}

/// The four bytes of `v`, most significant first.
pub open spec fn be_bytes(v: u32) -> Seq<u8> {
    seq![
        (v / 0x100_0000) as u8,
        ((v / 0x1_0000) % 0x100) as u8,
        ((v / 0x100) % 0x100) as u8,
        (v % 0x100) as u8,
    ]
}

/// The unsigned value of four bytes read least significant first.
pub open spec fn le_u32_at(s: Seq<u8>, at: int) -> u32 {
    be_u32(s[at + 3], s[at + 2], s[at + 1], s[at])
}

/// Reinterprets a 32-bit pattern as a signed value, as `as i32` does.
pub fn to_signed(v: u32) -> (r: i32)
    ensures
        r == signed(v),
{
    if v < 0x8000_0000 {
        v as i32
    } else {
        ((v - 0x8000_0000) as i32) - 0x7fff_ffff - 1
    }
}

/// Reads the big-endian `u32` stored at `data[at..at + 4]`.
pub fn read_be_u32(data: &Vec<u8>, at: usize) -> (v: u32)
    requires
        at + 4 <= data.len(),
    ensures
        v == be_u32_at(data@, at as int),
{
    (data[at] as u32) * 0x100_0000 + (data[at + 1] as u32) * 0x1_0000 + (data[at + 2] as u32)
        * 0x100 + (data[at + 3] as u32)
}

/// Reads the big-endian `i32` stored at `data[at..at + 4]`.
pub fn read_be_i32(data: &Vec<u8>, at: usize) -> (v: i32)
    requires
        at + 4 <= data.len(),
    ensures
        v == be_i32_at(data@, at as int),
{
    to_signed(read_be_u32(data, at))
}

/// Appends the four bytes of `v`, least significant first.
pub fn push_le_u32(out: &mut Vec<u8>, v: u32)
    ensures
        final(out)@ == old(out)@ + le_bytes(v),
{
    out.push((v % 0x100) as u8);
    out.push(((v / 0x100) % 0x100) as u8);
    out.push(((v / 0x1_0000) % 0x100) as u8);
    out.push((v / 0x100_0000) as u8);
    assert(out@ =~= old(out)@ + le_bytes(v));
}

/// Reading back the bytes that `le_bytes` lays out gives the value again.
pub proof fn lemma_le_bytes_roundtrip(v: u32)
    ensures
        le_u32_at(le_bytes(v), 0) == v,
{
    lemma_byte_split(v);
}

/// Reading back the bytes that `be_bytes` lays out gives the value again.
pub proof fn lemma_be_bytes_roundtrip(v: u32)
    ensures
        be_u32_at(be_bytes(v), 0) == v,
{
    lemma_byte_split(v);
}

proof fn lemma_byte_split(v: u32)
    ensures
        (v / 0x100_0000) * 0x100_0000 + ((v / 0x1_0000) % 0x100) * 0x1_0000 + ((v / 0x100) % 0x100)
            * 0x100 + v % 0x100 == v,
        v / 0x100_0000 < 0x100,
{
    assert((v / 0x100_0000) * 0x100_0000 + ((v / 0x1_0000) % 0x100) * 0x1_0000 + ((v / 0x100)
        % 0x100) * 0x100 + v % 0x100 == v) by (bit_vector);
    assert(v / 0x100_0000 < 0x100) by (bit_vector);
}

/// A signed value's bit pattern, read back as signed, is the value again.
pub proof fn lemma_signed_roundtrip(v: i32)
    ensures
        signed(#[verifier::truncate] (v as u32)) == v,
{
    let u = #[verifier::truncate] (v as u32);
    assert(v >= 0 ==> u == v) by (bit_vector)
        requires
            u == #[verifier::truncate] (v as u32),
    ;
    assert(v < 0 ==> u >= 0x8000_0000u32 && u - 0x8000_0000u32 == v + 0x8000_0000i64) by (bit_vector)
        requires
            u == #[verifier::truncate] (v as u32),
    ;
}

} // verus!
