//! 32-bit words in byte sequences: little-endian ones, as the shader metadata
//! format stores them, and native-order ones, as the Vulkan structures the
//! engine handles byte-wise hold them in memory.
use vstd::prelude::*;

verus! {

/// The unsigned value of the little-endian 32-bit word that starts at byte `i` of `s`.
pub open spec fn le_word(s: Seq<u8>, i: int) -> int {
    s[i] + 256 * s[i + 1] + 65536 * s[i + 2] + 16777216 * s[i + 3]
}

/// The four little-endian bytes of `x`.
pub open spec fn u32_le_bytes(x: u32) -> Seq<u8> {
    seq![
        (x % 256) as u8,
        ((x / 256) % 256) as u8,
        ((x / 65536) % 256) as u8,
        (x / 16777216) as u8,
    ]
}

/// The eight little-endian bytes of `x`.
pub open spec fn u64_le_bytes(x: u64) -> Seq<u8> {
    Seq::new(8, |j: int| ((x as int / pow256(j)) % 256) as u8)
}

/// `256` raised to `j`, for `0 <= j < 8`.
pub open spec fn pow256(j: int) -> int {
    if j <= 0 { 1 }
    else if j == 1 { 256 }
    else if j == 2 { 65536 }
    else if j == 3 { 16777216 }
    else if j == 4 { 4294967296 }
    else if j == 5 { 1099511627776 }
    else if j == 6 { 281474976710656 }
    else { 72057594037927936 }
}

pub proof fn lemma_le_word_bound(s: Seq<u8>, i: int)
    requires
        0 <= i,
        i + 4 <= s.len(),
    ensures
        0 <= le_word(s, i) <= u32::MAX,
{
}

/// Decoding the bytes of a word gives the word back.
pub proof fn lemma_le_word_of_bytes(x: u32)
    ensures
        u32_le_bytes(x).len() == 4,
        le_word(u32_le_bytes(x), 0) == x,
{
    let b = u32_le_bytes(x);
    assert(x == 16777216 * (x / 16777216) + x % 16777216);
    assert(x % 16777216 == 65536 * ((x / 65536) % 256) + x % 65536) by (nonlinear_arith);
    assert(x % 65536 == 256 * ((x / 256) % 256) + x % 256) by (nonlinear_arith);
}

/// Encoding a decoded word gives the bytes back.
pub proof fn lemma_bytes_of_le_word(s: Seq<u8>, i: int)
    requires
        0 <= i,
        i + 4 <= s.len(),
    ensures
        u32_le_bytes(le_word(s, i) as u32) =~= s.subrange(i, i + 4),
{
    let b0 = s[i] as int;
    let b1 = s[i + 1] as int;
    let b2 = s[i + 2] as int;
    let b3 = s[i + 3] as int;
    let w = le_word(s, i);
    assert(w == b0 + 256 * b1 + 65536 * b2 + 16777216 * b3);
    assert(w % 256 == b0) by (nonlinear_arith)
        requires w == b0 + 256 * b1 + 65536 * b2 + 16777216 * b3, 0 <= b0 < 256, 0 <= b1 < 256,
            0 <= b2 < 256, 0 <= b3 < 256;
    assert((w / 256) % 256 == b1) by (nonlinear_arith)
        requires w == b0 + 256 * b1 + 65536 * b2 + 16777216 * b3, 0 <= b0 < 256, 0 <= b1 < 256,
            0 <= b2 < 256, 0 <= b3 < 256;
    assert((w / 65536) % 256 == b2) by (nonlinear_arith)
        requires w == b0 + 256 * b1 + 65536 * b2 + 16777216 * b3, 0 <= b0 < 256, 0 <= b1 < 256,
            0 <= b2 < 256, 0 <= b3 < 256;
    assert(w / 16777216 == b3) by (nonlinear_arith)
        requires w == b0 + 256 * b1 + 65536 * b2 + 16777216 * b3, 0 <= b0 < 256, 0 <= b1 < 256,
            0 <= b2 < 256, 0 <= b3 < 256;
}

/// The order the bytes of a word are stored in.
#[derive(Clone, Copy, Debug, PartialEq, Eq, Structural)]
pub enum ByteOrder {
    /// Least significant byte first.
    Little,
    /// Most significant byte first.
    Big,
}

/// The unsigned value of the big-endian 32-bit word that starts at byte `i` of `s`.
pub open spec fn be_word(s: Seq<u8>, i: int) -> int {
    16777216 * s[i] + 65536 * s[i + 1] + 256 * s[i + 2] + s[i + 3]
}

/// The value of the 32-bit word stored in `order` at byte `i` of `s`.
pub open spec fn word_in(s: Seq<u8>, i: int, order: ByteOrder) -> int {
    match order {
        ByteOrder::Little => le_word(s, i),
        ByteOrder::Big => be_word(s, i),
    }
}

/// The eight bytes of `x` stored in `order`.
pub open spec fn u64_bytes_in(x: u64, order: ByteOrder) -> Seq<u8> {
    match order {
        ByteOrder::Little => u64_le_bytes(x),
        ByteOrder::Big => Seq::new(8, |j: int| u64_le_bytes(x)[7 - j]),
    }
}

/// `u16::from_ne_bytes`: the value whose memory representation, in the
/// machine's native byte order, is `bytes`. Every Rust target stores
/// integers either least or most significant byte first, so it is one of the
/// two readings of the bytes.
#[verifier::external_body]
fn u16_from_native_bytes(bytes: [u8; 2]) -> (v: u16)
    ensures
        v == bytes@[0] + 256 * bytes@[1] || v == 256 * bytes@[0] + bytes@[1],
{
    u16::from_ne_bytes(bytes)
}

/// The machine's native byte order, found by reading the bytes `[1, 0]` as
/// a native 16-bit integer.
pub fn native_byte_order() -> (order: ByteOrder) {
    let probe = u16_from_native_bytes([1u8, 0u8]);
    if probe == 1 {
        ByteOrder::Little
    } else {
        ByteOrder::Big
    }
}

/// Reads the 32-bit word stored in `order` at byte `at` of `data`.
pub fn read_u32_in(data: &[u8], at: usize, order: ByteOrder) -> (v: u32)
    requires
        at + 4 <= data@.len(),
    ensures
        v == word_in(data@, at as int, order),
{
    let b0 = data[at] as u32;
    let b1 = data[at + 1] as u32;
    let b2 = data[at + 2] as u32;
    let b3 = data[at + 3] as u32;
    match order {
        ByteOrder::Little => b0 + b1 * 256 + b2 * 65536 + b3 * 16777216,
        ByteOrder::Big => b0 * 16777216 + b1 * 65536 + b2 * 256 + b3,
    }
}

/// Reads the little-endian word at byte `at` of `data`.
pub fn read_le_u32(data: &[u8], at: usize) -> (v: u32)
    requires
        at + 4 <= data@.len(),
    ensures
        v == le_word(data@, at as int),
{
    let b0 = data[at] as u32;
    let b1 = data[at + 1] as u32;
    let b2 = data[at + 2] as u32;
    let b3 = data[at + 3] as u32;
    b0 + b1 * 256 + b2 * 65536 + b3 * 16777216
}

/// Appends the four little-endian bytes of `x` to `out`.
pub fn push_le_u32(out: &mut Vec<u8>, x: u32)
    ensures
        final(out)@ == old(out)@ + u32_le_bytes(x),
{
    out.push((x % 256) as u8);
    out.push(((x / 256) % 256) as u8);
    out.push(((x / 65536) % 256) as u8);
    out.push((x / 16777216) as u8);
    proof {
        assert(final(out)@ =~= old(out)@ + u32_le_bytes(x));
    }
}

} // verus!
