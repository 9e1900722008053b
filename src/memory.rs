use vstd::prelude::*;
use crate::address::Address;

verus! {

/// The little-endian unsigned value of the four bytes of `s` starting at `i`.
pub open spec fn le_u32(s: Seq<u8>, i: int) -> u32 {
    (s[i] + s[i + 1] * 0x100 + s[i + 2] * 0x1_0000 + s[i + 3] * 0x100_0000) as u32
}

/// The little-endian unsigned value of the eight bytes of `s` starting at `i`.
pub open spec fn le_u64(s: Seq<u8>, i: int) -> u64 {
    (le_u32(s, i) + le_u32(s, i + 4) * 0x1_0000_0000) as u64
}

/// The bytes of `s` from `start` up to the first NUL, or up to the end of
/// `s` when no NUL follows.
pub open spec fn c_string(s: Seq<u8>, start: int) -> Seq<u8>
    decreases s.len() - start,
{
    if start < 0 || start >= s.len() || s[start] == 0 {
        Seq::empty()
    } else {
        seq![s[start]] + c_string(s, start + 1)
    }
}

/// Single-byte decoding: each byte is the character with that code point.
pub open spec fn latin1(s: Seq<u8>) -> Seq<char> {
    s.map_values(|b: u8| b as char)
}

/// The four magic bytes that open every ELF image.
pub open spec fn has_elf_magic(data: Seq<u8>) -> bool {
    &&& data.len() >= 4
    &&& data[0] == 0x7f
    &&& data[1] == 0x45
    &&& data[2] == 0x4c
    &&& data[3] == 0x46
}

/// Accepts exactly the buffers that start with `7F 45 4C 46`.
pub fn check_elf_header(data: &[u8]) -> (r: bool)
    ensures
        r == has_elf_magic(data@),
{
    data.len() >= 4 && data[0] == 0x7f && data[1] == 0x45 && data[2] == 0x4c && data[3] == 0x46
}

/// Assembles a little-endian `u32` from four bytes.
pub fn u32_from_le(b0: u8, b1: u8, b2: u8, b3: u8) -> (r: u32)
    ensures
        r == b0 + b1 * 0x100 + b2 * 0x1_0000 + b3 * 0x100_0000,
{
    b0 as u32 + b1 as u32 * 0x100 + b2 as u32 * 0x1_0000 + b3 as u32 * 0x100_0000
}

/// The `u64` stored little-endian at byte offset `address` of `data`.
pub fn read_u64_vec(data: &[u8], address: u64) -> (r: u64)
    requires
        address + 8 <= data@.len(),
    ensures
        r == le_u64(data@, address as int),
{
    let a = address as usize;
    let lo = u32_from_le(data[a], data[a + 1], data[a + 2], data[a + 3]);
    let hi = u32_from_le(data[a + 4], data[a + 5], data[a + 6], data[a + 7]);
    lo as u64 + hi as u64 * 0x1_0000_0000
}

/// The `u32` stored little-endian at byte offset `address` of `data`,
/// widened to an address.
pub fn read_u32_vec(data: &[u8], address: u64) -> (r: Address)
    requires
        address + 4 <= data@.len(),
    ensures
        r.0 == le_u32(data@, address as int),
{
    let a = address as usize;
    Address(u32_from_le(data[a], data[a + 1], data[a + 2], data[a + 3]) as u64)
}

/// The NUL-terminated byte string at `start`, cut at the end of `data`.
pub fn c_string_at(data: &[u8], start: usize) -> (r: Vec<u8>)
    ensures
        r@ == c_string(data@, start as int),
{
    let mut out: Vec<u8> = Vec::new();
    if start >= data.len() {
        return out;
    }
    let mut i: usize = start;
    while i < data.len() && data[i] != 0
        invariant
            start <= i <= data@.len(),
            c_string(data@, start as int) == out@ + c_string(data@, i as int),
        decreases data@.len() - i,
    {
        assert(c_string(data@, i as int) == seq![data@[i as int]] + c_string(data@, i + 1));
        out.push(data[i]);
        assert(out@ + c_string(data@, i + 1) =~= (out@.drop_last() + seq![data@[i as int]])
            + c_string(data@, i + 1));
        i = i + 1;
    }
    assert(c_string(data@, i as int) =~= Seq::empty());
    assert(out@ + Seq::<u8>::empty() =~= out@);
    out
}

/// Appends one character; relies on `String::push`, which adds `c` at the end.
#[verifier::external_body]
fn push_char(s: &mut String, c: char)
    ensures
        final(s)@ == old(s)@.push(c),
{
    s.push(c)
}

/// The NUL-terminated string at byte offset `address`, one character per
/// byte; it ends at the end of `data` when no NUL follows.
pub fn read_string_vec(data: &[u8], address: u64) -> (r: String)
    ensures
        r@ == latin1(c_string(data@, address as int)),
{
    let mut string = String::new();
    if address >= data.len() as u64 {
        return string;
    }
    let bytes = c_string_at(data, address as usize);
    let mut k: usize = 0;
    while k < bytes.len()
        invariant
            k <= bytes@.len(),
            bytes@ == c_string(data@, address as int),
            string@ =~= latin1(bytes@.take(k as int)),
        decreases bytes@.len() - k,
    {
        push_char(&mut string, bytes[k] as char);
        k = k + 1;
        assert(latin1(bytes@.take(k as int)) =~= latin1(bytes@.take(k - 1)).push(bytes@[k - 1] as char));
    }
    assert(bytes@.take(k as int) =~= bytes@);
    string
}

} // verus!
