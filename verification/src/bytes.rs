//! Little-endian readers over a byte slice.
//!
//! Every multi-byte field of the wire format is little-endian. The spec
//! functions here give the mathematical value of such a field, and the
//! executable readers are proved to return exactly that value.

use vstd::prelude::*;

verus! {

/// Value of the little-endian `u16` at offset `i` of `s`.
pub open spec fn le16(s: Seq<u8>, i: int) -> u16
    recommends
        0 <= i,
        i + 2 <= s.len(),
{
    (s[i] as u16 + s[i + 1] as u16 * 0x100) as u16
}

/// Value of the little-endian `u32` at offset `i` of `s`.
pub open spec fn le32(s: Seq<u8>, i: int) -> u32
    recommends
        0 <= i,
        i + 4 <= s.len(),
{
    (s[i] as u32 + s[i + 1] as u32 * 0x100 + s[i + 2] as u32 * 0x1_0000 + s[i + 3] as u32
        * 0x100_0000) as u32
}

/// Value of the little-endian `i32` at offset `i` of `s`: the `u32` bit
/// pattern reinterpreted in two's complement.
pub open spec fn le32s(s: Seq<u8>, i: int) -> i32
    recommends
        0 <= i,
        i + 4 <= s.len(),
{
    le32(s, i) as i32
}

pub fn read_u8(data: &[u8], pos: usize) -> (r: u8)
    requires
        pos < data@.len(),
    ensures
        r == data@[pos as int],
{
    data[pos]
}

pub fn read_le16(data: &[u8], pos: usize) -> (r: u16)
    requires
        pos + 2 <= data@.len() <= usize::MAX,
    ensures
        r == le16(data@, pos as int),
{
    let b0 = data[pos];
    let b1 = data[pos + 1];
    b0 as u16 + b1 as u16 * 0x100
}

pub fn read_le32(data: &[u8], pos: usize) -> (r: u32)
    requires
        pos + 4 <= data@.len() <= usize::MAX,
    ensures
        r == le32(data@, pos as int),
{
    let b0 = data[pos];
    let b1 = data[pos + 1];
    let b2 = data[pos + 2];
    let b3 = data[pos + 3];
    b0 as u32 + b1 as u32 * 0x100 + b2 as u32 * 0x1_0000 + b3 as u32 * 0x100_0000
}

pub fn read_le32s(data: &[u8], pos: usize) -> (r: i32)
    requires
        pos + 4 <= data@.len() <= usize::MAX,
    ensures
        r == le32s(data@, pos as int),
{
    read_le32(data, pos) as i32
}

} // verus!
