//! The section decoder: recursive descent over a byte slice.
//!
//! Every executable parser here is proved to return exactly the value of its
//! specification function over the byte sequence, error cases included. The
//! wire format is little-endian throughout; a section is a 12-byte header
//! (tag, payload size, version) followed by exactly `size` payload bytes.

use vstd::prelude::*;

use crate::bytes::le16;
use crate::bytes::le32;
use crate::bytes::le32s;
use crate::bytes::read_le16;
use crate::bytes::read_le32;
use crate::bytes::read_le32s;
use crate::bytes::read_u8;
use crate::constants::GeometryFormat;
use crate::constants::RasterFormat;
use crate::constants::SectionType;
use crate::constants::has_scheme;
use crate::constants::section_type_of;
use crate::constants::spec_section_type_of;
use crate::constants::spec_has_scheme;
use crate::constants::spec_texture_addressing_of;
use crate::constants::spec_texture_filtering_of;
use crate::constants::texture_addressing_of;
use crate::constants::texture_filtering_of;
use crate::types::Atomic;
use crate::types::BinaryStreamFile;
use crate::types::Clump;
use crate::types::ClumpData;
use crate::types::ClumpDataV;
use crate::types::Color;
use crate::types::Error;
use crate::types::Geometry;
use crate::types::GeometryData;
use crate::types::GeometryDataV;
use crate::types::GeometryV;
use crate::types::Material;
use crate::types::MorphTarget;
use crate::types::MorphTargetV;
use crate::types::Raster;
use crate::types::RasterV;
use crate::types::Section;
use crate::types::SectionV;
use crate::types::lemma_sections_view_push;
use crate::types::section_view;
use crate::types::sections_view;
use crate::types::Texture;
use crate::types::TextureDictionary;
use crate::types::UnparsedData;
use crate::types::UvAddressing;
use crate::types::Frame;
use crate::types::Lighting;
use crate::types::Mat3;
use crate::types::Scalar;
use crate::types::Sphere;
use crate::types::TexCoord;
use crate::types::Triangle;
use crate::types::Vec3;
use crate::text::push_char;

verus! {

/// A version field below this bound gates out a material's lighting block.
pub const VERSION_MATERIAL_LIGHTING: u32 = 0x3_0400;

/// A version field below this bound carries a geometry's inline lighting.
pub const VERSION_GEOMETRY_LIGHTING: u32 = 0x3_4000;

/// A version field above this bound carries clump light and camera counts.
pub const VERSION_CLUMP_COUNTS: u32 = 0x3_3000;

/// A version field from this bound on carries a texture dictionary device id.
pub const VERSION_TXD_DEVICE_ID: u32 = 0x3_6000;

/// The decoded form of a raw version word. A value with any of the top 16
/// bits set packs major and minor parts and is remapped bit-wise; a legacy
/// linear value is shifted left by one byte.
pub open spec fn spec_decode_version(raw: u32) -> u32 {
    if raw & 0xFFFF0000 != 0 {
        ((((raw >> 14) & 0x3FF00) + 0x30000) as u32) | ((raw >> 16) & 0x3F)
    } else {
        raw << 8
    }
}

/// Decode a raw version word.
///
/// The postconditions state the complete decoding rule over the full `u32`
/// range: a legacy version (top 16 bits zero) decodes to `raw * 0x100`,
/// and a packed version decodes to the documented bit remap.
pub fn decode_version(raw: u32) -> (v: u32)
    ensures
        v == spec_decode_version(raw),
        raw & 0xFFFF0000 == 0 ==> v == raw * 0x100,
        raw & 0xFFFF0000 != 0 ==> v == ((((raw >> 14) & 0x3FF00) + 0x30000) as u32) | ((raw >> 16)
            & 0x3F),
{
    if raw & 0xFFFF0000 != 0 {
        assert((raw >> 14) & 0x3FF00 <= 0x3FF00) by (bit_vector);
        (((raw >> 14) & 0x3FF00) + 0x30000) | ((raw >> 16) & 0x3F)
    } else {
        assert(raw & 0xFFFF0000 == 0 ==> raw << 8 == raw * 0x100) by (bit_vector);
        raw << 8
    }
}

/// The color at offset `i`: four bytes, red first.
pub open spec fn sp_color(s: Seq<u8>, i: int) -> Color {
    Color { r: s[i], g: s[i + 1], b: s[i + 2], a: s[i + 3] }
}

/// The scalar at offset `i`: a little-endian 32-bit pattern.
pub open spec fn sp_scalar(s: Seq<u8>, i: int) -> Scalar {
    Scalar { bits: le32(s, i) }
}

/// The vector at offset `i`: three consecutive scalars.
pub open spec fn sp_vec3(s: Seq<u8>, i: int) -> Vec3 {
    Vec3 { x: sp_scalar(s, i), y: sp_scalar(s, i + 4), z: sp_scalar(s, i + 8) }
}

/// The matrix at offset `i`: three consecutive row vectors.
pub open spec fn sp_mat3(s: Seq<u8>, i: int) -> Mat3 {
    Mat3 { r0: sp_vec3(s, i), r1: sp_vec3(s, i + 12), r2: sp_vec3(s, i + 24) }
}

/// The frame at offset `i`: rotation matrix, then position; the trailing
/// frame index and matrix creation flags of the wire layout are skipped.
/// A frame occupies 56 bytes.
pub open spec fn sp_frame(s: Seq<u8>, i: int) -> Frame {
    Frame { rotation: sp_mat3(s, i), position: sp_vec3(s, i + 36) }
}

/// The lighting block at offset `i`: ambient, specular, diffuse.
pub open spec fn sp_lighting(s: Seq<u8>, i: int) -> Lighting {
    Lighting { ambient: sp_scalar(s, i), specular: sp_scalar(s, i + 4), diffuse: sp_scalar(s, i + 8) }
}

/// The sphere at offset `i`: center, then radius.
pub open spec fn sp_sphere(s: Seq<u8>, i: int) -> Sphere {
    Sphere { position: sp_vec3(s, i), radius: sp_scalar(s, i + 12) }
}

/// The texture coordinate pair at offset `i`.
pub open spec fn sp_texcoord(s: Seq<u8>, i: int) -> TexCoord {
    TexCoord { u: sp_scalar(s, i), v: sp_scalar(s, i + 4) }
}

/// The triangle at offset `i`. The wire order of the four 16-bit fields is
/// vertex2, vertex1, material id, vertex3; they are stored under those names.
pub open spec fn sp_triangle(s: Seq<u8>, i: int) -> Triangle {
    Triangle {
        vertex2: le16(s, i),
        vertex1: le16(s, i + 2),
        material_id: le16(s, i + 4),
        vertex3: le16(s, i + 6),
    }
}

pub fn parse_color(data: &[u8], pos: usize) -> (c: Color)
    requires
        pos + 4 <= data@.len() <= usize::MAX,
    ensures
        c == sp_color(data@, pos as int),
{
    Color {
        r: read_u8(data, pos),
        g: read_u8(data, pos + 1),
        b: read_u8(data, pos + 2),
        a: read_u8(data, pos + 3),
    }
}

pub fn parse_scalar(data: &[u8], pos: usize) -> (v: Scalar)
    requires
        pos + 4 <= data@.len() <= usize::MAX,
    ensures
        v == sp_scalar(data@, pos as int),
{
    Scalar { bits: read_le32(data, pos) }
}

pub fn parse_vec3(data: &[u8], pos: usize) -> (v: Vec3)
    requires
        pos + 12 <= data@.len() <= usize::MAX,
    ensures
        v == sp_vec3(data@, pos as int),
{
    Vec3 { x: parse_scalar(data, pos), y: parse_scalar(data, pos + 4), z: parse_scalar(data, pos + 8) }
}

pub fn parse_mat3(data: &[u8], pos: usize) -> (m: Mat3)
    requires
        pos + 36 <= data@.len() <= usize::MAX,
    ensures
        m == sp_mat3(data@, pos as int),
{
    Mat3 {
        r0: parse_vec3(data, pos),
        r1: parse_vec3(data, pos + 12),
        r2: parse_vec3(data, pos + 24),
    }
}

pub fn parse_frame(data: &[u8], pos: usize) -> (f: Frame)
    requires
        pos + 56 <= data@.len() <= usize::MAX,
    ensures
        f == sp_frame(data@, pos as int),
{
    Frame { rotation: parse_mat3(data, pos), position: parse_vec3(data, pos + 36) }
}

pub fn parse_lighting(data: &[u8], pos: usize) -> (l: Lighting)
    requires
        pos + 12 <= data@.len() <= usize::MAX,
    ensures
        l == sp_lighting(data@, pos as int),
{
    Lighting {
        ambient: parse_scalar(data, pos),
        specular: parse_scalar(data, pos + 4),
        diffuse: parse_scalar(data, pos + 8),
    }
}

pub fn parse_sphere(data: &[u8], pos: usize) -> (b: Sphere)
    requires
        pos + 16 <= data@.len() <= usize::MAX,
    ensures
        b == sp_sphere(data@, pos as int),
{
    Sphere { position: parse_vec3(data, pos), radius: parse_scalar(data, pos + 12) }
}

pub fn parse_texcoord(data: &[u8], pos: usize) -> (t: TexCoord)
    requires
        pos + 8 <= data@.len() <= usize::MAX,
    ensures
        t == sp_texcoord(data@, pos as int),
{
    TexCoord { u: parse_scalar(data, pos), v: parse_scalar(data, pos + 4) }
}

pub fn parse_triangle(data: &[u8], pos: usize) -> (t: Triangle)
    requires
        pos + 8 <= data@.len() <= usize::MAX,
    ensures
        t == sp_triangle(data@, pos as int),
{
    Triangle {
        vertex2: read_le16(data, pos),
        vertex1: read_le16(data, pos + 2),
        material_id: read_le16(data, pos + 4),
        vertex3: read_le16(data, pos + 6),
    }
}

/// The character a payload byte stands for: itself for ASCII, the
/// replacement character otherwise.
pub open spec fn byte_char(b: u8) -> char {
    if b < 0x80 {
        b as char
    } else {
        '\u{FFFD}'
    }
}

/// The characters of a byte sequence, element-wise.
pub open spec fn sp_chars(q: Seq<u8>) -> Seq<char> {
    q.map_values(|b: u8| byte_char(b))
}

/// Length of `q` once trailing NUL bytes are dropped.
pub open spec fn trimmed_len(q: Seq<u8>) -> int
    decreases q.len(),
{
    if q.len() == 0 || q.last() != 0 {
        q.len() as int
    } else {
        trimmed_len(q.drop_last())
    }
}

/// `q` without its trailing NUL bytes.
pub open spec fn trim_trailing_nuls(q: Seq<u8>) -> Seq<u8> {
    q.take(trimmed_len(q))
}

/// `trimmed_len` is the unique cut: everything from it on is NUL, and the
/// byte just before it (if any) is not.
pub proof fn lemma_trimmed_len(q: Seq<u8>, m: int)
    requires
        0 <= m <= q.len(),
        m == 0 || q[m - 1] != 0,
        forall|j: int| m <= j < q.len() ==> q[j] == 0,
    ensures
        trimmed_len(q) == m,
    decreases q.len(),
{
    if q.len() == 0 {
    } else if q.last() != 0 {
        assert(m == q.len());
    } else {
        assert(m < q.len());
        lemma_trimmed_len(q.drop_last(), m);
    }
}

/// Index of the first NUL byte of `q`, or its length if there is none.
pub open spec fn nul_index(q: Seq<u8>) -> int
    decreases q.len(),
{
    if q.len() == 0 {
        0
    } else if q[0] == 0 {
        0
    } else {
        1 + nul_index(q.drop_first())
    }
}

/// `nul_index` is the unique cut: no NUL before it, and a NUL at it unless
/// it is the length.
pub proof fn lemma_nul_index(q: Seq<u8>, m: int)
    requires
        0 <= m <= q.len(),
        m == q.len() || q[m] == 0,
        forall|j: int| 0 <= j < m ==> q[j] != 0,
    ensures
        nul_index(q) == m,
    decreases q.len(),
{
    if q.len() == 0 {
    } else if q[0] == 0 {
        assert(m == 0);
    } else {
        assert(m >= 1);
        lemma_nul_index(q.drop_first(), m - 1);
    }
}

pub fn byte_to_char(b: u8) -> (c: char)
    ensures
        c == byte_char(b),
{
    if b < 0x80 {
        b as char
    } else {
        '\u{FFFD}'
    }
}

/// Build the string the bytes `data[from..to]` stand for.
pub fn chars_of_range(data: &[u8], from: usize, to: usize) -> (r: String)
    requires
        from <= to <= data@.len() <= usize::MAX,
    ensures
        r@ == sp_chars(data@.subrange(from as int, to as int)),
{
    let mut r = String::new();
    let mut k: usize = from;
    while k < to
        invariant
            from <= k <= to <= data@.len(),
            r@ == sp_chars(data@.subrange(from as int, k as int)),
        decreases to - k,
    {
        let c = byte_to_char(read_u8(data, k));
        push_char(&mut r, c);
        proof {
            assert(data@.subrange(from as int, k + 1).drop_last() =~= data@.subrange(
                from as int,
                k as int,
            ));
            assert(sp_chars(data@.subrange(from as int, k + 1)) =~= sp_chars(
                data@.subrange(from as int, k as int),
            ).push(byte_char(data@[k as int])));
        }
        k = k + 1;
    }
    proof {
        assert(data@.subrange(from as int, to as int) =~= data@.subrange(from as int, to as int));
    }
    r
}


/// The `n` colors at stride 4 from offset `i`.
pub open spec fn sp_colors(s: Seq<u8>, i: int, n: nat) -> Seq<Color> {
    Seq::new(n, |k: int| sp_color(s, i + 4 * k))
}

/// The `n` signed words at stride 4 from offset `i`.
pub open spec fn sp_i32s(s: Seq<u8>, i: int, n: nat) -> Seq<i32> {
    Seq::new(n, |k: int| le32s(s, i + 4 * k))
}

/// The `n` frames at stride 56 from offset `i`.
pub open spec fn sp_frames(s: Seq<u8>, i: int, n: nat) -> Seq<Frame> {
    Seq::new(n, |k: int| sp_frame(s, i + 56 * k))
}

/// The `n` texture coordinate pairs at stride 8 from offset `i`.
pub open spec fn sp_texcoords(s: Seq<u8>, i: int, n: nat) -> Seq<TexCoord> {
    Seq::new(n, |k: int| sp_texcoord(s, i + 8 * k))
}

/// The `n` triangles at stride 8 from offset `i`.
pub open spec fn sp_triangles(s: Seq<u8>, i: int, n: nat) -> Seq<Triangle> {
    Seq::new(n, |k: int| sp_triangle(s, i + 8 * k))
}

/// The `n` vectors at stride 12 from offset `i`.
pub open spec fn sp_vec3s(s: Seq<u8>, i: int, n: nat) -> Seq<Vec3> {
    Seq::new(n, |k: int| sp_vec3(s, i + 12 * k))
}

pub fn parse_colors(data: &[u8], pos: usize, end: usize, n: u32) -> (r: Result<Vec<Color>, Error>)
    requires
        pos <= end <= data@.len() <= usize::MAX,
    ensures
        match r {
            Ok(v) => n * 4 <= end - pos && v@ == sp_colors(data@, pos as int, n as nat),
            Err(e) => e == Error::Truncated && n * 4 > end - pos,
        },
{
    if (n as u64) * 4 > (end - pos) as u64 {
        return Err(Error::Truncated);
    }
    let count = n as usize;
    let mut items: Vec<Color> = Vec::new();
    let mut k: usize = 0;
    while k < count
        invariant
            pos + count * 4 <= end <= data@.len() <= usize::MAX,
            k <= count,
            items@.len() == k,
            forall|j: int| 0 <= j < k ==> items@[j] == sp_color(data@, pos + 4 * j),
        decreases count - k,
    {
        items.push(parse_color(data, pos + k * 4));
        k = k + 1;
    }
    proof {
        assert(items@ =~= sp_colors(data@, pos as int, n as nat));
    }
    Ok(items)
}

pub fn parse_i32s(data: &[u8], pos: usize, end: usize, n: u32) -> (r: Result<Vec<i32>, Error>)
    requires
        pos <= end <= data@.len() <= usize::MAX,
    ensures
        match r {
            Ok(v) => n * 4 <= end - pos && v@ == sp_i32s(data@, pos as int, n as nat),
            Err(e) => e == Error::Truncated && n * 4 > end - pos,
        },
{
    if (n as u64) * 4 > (end - pos) as u64 {
        return Err(Error::Truncated);
    }
    let count = n as usize;
    let mut items: Vec<i32> = Vec::new();
    let mut k: usize = 0;
    while k < count
        invariant
            pos + count * 4 <= end <= data@.len() <= usize::MAX,
            k <= count,
            items@.len() == k,
            forall|j: int| 0 <= j < k ==> items@[j] == le32s(data@, pos + 4 * j),
        decreases count - k,
    {
        items.push(read_le32s(data, pos + k * 4));
        k = k + 1;
    }
    proof {
        assert(items@ =~= sp_i32s(data@, pos as int, n as nat));
    }
    Ok(items)
}

pub fn parse_frames(data: &[u8], pos: usize, end: usize, n: u32) -> (r: Result<Vec<Frame>, Error>)
    requires
        pos <= end <= data@.len() <= usize::MAX,
    ensures
        match r {
            Ok(v) => n * 56 <= end - pos && v@ == sp_frames(data@, pos as int, n as nat),
            Err(e) => e == Error::Truncated && n * 56 > end - pos,
        },
{
    if (n as u64) * 56 > (end - pos) as u64 {
        return Err(Error::Truncated);
    }
    let count = n as usize;
    let mut items: Vec<Frame> = Vec::new();
    let mut k: usize = 0;
    while k < count
        invariant
            pos + count * 56 <= end <= data@.len() <= usize::MAX,
            k <= count,
            items@.len() == k,
            forall|j: int| 0 <= j < k ==> items@[j] == sp_frame(data@, pos + 56 * j),
        decreases count - k,
    {
        items.push(parse_frame(data, pos + k * 56));
        k = k + 1;
    }
    proof {
        assert(items@ =~= sp_frames(data@, pos as int, n as nat));
    }
    Ok(items)
}

pub fn parse_texcoords(data: &[u8], pos: usize, end: usize, n: u32) -> (r: Result<
    Vec<TexCoord>,
    Error,
>)
    requires
        pos <= end <= data@.len() <= usize::MAX,
    ensures
        match r {
            Ok(v) => n * 8 <= end - pos && v@ == sp_texcoords(data@, pos as int, n as nat),
            Err(e) => e == Error::Truncated && n * 8 > end - pos,
        },
{
    if (n as u64) * 8 > (end - pos) as u64 {
        return Err(Error::Truncated);
    }
    let count = n as usize;
    let mut items: Vec<TexCoord> = Vec::new();
    let mut k: usize = 0;
    while k < count
        invariant
            pos + count * 8 <= end <= data@.len() <= usize::MAX,
            k <= count,
            items@.len() == k,
            forall|j: int| 0 <= j < k ==> items@[j] == sp_texcoord(data@, pos + 8 * j),
        decreases count - k,
    {
        items.push(parse_texcoord(data, pos + k * 8));
        k = k + 1;
    }
    proof {
        assert(items@ =~= sp_texcoords(data@, pos as int, n as nat));
    }
    Ok(items)
}

pub fn parse_triangles(data: &[u8], pos: usize, end: usize, n: u32) -> (r: Result<
    Vec<Triangle>,
    Error,
>)
    requires
        pos <= end <= data@.len() <= usize::MAX,
    ensures
        match r {
            Ok(v) => n * 8 <= end - pos && v@ == sp_triangles(data@, pos as int, n as nat),
            Err(e) => e == Error::Truncated && n * 8 > end - pos,
        },
{
    if (n as u64) * 8 > (end - pos) as u64 {
        return Err(Error::Truncated);
    }
    let count = n as usize;
    let mut items: Vec<Triangle> = Vec::new();
    let mut k: usize = 0;
    while k < count
        invariant
            pos + count * 8 <= end <= data@.len() <= usize::MAX,
            k <= count,
            items@.len() == k,
            forall|j: int| 0 <= j < k ==> items@[j] == sp_triangle(data@, pos + 8 * j),
        decreases count - k,
    {
        items.push(parse_triangle(data, pos + k * 8));
        k = k + 1;
    }
    proof {
        assert(items@ =~= sp_triangles(data@, pos as int, n as nat));
    }
    Ok(items)
}

pub fn parse_vec3s(data: &[u8], pos: usize, end: usize, n: u32) -> (r: Result<Vec<Vec3>, Error>)
    requires
        pos <= end <= data@.len() <= usize::MAX,
    ensures
        match r {
            Ok(v) => n * 12 <= end - pos && v@ == sp_vec3s(data@, pos as int, n as nat),
            Err(e) => e == Error::Truncated && n * 12 > end - pos,
        },
{
    if (n as u64) * 12 > (end - pos) as u64 {
        return Err(Error::Truncated);
    }
    let count = n as usize;
    let mut items: Vec<Vec3> = Vec::new();
    let mut k: usize = 0;
    while k < count
        invariant
            pos + count * 12 <= end <= data@.len() <= usize::MAX,
            k <= count,
            items@.len() == k,
            forall|j: int| 0 <= j < k ==> items@[j] == sp_vec3(data@, pos + 12 * j),
        decreases count - k,
    {
        items.push(parse_vec3(data, pos + k * 12));
        k = k + 1;
    }
    proof {
        assert(items@ =~= sp_vec3s(data@, pos as int, n as nat));
    }
    Ok(items)
}


/// Views of a sequence of morph targets, element-wise.
pub open spec fn morph_views(q: Seq<MorphTarget>) -> Seq<MorphTargetV> {
    q.map_values(|m: MorphTarget| m@)
}

/// The name field at offset `i`: 32 bytes, cut at the first NUL.
pub open spec fn sp_name32(s: Seq<u8>, i: int) -> Seq<char> {
    let sub = s.subrange(i, i + 32);
    sp_chars(sub.take(nul_index(sub)))
}

/// Read a fixed 32-byte name field, trimmed at the first NUL byte.
pub fn parse_name32(data: &[u8], pos: usize) -> (r: String)
    requires
        pos + 32 <= data@.len() <= usize::MAX,
    ensures
        r@ == sp_name32(data@, pos as int),
{
    let ghost sub = data@.subrange(pos as int, pos + 32);
    let mut m: usize = 0;
    while m < 32 && read_u8(data, pos + m) != 0
        invariant
            0 <= m <= 32,
            pos + 32 <= data@.len() <= usize::MAX,
            forall|j: int| 0 <= j < m ==> #[trigger] data@[pos + j] != 0,
        decreases 32 - m,
    {
        m = m + 1;
    }
    proof {
        assert(forall|j: int| 0 <= j < 32 ==> sub[j] == data@[pos + j]);
        lemma_nul_index(sub, m as int);
        assert(sub.take(m as int) =~= data@.subrange(pos as int, pos + m));
    }
    chars_of_range(data, pos, pos + m)
}

/// Payload of a string section: all bytes, with trailing NULs dropped.
pub open spec fn sp_string_payload(s: Seq<u8>, pos: int, end: int) -> Seq<char> {
    sp_chars(trim_trailing_nuls(s.subrange(pos, end)))
}

/// Read a string payload, trimming trailing NUL bytes.
pub fn parse_string_payload(data: &[u8], pos: usize, end: usize) -> (r: String)
    requires
        pos <= end <= data@.len() <= usize::MAX,
    ensures
        r@ == sp_string_payload(data@, pos as int, end as int),
{
    let ghost sub = data@.subrange(pos as int, end as int);
    let mut m: usize = end;
    while m > pos && read_u8(data, m - 1) == 0
        invariant
            pos <= m <= end <= data@.len() <= usize::MAX,
            forall|j: int| m <= j < end ==> data@[j] == 0,
        decreases m,
    {
        m = m - 1;
    }
    proof {
        assert(forall|j: int| 0 <= j < end - pos ==> sub[j] == data@[pos + j]);
        lemma_trimmed_len(sub, m - pos);
        assert(sub.take(m - pos) =~= data@.subrange(pos as int, m as int));
    }
    chars_of_range(data, pos, m)
}

/// The texture-reference struct payload: a filtering byte, then packed
/// 4-bit addressing fields and a mipmap bit.
pub open spec fn sp_parse_texture(s: Seq<u8>, pos: int, end: int) -> Result<
    (ClumpDataV, int),
    Error,
> {
    if end - pos < 1 {
        Err(Error::Truncated)
    } else {
        match spec_texture_filtering_of(s[pos]) {
            None => Err(Error::MalformedField),
            Some(filtering) => if end - pos < 4 {
                Err(Error::Truncated)
            } else {
                match spec_texture_addressing_of(s[pos + 1] >> 4) {
                    None => Err(Error::MalformedField),
                    Some(ua) => match spec_texture_addressing_of(s[pos + 1] & 0xF) {
                        None => Err(Error::MalformedField),
                        Some(va) => Ok(
                            (
                                ClumpDataV::Texture(
                                    Texture {
                                        filtering,
                                        uv: UvAddressing { u: ua, v: va },
                                        mipmaps_used: (s[pos + 2] >> 7) & 1 > 0,
                                    },
                                ),
                                pos + 4,
                            ),
                        ),
                    },
                }
            },
        }
    }
}

/// The material struct payload: flags (skipped), color, an unused word,
/// a textured flag, and, past the lighting version bound, lighting.
pub open spec fn sp_parse_material(s: Seq<u8>, pos: int, end: int, version: u32) -> Result<
    (ClumpDataV, int),
    Error,
> {
    let need: int = if version > VERSION_MATERIAL_LIGHTING {
        28
    } else {
        16
    };
    if end - pos < need {
        Err(Error::Truncated)
    } else {
        Ok(
            (
                ClumpDataV::Material(
                    Material {
                        color: sp_color(s, pos + 4),
                        is_textured: le32(s, pos + 12) > 0,
                        lighting: if version > VERSION_MATERIAL_LIGHTING {
                            Some(sp_lighting(s, pos + 16))
                        } else {
                            None
                        },
                    },
                ),
                pos + need,
            ),
        )
    }
}

/// The material-list struct payload: a count, then that many signed
/// de-duplication indices.
pub open spec fn sp_parse_material_list(s: Seq<u8>, pos: int, end: int) -> Result<
    (ClumpDataV, int),
    Error,
> {
    if end - pos < 4 {
        Err(Error::Truncated)
    } else {
        let n = le32(s, pos);
        if 4 + n * 4 > end - pos {
            Err(Error::Truncated)
        } else {
            Ok(
                (
                    ClumpDataV::MaterialList {
                        material_indices: sp_i32s(s, pos + 4, n as nat),
                    },
                    pos + 4 + n * 4,
                ),
            )
        }
    }
}

/// The frame-list struct payload: a count, then that many frames.
pub open spec fn sp_parse_frame_list(s: Seq<u8>, pos: int, end: int) -> Result<
    (ClumpDataV, int),
    Error,
> {
    if end - pos < 4 {
        Err(Error::Truncated)
    } else {
        let n = le32(s, pos);
        if 4 + n * 56 > end - pos {
            Err(Error::Truncated)
        } else {
            Ok((ClumpDataV::FrameList(sp_frames(s, pos + 4, n as nat)), pos + 4 + n * 56))
        }
    }
}

/// The morph targets of a geometry: each a bounding sphere, two presence
/// flags, and the vertex and normal arrays the flags announce.
pub open spec fn sp_morph_targets(s: Seq<u8>, pos: int, end: int, n: nat, verts: u32) -> Result<
    (Seq<MorphTargetV>, int),
    Error,
>
    decreases n,
{
    if n == 0 {
        Ok((Seq::empty(), pos))
    } else if end - pos < 24 {
        Err(Error::Truncated)
    } else {
        let hasv = le32(s, pos + 16) > 0;
        let hasn = le32(s, pos + 20) > 0;
        let vsz: int = if hasv {
            12 * verts
        } else {
            0
        };
        let nsz: int = if hasn {
            12 * verts
        } else {
            0
        };
        if vsz + nsz > end - (pos + 24) {
            Err(Error::Truncated)
        } else {
            let mt = MorphTargetV {
                bounding_sphere: sp_sphere(s, pos),
                vertices: if hasv {
                    sp_vec3s(s, pos + 24, verts as nat)
                } else {
                    Seq::empty()
                },
                normals: if hasn {
                    sp_vec3s(s, pos + 24 + vsz, verts as nat)
                } else {
                    Seq::empty()
                },
            };
            match sp_morph_targets(s, pos + 24 + vsz + nsz, end, (n - 1) as nat, verts) {
                Err(e) => Err(e),
                Ok((rest, p)) => Ok((seq![mt] + rest, p)),
            }
        }
    }
}

/// The geometry struct payload: format word, counts, optional inline
/// lighting, the mesh data unless the payload is native, and morph targets.
pub open spec fn sp_parse_geometry(s: Seq<u8>, pos: int, end: int, version: u32) -> Result<
    (ClumpDataV, int),
    Error,
> {
    if end - pos < 16 {
        Err(Error::Truncated)
    } else {
        let fmt_raw = le32(s, pos);
        let tri = le32(s, pos + 4);
        let verts = le32(s, pos + 8);
        let morphs = le32(s, pos + 12);
        let ts_count = (fmt_raw & 0x00FF0000) >> 16;
        let low = fmt_raw & 0xFFFF;
        if low & 0xFF00 != 0 {
            Err(Error::MalformedField)
        } else {
            let light_sz: int = if version < VERSION_GEOMETRY_LIGHTING {
                12
            } else {
                0
            };
            let p1 = pos + 16;
            if light_sz > end - p1 {
                Err(Error::Truncated)
            } else {
                let lighting = if version < VERSION_GEOMETRY_LIGHTING {
                    Some(sp_lighting(s, p1))
                } else {
                    None
                };
                let p2 = p1 + light_sz;
                if fmt_raw & 0x0100_0000 != 0 {
                    match sp_morph_targets(s, p2, end, morphs as nat, verts) {
                        Err(e) => Err(e),
                        Ok((mts, p3)) => Ok(
                            (
                                ClumpDataV::Geometry(
                                    GeometryV {
                                        format: GeometryFormat { bits: low },
                                        lighting,
                                        data: None,
                                        morph_targets: mts,
                                    },
                                ),
                                p3,
                            ),
                        ),
                    }
                } else {
                    let prelit_sz: int = if low & 8 != 0 {
                        4 * verts
                    } else {
                        0
                    };
                    let ts_sz = ts_count * (8 * verts);
                    let tri_sz = 8 * tri;
                    if prelit_sz + ts_sz + tri_sz > end - p2 {
                        Err(Error::Truncated)
                    } else {
                        let gd = GeometryDataV {
                            prelit_color: if low & 8 != 0 {
                                Some(sp_colors(s, p2, verts as nat))
                            } else {
                                None
                            },
                            texture_sets: Seq::new(
                                ts_count as nat,
                                |t: int| sp_texcoords(s, p2 + prelit_sz + t * (8 * verts), verts as nat),
                            ),
                            triangles: sp_triangles(s, p2 + prelit_sz + ts_sz, tri as nat),
                        };
                        match sp_morph_targets(
                            s,
                            p2 + prelit_sz + ts_sz + tri_sz,
                            end,
                            morphs as nat,
                            verts,
                        ) {
                            Err(e) => Err(e),
                            Ok((mts, p3)) => Ok(
                                (
                                    ClumpDataV::Geometry(
                                        GeometryV {
                                            format: GeometryFormat { bits: low },
                                            lighting,
                                            data: Some(gd),
                                            morph_targets: mts,
                                        },
                                    ),
                                    p3,
                                ),
                            ),
                        }
                    }
                }
            }
        }
    }
}

/// The clump struct payload: an atomic count and, in new enough versions
/// with enough bytes left, light and camera counts.
pub open spec fn sp_parse_clump(s: Seq<u8>, pos: int, end: int, version: u32) -> Result<
    (ClumpDataV, int),
    Error,
> {
    if end - pos < 4 {
        Err(Error::Truncated)
    } else {
        let ac = le32(s, pos);
        if version > VERSION_CLUMP_COUNTS && end - (pos + 4) > 4 {
            if end - (pos + 4) < 8 {
                Err(Error::Truncated)
            } else {
                Ok(
                    (
                        ClumpDataV::Clump(
                            Clump {
                                atomic_count: ac,
                                light_count: le32(s, pos + 4),
                                camera_count: le32(s, pos + 8),
                            },
                        ),
                        pos + 12,
                    ),
                )
            }
        } else {
            Ok(
                (
                    ClumpDataV::Clump(Clump { atomic_count: ac, light_count: 0, camera_count: 0 }),
                    pos + 4,
                ),
            )
        }
    }
}

/// The atomic struct payload: frame and geometry indices, a flag word
/// whose bit 2 is the render gate, and an unused word.
pub open spec fn sp_parse_atomic(s: Seq<u8>, pos: int, end: int) -> Result<
    (ClumpDataV, int),
    Error,
> {
    if end - pos < 16 {
        Err(Error::Truncated)
    } else {
        Ok(
            (
                ClumpDataV::Atomic(
                    Atomic {
                        frame_index: le32(s, pos),
                        geometry_index: le32(s, pos + 4),
                        render: le32(s, pos + 8) & 0x04 > 0,
                    },
                ),
                pos + 16,
            ),
        )
    }
}

/// The texture-dictionary struct payload: one 32-bit count in old versions,
/// a 16-bit count and a device id from the device-id version bound on.
pub open spec fn sp_parse_texture_dictionary(s: Seq<u8>, pos: int, end: int, version: u32) -> Result<
    (ClumpDataV, int),
    Error,
> {
    if version < VERSION_TXD_DEVICE_ID {
        if end - pos < 4 {
            Err(Error::Truncated)
        } else {
            Ok(
                (
                    ClumpDataV::TextureDictionary(
                        TextureDictionary { texture_count: le32(s, pos), device_id: None },
                    ),
                    pos + 4,
                ),
            )
        }
    } else {
        if end - pos < 4 {
            Err(Error::Truncated)
        } else {
            Ok(
                (
                    ClumpDataV::TextureDictionary(
                        TextureDictionary {
                            texture_count: le16(s, pos) as u32,
                            device_id: Some(le16(s, pos + 2)),
                        },
                    ),
                    pos + 4,
                ),
            )
        }
    }
}

/// The geometry-list struct payload: a geometry count.
pub open spec fn sp_parse_geometry_list(s: Seq<u8>, pos: int, end: int) -> Result<
    (ClumpDataV, int),
    Error,
> {
    if end - pos < 4 {
        Err(Error::Truncated)
    } else {
        Ok((ClumpDataV::GeometryList { geometry_count: le32(s, pos) }, pos + 4))
    }
}

/// The raster struct payload: platform id (must be PC/D3D8), packed
/// filtering and addressing, two 32-byte names, format and alpha words,
/// dimensions, depth, level count, raster type, compression code, and the
/// still-compressed pixel payload. A format word with no pixel scheme
/// bits is internally inconsistent and malformed.
pub open spec fn sp_parse_raster(s: Seq<u8>, pos: int, end: int) -> Result<
    (ClumpDataV, int),
    Error,
> {
    if end - pos < 4 {
        Err(Error::Truncated)
    } else if le32(s, pos) != 8 {
        Err(Error::UnsupportedPlatform)
    } else if end - pos < 8 {
        Err(Error::Truncated)
    } else {
        match spec_texture_filtering_of(s[pos + 4]) {
            None => Err(Error::MalformedField),
            Some(filtering) => match spec_texture_addressing_of(s[pos + 5] >> 4) {
                None => Err(Error::MalformedField),
                Some(ua) => match spec_texture_addressing_of(s[pos + 5] & 0xF) {
                    None => Err(Error::MalformedField),
                    Some(va) => {
                        let p = pos + 8;
                        if end - p < 84 {
                            Err(Error::Truncated)
                        } else if !spec_has_scheme(le32(s, p + 64)) {
                            Err(Error::MalformedField)
                        } else {
                            let rsize = le32(s, p + 80);
                            if rsize > end - (p + 84) {
                                Err(Error::Truncated)
                            } else {
                                Ok(
                                    (
                                        ClumpDataV::Raster(
                                            RasterV {
                                                filtering,
                                                uv: UvAddressing { u: ua, v: va },
                                                name: sp_name32(s, p),
                                                mask_name: sp_name32(s, p + 32),
                                                raster_format: RasterFormat { bits: le32(s, p + 64) },
                                                has_alpha: le32(s, p + 68) > 0,
                                                width: le16(s, p + 72),
                                                height: le16(s, p + 74),
                                                depth: s[p + 76],
                                                level_count: s[p + 77],
                                                raster_type: s[p + 78],
                                                compression: s[p + 79],
                                                data: s.subrange(p + 84, p + 84 + rsize),
                                            },
                                        ),
                                        p + 84 + rsize,
                                    ),
                                )
                            }
                        }
                    },
                },
            },
        }
    }
}

/// A struct payload under an uninterpreted parent: kept as raw bytes.
pub open spec fn sp_parse_struct(
    s: Seq<u8>,
    pos: int,
    end: int,
    parent: Option<SectionType>,
    version: u32,
) -> Result<(ClumpDataV, int), Error> {
    match parent {
        None => Err(Error::MalformedField),
        Some(pt) => if pt == SectionType::Texture {
            sp_parse_texture(s, pos, end)
        } else if pt == SectionType::Material {
            sp_parse_material(s, pos, end, version)
        } else if pt == SectionType::MaterialList {
            sp_parse_material_list(s, pos, end)
        } else if pt == SectionType::FrameList {
            sp_parse_frame_list(s, pos, end)
        } else if pt == SectionType::Geometry {
            sp_parse_geometry(s, pos, end, version)
        } else if pt == SectionType::Clump {
            sp_parse_clump(s, pos, end, version)
        } else if pt == SectionType::Atomic {
            sp_parse_atomic(s, pos, end)
        } else if pt == SectionType::Raster {
            sp_parse_raster(s, pos, end)
        } else if pt == SectionType::TextureDictionary {
            sp_parse_texture_dictionary(s, pos, end, version)
        } else if pt == SectionType::GeometryList {
            sp_parse_geometry_list(s, pos, end)
        } else {
            Ok((ClumpDataV::Struct(s.subrange(pos, end)), end))
        },
    }
}


/// Copy the bytes `data[from..to]` into an owned vector.
pub fn bytes_of_range(data: &[u8], from: usize, to: usize) -> (r: Vec<u8>)
    requires
        from <= to <= data@.len() <= usize::MAX,
    ensures
        r@ == data@.subrange(from as int, to as int),
{
    let mut r: Vec<u8> = Vec::new();
    let mut k: usize = from;
    while k < to
        invariant
            from <= k <= to <= data@.len() <= usize::MAX,
            r@ == data@.subrange(from as int, k as int),
        decreases to - k,
    {
        r.push(read_u8(data, k));
        proof {
            assert(data@.subrange(from as int, k + 1) =~= data@.subrange(from as int, k as int).push(
                data@[k as int],
            ));
        }
        k = k + 1;
    }
    r
}

impl ClumpData {
    /// Decode a texture-reference struct payload.
    pub fn parse_texture(data: &[u8], pos: usize, end: usize) -> (r: Result<
        (ClumpData, usize),
        Error,
    >)
        requires
            pos <= end <= data@.len() <= usize::MAX,
        ensures
            match sp_parse_texture(data@, pos as int, end as int) {
                Ok(m) => r matches Ok(v) && v.0@ == m.0 && v.1 == m.1 && pos <= m.1 <= end,
                Err(e) => r matches Err(e2) && e2 == e,
            },
    {
        if end - pos < 1 {
            return Err(Error::Truncated);
        }
        let filtering = match texture_filtering_of(read_u8(data, pos)) {
            Some(f) => f,
            None => {
                return Err(Error::MalformedField);
            },
        };
        if end - pos < 4 {
            return Err(Error::Truncated);
        }
        let b1 = read_u8(data, pos + 1);
        let ua = match texture_addressing_of(b1 >> 4) {
            Some(u) => u,
            None => {
                return Err(Error::MalformedField);
            },
        };
        let va = match texture_addressing_of(b1 & 0xF) {
            Some(v) => v,
            None => {
                return Err(Error::MalformedField);
            },
        };
        let mip = (read_u8(data, pos + 2) >> 7) & 1 > 0;
        Ok(
            (
                ClumpData::Texture(
                    Texture { filtering, uv: UvAddressing { u: ua, v: va }, mipmaps_used: mip },
                ),
                pos + 4,
            ),
        )
    }

    /// Decode a material struct payload.
    pub fn parse_material(data: &[u8], pos: usize, end: usize, version: u32) -> (r: Result<
        (ClumpData, usize),
        Error,
    >)
        requires
            pos <= end <= data@.len() <= usize::MAX,
        ensures
            match sp_parse_material(data@, pos as int, end as int, version) {
                Ok(m) => r matches Ok(v) && v.0@ == m.0 && v.1 == m.1 && pos <= m.1 <= end,
                Err(e) => r matches Err(e2) && e2 == e,
            },
    {
        let need: usize = if version > VERSION_MATERIAL_LIGHTING {
            28
        } else {
            16
        };
        if end - pos < need {
            return Err(Error::Truncated);
        }
        let color = parse_color(data, pos + 4);
        let is_textured = read_le32(data, pos + 12) > 0;
        let lighting = if version > VERSION_MATERIAL_LIGHTING {
            Some(parse_lighting(data, pos + 16))
        } else {
            None
        };
        Ok((ClumpData::Material(Material { color, is_textured, lighting }), pos + need))
    }

    /// Decode a material-list struct payload.
    pub fn parse_material_list(data: &[u8], pos: usize, end: usize) -> (r: Result<
        (ClumpData, usize),
        Error,
    >)
        requires
            pos <= end <= data@.len() <= usize::MAX,
        ensures
            match sp_parse_material_list(data@, pos as int, end as int) {
                Ok(m) => r matches Ok(v) && v.0@ == m.0 && v.1 == m.1 && pos <= m.1 <= end,
                Err(e) => r matches Err(e2) && e2 == e,
            },
    {
        if end - pos < 4 {
            return Err(Error::Truncated);
        }
        let n = read_le32(data, pos);
        let material_indices = match parse_i32s(data, pos + 4, end, n) {
            Ok(v) => v,
            Err(e) => {
                return Err(e);
            },
        };
        Ok((ClumpData::MaterialList { material_indices }, pos + 4 + (n as usize) * 4))
    }

    /// Decode a frame-list struct payload.
    pub fn parse_frame_list(data: &[u8], pos: usize, end: usize) -> (r: Result<
        (ClumpData, usize),
        Error,
    >)
        requires
            pos <= end <= data@.len() <= usize::MAX,
        ensures
            match sp_parse_frame_list(data@, pos as int, end as int) {
                Ok(m) => r matches Ok(v) && v.0@ == m.0 && v.1 == m.1 && pos <= m.1 <= end,
                Err(e) => r matches Err(e2) && e2 == e,
            },
    {
        if end - pos < 4 {
            return Err(Error::Truncated);
        }
        let n = read_le32(data, pos);
        let frames = match parse_frames(data, pos + 4, end, n) {
            Ok(v) => v,
            Err(e) => {
                return Err(e);
            },
        };
        Ok((ClumpData::FrameList(frames), pos + 4 + (n as usize) * 56))
    }

    /// Decode a clump struct payload.
    pub fn parse_clump(data: &[u8], pos: usize, end: usize, version: u32) -> (r: Result<
        (ClumpData, usize),
        Error,
    >)
        requires
            pos <= end <= data@.len() <= usize::MAX,
        ensures
            match sp_parse_clump(data@, pos as int, end as int, version) {
                Ok(m) => r matches Ok(v) && v.0@ == m.0 && v.1 == m.1 && pos <= m.1 <= end,
                Err(e) => r matches Err(e2) && e2 == e,
            },
    {
        if end - pos < 4 {
            return Err(Error::Truncated);
        }
        let atomic_count = read_le32(data, pos);
        if version > VERSION_CLUMP_COUNTS && end - (pos + 4) > 4 {
            if end - (pos + 4) < 8 {
                return Err(Error::Truncated);
            }
            let light_count = read_le32(data, pos + 4);
            let camera_count = read_le32(data, pos + 8);
            Ok((ClumpData::Clump(Clump { atomic_count, light_count, camera_count }), pos + 12))
        } else {
            Ok(
                (
                    ClumpData::Clump(Clump { atomic_count, light_count: 0, camera_count: 0 }),
                    pos + 4,
                ),
            )
        }
    }

    /// Decode an atomic struct payload.
    pub fn parse_atomic(data: &[u8], pos: usize, end: usize) -> (r: Result<
        (ClumpData, usize),
        Error,
    >)
        requires
            pos <= end <= data@.len() <= usize::MAX,
        ensures
            match sp_parse_atomic(data@, pos as int, end as int) {
                Ok(m) => r matches Ok(v) && v.0@ == m.0 && v.1 == m.1 && pos <= m.1 <= end,
                Err(e) => r matches Err(e2) && e2 == e,
            },
    {
        if end - pos < 16 {
            return Err(Error::Truncated);
        }
        let frame_index = read_le32(data, pos);
        let geometry_index = read_le32(data, pos + 4);
        let render = read_le32(data, pos + 8) & 0x04 > 0;
        Ok((ClumpData::Atomic(Atomic { frame_index, geometry_index, render }), pos + 16))
    }

    /// Decode a texture-dictionary struct payload.
    pub fn parse_texture_dictionary(data: &[u8], pos: usize, end: usize, version: u32) -> (r:
        Result<(ClumpData, usize), Error>)
        requires
            pos <= end <= data@.len() <= usize::MAX,
        ensures
            match sp_parse_texture_dictionary(data@, pos as int, end as int, version) {
                Ok(m) => r matches Ok(v) && v.0@ == m.0 && v.1 == m.1 && pos <= m.1 <= end,
                Err(e) => r matches Err(e2) && e2 == e,
            },
    {
        if end - pos < 4 {
            return Err(Error::Truncated);
        }
        if version < VERSION_TXD_DEVICE_ID {
            let texture_count = read_le32(data, pos);
            Ok(
                (
                    ClumpData::TextureDictionary(
                        TextureDictionary { texture_count, device_id: None },
                    ),
                    pos + 4,
                ),
            )
        } else {
            let texture_count = read_le16(data, pos) as u32;
            let device_id = Some(read_le16(data, pos + 2));
            Ok(
                (
                    ClumpData::TextureDictionary(TextureDictionary { texture_count, device_id }),
                    pos + 4,
                ),
            )
        }
    }

    /// Decode a geometry-list struct payload.
    pub fn parse_geometry_list(data: &[u8], pos: usize, end: usize) -> (r: Result<
        (ClumpData, usize),
        Error,
    >)
        requires
            pos <= end <= data@.len() <= usize::MAX,
        ensures
            match sp_parse_geometry_list(data@, pos as int, end as int) {
                Ok(m) => r matches Ok(v) && v.0@ == m.0 && v.1 == m.1 && pos <= m.1 <= end,
                Err(e) => r matches Err(e2) && e2 == e,
            },
    {
        if end - pos < 4 {
            return Err(Error::Truncated);
        }
        Ok((ClumpData::GeometryList { geometry_count: read_le32(data, pos) }, pos + 4))
    }

    /// Decode a raster struct payload.
    pub fn parse_raster(data: &[u8], pos: usize, end: usize) -> (r: Result<
        (ClumpData, usize),
        Error,
    >)
        requires
            pos <= end <= data@.len() <= usize::MAX,
        ensures
            match sp_parse_raster(data@, pos as int, end as int) {
                Ok(m) => r matches Ok(v) && v.0@ == m.0 && v.1 == m.1 && pos <= m.1 <= end,
                Err(e) => r matches Err(e2) && e2 == e,
            },
    {
        if end - pos < 4 {
            return Err(Error::Truncated);
        }
        if read_le32(data, pos) != 8 {
            return Err(Error::UnsupportedPlatform);
        }
        if end - pos < 8 {
            return Err(Error::Truncated);
        }
        let filtering = match texture_filtering_of(read_u8(data, pos + 4)) {
            Some(f) => f,
            None => {
                return Err(Error::MalformedField);
            },
        };
        let b5 = read_u8(data, pos + 5);
        let ua = match texture_addressing_of(b5 >> 4) {
            Some(u) => u,
            None => {
                return Err(Error::MalformedField);
            },
        };
        let va = match texture_addressing_of(b5 & 0xF) {
            Some(v) => v,
            None => {
                return Err(Error::MalformedField);
            },
        };
        let p = pos + 8;
        if end - p < 84 {
            return Err(Error::Truncated);
        }
        let fmt_bits = read_le32(data, p + 64);
        if !has_scheme(fmt_bits) {
            return Err(Error::MalformedField);
        }
        let rsize = read_le32(data, p + 80);
        if (rsize as u64) > (end - (p + 84)) as u64 {
            return Err(Error::Truncated);
        }
        let name = parse_name32(data, p);
        let mask_name = parse_name32(data, p + 32);
        let raster_format = RasterFormat { bits: fmt_bits };
        let has_alpha = read_le32(data, p + 68) > 0;
        let width = read_le16(data, p + 72);
        let height = read_le16(data, p + 74);
        let depth = read_u8(data, p + 76);
        let level_count = read_u8(data, p + 77);
        let raster_type = read_u8(data, p + 78);
        let compression = read_u8(data, p + 79);
        let payload = bytes_of_range(data, p + 84, p + 84 + rsize as usize);
        Ok(
            (
                ClumpData::Raster(
                    Raster {
                        filtering,
                        uv: UvAddressing { u: ua, v: va },
                        name,
                        mask_name,
                        raster_format,
                        has_alpha,
                        width,
                        height,
                        depth,
                        level_count,
                        raster_type,
                        compression,
                        data: payload,
                    },
                ),
                p + 84 + rsize as usize,
            ),
        )
    }
}

/// Decode the morph targets of a geometry.
pub fn parse_morph_targets(data: &[u8], pos: usize, end: usize, n: u32, verts: u32) -> (r: Result<
    (Vec<MorphTarget>, usize),
    Error,
>)
    requires
        pos <= end <= data@.len() <= usize::MAX,
    ensures
        match sp_morph_targets(data@, pos as int, end as int, n as nat, verts) {
            Ok(m) => r matches Ok(v) && morph_views(v.0@) == m.0 && v.1 == m.1 && pos <= m.1 <= end,
            Err(e) => r matches Err(e2) && e2 == e,
        },
{
    let mut items: Vec<MorphTarget> = Vec::new();
    let mut cur: usize = pos;
    let mut k: u32 = 0;
    while k < n
        invariant
            pos <= cur <= end <= data@.len() <= usize::MAX,
            k <= n,
            morph_views(items@).len() == k,
            sp_morph_targets(data@, pos as int, end as int, n as nat, verts) == (match sp_morph_targets(
                data@,
                cur as int,
                end as int,
                (n - k) as nat,
                verts,
            ) {
                Ok(m) => Ok::<(Seq<MorphTargetV>, int), Error>((morph_views(items@) + m.0, m.1)),
                Err(e) => Err::<(Seq<MorphTargetV>, int), Error>(e),
            }),
        decreases n - k,
    {
        if end - cur < 24 {
            return Err(Error::Truncated);
        }
        let hasv = read_le32(data, cur + 16) > 0;
        let hasn = read_le32(data, cur + 20) > 0;
        let vsz: u64 = if hasv {
            12 * verts as u64
        } else {
            0
        };
        let nsz: u64 = if hasn {
            12 * verts as u64
        } else {
            0
        };
        if vsz + nsz > (end - (cur + 24)) as u64 {
            return Err(Error::Truncated);
        }
        let bounding_sphere = parse_sphere(data, cur);
        let vertices = if hasv {
            match parse_vec3s(data, cur + 24, end, verts) {
                Ok(v) => v,
                Err(e) => {
                    return Err(e);
                },
            }
        } else {
            Vec::new()
        };
        let cur2 = cur + 24 + vsz as usize;
        let normals = if hasn {
            match parse_vec3s(data, cur2, end, verts) {
                Ok(v) => v,
                Err(e) => {
                    return Err(e);
                },
            }
        } else {
            Vec::new()
        };
        let ghost old_items = items@;
        let ghost old_cur = cur as int;
        let mt = MorphTarget { bounding_sphere, vertices, normals };
        let ghost mtv = mt@;
        items.push(mt);
        cur = cur2 + nsz as usize;
        k = k + 1;
        proof {
            assert(morph_views(items@) =~= morph_views(old_items) + seq![mtv]);
            let whole = sp_morph_targets(data@, old_cur, end as int, (n - (k - 1)) as nat, verts);
            let smt = (MorphTargetV {
                bounding_sphere: sp_sphere(data@, old_cur),
                vertices: if hasv {
                    sp_vec3s(data@, old_cur + 24, verts as nat)
                } else {
                    Seq::empty()
                },
                normals: if hasn {
                    sp_vec3s(data@, old_cur + 24 + (vsz as int), verts as nat)
                } else {
                    Seq::empty()
                },
            });
            assert(mtv == smt);
            match sp_morph_targets(data@, cur as int, end as int, (n - k) as nat, verts) {
                Ok(m2) => {
                    assert(whole == Ok::<(Seq<MorphTargetV>, int), Error>(
                        (seq![smt] + m2.0, m2.1),
                    ));
                    assert((morph_views(old_items) + (seq![mtv] + m2.0)) =~= (morph_views(items@)
                        + m2.0));
                },
                Err(e) => {
                    assert(whole == Err::<(Seq<MorphTargetV>, int), Error>(e));
                },
            }
        }
    }
    proof {
        assert(morph_views(items@) + Seq::<MorphTargetV>::empty() =~= morph_views(items@));
    }
    Ok((items, cur))
}


impl ClumpData {
    /// Decode a geometry struct payload.
    #[verifier::rlimit(100)]
    pub fn parse_geometry(data: &[u8], pos: usize, end: usize, version: u32) -> (r: Result<
        (ClumpData, usize),
        Error,
    >)
        requires
            pos <= end <= data@.len() <= usize::MAX,
        ensures
            match sp_parse_geometry(data@, pos as int, end as int, version) {
                Ok(m) => r matches Ok(v) && v.0@ == m.0 && v.1 == m.1 && pos <= m.1 <= end,
                Err(e) => r matches Err(e2) && e2 == e,
            },
    {
        if end - pos < 16 {
            return Err(Error::Truncated);
        }
        let fmt_raw = read_le32(data, pos);
        let tri = read_le32(data, pos + 4);
        let verts = read_le32(data, pos + 8);
        let morphs = read_le32(data, pos + 12);
        let ts_count = (fmt_raw & 0x00FF0000) >> 16;
        let low = fmt_raw & 0xFFFF;
        if low & 0xFF00 != 0 {
            return Err(Error::MalformedField);
        }
        let p1 = pos + 16;
        if version < VERSION_GEOMETRY_LIGHTING && end - p1 < 12 {
            return Err(Error::Truncated);
        }
        let lighting = if version < VERSION_GEOMETRY_LIGHTING {
            Some(parse_lighting(data, p1))
        } else {
            None
        };
        let p2 = if version < VERSION_GEOMETRY_LIGHTING {
            p1 + 12
        } else {
            p1
        };
        if fmt_raw & 0x0100_0000 != 0 {
            let (mts, p3) = match parse_morph_targets(data, p2, end, morphs, verts) {
                Ok(v) => v,
                Err(e) => {
                    return Err(e);
                },
            };
            return Ok(
                (
                    ClumpData::Geometry(
                        Geometry {
                            format: GeometryFormat { bits: low },
                            lighting,
                            data: None,
                            morph_targets: mts,
                        },
                    ),
                    p3,
                ),
            );
        }
        let prelit = low & 8 != 0;
        let prelit_sz: u64 = if prelit {
            4 * verts as u64
        } else {
            0
        };
        proof {
            assert((fmt_raw & 0x00FF0000) >> 16 <= 0xFF) by (bit_vector);
            vstd::arithmetic::mul::lemma_mul_upper_bound(
                ts_count as int,
                0xFF,
                8 * (verts as int),
                8 * 0xFFFF_FFFFint,
            );
        }
        let ts_sz: u64 = (ts_count as u64) * (8 * verts as u64);
        let tri_sz: u64 = 8 * tri as u64;
        if prelit_sz + ts_sz + tri_sz > (end - p2) as u64 {
            return Err(Error::Truncated);
        }
        let prelit_color = if prelit {
            match parse_colors(data, p2, end, verts) {
                Ok(v) => Some(v),
                Err(e) => {
                    return Err(e);
                },
            }
        } else {
            None
        };
        let mut cur = p2 + prelit_sz as usize;
        let mut sets: Vec<Vec<TexCoord>> = Vec::new();
        let mut t: u32 = 0;
        while t < ts_count
            invariant
                p2 <= cur <= end <= data@.len() <= usize::MAX,
                t <= ts_count,
                sets@.len() == t,
                cur == p2 + prelit_sz + t * (8 * (verts as int)),
                (ts_count - t) * (8 * (verts as int)) + tri_sz <= end - cur,
                forall|j: int|
                    0 <= j < t ==> #[trigger] sets@[j]@ == sp_texcoords(
                        data@,
                        p2 + prelit_sz + j * (8 * (verts as int)),
                        verts as nat,
                    ),
            decreases ts_count - t,
        {
            proof {
                assert((ts_count - t) * (8 * (verts as int)) == (ts_count - t - 1) * (8 * (
                verts as int)) + (8 * (verts as int))) by (nonlinear_arith);
                assert((t + 1) * (8 * (verts as int)) == t * (8 * (verts as int)) + (8 * (
                verts as int))) by (nonlinear_arith);
            }
            let set = match parse_texcoords(data, cur, end, verts) {
                Ok(v) => v,
                Err(e) => {
                    return Err(e);
                },
            };
            sets.push(set);
            cur = cur + (8 * (verts as u64)) as usize;
            t = t + 1;
        }
        proof {
            assert((ts_count - ts_count) * (8 * (verts as int)) == 0) by (nonlinear_arith);
        }
        let triangles = match parse_triangles(data, cur, end, tri) {
            Ok(v) => v,
            Err(e) => {
                return Err(e);
            },
        };
        let p_geo = cur + (8 * (tri as u64)) as usize;
        let gd = GeometryData { prelit_color, texture_sets: sets, triangles };
        let (mts, p3) = match parse_morph_targets(data, p_geo, end, morphs, verts) {
            Ok(v) => v,
            Err(e) => {
                return Err(e);
            },
        };
        proof {
            assert(gd@.texture_sets =~= Seq::new(
                ts_count as nat,
                |j: int|
                    sp_texcoords(
                        data@,
                        pos + 16 + (if version < VERSION_GEOMETRY_LIGHTING {
                            12int
                        } else {
                            0int
                        }) + (if (fmt_raw & 0xFFFF) & 8 != 0 {
                            4 * (verts as int)
                        } else {
                            0int
                        }) + j * (8 * (verts as int)),
                        verts as nat,
                    ),
            ));
        }
        Ok(
            (
                ClumpData::Geometry(
                    Geometry {
                        format: GeometryFormat { bits: low },
                        lighting,
                        data: Some(gd),
                        morph_targets: mts,
                    },
                ),
                p3,
            ),
        )
    }
}


/// Whether a section of this type holds its children in its whole payload.
pub open spec fn is_container_type(ty: SectionType) -> bool {
    ||| ty == SectionType::Clump
    ||| ty == SectionType::GeometryList
    ||| ty == SectionType::FrameList
    ||| ty == SectionType::MaterialList
    ||| ty == SectionType::Extension
    ||| ty == SectionType::Material
    ||| ty == SectionType::Texture
    ||| ty == SectionType::Geometry
    ||| ty == SectionType::Atomic
    ||| ty == SectionType::Raster
    ||| ty == SectionType::TextureDictionary
}

/// The struct payload of a section, and where its child sections begin.
/// A `Struct` payload is interpreted under its parent's type; a string or
/// node-name payload is consumed whole; a container keeps its payload for
/// children; any other known section's payload is retained uninterpreted.
pub open spec fn sp_payload(
    s: Seq<u8>,
    pos: int,
    end: int,
    ty: SectionType,
    parent: Option<SectionType>,
    version: u32,
) -> Result<(ClumpDataV, int), Error> {
    if ty == SectionType::Struct {
        sp_parse_struct(s, pos, end, parent, version)
    } else if ty == SectionType::String {
        Ok((ClumpDataV::String(sp_string_payload(s, pos, end)), end))
    } else if ty == SectionType::NodeName {
        Ok((ClumpDataV::NodeName(sp_chars(s.subrange(pos, end))), end))
    } else if is_container_type(ty) {
        Ok((ClumpDataV::Unknown(Seq::empty()), pos))
    } else {
        Ok((ClumpDataV::Unknown(s.subrange(pos, end)), end))
    }
}

/// A clamp used only so that the recursion of the tree decoder is visibly
/// well-founded; on every reachable path the clamped value is the input.
#[verifier::inline]
pub open spec fn clamp_pos(p: int, lo: int, hi: int) -> int {
    if p < lo {
        lo
    } else if p > hi {
        hi
    } else {
        p
    }
}

/// One decoded section at `pos`: a 12-byte header, a payload of exactly the
/// declared size, and child sections decoded from the rest of the payload
/// region. On success the returned position is exactly the header position
/// plus 12 plus the declared size: a section always consumes its declared
/// extent, no more and no less.
pub open spec fn sp_parse_section(
    s: Seq<u8>,
    pos: int,
    end: int,
    parent: Option<SectionType>,
) -> Result<(SectionV, int), Error>
    decreases end - pos, 0int,
{
    if end - pos < 12 {
        Err(Error::Truncated)
    } else {
        match spec_section_type_of(le32(s, pos)) {
            None => Err(Error::UnknownSectionType),
            Some(ty) => {
                let size = le32(s, pos + 4);
                let version = spec_decode_version(le32(s, pos + 8));
                if size > end - (pos + 12) {
                    Err(Error::Truncated)
                } else {
                    let body_end = pos + 12 + size;
                    match sp_payload(s, pos + 12, body_end, ty, parent, version) {
                        Err(e) => Err(e),
                        Ok(m) => {
                            let cs = clamp_pos(m.1, pos + 12, body_end);
                            match sp_parse_children(s, cs, body_end, ty) {
                                Err(e) => Err(e),
                                Ok(kids) => Ok(
                                    (
                                        SectionV {
                                            section_type: ty,
                                            version,
                                            children: kids,
                                            data: m.0,
                                        },
                                        body_end,
                                    ),
                                ),
                            }
                        },
                    }
                }
            },
        }
    }
}

/// The child sections of a region, decoded back to back until the region is
/// exhausted.
pub open spec fn sp_parse_children(s: Seq<u8>, pos: int, end: int, parent: SectionType) -> Result<
    Seq<SectionV>,
    Error,
>
    decreases end - pos, 1int,
{
    if pos >= end {
        Ok(Seq::empty())
    } else {
        match sp_parse_section(s, pos, end, Some(parent)) {
            Err(e) => Err(e),
            Ok(m) => {
                let p2 = if m.1 > end {
                    end
                } else if m.1 < pos + 12 {
                    if pos + 12 > end {
                        end
                    } else {
                        pos + 12
                    }
                } else {
                    m.1
                };
                match sp_parse_children(s, p2, end, parent) {
                    Err(e) => Err(e),
                    Ok(rest) => Ok(seq![m.0] + rest),
                }
            },
        }
    }
}

impl ClumpData {
    /// Decode a string payload section.
    pub fn parse_string(data: &[u8], pos: usize, end: usize) -> (r: (ClumpData, usize))
        requires
            pos <= end <= data@.len() <= usize::MAX,
        ensures
            r.0@ == ClumpDataV::String(sp_string_payload(data@, pos as int, end as int)),
            r.1 == end,
    {
        (ClumpData::String(parse_string_payload(data, pos, end)), end)
    }

    /// Decode a node-name payload section.
    pub fn parse_node_name(data: &[u8], pos: usize, end: usize) -> (r: (ClumpData, usize))
        requires
            pos <= end <= data@.len() <= usize::MAX,
        ensures
            r.0@ == ClumpDataV::NodeName(sp_chars(data@.subrange(pos as int, end as int))),
            r.1 == end,
    {
        (ClumpData::NodeName(chars_of_range(data, pos, end)), end)
    }

    /// Decode a struct payload under the given parent type.
    pub fn parse_struct(
        data: &[u8],
        pos: usize,
        end: usize,
        parent: Option<SectionType>,
        version: u32,
    ) -> (r: Result<(ClumpData, usize), Error>)
        requires
            pos <= end <= data@.len() <= usize::MAX,
        ensures
            match sp_parse_struct(data@, pos as int, end as int, parent, version) {
                Ok(m) => r matches Ok(v) && v.0@ == m.0 && v.1 == m.1 && pos <= m.1 <= end,
                Err(e) => r matches Err(e2) && e2 == e,
            },
    {
        let pt = match parent {
            Some(p) => p,
            None => {
                return Err(Error::MalformedField);
            },
        };
        match pt {
            SectionType::Texture => Self::parse_texture(data, pos, end),
            SectionType::Material => Self::parse_material(data, pos, end, version),
            SectionType::MaterialList => Self::parse_material_list(data, pos, end),
            SectionType::FrameList => Self::parse_frame_list(data, pos, end),
            SectionType::Geometry => Self::parse_geometry(data, pos, end, version),
            SectionType::Clump => Self::parse_clump(data, pos, end, version),
            SectionType::Atomic => Self::parse_atomic(data, pos, end),
            SectionType::Raster => Self::parse_raster(data, pos, end),
            SectionType::TextureDictionary => Self::parse_texture_dictionary(
                data,
                pos,
                end,
                version,
            ),
            SectionType::GeometryList => Self::parse_geometry_list(data, pos, end),
            _ => Ok((ClumpData::Struct(UnparsedData(bytes_of_range(data, pos, end))), end)),
        }
    }
}

impl Section {
    /// Decode one section, its payload and its children.
    ///
    /// On success the returned position equals the section's header position
    /// plus 12 plus its declared size: decoding consumes exactly the
    /// declared extent of the section.
    #[verifier::rlimit(100)]
    pub fn parse(data: &[u8], pos: usize, end: usize, parent: Option<SectionType>) -> (r: Result<
        (Section, usize),
        Error,
    >)
        requires
            pos <= end <= data@.len() <= usize::MAX,
        ensures
            match sp_parse_section(data@, pos as int, end as int, parent) {
                Ok(m) => r matches Ok(v) && section_view(&v.0) == m.0 && v.1 == m.1 && pos + 12
                    <= m.1 <= end && m.1 == pos + 12 + le32(data@, pos + 4),
                Err(e) => r matches Err(e2) && e2 == e,
            },
        decreases end - pos, 0int,
    {
        if end - pos < 12 {
            return Err(Error::Truncated);
        }
        let ty = match section_type_of(read_le32(data, pos)) {
            Some(t) => t,
            None => {
                return Err(Error::UnknownSectionType);
            },
        };
        let size = read_le32(data, pos + 4);
        let version = decode_version(read_le32(data, pos + 8));
        if (size as u64) > (end - (pos + 12)) as u64 {
            return Err(Error::Truncated);
        }
        let body_end = pos + 12 + size as usize;
        let (sdata, cs) = match ty {
            SectionType::Struct => match ClumpData::parse_struct(
                data,
                pos + 12,
                body_end,
                parent,
                version,
            ) {
                Ok(v) => v,
                Err(e) => {
                    return Err(e);
                },
            },
            SectionType::String => ClumpData::parse_string(data, pos + 12, body_end),
            SectionType::NodeName => ClumpData::parse_node_name(data, pos + 12, body_end),
            SectionType::Clump | SectionType::GeometryList | SectionType::FrameList
                | SectionType::MaterialList | SectionType::Extension | SectionType::Material
                | SectionType::Texture | SectionType::Geometry | SectionType::Atomic
                | SectionType::Raster | SectionType::TextureDictionary => (
                ClumpData::Unknown(UnparsedData(Vec::new())),
                pos + 12,
            ),
            _ => (
                ClumpData::Unknown(UnparsedData(bytes_of_range(data, pos + 12, body_end))),
                body_end,
            ),
        };
        let ghost csv = clamp_pos(
            sp_payload(
                data@,
                pos + 12,
                body_end as int,
                ty,
                parent,
                version,
            )->Ok_0.1,
            pos + 12,
            body_end as int,
        );
        proof {
            assert(csv == cs as int);
        }
        match Self::parse_children(data, cs, body_end, ty) {
            Ok(children) => Ok(
                (Section { section_type: ty, version, children, data: sdata }, body_end),
            ),
            Err(e) => {
                proof {
                    assert(sp_parse_section(data@, pos as int, end as int, parent)
                        == Err::<(SectionV, int), Error>(e));
                }
                Err(e)
            },
        }
    }

    /// Decode the child sections that fill `data[pos..end]` back to back.
    #[verifier::rlimit(100)]
    pub fn parse_children(data: &[u8], pos: usize, end: usize, parent: SectionType) -> (r: Result<
        Vec<Section>,
        Error,
    >)
        requires
            pos <= end <= data@.len() <= usize::MAX,
        ensures
            match sp_parse_children(data@, pos as int, end as int, parent) {
                Ok(kids) => r matches Ok(v) && sections_view(v@) == kids,
                Err(e) => r matches Err(e2) && e2 == e,
            },
        decreases end - pos, 1int,
    {
        let mut children: Vec<Section> = Vec::new();
        let mut cur: usize = pos;
        proof {
            assert(sections_view(Seq::<Section>::empty()) + Seq::<SectionV>::empty()
                =~= sections_view(Seq::<Section>::empty()));
        }
        while cur < end
            invariant
                pos <= cur <= end <= data@.len() <= usize::MAX,
                sp_parse_children(data@, pos as int, end as int, parent) == (match sp_parse_children(
                    data@,
                    cur as int,
                    end as int,
                    parent,
                ) {
                    Ok(rest) => Ok::<Seq<SectionV>, Error>(sections_view(children@) + rest),
                    Err(e) => Err::<Seq<SectionV>, Error>(e),
                }),
            decreases end - cur,
        {
            let ghost old_children = children@;
            let (sec, p) = match Self::parse(data, cur, end, Some(parent)) {
                Ok(v) => v,
                Err(e) => {
                    return Err(e);
                },
            };
            children.push(sec);
            cur = p;
            proof {
                lemma_sections_view_push(old_children, sec);
                assert(old_children.push(sec) =~= children@);
                match sp_parse_children(data@, cur as int, end as int, parent) {
                    Ok(rest) => {
                        assert((sections_view(old_children) + (seq![section_view(&sec)] + rest))
                            =~= (sections_view(children@) + rest));
                    },
                    Err(_) => {},
                }
            }
        }
        proof {
            assert(sections_view(children@) + Seq::<SectionV>::empty() =~= sections_view(
                children@,
            ));
        }
        Ok(children)
    }
}

/// The decode of a whole byte stream: one top-level section at offset zero;
/// trailing bytes after it are ignored.
pub open spec fn sp_parse_file(s: Seq<u8>) -> Result<Seq<SectionV>, Error> {
    match sp_parse_section(s, 0, s.len() as int, None) {
        Err(e) => Err(e),
        Ok(m) => Ok(seq![m.0]),
    }
}

impl BinaryStreamFile {
    /// Decode a binary stream file from bytes.
    ///
    /// Returns exactly the decode of the leading top-level section: the
    /// errors are those of the section decoder, and on success the file
    /// holds that one section tree.
    pub fn from_bytes(data: &[u8]) -> (r: Result<BinaryStreamFile, Error>)
        ensures
            match sp_parse_file(data@) {
                Ok(m) => r matches Ok(f) && f@ == m,
                Err(e) => r matches Err(e2) && e2 == e,
            },
    {
        let n = data.len();
        match Section::parse(data, 0, n, None) {
            Ok(v) => {
                let mut sections: Vec<Section> = Vec::new();
                sections.push(v.0);
                proof {
                    lemma_sections_view_push(Seq::empty(), v.0);
                    assert(Seq::<Section>::empty().push(v.0) =~= sections@);
                    assert(seq![section_view(&v.0)] + Seq::<SectionV>::empty() =~= seq![
                        section_view(&v.0),
                    ]);
                    assert(sections_view(Seq::empty()) + seq![section_view(&v.0)] =~= seq![
                        section_view(&v.0),
                    ]);
                }
                Ok(BinaryStreamFile { sections })
            },
            Err(e) => Err(e),
        }
    }
}


/// The section size invariant: a successfully decoded section consumes
/// exactly its declared extent, twelve header bytes plus its size field,
/// and that extent lies within the region it was decoded from. Its children
/// are in turn decoded from within the payload region alone, so what they
/// consume never exceeds the declared size.
pub proof fn lemma_section_extent(s: Seq<u8>, pos: int, end: int, parent: Option<SectionType>)
    requires
        sp_parse_section(s, pos, end, parent) matches Ok(m),
    ensures
        sp_parse_section(s, pos, end, parent) matches Ok(m) ==> {
            &&& m.1 == pos + 12 + le32(s, pos + 4)
            &&& pos + 12 <= m.1 <= end
        },
{
}

} // verus!
