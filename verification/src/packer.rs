//! The texture atlas packer: builds one tinted RGBA tile per material
//! slot, packs the tiles into a single atlas with a skyline heuristic, and
//! reports each slot's tile rectangle in atlas pixel space.

use texture_packer::texture::Texture as TexturePackerTexture;

use vstd::prelude::*;

use crate::dff::Material;
use crate::dff::MaterialV;
use crate::txd::TextureV;
use crate::types::Color;
use crate::types::Error;

verus! {

/// A tile rectangle of the atlas, in pixels; `right` and `bottom` are
/// exclusive. The normalized bound of an axis is the pixel value divided
/// by the matching atlas dimension.
#[derive(Debug, PartialEq, Eq, Copy, Clone, Structural)]
pub struct Frame {
    pub left: u32,
    pub top: u32,
    pub right: u32,
    pub bottom: u32,
}

/// One packed atlas: its pixel dimensions, its RGBA bytes, and one tile
/// rectangle per input material slot.
#[derive(Debug, PartialEq, Eq, Clone)]
pub struct PackedTexture {
    pub width: u16,
    pub height: u16,
    pub data: Vec<u8>,
    pub frames: Vec<Frame>,
}

/// Ghost view of [`PackedTexture`].
pub struct PackedTextureV {
    pub width: u16,
    pub height: u16,
    pub data: Seq<u8>,
    pub frames: Seq<Frame>,
}

impl View for PackedTexture {
    type V = PackedTextureV;

    open spec fn view(&self) -> PackedTextureV {
        PackedTextureV {
            width: self.width,
            height: self.height,
            data: self.data@,
            frames: self.frames@,
        }
    }
}

/// One tile awaiting packing: the material slot it stands for, its RGBA
/// bytes and its dimensions.
pub struct Tile {
    pub key: u16,
    pub data: Vec<u8>,
    pub w: u32,
    pub h: u32,
}

/// Ghost view of [`Tile`].
pub struct TileV {
    pub key: u16,
    pub data: Seq<u8>,
    pub w: u32,
    pub h: u32,
}

impl View for Tile {
    type V = TileV;

    open spec fn view(&self) -> TileV {
        TileV { key: self.key, data: self.data@, w: self.w, h: self.h }
    }
}

/// Channel `j` of a color, in RGBA order.
pub open spec fn sp_channel(color: Color, j: int) -> u8 {
    if j == 0 {
        color.r
    } else if j == 1 {
        color.g
    } else if j == 2 {
        color.b
    } else {
        color.a
    }
}

/// One texture channel multiplied by one color channel in unit space and
/// requantized: the floor of `c * m / 255`.
pub open spec fn sp_tint(c: u8, m: u8) -> u8 {
    ((c as int) * (m as int) / 255) as u8
}

/// The index of the texture a name refers to: the last one carrying that
/// name, so that a duplicated name is tolerated and the later texture
/// wins.
pub open spec fn sp_find_texture(texs: Seq<TextureV>, name: Seq<char>) -> Option<int>
    decreases texs.len(),
{
    if texs.len() == 0 {
        None
    } else if texs.last().name == name {
        Some(texs.len() - 1)
    } else {
        sp_find_texture(texs.drop_last(), name)
    }
}

/// The tile of one material: its referenced texture's pixels, each channel
/// tinted by the material's base color, when the material references a
/// texture that is present; otherwise an 8-by-8 tile of the base color
/// repeated in every pixel, alpha included.
pub open spec fn sp_tile(material: MaterialV, texs: Seq<TextureV>) -> (Seq<u8>, u32, u32) {
    let fallback = (Seq::new(256, |i: int| sp_channel(material.color, i % 4)), 8u32, 8u32);
    match material.texture {
        Some(t) => match sp_find_texture(texs, t.name) {
            Some(ti) => (
                Seq::new(
                    texs[ti].data.len(),
                    |i: int| sp_tint(texs[ti].data[i], sp_channel(material.color, i % 4)),
                ),
                texs[ti].width as u32,
                texs[ti].height as u32,
            ),
            None => fallback,
        },
        None => fallback,
    }
}

/// Multiply one texture channel by one color channel in unit space.
pub fn tint(c: u8, m: u8) -> (r: u8)
    ensures
        r == sp_tint(c, m),
{
    proof {
        vstd::arithmetic::mul::lemma_mul_upper_bound(c as int, 255, m as int, 255);
    }
    ((c as u32) * (m as u32) / 255) as u8
}

/// Channel `j` of a color, in RGBA order.
pub fn channel(color: Color, j: usize) -> (r: u8)
    requires
        j < 4,
    ensures
        r == sp_channel(color, j as int),
{
    if j == 0 {
        color.r
    } else if j == 1 {
        color.g
    } else if j == 2 {
        color.b
    } else {
        color.a
    }
}

/// Find the texture a material's texture reference names, if any: the
/// last texture of that name.
fn find_texture(texs: &Vec<crate::txd::Texture>, name: &String) -> (r: Option<usize>)
    ensures
        match sp_find_texture(texs@.map_values(|t: crate::txd::Texture| t@), name@) {
            Some(i) => r matches Some(i2) && i2 == i,
            None => r is None,
        },
        r matches Some(i2) ==> i2 < texs@.len(),
{
    let ghost texsv = texs@.map_values(|t: crate::txd::Texture| t@);
    let n = texs.len();
    let mut i: usize = n;
    proof {
        assert(texsv.take(n as int) =~= texsv);
    }
    while i > 0
        invariant
            i <= n == texs@.len(),
            texsv.len() == n,
            forall|k: int| 0 <= k < n ==> #[trigger] texsv[k] == texs@[k]@,
            sp_find_texture(texsv, name@) == sp_find_texture(texsv.take(i as int), name@),
        decreases i,
    {
        proof {
            assert(texsv.take(i as int).last() == texsv[i - 1]);
            assert(texsv.take(i as int).drop_last() =~= texsv.take(i - 1));
        }
        if texs[i - 1].name.eq(name) {
            proof {
                assert(texsv.take(i as int).last().name == name@);
                assert(sp_find_texture(texsv.take(i as int), name@) == Some(i - 1int));
                assert(sp_find_texture(texsv, name@) == Some(i - 1int));
                assert(texs@.map_values(|t: crate::txd::Texture| t@) == texsv);
            }
            return Some(i - 1);
        }
        i = i - 1;
    }
    proof {
        assert(texsv.take(0) =~= Seq::<TextureV>::empty());
    }
    None
}

/// Build the tile of one material slot.
pub fn material_to_texture_data(
    material: &Material,
    textures: &Vec<crate::txd::Texture>,
) -> (r: (Vec<u8>, u32, u32))
    ensures
        ({
            let m = sp_tile(material@, textures@.map_values(|t: crate::txd::Texture| t@));
            r.0@ == m.0 && r.1 == m.1 && r.2 == m.2
        }),
{
    let ghost texsv = textures@.map_values(|t: crate::txd::Texture| t@);
    let found: Option<usize> = match &material.texture {
        Some(t) => find_texture(textures, &t.name),
        None => None,
    };
    match found {
        Some(ti) => {
            proof {
                assert(texsv[ti as int] == textures@[ti as int]@);
            }
            let tex = &textures[ti];
            let n = tex.data.len();
            let mut out: Vec<u8> = Vec::new();
            let mut i: usize = 0;
            while i < n
                invariant
                    i <= n == tex.data@.len(),
                    tex@ == texsv[ti as int],
                    ti < texsv.len(),
                    out@.len() == i,
                    forall|k: int|
                        0 <= k < i ==> #[trigger] out@[k] == sp_tint(
                            texsv[ti as int].data[k],
                            sp_channel(material@.color, k % 4),
                        ),
                decreases n - i,
            {
                out.push(tint(tex.data[i], channel(material.color, i % 4)));
                i = i + 1;
            }
            proof {
                assert(out@ =~= sp_tile(material@, texsv).0);
            }
            (out, tex.width as u32, tex.height as u32)
        },
        None => {
            let mut out: Vec<u8> = Vec::new();
            let mut i: usize = 0;
            while i < 256
                invariant
                    i <= 256,
                    out@.len() == i,
                    forall|k: int|
                        0 <= k < i ==> #[trigger] out@[k] == sp_channel(material@.color, k % 4),
                decreases 256 - i,
            {
                out.push(channel(material.color, i % 4));
                i = i + 1;
            }
            proof {
                assert(out@ =~= sp_tile(material@, texsv).0);
            }
            (out, 8, 8)
        },
    }
}

/// The pixel area of a tile.
pub open spec fn sp_area(t: TileV) -> int {
    (t.w as int) * (t.h as int)
}

/// Insert a tile into a sequence already sorted by descending area: it
/// goes in front of the first strictly smaller tile, so a tile of equal
/// area keeps its place in front of the inserted one.
pub open spec fn sp_insert_desc(x: TileV, s: Seq<TileV>) -> Seq<TileV>
    decreases s.len(),
{
    if s.len() == 0 {
        seq![x]
    } else if sp_area(x) > sp_area(s[0]) {
        seq![x] + s
    } else {
        seq![s[0]] + sp_insert_desc(x, s.drop_first())
    }
}

/// Sort tiles by descending area, stably: tiles of equal area keep their
/// input order.
pub open spec fn sp_sort_desc(s: Seq<TileV>) -> Seq<TileV>
    decreases s.len(),
{
    if s.len() == 0 {
        Seq::empty()
    } else {
        sp_insert_desc(s.last(), sp_sort_desc(s.drop_last()))
    }
}

proof fn lemma_insert_desc_len(x: TileV, s: Seq<TileV>)
    ensures
        sp_insert_desc(x, s).len() == s.len() + 1,
    decreases s.len(),
{
    if s.len() > 0 && !(sp_area(x) > sp_area(s[0])) {
        lemma_insert_desc_len(x, s.drop_first());
    }
}

/// Sorting keeps the number of tiles.
pub proof fn lemma_sort_desc_len(s: Seq<TileV>)
    ensures
        sp_sort_desc(s).len() == s.len(),
    decreases s.len(),
{
    if s.len() > 0 {
        lemma_sort_desc_len(s.drop_last());
        lemma_insert_desc_len(s.last(), sp_sort_desc(s.drop_last()));
    }
}

proof fn lemma_insert_desc_contains(x: TileV, s: Seq<TileV>, y: TileV)
    ensures
        sp_insert_desc(x, s).contains(y) <==> (s.contains(y) || y == x),
    decreases s.len(),
{
    if s.len() == 0 {
        assert(sp_insert_desc(x, s) =~= seq![x]);
        assert(seq![x].contains(y) <==> y == x) by {
            if seq![x].contains(y) {
                let i = choose|i: int| 0 <= i < seq![x].len() && seq![x][i] == y;
                assert(seq![x][0] == y);
            }
            if y == x {
                assert(seq![x][0] == y);
            }
        }
        assert(!s.contains(y));
    } else if sp_area(x) > sp_area(s[0]) {
        assert(sp_insert_desc(x, s) == seq![x] + s);
        assert((seq![x] + s).contains(y) <==> (y == x || s.contains(y))) by {
            if (seq![x] + s).contains(y) {
                let i = choose|i: int| 0 <= i < (seq![x] + s).len() && (seq![x] + s)[i] == y;
                if i == 0 {
                } else {
                    assert(s[i - 1] == y);
                }
            }
            if y == x {
                assert((seq![x] + s)[0] == y);
            }
            if s.contains(y) {
                let i = choose|i: int| 0 <= i < s.len() && s[i] == y;
                assert((seq![x] + s)[i + 1] == y);
            }
        }
    } else {
        lemma_insert_desc_contains(x, s.drop_first(), y);
        let rest = sp_insert_desc(x, s.drop_first());
        assert(sp_insert_desc(x, s) == seq![s[0]] + rest);
        assert((seq![s[0]] + rest).contains(y) <==> (y == s[0] || rest.contains(y))) by {
            if (seq![s[0]] + rest).contains(y) {
                let i = choose|i: int|
                    0 <= i < (seq![s[0]] + rest).len() && (seq![s[0]] + rest)[i] == y;
                if i == 0 {
                } else {
                    assert(rest[i - 1] == y);
                }
            }
            if y == s[0] {
                assert((seq![s[0]] + rest)[0] == y);
            }
            if rest.contains(y) {
                let i = choose|i: int| 0 <= i < rest.len() && rest[i] == y;
                assert((seq![s[0]] + rest)[i + 1] == y);
            }
        }
        assert(s.contains(y) <==> (y == s[0] || s.drop_first().contains(y))) by {
            if s.contains(y) {
                let i = choose|i: int| 0 <= i < s.len() && s[i] == y;
                if i > 0 {
                    assert(s.drop_first()[i - 1] == y);
                }
            }
            if s.drop_first().contains(y) {
                let i = choose|i: int| 0 <= i < s.drop_first().len() && s.drop_first()[i] == y;
                assert(s[i + 1] == y);
            }
        }
    }
}

/// Sorting keeps exactly the tiles of the input.
pub proof fn lemma_sort_desc_contains(s: Seq<TileV>, y: TileV)
    ensures
        sp_sort_desc(s).contains(y) <==> s.contains(y),
    decreases s.len(),
{
    if s.len() > 0 {
        lemma_sort_desc_contains(s.drop_last(), y);
        lemma_insert_desc_contains(s.last(), sp_sort_desc(s.drop_last()), y);
        assert(s.contains(y) <==> (s.drop_last().contains(y) || y == s.last())) by {
            if s.contains(y) {
                let i = choose|i: int| 0 <= i < s.len() && s[i] == y;
                if i < s.len() - 1 {
                    assert(s.drop_last()[i] == y);
                }
            }
            if s.drop_last().contains(y) {
                let i = choose|i: int| 0 <= i < s.drop_last().len() && s.drop_last()[i] == y;
                assert(s[i] == y);
            }
        }
    }
}

/// Insert a tile into a vector sorted by descending area, in front of the
/// first strictly smaller tile.
#[verifier::loop_isolation(false)]
fn insert_desc(sorted: &mut Vec<Tile>, x: Tile)
    ensures
        final (sorted)@.map_values(|t: Tile| t@) == sp_insert_desc(
            x@,
            old(sorted)@.map_values(|t: Tile| t@),
        ),
{
    let ghost sv = sorted@.map_values(|t: Tile| t@);
    let ghost xv = x@;
    let n = sorted.len();
    let mut p: usize = 0;
    let mut stop = false;
    while p < n && !stop
        invariant
            p <= n == sorted@.len(),
            sorted@ == old(sorted)@,
            sv == sorted@.map_values(|t: Tile| t@),
            forall|q: int|
                0 <= q < p ==> !(sp_area(xv) > sp_area(#[trigger] sv[q])),
            stop ==> p < n && sp_area(xv) > sp_area(sv[p as int]),
        decreases n - p, (if stop { 0int } else { 1int }),
    {
        proof {
            vstd::arithmetic::mul::lemma_mul_upper_bound(
                x.w as int,
                0xFFFF_FFFF,
                x.h as int,
                0xFFFF_FFFF,
            );
            vstd::arithmetic::mul::lemma_mul_upper_bound(
                sorted@[p as int].w as int,
                0xFFFF_FFFF,
                sorted@[p as int].h as int,
                0xFFFF_FFFF,
            );
        }
        let ax = (x.w as u64) * (x.h as u64);
        let ay = (sorted[p].w as u64) * (sorted[p].h as u64);
        proof {
            assert(sv[p as int] == sorted@[p as int]@);
            assert(ax as int == sp_area(xv));
            assert(ay as int == sp_area(sv[p as int]));
        }
        if ax > ay {
            stop = true;
        } else {
            p = p + 1;
        }
    }
    proof {
        assert(p < n ==> sp_area(xv) > sp_area(sv[p as int]));
    }
    sorted.insert(p, x);
    proof {
        lemma_insert_at(sv, xv, p as int);
        assert(sorted@.map_values(|t: Tile| t@) =~= sv.insert(p as int, xv));
    }
}

/// Inserting in front of the first strictly smaller element is what
/// `sp_insert_desc` does.
proof fn lemma_insert_at(s: Seq<TileV>, x: TileV, p: int)
    requires
        0 <= p <= s.len(),
        forall|q: int| 0 <= q < p ==> !(sp_area(x) > sp_area(#[trigger] s[q])),
        p < s.len() ==> sp_area(x) > sp_area(s[p]),
    ensures
        sp_insert_desc(x, s) == s.insert(p, x),
    decreases s.len(),
{
    if s.len() == 0 {
        assert(sp_insert_desc(x, s) =~= s.insert(0, x));
    } else if sp_area(x) > sp_area(s[0]) {
        assert(p == 0);
        assert(sp_insert_desc(x, s) =~= s.insert(0, x));
    } else {
        assert(p >= 1);
        lemma_insert_at(s.drop_first(), x, p - 1);
        assert(forall|q: int|
            0 <= q < p - 1 ==> !(sp_area(x) > sp_area(#[trigger] s.drop_first()[q])));
        assert(sp_insert_desc(x, s) == seq![s[0]] + sp_insert_desc(x, s.drop_first()));
        assert(seq![s[0]] + s.drop_first().insert(p - 1, x) =~= s.insert(p, x));
    }
}


/// The skyline atlas packer of the `texture_packer` crate, specialised to
/// in-memory RGBA tiles keyed by material slot. The packer is configured
/// once: a 4096-by-4096 ceiling, no rotation, no padding, no trimming, so
/// a placed tile keeps exactly its own size.
#[verifier::external_body]
pub struct AtlasPacker {
    inner: texture_packer::TexturePacker<
        'static,
        texture_packer::texture::memory_rgba8_texture::MemoryRGBA8Texture,
        u16,
    >,
}

/// The tiles successfully packed so far, in packing order: slot key, RGBA
/// bytes, width, height.
pub uninterp spec fn packer_tiles(p: &AtlasPacker) -> Seq<(u16, Seq<u8>, u32, u32)>;

/// Whether the skyline layout that placed `tiles` has room for one more
/// tile of the given size; the packing algorithm is deterministic, so this
/// depends on the packed tiles alone.
pub uninterp spec fn tile_fits(tiles: Seq<(u16, Seq<u8>, u32, u32)>, w: u32, h: u32) -> bool;

/// The rectangle (x, y, width, height) the skyline layout assigned to the
/// last packed tile of a key, if any.
pub uninterp spec fn layout_frame(tiles: Seq<(u16, Seq<u8>, u32, u32)>, key: u16) -> Option<
    (u32, u32, u32, u32),
>;

/// The width of the skyline layout's atlas: one past the rightmost placed
/// pixel column.
pub uninterp spec fn layout_width(tiles: Seq<(u16, Seq<u8>, u32, u32)>) -> u32;

/// The height of the skyline layout's atlas: one past the bottom placed
/// pixel row.
pub uninterp spec fn layout_height(tiles: Seq<(u16, Seq<u8>, u32, u32)>) -> u32;

/// The pixel of the packed atlas at a coordinate: the pixel of the tile
/// placed there, if any. Placed tiles never overlap, so this depends on
/// the packed tiles alone.
pub uninterp spec fn layout_pixel(tiles: Seq<(u16, Seq<u8>, u32, u32)>, x: u32, y: u32) -> Option<
    (u8, u8, u8, u8),
>;

/// The last packed tile of a key, if any: the one whose frame and pixels
/// the atlas reports for that key.
pub open spec fn sp_tile_of_key(tiles: Seq<(u16, Seq<u8>, u32, u32)>, key: u16) -> Option<
    (u16, Seq<u8>, u32, u32),
>
    decreases tiles.len(),
{
    if tiles.len() == 0 {
        None
    } else if tiles.last().0 == key {
        Some(tiles.last())
    } else {
        sp_tile_of_key(tiles.drop_last(), key)
    }
}

/// Whether a coordinate lies inside a frame rectangle (x, y, w, h).
pub open spec fn sp_in_frame(f: (u32, u32, u32, u32), x: u32, y: u32) -> bool {
    f.0 <= x < f.0 + f.2 && f.1 <= y < f.1 + f.3
}

/// Whether two frame rectangles share no pixel.
pub open spec fn sp_disjoint_frames(f: (u32, u32, u32, u32), g: (u32, u32, u32, u32)) -> bool {
    f.0 + f.2 <= g.0 || g.0 + g.2 <= f.0 || f.1 + f.3 <= g.1 || g.1 + g.3 <= f.1
}

/// Pixel (dx, dy) of a tile's RGBA bytes, row-major.
pub open spec fn sp_tile_pixel(t: (u16, Seq<u8>, u32, u32), dx: u32, dy: u32) -> (
    u8,
    u8,
    u8,
    u8,
) {
    let base = 4 * ((dy as int) * (t.2 as int) + (dx as int));
    (t.1[base], t.1[base + 1], t.1[base + 2], t.1[base + 3])
}

/// Relies on `TexturePacker::new_skyline`: a fresh packer holds no tiles.
#[verifier::external_body]
fn new_atlas_packer() -> (p: AtlasPacker)
    ensures
        packer_tiles(&p) == Seq::<(u16, Seq<u8>, u32, u32)>::empty(),
{
    AtlasPacker {
        inner: texture_packer::TexturePacker::new_skyline(
            texture_packer::TexturePackerConfig {
                max_width: 4096,
                max_height: 4096,
                allow_rotation: false,
                texture_padding: 0,
                texture_outlines: false,
                trim: false,
                ..Default::default()
            },
        ),
    }
}

/// Relies on `MemoryRGBA8Texture::from_memory` and
/// `TexturePacker::pack_own`: the texture is built from exactly
/// `4 * w * h` bytes, and packing either places it (recording a frame for
/// its key, replacing any earlier frame of the same key) or reports that
/// it cannot fit, leaving the packer unchanged. A tile always fits an
/// empty layout when its width is within the 4096 ceiling and its height
/// is below it: the skyline record a placement leaves behind must stay
/// strictly inside the bottom border, so a full-height tile is refused
/// even when the atlas is empty.
#[verifier::external_body]
fn pack_tile(p: &mut AtlasPacker, key: u16, buf: &Vec<u8>, w: u32, h: u32) -> (r: Result<
    (),
    Error,
>)
    requires
        buf@.len() == 4 * (w as int) * (h as int),
        1 <= w <= 0xFFFF,
        1 <= h <= 0xFFFF,
    ensures
        r is Ok <==> tile_fits(packer_tiles(old(p)), w, h),
        (packer_tiles(old(p)).len() == 0 && w <= 4096 && h <= 4095) ==> r is Ok,
        r is Ok ==> packer_tiles(final (p)) == packer_tiles(old(p)).push((key, buf@, w, h)),
        r is Err ==> packer_tiles(final (p)) == packer_tiles(old(p)) && (r matches Err(e) && e
            == Error::AtlasOverflow),
{
    let tex = texture_packer::texture::memory_rgba8_texture::MemoryRGBA8Texture::from_memory(
        buf,
        w,
        h,
    );
    match p.inner.pack_own(key, tex) {
        Ok(()) => Ok(()),
        Err(_) => Err(Error::AtlasOverflow),
    }
}

/// Relies on `TexturePacker::get_frame`: a key has a frame exactly when a
/// tile of that key was packed; the frame lies within the atlas extent,
/// keeps the last packed tile's size (no rotation, no trimming), never
/// overlaps another key's frame (skyline placements are disjoint), and
/// the one tile of a single-tile layout sits at the origin.
#[verifier::external_body]
fn atlas_frame(p: &AtlasPacker, key: u16) -> (r: Option<(u32, u32, u32, u32)>)
    ensures
        r == layout_frame(packer_tiles(p), key),
        (exists|i: int|
            0 <= i < packer_tiles(p).len() && (#[trigger] packer_tiles(p)[i]).0 == key) <==> r
            is Some,
        r matches Some(f) ==> f.0 + f.2 <= layout_width(packer_tiles(p)) && f.1 + f.3
            <= layout_height(packer_tiles(p)),
        r matches Some(f) ==> (sp_tile_of_key(packer_tiles(p), key) matches Some(t) && f.2
            == t.2 && f.3 == t.3),
        r matches Some(f) ==> forall|k2: u16|
            (k2 != key && (#[trigger] layout_frame(packer_tiles(p), k2)) is Some)
                ==> sp_disjoint_frames(f, layout_frame(packer_tiles(p), k2)->Some_0),
        (packer_tiles(p).len() == 1 && packer_tiles(p)[0].0 == key) ==> r == Some(
            (0u32, 0u32, packer_tiles(p)[0].2, packer_tiles(p)[0].3),
        ),
{
    p.inner.get_frame(&key).map(|f| (f.frame.x, f.frame.y, f.frame.w, f.frame.h))
}

/// Relies on `TexturePacker::width`: zero for an empty layout, at most the
/// configured ceiling, and exactly the tile width when one tile sits at
/// the origin.
#[verifier::external_body]
fn atlas_width(p: &AtlasPacker) -> (r: u32)
    ensures
        r == layout_width(packer_tiles(p)),
        r <= 4096,
        packer_tiles(p).len() == 0 ==> r == 0,
        packer_tiles(p).len() == 1 ==> r == packer_tiles(p)[0].2,
{
    self::TexturePackerTexture::width(&p.inner)
}

/// Relies on `TexturePacker::height`: the vertical counterpart of
/// `atlas_width`.
#[verifier::external_body]
fn atlas_height(p: &AtlasPacker) -> (r: u32)
    ensures
        r == layout_height(packer_tiles(p)),
        r <= 4096,
        packer_tiles(p).len() == 0 ==> r == 0,
        packer_tiles(p).len() == 1 ==> r == packer_tiles(p)[0].3,
{
    self::TexturePackerTexture::height(&p.inner)
}

/// Relies on `TexturePacker::get`: the pixel of the placed tile covering
/// the coordinate, if any. Inside a key's frame the reported pixel is
/// that key's own tile pixel: frames are disjoint, untrimmed and
/// unrotated, so the covering frame is the key's and the tile's bytes are
/// read at the coordinate relative to the frame's corner.
#[verifier::external_body]
fn atlas_pixel(p: &AtlasPacker, x: u32, y: u32) -> (r: Option<(u8, u8, u8, u8)>)
    ensures
        r == layout_pixel(packer_tiles(p), x, y),
        forall|key: u16|
            ((#[trigger] layout_frame(packer_tiles(p), key)) is Some && sp_in_frame(
                layout_frame(packer_tiles(p), key)->Some_0,
                x,
                y,
            )) ==> r == Some(
                sp_tile_pixel(
                    sp_tile_of_key(packer_tiles(p), key)->Some_0,
                    (x - layout_frame(packer_tiles(p), key)->Some_0.0) as u32,
                    (y - layout_frame(packer_tiles(p), key)->Some_0.1) as u32,
                ),
            ),
{
    match self::TexturePackerTexture::get(&p.inner, x, y) {
        Some(px) => Some((px.r, px.g, px.b, px.a)),
        None => None,
    }
}

/// The tiles of the atlas, as plain tuples.
pub open spec fn tiles_tuple(s: Seq<TileV>) -> Seq<(u16, Seq<u8>, u32, u32)> {
    s.map_values(|t: TileV| (t.key, t.data, t.w, t.h))
}

/// One tile per material slot, in slot order.
pub open spec fn sp_slot_tiles(
    mats: Seq<MaterialV>,
    idx: Seq<usize>,
    texs: Seq<TextureV>,
) -> Seq<TileV> {
    Seq::new(
        idx.len(),
        |i: int|
            {
                let t = sp_tile(mats[idx[i] as int], texs);
                TileV { key: idx[i] as u16, data: t.0, w: t.1, h: t.2 }
            },
    )
}

/// The atlas pixel reported for a coordinate, with the black opaque
/// fallback for uncovered coordinates.
pub open spec fn sp_atlas_pixel(tiles: Seq<(u16, Seq<u8>, u32, u32)>, x: u32, y: u32) -> (
    u8,
    u8,
    u8,
    u8,
) {
    match layout_pixel(tiles, x, y) {
        Some(px) => px,
        None => (0, 0, 0, 255),
    }
}

/// Byte `c` of the atlas pixel at a coordinate.
pub open spec fn sp_atlas_byte(tiles: Seq<(u16, Seq<u8>, u32, u32)>, x: u32, y: u32, c: int) -> u8 {
    let px = sp_atlas_pixel(tiles, x, y);
    if c == 0 {
        px.0
    } else if c == 1 {
        px.1
    } else if c == 2 {
        px.2
    } else {
        px.3
    }
}

/// A tile is well-formed when its dimensions are positive and its byte
/// count matches them.
pub open spec fn sp_tile_wf(t: TileV) -> bool {
    &&& t.w >= 1
    &&& t.h >= 1
    &&& t.w <= 0xFFFF
    &&& t.h <= 0xFFFF
    &&& t.data.len() == 4 * (t.w as int) * (t.h as int)
}

/// The first `k` tiles, packed in order, all fit: each one fits the
/// skyline layout of the tiles placed before it. Packing succeeds exactly
/// when every step fits.
pub open spec fn sp_all_fit(tiles: Seq<(u16, Seq<u8>, u32, u32)>, k: int) -> bool
    decreases k,
{
    if k <= 0 {
        true
    } else {
        sp_all_fit(tiles, k - 1) && tile_fits(tiles.take(k - 1), tiles[k - 1].2, tiles[k - 1].3)
    }
}

/// When the first `n` packing steps all fit, each single step fits.
proof fn lemma_all_fit_step(tiles: Seq<(u16, Seq<u8>, u32, u32)>, n: int, k: int)
    requires
        sp_all_fit(tiles, n),
        0 <= k < n,
    ensures
        tile_fits(tiles.take(k), tiles[k].2, tiles[k].3),
    decreases n,
{
    if k < n - 1 {
        lemma_all_fit_step(tiles, n - 1, k);
    }
}

/// Repack a model's material tiles into one atlas.
///
/// Every material slot gets a tile (a tinted copy of its texture, or an
/// 8-by-8 solid tile of its base color); tiles are stably sorted by
/// descending area, packed with the skyline heuristic, and the atlas
/// pixels and per-slot tile rectangles are returned. A model with more
/// than 256 distinct materials is rejected, as is a slot index outside
/// the material list. Packing succeeds exactly when every sorted tile
/// fits the layout of those placed before it; a model with exactly one
/// slot packs whenever its tile fits the atlas ceiling, and its tile is
/// then the whole atlas.
#[verifier::rlimit(100)]
#[verifier::loop_isolation(false)]
pub fn repack_model_textures(
    materials: &Vec<Material>,
    material_indices: &Vec<usize>,
    textures: &Vec<crate::txd::Texture>,
) -> (r: Result<PackedTexture, Error>)
    ensures
        materials@.len() > 256 ==> (r matches Err(e) && e == Error::MaterialCeilingExceeded),
        materials@.len() <= 256 ==> ({
            let matsv = materials@.map_values(|m: Material| m@);
            let texsv = textures@.map_values(|t: crate::txd::Texture| t@);
            let idx = material_indices@;
            &&& ((exists|i: int|
                0 <= i < idx.len() && (#[trigger] idx[i]) >= materials@.len()) ==> (r matches Err(
                e,
            ) && e == Error::IndexOutOfRange))
            &&& ((forall|i: int| 0 <= i < idx.len() ==> (#[trigger] idx[i]) < materials@.len())
                ==> ({
                let tiles = tiles_tuple(sp_sort_desc(sp_slot_tiles(matsv, idx, texsv)));
                &&& (r matches Ok(pt) ==> {
                    &&& pt@.width == layout_width(tiles)
                    &&& pt@.height == layout_height(tiles)
                    &&& pt@.data.len() == 4 * (layout_width(tiles) as int) * (layout_height(
                        tiles,
                    ) as int)
                    &&& forall|x: int, y: int, c: int|
                        0 <= x < layout_width(tiles) && 0 <= y < layout_height(tiles) && 0 <= c
                            < 4 ==> #[trigger] pt@.data[4 * (y * (layout_width(tiles) as int) + x)
                            + c] == sp_atlas_byte(tiles, x as u32, y as u32, c)
                    &&& pt@.frames.len() == idx.len()
                    &&& forall|i: int|
                        0 <= i < idx.len() ==> #[trigger] sp_frame_entry(
                            tiles,
                            idx,
                            pt@.frames,
                            i,
                        )
                    &&& forall|i: int|
                        0 <= i < idx.len() ==> #[trigger] sp_frame_meta(tiles, idx[i] as u16)
                    &&& forall|key: u16, x2: int, y2: int|
                        0 <= x2 < layout_width(tiles) && 0 <= y2 < layout_height(tiles)
                            ==> #[trigger] sp_pixel_known(tiles, key, x2 as u32, y2 as u32)
                    &&& forall|i: int|
                        0 <= i < idx.len() ==> ((#[trigger] sp_tile_of_key(
                            tiles,
                            idx[i] as u16,
                        )) is Some && sp_tile_of_key(tiles, idx[i] as u16)->Some_0.1 == sp_tile(
                            matsv[idx[i] as int],
                            texsv,
                        ).0 && sp_tile_of_key(tiles, idx[i] as u16)->Some_0.2 == sp_tile(
                            matsv[idx[i] as int],
                            texsv,
                        ).1 && sp_tile_of_key(tiles, idx[i] as u16)->Some_0.3 == sp_tile(
                            matsv[idx[i] as int],
                            texsv,
                        ).2)
                    &&& (idx.len() == 1 ==> pt@.frames[0] == (Frame {
                        left: 0,
                        top: 0,
                        right: layout_width(tiles),
                        bottom: layout_height(tiles),
                    }))
                })
                &&& (r is Err ==> (r matches Err(e) && (e == Error::AtlasOverflow || e
                    == Error::MalformedField)))
                &&& ((forall|i: int|
                    0 <= i < idx.len() ==> sp_tile_wf(
                        #[trigger] sp_slot_tiles(matsv, idx, texsv)[i],
                    )) ==> {
                    &&& (r is Ok <==> sp_all_fit(tiles, tiles.len() as int))
                    &&& (r matches Err(e) ==> e == Error::AtlasOverflow && !sp_all_fit(
                        tiles,
                        tiles.len() as int,
                    ))
                })
                &&& ((idx.len() == 1 && sp_tile_wf(sp_slot_tiles(matsv, idx, texsv)[0])
                    && sp_slot_tiles(matsv, idx, texsv)[0].w <= 4096 && sp_slot_tiles(
                    matsv,
                    idx,
                    texsv,
                )[0].h <= 4095) ==> r is Ok)
            }))
        }),
{
    let ghost matsv = materials@.map_values(|m: Material| m@);
    let ghost texsv = textures@.map_values(|t: crate::txd::Texture| t@);
    let ghost idx = material_indices@;
    if materials.len() > 256 {
        return Err(Error::MaterialCeilingExceeded);
    }
    let nslots = material_indices.len();
    let mut i: usize = 0;
    while i < nslots
        invariant
            i <= nslots,
            forall|k: int| 0 <= k < i ==> (#[trigger] idx[k]) < materials@.len(),
        decreases nslots - i,
    {
        if material_indices[i] >= materials.len() {
            return Err(Error::IndexOutOfRange);
        }
        i = i + 1;
    }
    // Build one tile per slot and keep them sorted by descending area.
    let mut sorted_tiles: Vec<Tile> = Vec::new();
    let mut i2: usize = 0;
    proof {
        assert(sp_slot_tiles(matsv, idx, texsv).take(0) =~= Seq::<TileV>::empty());
        assert(sorted_tiles@.map_values(|t: Tile| t@) =~= sp_sort_desc(
            sp_slot_tiles(matsv, idx, texsv).take(0),
        ));
    }
    while i2 < nslots
        invariant
            i2 <= nslots,
            sorted_tiles@.map_values(|t: Tile| t@) == sp_sort_desc(
                sp_slot_tiles(matsv, idx, texsv).take(i2 as int),
            ),
        decreases nslots - i2,
    {
        let mi = material_indices[i2];
        let (tdata, tw, th) = material_to_texture_data(&materials[mi], textures);
        let tile = Tile { key: mi as u16, data: tdata, w: tw, h: th };
        proof {
            assert(matsv[idx[i2 as int] as int] == materials@[idx[i2 as int] as int]@);
            assert(tile@ == sp_slot_tiles(matsv, idx, texsv)[i2 as int]);
            assert(sp_slot_tiles(matsv, idx, texsv).take(i2 + 1).drop_last() =~= sp_slot_tiles(
                matsv,
                idx,
                texsv,
            ).take(i2 as int));
            assert(sp_slot_tiles(matsv, idx, texsv).take(i2 + 1).last() == tile@);
        }
        insert_desc(&mut sorted_tiles, tile);
        i2 = i2 + 1;
    }
    proof {
        assert(sp_slot_tiles(matsv, idx, texsv).take(nslots as int) =~= sp_slot_tiles(
            matsv,
            idx,
            texsv,
        ));
    }
    let ghost slotsv = sp_slot_tiles(matsv, idx, texsv);
    let ghost sortedv = sp_sort_desc(slotsv);
    // Pack every tile.
    let mut packer = new_atlas_packer();
    let npacked = sorted_tiles.len();
    proof {
        lemma_sort_desc_len(slotsv);
        assert(tiles_tuple(sortedv.take(0)) =~= Seq::<(u16, Seq<u8>, u32, u32)>::empty());
    }
    let mut k: usize = 0;
    while k < npacked
        invariant
            k <= npacked == sortedv.len(),
            sorted_tiles@.map_values(|t: Tile| t@) == sortedv,
            sorted_tiles@.len() == npacked,
            packer_tiles(&packer) == tiles_tuple(sortedv.take(k as int)),
            sp_all_fit(tiles_tuple(sortedv), k as int),
        decreases npacked - k,
    {
        let tile = &sorted_tiles[k];
        proof {
            assert(tile@ == sortedv[k as int]);
            assert(tiles_tuple(sortedv).take(k as int) =~= tiles_tuple(sortedv.take(k as int)));
            if sortedv.len() == 1 {
                assert(sortedv == sp_insert_desc(
                    slotsv.last(),
                    sp_sort_desc(slotsv.drop_last()),
                ));
                assert(slotsv.drop_last() =~= Seq::<TileV>::empty());
                assert(sp_sort_desc(Seq::<TileV>::empty()) =~= Seq::<TileV>::empty());
                assert(sp_insert_desc(slotsv.last(), Seq::empty()) =~= seq![slotsv.last()]);
                assert(sortedv[0] == slotsv[0]);
            }
        }
        if tile.w == 0 || tile.h == 0 || tile.w > 0xFFFF || tile.h > 0xFFFF {
            proof {
                assert(!sp_tile_wf(sortedv[k as int]));
                lemma_sort_desc_contains(slotsv, sortedv[k as int]);
                assert(sortedv.contains(sortedv[k as int]));
                let j = choose|j: int| 0 <= j < slotsv.len() && slotsv[j] == sortedv[k as int];
                assert(!sp_tile_wf(slotsv[j]));
            }
            return Err(Error::MalformedField);
        }
        proof {
            vstd::arithmetic::mul::lemma_mul_upper_bound(
                4 * (tile.w as int),
                4 * 0xFFFFint,
                tile.h as int,
                0xFFFF,
            );
        }
        let w64 = 4u64 * (tile.w as u64) * (tile.h as u64);
        if (tile.data.len() as u64) != w64 {
            proof {
                assert(!sp_tile_wf(sortedv[k as int]));
                lemma_sort_desc_contains(slotsv, sortedv[k as int]);
                assert(sortedv.contains(sortedv[k as int]));
                let j = choose|j: int| 0 <= j < slotsv.len() && slotsv[j] == sortedv[k as int];
                assert(!sp_tile_wf(slotsv[j]));
            }
            return Err(Error::MalformedField);
        }
        match pack_tile(&mut packer, tile.key, &tile.data, tile.w, tile.h) {
            Ok(()) => {},
            Err(e) => {
                proof {
                    let tt = tiles_tuple(sortedv);
                    assert(!tile_fits(tt.take(k as int), tt[k as int].2, tt[k as int].3));
                    if sp_all_fit(tt, tt.len() as int) {
                        lemma_all_fit_step(tt, tt.len() as int, k as int);
                    }
                    assert(!sp_all_fit(tt, tt.len() as int));
                }
                return Err(e);
            },
        }
        proof {
            assert(tiles_tuple(sortedv.take(k + 1)) =~= tiles_tuple(
                sortedv.take(k as int),
            ).push((tile@.key, tile@.data, tile@.w, tile@.h)));
            assert(tiles_tuple(sortedv)[k as int] == (tile@.key, tile@.data, tile@.w, tile@.h));
            assert(sp_all_fit(tiles_tuple(sortedv), k + 1));
        }
        k = k + 1;
    }
    proof {
        assert(sortedv.take(npacked as int) =~= sortedv);
    }
    let ghost tilest = tiles_tuple(sortedv);
    // Copy the packed atlas into a flat pixel buffer.
    let aw = atlas_width(&packer);
    let ah = atlas_height(&packer);
    let mut data: Vec<u8> = Vec::new();
    let mut y: u32 = 0;
    while y < ah
        invariant
            y <= ah,
            packer_tiles(&packer) == tilest,
            aw == layout_width(tilest),
            ah == layout_height(tilest),
            aw <= 4096,
            ah <= 4096,
            data@.len() == 4 * ((y as int) * (aw as int)),
            forall|y2: int, x2: int, c: int|
                0 <= y2 < y && 0 <= x2 < aw && 0 <= c < 4 ==> #[trigger] data@[4 * (y2 * (
                aw as int) + x2) + c] == sp_atlas_byte(tilest, x2 as u32, y2 as u32, c),
            forall|key: u16, x2: int, y2: int|
                0 <= x2 < aw && 0 <= y2 < y ==> #[trigger] sp_pixel_known(
                    tilest,
                    key,
                    x2 as u32,
                    y2 as u32,
                ),
        decreases ah - y,
    {
        let mut x: u32 = 0;
        while x < aw
            invariant
                x <= aw,
                y < ah,
                packer_tiles(&packer) == tilest,
                aw == layout_width(tilest),
                ah == layout_height(tilest),
                aw <= 4096,
                ah <= 4096,
                data@.len() == 4 * ((y as int) * (aw as int)) + 4 * (x as int),
                forall|y2: int, x2: int, c: int|
                    0 <= y2 < y && 0 <= x2 < aw && 0 <= c < 4 ==> #[trigger] data@[4 * (y2 * (
                    aw as int) + x2) + c] == sp_atlas_byte(tilest, x2 as u32, y2 as u32, c),
                forall|x2: int, c: int|
                    0 <= x2 < x && 0 <= c < 4 ==> #[trigger] data@[4 * ((y as int) * (aw as int)
                        + x2) + c] == sp_atlas_byte(tilest, x2 as u32, y as u32, c),
                forall|key: u16, x2: int, y2: int|
                    0 <= x2 < aw && 0 <= y2 < y ==> #[trigger] sp_pixel_known(
                        tilest,
                        key,
                        x2 as u32,
                        y2 as u32,
                    ),
                forall|key: u16, x2: int|
                    0 <= x2 < x ==> #[trigger] sp_pixel_known(tilest, key, x2 as u32, y),
            decreases aw - x,
        {
            let ghost old_data = data@;
            let px: (u8, u8, u8, u8) = match atlas_pixel(&packer, x, y) {
                Some(p) => p,
                None => (0, 0, 0, 255),
            };
            proof {
                assert(forall|key: u16| #[trigger] sp_pixel_known(tilest, key, x, y));
            }
            data.push(px.0);
            data.push(px.1);
            data.push(px.2);
            data.push(px.3);
            proof {
                assert(data@.len() == old_data.len() + 4);
                assert(forall|q: int| 0 <= q < old_data.len() ==> #[trigger] data@[q]
                    == old_data[q]);
                assert(data@[old_data.len() as int] == px.0);
                assert(data@[old_data.len() + 1int] == px.1);
                assert(data@[old_data.len() + 2int] == px.2);
                assert(data@[old_data.len() + 3int] == px.3);
                assert forall|c: int| 0 <= c < 4 implies #[trigger] data@[4 * ((y as int) * (
                aw as int) + (x as int)) + c] == sp_atlas_byte(tilest, x, y, c) by {
                    assert(4 * ((y as int) * (aw as int) + (x as int)) + c == old_data.len()
                        + c);
                }
                assert forall|y2: int, x2: int, c: int|
                    0 <= y2 < y && 0 <= x2 < aw && 0 <= c < 4 implies #[trigger] data@[4 * (y2
                    * (aw as int) + x2) + c] == sp_atlas_byte(tilest, x2 as u32, y2 as u32, c) by {
                    assert(y2 * (aw as int) + x2 < (y as int) * (aw as int)) by (nonlinear_arith)
                        requires
                            0 <= y2 < y as int,
                            0 <= x2 < aw as int,
                    ;
                    assert(4 * (y2 * (aw as int) + x2) + c < old_data.len());
                    assert(data@[4 * (y2 * (aw as int) + x2) + c] == old_data[4 * (y2 * (
                    aw as int) + x2) + c]);
                }
            }
            x = x + 1;
        }
        proof {
            assert(4 * ((y as int) * (aw as int)) + 4 * (aw as int) == 4 * (((y as int) + 1) * (
            aw as int))) by (nonlinear_arith);
        }
        y = y + 1;
    }
    // Look up each slot's frame.
    let frames = match collect_frames(
        &packer,
        material_indices,
        Ghost(tilest),
        Ghost(slotsv),
        Ghost(sortedv),
    ) {
        Ok(v) => v,
        Err(e) => {
            return Err(e);
        },
    };
    proof {
        assert forall|i: int| 0 <= i < idx.len() implies ((#[trigger] sp_tile_of_key(
            tilest,
            idx[i] as u16,
        )) is Some && sp_tile_of_key(tilest, idx[i] as u16)->Some_0.1 == sp_tile(
            matsv[idx[i] as int],
            texsv,
        ).0 && sp_tile_of_key(tilest, idx[i] as u16)->Some_0.2 == sp_tile(
            matsv[idx[i] as int],
            texsv,
        ).1 && sp_tile_of_key(tilest, idx[i] as u16)->Some_0.3 == sp_tile(
            matsv[idx[i] as int],
            texsv,
        ).2) by {
            assert(sp_frame_meta(tilest, idx[i] as u16));
            lemma_tile_of_key_in(tilest, idx[i] as u16);
            let tt = sp_tile_of_key(tilest, idx[i] as u16)->Some_0;
            let w = choose|w: int| 0 <= w < tilest.len() && tilest[w] == tt;
            assert(tilest[w] == (sortedv[w].key, sortedv[w].data, sortedv[w].w, sortedv[w].h));
            assert(sortedv.contains(sortedv[w]));
            lemma_sort_desc_contains(slotsv, sortedv[w]);
            let j = choose|j: int| 0 <= j < slotsv.len() && slotsv[j] == sortedv[w];
            assert(slotsv[j].key == idx[j] as u16);
            assert(idx[j] < 256 && idx[i] < 256);
            assert(idx[j] == idx[i]);
            assert(slotsv[j].data == sp_tile(matsv[idx[j] as int], texsv).0);
            assert(slotsv[j].w == sp_tile(matsv[idx[j] as int], texsv).1);
            assert(slotsv[j].h == sp_tile(matsv[idx[j] as int], texsv).2);
        }
        if idx.len() == 1 {
            assert(slotsv.len() == 1);
            assert(sortedv == sp_insert_desc(slotsv.last(), sp_sort_desc(slotsv.drop_last())));
            assert(slotsv.drop_last() =~= Seq::<TileV>::empty());
            assert(sp_sort_desc(Seq::<TileV>::empty()) =~= Seq::<TileV>::empty());
            assert(sp_insert_desc(slotsv.last(), Seq::empty()) =~= seq![slotsv.last()]);
            assert(tilest.len() == 1);
            assert(tilest[0].0 == idx[0] as u16);
            assert(layout_frame(tilest, idx[0] as u16) == Some(
                (0u32, 0u32, tilest[0].2, tilest[0].3),
            ));
            assert(sp_frame_entry(tilest, idx, frames@, 0));
            assert(frames@[0].left == 0 && frames@[0].top == 0);
            assert(frames@[0].right == tilest[0].2 && frames@[0].bottom == tilest[0].3);
            assert(aw == tilest[0].2 && ah == tilest[0].3);
        }
        assert(data@.len() == 4 * (aw as int) * (ah as int)) by (nonlinear_arith)
            requires
                data@.len() == 4 * ((ah as int) * (aw as int)),
        ;
    }
    Ok(PackedTexture { width: aw as u16, height: ah as u16, data, frames })
}

/// What the layout reports for a packed key: its frame exists, lies
/// within the atlas extent, keeps its tile's size, and overlaps no other
/// key's frame.
pub open spec fn sp_frame_meta(tilest: Seq<(u16, Seq<u8>, u32, u32)>, key: u16) -> bool {
    &&& layout_frame(tilest, key) is Some
    &&& layout_frame(tilest, key)->Some_0.0 + layout_frame(tilest, key)->Some_0.2
        <= layout_width(tilest)
    &&& layout_frame(tilest, key)->Some_0.1 + layout_frame(tilest, key)->Some_0.3
        <= layout_height(tilest)
    &&& sp_tile_of_key(tilest, key) is Some
    &&& layout_frame(tilest, key)->Some_0.2 == sp_tile_of_key(tilest, key)->Some_0.2
    &&& layout_frame(tilest, key)->Some_0.3 == sp_tile_of_key(tilest, key)->Some_0.3
    &&& forall|k2: u16|
        (k2 != key && (#[trigger] layout_frame(tilest, k2)) is Some) ==> sp_disjoint_frames(
            layout_frame(tilest, key)->Some_0,
            layout_frame(tilest, k2)->Some_0,
        )
}

/// What one atlas read establishes: if the coordinate lies inside a
/// key's frame, the atlas pixel there is that key's tile pixel, read
/// relative to the frame's corner.
pub open spec fn sp_pixel_known(
    tilest: Seq<(u16, Seq<u8>, u32, u32)>,
    key: u16,
    x: u32,
    y: u32,
) -> bool {
    (layout_frame(tilest, key) is Some && sp_in_frame(
        layout_frame(tilest, key)->Some_0,
        x,
        y,
    )) ==> layout_pixel(tilest, x, y) == Some(
        sp_tile_pixel(
            sp_tile_of_key(tilest, key)->Some_0,
            (x - layout_frame(tilest, key)->Some_0.0) as u32,
            (y - layout_frame(tilest, key)->Some_0.1) as u32,
        ),
    )
}

/// The last tile of a key is one of the packed tiles, and carries the key.
proof fn lemma_tile_of_key_in(tiles: Seq<(u16, Seq<u8>, u32, u32)>, key: u16)
    requires
        sp_tile_of_key(tiles, key) is Some,
    ensures
        tiles.contains(sp_tile_of_key(tiles, key)->Some_0),
        sp_tile_of_key(tiles, key)->Some_0.0 == key,
    decreases tiles.len(),
{
    if tiles.len() > 0 {
        if tiles.last().0 == key {
            assert(tiles[tiles.len() - 1] == tiles.last());
        } else {
            lemma_tile_of_key_in(tiles.drop_last(), key);
            let t = sp_tile_of_key(tiles.drop_last(), key)->Some_0;
            let w = choose|w: int|
                0 <= w < tiles.drop_last().len() && tiles.drop_last()[w] == t;
            assert(tiles[w] == t);
        }
    }
}

/// Slot `i3`'s frame entry is the rectangle the layout assigned to its
/// key, with exclusive right and bottom edges.
pub open spec fn sp_frame_entry(
    tilest: Seq<(u16, Seq<u8>, u32, u32)>,
    idx: Seq<usize>,
    frames: Seq<Frame>,
    i3: int,
) -> bool {
    &&& layout_frame(tilest, idx[i3] as u16) is Some
    &&& frames[i3].left == layout_frame(tilest, idx[i3] as u16)->Some_0.0
    &&& frames[i3].top == layout_frame(tilest, idx[i3] as u16)->Some_0.1
    &&& frames[i3].right == layout_frame(tilest, idx[i3] as u16)->Some_0.0 + layout_frame(
        tilest,
        idx[i3] as u16,
    )->Some_0.2
    &&& frames[i3].bottom == layout_frame(tilest, idx[i3] as u16)->Some_0.1 + layout_frame(
        tilest,
        idx[i3] as u16,
    )->Some_0.3
}

/// Look up the atlas rectangle assigned to each material slot's tile.
#[verifier::loop_isolation(false)]
fn collect_frames(
    packer: &AtlasPacker,
    material_indices: &Vec<usize>,
    Ghost(tilest): Ghost<Seq<(u16, Seq<u8>, u32, u32)>>,
    Ghost(slotsv): Ghost<Seq<TileV>>,
    Ghost(sortedv): Ghost<Seq<TileV>>,
) -> (r: Result<Vec<Frame>, Error>)
    requires
        packer_tiles(packer) == tilest,
        sortedv == sp_sort_desc(slotsv),
        tilest == tiles_tuple(sortedv),
        slotsv.len() == material_indices@.len(),
        forall|i: int|
            0 <= i < slotsv.len() ==> (#[trigger] slotsv[i]).key == material_indices@[i] as u16,
        forall|i: int| 0 <= i < material_indices@.len() ==> (#[trigger] material_indices@[i]) < 256,
    ensures
        r is Ok,
        r matches Ok(frames) ==> {
            &&& frames@.len() == material_indices@.len()
            &&& forall|i3: int|
                0 <= i3 < material_indices@.len() ==> #[trigger] sp_frame_entry(
                    tilest,
                    material_indices@,
                    frames@,
                    i3,
                )
            &&& forall|i3: int|
                0 <= i3 < material_indices@.len() ==> #[trigger] sp_frame_meta(
                    tilest,
                    material_indices@[i3] as u16,
                )
            &&& ((tilest.len() == 1 && material_indices@.len() >= 1 && tilest[0].0
                == material_indices@[0] as u16) ==> layout_frame(
                tilest,
                material_indices@[0] as u16,
            ) == Some((0u32, 0u32, tilest[0].2, tilest[0].3)))
        },
{
    let ghost idx = material_indices@;
    let nslots = material_indices.len();
    let mut frames: Vec<Frame> = Vec::new();
    let mut fi: usize = 0;
    while fi < nslots
        invariant
            fi <= nslots,
            frames@.len() == fi,
            forall|i3: int|
                0 <= i3 < fi ==> #[trigger] sp_frame_entry(tilest, idx, frames@, i3),
            forall|i3: int|
                0 <= i3 < fi ==> #[trigger] sp_frame_meta(tilest, idx[i3] as u16),
            ((fi >= 1 && tilest.len() == 1 && nslots >= 1 && tilest[0].0 == idx[0] as u16)
                ==> layout_frame(tilest, idx[0] as u16) == Some(
                (0u32, 0u32, tilest[0].2, tilest[0].3),
            )),
        decreases nslots - fi,
    {
        let key = material_indices[fi] as u16;
        proof {
            let tv = slotsv[fi as int];
            assert(slotsv.contains(tv));
            lemma_sort_desc_contains(slotsv, tv);
            let j = choose|j: int| 0 <= j < sortedv.len() && sortedv[j] == tv;
            assert(tilest[j].0 == key);
        }
        let f = match atlas_frame(packer, key) {
            Some(f) => f,
            None => {
                return Err(Error::AtlasOverflow);
            },
        };
        let ghost old_frames = frames@;
        frames.push(Frame { left: f.0, top: f.1, right: f.0 + f.2, bottom: f.1 + f.3 });
        proof {
            assert(frames@.len() == old_frames.len() + 1);
            assert(forall|q: int| 0 <= q < old_frames.len() ==> #[trigger] frames@[q]
                == old_frames[q]);
            assert(layout_frame(tilest, idx[fi as int] as u16) == Some(f));
            assert(sp_frame_entry(tilest, idx, frames@, fi as int));
            assert(sp_frame_meta(tilest, idx[fi as int] as u16));
            assert forall|i3: int| 0 <= i3 < fi + 1 implies #[trigger] sp_frame_entry(
                tilest,
                idx,
                frames@,
                i3,
            ) by {
                if i3 < fi {
                    assert(sp_frame_entry(tilest, idx, old_frames, i3));
                    assert(frames@[i3] == old_frames[i3]);
                }
            }
        }
        fi = fi + 1;
    }
    Ok(frames)
}

} // verus!
