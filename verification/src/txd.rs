//! The raster decoder: extracts named textures from a decoded texture
//! dictionary tree and decompresses block-compressed pixel payloads into
//! raw RGBA bytes.

use vstd::prelude::*;

use crate::constants::SectionType;
use crate::constants::TextureFiltering;
use crate::dff::sp_struct_data;
use crate::types::BinaryStreamFile;
use crate::types::ClumpData;
use crate::types::ClumpDataV;
use crate::types::Color;
use crate::types::Error;
use crate::types::Section;
use crate::types::SectionV;
use crate::types::UvAddressing;
use crate::types::lemma_sections_view;
use crate::types::section_view;
use crate::types::sections_view;

verus! {

/// A decoded texture: raw RGBA pixel bytes, row-major, origin top-left.
#[derive(Debug, PartialEq, Eq, Clone)]
pub struct Texture {
    pub filtering: TextureFiltering,
    pub uv: UvAddressing,
    pub name: String,
    pub mask_name: String,
    pub width: u16,
    pub height: u16,
    pub data: Vec<u8>,
}

/// Ghost view of [`Texture`].
pub struct TextureV {
    pub filtering: TextureFiltering,
    pub uv: UvAddressing,
    pub name: Seq<char>,
    pub mask_name: Seq<char>,
    pub width: u16,
    pub height: u16,
    pub data: Seq<u8>,
}

impl View for Texture {
    type V = TextureV;

    open spec fn view(&self) -> TextureV {
        TextureV {
            filtering: self.filtering,
            uv: self.uv,
            name: self.name@,
            mask_name: self.mask_name@,
            width: self.width,
            height: self.height,
            data: self.data@,
        }
    }
}

/// The RGBA bytes that block decompression produces for a compressed
/// payload of the given dimensions; `bc3` selects BC3, otherwise BC1. The
/// result depends on the payload and the dimensions alone.
pub uninterp spec fn bc_decoded(bc3: bool, data: Seq<u8>, width: int, height: int) -> Seq<u8>;

/// The number of compressed bytes a BC payload must hold for an image of
/// the given dimensions: one block of 8 (BC1) or 16 (BC3) bytes per 4x4
/// pixel tile, dimensions rounded up.
pub open spec fn sp_bc_size(bc3: bool, width: int, height: int) -> int {
    ((width + 3) / 4) * ((height + 3) / 4) * (if bc3 {
        16int
    } else {
        8int
    })
}

/// Relies on `squish::Format::decompress` (`Bc1` or `Bc3`): decompresses
/// whole 4x4 blocks into the output buffer, which this wrapper allocates
/// at exactly `width * height * 4` bytes; pixels outside the image are
/// discarded, and every pixel of the image is written. The decompressor
/// reads one block per tile, so the payload must hold that many bytes.
#[verifier::external_body]
fn decompress_bc(bc3: bool, data: &Vec<u8>, width: usize, height: usize) -> (r: Vec<u8>)
    requires
        data@.len() >= sp_bc_size(bc3, width as int, height as int),
        width * height * 4 <= usize::MAX,
    ensures
        r@.len() == width * height * 4,
        r@ == bc_decoded(bc3, data@, width as int, height as int),
{
    let mut out = vec![0u8; width * height * 4];
    let fmt = if bc3 {
        squish::Format::Bc3
    } else {
        squish::Format::Bc1
    };
    fmt.decompress(data, width, height, &mut out);
    out
}

/// The decompressed pixels of a raster payload: BC1 for code 1, BC3 for
/// code 3, a pass-through (cut or zero-padded to `width * height * 4`
/// bytes) for code 0, and an `UnsupportedCompression` error for any other
/// code. A compressed payload too short for its dimensions is malformed.
pub open spec fn sp_decompressed(data: Seq<u8>, width: int, height: int, compression: u8) -> Result<
    Seq<u8>,
    Error,
> {
    let full = width * height * 4;
    if compression == 1 || compression == 3 {
        let bc3 = compression == 3;
        if data.len() >= sp_bc_size(bc3, width, height) {
            Ok(bc_decoded(bc3, data, width, height))
        } else {
            Err(Error::MalformedField)
        }
    } else if compression == 0 {
        if data.len() >= full {
            Ok(data.take(full))
        } else {
            Ok(data + Seq::new((full - data.len()) as nat, |i: int| 0u8))
        }
    } else {
        Err(Error::UnsupportedCompression)
    }
}

/// Decompress a raster payload into raw RGBA bytes of exactly
/// `width * height * 4` bytes.
pub fn decompress_dxt(data: &Vec<u8>, width: u16, height: u16, compression: u8) -> (r: Result<
    Vec<u8>,
    Error,
>)
    ensures
        (width as int) * (height as int) * 4 <= usize::MAX ==> (match sp_decompressed(
            data@,
            width as int,
            height as int,
            compression,
        ) {
            Ok(m) => r matches Ok(v) && v@ == m && v@.len() == (width as int) * (height as int)
                * 4,
            Err(e) => r matches Err(e2) && e2 == e,
        }),
        (width as int) * (height as int) * 4 > usize::MAX ==> (r matches Err(e) && e
            == Error::MalformedField),
{
    let w64 = width as u64;
    let h64 = height as u64;
    proof {
        vstd::arithmetic::mul::lemma_mul_upper_bound(w64 as int, 0xFFFF, h64 as int, 0xFFFF);
    }
    if w64 * h64 * 4 > usize::MAX as u64 {
        return Err(Error::MalformedField);
    }
    let w = width as usize;
    let h = height as usize;
    let full = w * h * 4;
    if compression == 1 || compression == 3 {
        let bc3 = compression == 3;
        let bw = (w + 3) / 4;
        let bh = (h + 3) / 4;
        let bs: usize = if bc3 {
            16
        } else {
            8
        };
        proof {
            assert(bw * bh * bs == sp_bc_size(bc3, width as int, height as int)) by (nonlinear_arith)
                requires
                    bw == (w + 3) / 4,
                    bh == (h + 3) / 4,
                    w == width as int,
                    h == height as int,
                    bs == (if bc3 {
                        16int
                    } else {
                        8int
                    }),
            ;
            assert(bw * bh * bs <= 16384 * 16384 * 16) by (nonlinear_arith)
                requires
                    bw <= 16384,
                    bh <= 16384,
                    bs <= 16,
                    0 <= bw,
                    0 <= bh,
            ;
        }
        if (data.len() as u64) < (bw as u64) * (bh as u64) * (bs as u64) {
            return Err(Error::MalformedField);
        }
        let pixels = decompress_bc(bc3, data, w, h);
        proof {
            let m = sp_decompressed(data@, width as int, height as int, compression);
            assert(m matches Ok(s) && s == pixels@);
        }
        Ok(pixels)
    } else if compression == 0 {
        let mut out: Vec<u8> = Vec::new();
        let n = data.len();
        let keep = if n < full {
            n
        } else {
            full
        };
        let mut i: usize = 0;
        while i < keep
            invariant
                i <= keep <= full,
                keep <= data@.len(),
                out@ == data@.take(i as int),
            decreases keep - i,
        {
            out.push(data[i]);
            proof {
                assert(data@.take(i + 1) =~= data@.take(i as int).push(data@[i as int]));
            }
            i = i + 1;
        }
        while i < full
            invariant
                keep <= i <= full,
                keep <= data@.len(),
                keep == (if data@.len() < full {
                    data@.len() as int
                } else {
                    full as int
                }),
                out@.len() == i,
                out@.take(keep as int) == data@.take(keep as int),
                forall|j: int| keep <= j < i ==> out@[j] == 0u8,
            decreases full - i,
        {
            out.push(0u8);
            proof {
                assert(out@.take(keep as int) =~= data@.take(keep as int));
            }
            i = i + 1;
        }
        proof {
            if data@.len() >= full {
                assert(out@ =~= data@.take(full as int));
            } else {
                let padded = data@ + Seq::new((full - data@.len()) as nat, |q: int| 0u8);
                assert(out@.len() == padded.len());
                assert forall|j: int| 0 <= j < full implies out@[j] == padded[j] by {
                    if j < keep {
                        assert(out@.take(keep as int)[j] == data@.take(keep as int)[j]);
                    }
                }
                assert(out@ =~= padded);
            }
        }
        Ok(out)
    } else {
        Err(Error::UnsupportedCompression)
    }
}

/// The textures a section's `Raster` children decode to, in order. A
/// raster child without a raster struct payload is skipped; a raster whose
/// payload cannot be decompressed fails the extraction.
pub open spec fn sp_textures(q: Seq<SectionV>) -> Result<Seq<TextureV>, Error>
    decreases q.len(),
{
    if q.len() == 0 {
        Ok(Seq::empty())
    } else if q[0].section_type == SectionType::Raster {
        match sp_struct_data(q[0]) {
            Some(ClumpDataV::Raster(ra)) => {
                if (ra.width as int) * (ra.height as int) * 4 > usize::MAX {
                    Err(Error::MalformedField)
                } else {
                    match sp_decompressed(
                        ra.data,
                        ra.width as int,
                        ra.height as int,
                        ra.compression,
                    ) {
                        Err(e) => Err(e),
                        Ok(d) => match sp_textures(q.drop_first()) {
                            Err(e) => Err(e),
                            Ok(rest) => Ok(
                                seq![
                                    TextureV {
                                        filtering: ra.filtering,
                                        uv: ra.uv,
                                        name: ra.name,
                                        mask_name: ra.mask_name,
                                        width: ra.width,
                                        height: ra.height,
                                        data: d,
                                    },
                                ] + rest,
                            ),
                        },
                    }
                }
            },
            _ => sp_textures(q.drop_first()),
        }
    } else {
        sp_textures(q.drop_first())
    }
}

impl Texture {
    /// Extract and decompress every raster of a decoded texture
    /// dictionary file, in order of appearance.
    #[verifier::loop_isolation(false)]
    pub fn from_raw(raw: &BinaryStreamFile) -> (r: Result<Vec<Texture>, Error>)
        ensures
            raw@.len() == 0 ==> (r matches Err(e) && e == Error::IndexOutOfRange),
            raw@.len() > 0 ==> (match sp_textures(raw@[0].children) {
                Ok(m) => r matches Ok(v) && v@.map_values(|t: Texture| t@) == m,
                Err(e) => r matches Err(e2) && e2 == e,
            }),
            r matches Ok(v) ==> forall|i: int|
                0 <= i < v@.len() ==> (#[trigger] v@[i]).data@.len() == (v@[i].width as int) * (
                v@[i].height as int) * 4,
    {
        if raw.sections.len() == 0 {
            return Err(Error::IndexOutOfRange);
        }
        proof {
            lemma_sections_view(raw.sections@);
        }
        let main = &raw.sections[0];
        let mut out: Vec<Texture> = Vec::new();
        let n = main.children.len();
        let mut i: usize = 0;
        proof {
            lemma_sections_view(main.children@);
            assert(sections_view(main.children@).skip(0) =~= sections_view(main.children@));
            match sp_textures(sections_view(main.children@)) {
                Ok(rest) => {
                    assert(Seq::<TextureV>::empty() + rest =~= rest);
                },
                Err(_) => {},
            }
        }
        while i < n
            invariant
                i <= n,
                sp_textures(sections_view(main.children@)) == (match sp_textures(
                    sections_view(main.children@).skip(i as int),
                ) {
                    Ok(rest) => Ok::<Seq<TextureV>, Error>(
                        out@.map_values(|t: Texture| t@) + rest,
                    ),
                    Err(e) => Err::<Seq<TextureV>, Error>(e),
                }),
                forall|q: int|
                    0 <= q < out@.len() ==> (#[trigger] out@[q]).data@.len() == (
                    out@[q].width as int) * (out@[q].height as int) * 4,
            decreases n - i,
        {
            let ghost old_out = out@;
            let ghost rem = sections_view(main.children@).skip(i as int);
            let child = &main.children[i];
            proof {
                assert(rem.len() > 0 && rem[0] == section_view(&main.children@[i as int]));
                assert(rem.drop_first() =~= sections_view(main.children@).skip(i + 1));
            }
            if child.section_type == SectionType::Raster {
                match child.get_child_struct_data() {
                    Some(ClumpData::Raster(ra)) => {
                        let w64 = ra.width as u64;
                        let h64 = ra.height as u64;
                        proof {
                            vstd::arithmetic::mul::lemma_mul_upper_bound(
                                w64 as int,
                                0xFFFF,
                                h64 as int,
                                0xFFFF,
                            );
                        }
                        if w64 * h64 * 4 > usize::MAX as u64 {
                            return Err(Error::MalformedField);
                        }
                        let pixels = match decompress_dxt(
                            &ra.data,
                            ra.width,
                            ra.height,
                            ra.compression,
                        ) {
                            Ok(v) => v,
                            Err(e) => {
                                return Err(e);
                            },
                        };
                        proof {
                            assert((ra.width as int) * (ra.height as int) * 4 <= usize::MAX);
                            assert(pixels@.len() == (ra.width as int) * (ra.height as int) * 4);
                        }
                        let tex = Texture {
                            filtering: ra.filtering,
                            uv: ra.uv,
                            name: ra.name.clone(),
                            mask_name: ra.mask_name.clone(),
                            width: ra.width,
                            height: ra.height,
                            data: pixels,
                        };
                        out.push(tex);
                        proof {
                            assert(out@ =~= old_out.push(out@[out@.len() - 1]));
                            assert(forall|q: int|
                                0 <= q < old_out.len() ==> #[trigger] out@[q] == old_out[q]);
                            assert(out@[out@.len() - 1].data@.len() == (out@[out@.len()
                                - 1].width as int) * (out@[out@.len() - 1].height as int) * 4);
                            match sp_textures(sections_view(main.children@).skip(i + 1)) {
                                Ok(rest) => {
                                    assert(out@.map_values(|t: Texture| t@) =~= old_out.map_values(
                                        |t: Texture| t@,
                                    ).push(out@[out@.len() - 1]@));
                                    assert((old_out.map_values(|t: Texture| t@) + (seq![
                                        out@[out@.len() - 1]@,
                                    ] + rest)) =~= (out@.map_values(|t: Texture| t@) + rest));
                                },
                                Err(_) => {},
                            }
                        }
                    },
                    _ => {},
                }
            }
            i = i + 1;
        }
        proof {
            assert(sections_view(main.children@).skip(n as int) =~= Seq::<SectionV>::empty());
            assert(out@.map_values(|t: Texture| t@) + Seq::<TextureV>::empty()
                =~= out@.map_values(|t: Texture| t@));
        }
        Ok(out)
    }

    /// The pixels of this texture as colors, four bytes each; a trailing
    /// fragment shorter than one pixel is dropped.
    pub fn as_colors(&self) -> (r: Vec<Color>)
        ensures
            r@.len() == self.data@.len() / 4,
            forall|i: int|
                0 <= i < r@.len() ==> r@[i] == (Color {
                    r: self.data@[4 * i],
                    g: self.data@[4 * i + 1],
                    b: self.data@[4 * i + 2],
                    a: self.data@[4 * i + 3],
                }),
    {
        let mut r: Vec<Color> = Vec::new();
        let total = self.data.len();
        let n = total / 4;
        proof {
            assert(self.data@.len() == total as int);
            assert(4 * (self.data@.len() / 4) <= self.data@.len());
        }
        let mut i: usize = 0;
        while i < n
            invariant
                i <= n == self.data@.len() / 4,
                self.data@.len() <= usize::MAX,
                4 * n <= self.data@.len(),
                r@.len() == i,
                forall|k: int|
                    0 <= k < i ==> r@[k] == (Color {
                        r: self.data@[4 * k],
                        g: self.data@[4 * k + 1],
                        b: self.data@[4 * k + 2],
                        a: self.data@[4 * k + 3],
                    }),
            decreases n - i,
        {
            r.push(
                Color {
                    r: self.data[4 * i],
                    g: self.data[4 * i + 1],
                    b: self.data[4 * i + 2],
                    a: self.data[4 * i + 3],
                },
            );
            i = i + 1;
        }
        r
    }
}

} // verus!
