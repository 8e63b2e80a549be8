//! The decoded data model: plain structs for every interpreted section
//! payload, the section tree itself, and the error kinds of decoding and
//! resolution.
//!
//! Types that own heap data (`Vec`, `String`) have a ghost view (`…V`) over
//! `Seq`, so that contracts can speak of their mathematical value.

use vstd::prelude::*;

use crate::constants::GeometryFormat;
use crate::constants::RasterFormat;
use crate::constants::SectionType;
use crate::constants::TextureAddressing;
use crate::constants::TextureFiltering;

verus! {

broadcast use vstd::std_specs::vec::group_vec_axioms;

/// Why a byte stream was rejected, or a decoded tree could not be resolved
/// or repacked.
#[derive(Debug, PartialEq, Eq, Copy, Clone, Structural)]
pub enum Error {
    /// A declared size exceeds the bytes that are available.
    Truncated,
    /// A section tag that maps to no known section type.
    UnknownSectionType,
    /// A decoded value is internally inconsistent (an out-of-range enum
    /// value, a parent-less struct payload, unknown geometry format bits).
    MalformedField,
    /// A raster for a platform other than PC/D3D8.
    UnsupportedPlatform,
    /// An atomic or material index that points outside its list.
    IndexOutOfRange,
    /// A raster compression code other than none, BC1 or BC3.
    UnsupportedCompression,
    /// A model whose distinct-material count exceeds the repacking ceiling.
    MaterialCeilingExceeded,
    /// A tile that cannot be placed in the texture atlas at its largest size.
    AtlasOverflow,
}

/// An IEEE-754 single-precision value, carried as its raw little-endian bit
/// pattern. The library moves these values; it never computes with them.
#[derive(Debug, PartialEq, Eq, Copy, Clone, Structural)]
pub struct Scalar {
    pub bits: u32,
}

/// An RGBA color, one byte per channel.
#[derive(Debug, PartialEq, Eq, Copy, Clone, Structural)]
pub struct Color {
    pub r: u8,
    pub g: u8,
    pub b: u8,
    pub a: u8,
}

impl Color {
    pub fn new(r: u8, g: u8, b: u8, a: u8) -> (c: Color)
        ensures
            c == (Color { r, g, b, a }),
    {
        Color { r, g, b, a }
    }

    pub fn as_array(&self) -> (arr: [u8; 4])
        ensures
            arr@ == seq![self.r, self.g, self.b, self.a],
    {
        let arr = [self.r, self.g, self.b, self.a];
        proof {
            assert(arr@ =~= seq![self.r, self.g, self.b, self.a]);
        }
        arr
    }
}

/// A vector of three scalars.
#[derive(Debug, PartialEq, Eq, Copy, Clone, Structural)]
pub struct Vec3 {
    pub x: Scalar,
    pub y: Scalar,
    pub z: Scalar,
}

impl Vec3 {
    pub fn as_array(&self) -> (arr: [Scalar; 3])
        ensures
            arr@ == seq![self.x, self.y, self.z],
    {
        let arr = [self.x, self.y, self.z];
        proof {
            assert(arr@ =~= seq![self.x, self.y, self.z]);
        }
        arr
    }
}

/// A 3x3 matrix, three row vectors.
#[derive(Debug, PartialEq, Eq, Copy, Clone, Structural)]
pub struct Mat3 {
    pub r0: Vec3,
    pub r1: Vec3,
    pub r2: Vec3,
}

/// A rigid transform of the frame hierarchy.
#[derive(Debug, PartialEq, Eq, Copy, Clone, Structural)]
pub struct Frame {
    pub rotation: Mat3,
    pub position: Vec3,
}

/// Pre-3.4 inline lighting factors of a material or geometry.
#[derive(Debug, PartialEq, Eq, Copy, Clone, Structural)]
pub struct Lighting {
    pub ambient: Scalar,
    pub specular: Scalar,
    pub diffuse: Scalar,
}

/// A triangle: three vertex indices and the index of its material.
#[derive(Debug, PartialEq, Eq, Copy, Clone, Structural)]
pub struct Triangle {
    pub vertex1: u16,
    pub vertex2: u16,
    pub vertex3: u16,
    pub material_id: u16,
}

/// A bounding sphere.
#[derive(Debug, PartialEq, Eq, Copy, Clone, Structural)]
pub struct Sphere {
    pub position: Vec3,
    pub radius: Scalar,
}

/// A texture coordinate pair.
#[derive(Debug, PartialEq, Eq, Copy, Clone, Structural)]
pub struct TexCoord {
    pub u: Scalar,
    pub v: Scalar,
}

/// The addressing modes of the two texture axes.
#[derive(Debug, PartialEq, Eq, Copy, Clone, Structural)]
pub struct UvAddressing {
    pub u: TextureAddressing,
    pub v: TextureAddressing,
}

/// A texture reference: filtering and per-axis addressing modes.
#[derive(Debug, PartialEq, Eq, Copy, Clone, Structural)]
pub struct Texture {
    pub filtering: TextureFiltering,
    pub uv: UvAddressing,
    pub mipmaps_used: bool,
}

/// A material: base color, whether it is textured, optional lighting.
#[derive(Debug, PartialEq, Eq, Copy, Clone, Structural)]
pub struct Material {
    pub color: Color,
    pub is_textured: bool,
    pub lighting: Option<Lighting>,
}

/// Counts of the root scene container.
#[derive(Debug, PartialEq, Eq, Copy, Clone, Structural)]
pub struct Clump {
    pub atomic_count: u32,
    pub light_count: u32,
    pub camera_count: u32,
}

/// A renderable instance: one frame paired with one geometry, gated by a
/// render-enable flag.
#[derive(Debug, PartialEq, Eq, Copy, Clone, Structural)]
pub struct Atomic {
    pub frame_index: u32,
    pub geometry_index: u32,
    /// Render if in view frustum.
    pub render: bool,
}

/// Header of a texture dictionary.
#[derive(Debug, PartialEq, Eq, Copy, Clone, Structural)]
pub struct TextureDictionary {
    pub texture_count: u32,
    pub device_id: Option<u16>,
}

/// Bytes of a section payload that the decoder keeps uninterpreted.
#[derive(Debug, PartialEq, Eq, Clone)]
pub struct UnparsedData(pub Vec<u8>);

impl View for UnparsedData {
    type V = Seq<u8>;

    open spec fn view(&self) -> Seq<u8> {
        self.0@
    }
}

/// Triangle list, optional per-vertex colors and texture coordinate sets of
/// a geometry.
#[derive(Debug, PartialEq, Clone)]
pub struct GeometryData {
    pub prelit_color: Option<Vec<Color>>,
    pub texture_sets: Vec<Vec<TexCoord>>,
    pub triangles: Vec<Triangle>,
}

/// Ghost view of [`GeometryData`].
pub struct GeometryDataV {
    pub prelit_color: Option<Seq<Color>>,
    pub texture_sets: Seq<Seq<TexCoord>>,
    pub triangles: Seq<Triangle>,
}

impl View for GeometryData {
    type V = GeometryDataV;

    open spec fn view(&self) -> GeometryDataV {
        GeometryDataV {
            prelit_color: match self.prelit_color {
                Some(v) => Some(v@),
                None => None,
            },
            texture_sets: self.texture_sets@.map_values(|v: Vec<TexCoord>| v@),
            triangles: self.triangles@,
        }
    }
}

/// One keyframe of vertex and normal data; only the first is ever used.
#[derive(Debug, PartialEq, Clone)]
pub struct MorphTarget {
    pub bounding_sphere: Sphere,
    pub vertices: Vec<Vec3>,
    pub normals: Vec<Vec3>,
}

/// Ghost view of [`MorphTarget`].
pub struct MorphTargetV {
    pub bounding_sphere: Sphere,
    pub vertices: Seq<Vec3>,
    pub normals: Seq<Vec3>,
}

impl View for MorphTarget {
    type V = MorphTargetV;

    open spec fn view(&self) -> MorphTargetV {
        MorphTargetV {
            bounding_sphere: self.bounding_sphere,
            vertices: self.vertices@,
            normals: self.normals@,
        }
    }
}

/// A geometry: format flags, optional lighting, optional decoded mesh data
/// (absent for native payloads), morph targets.
#[derive(Debug, PartialEq, Clone)]
pub struct Geometry {
    pub format: GeometryFormat,
    pub lighting: Option<Lighting>,
    pub data: Option<GeometryData>,
    pub morph_targets: Vec<MorphTarget>,
}

/// Ghost view of [`Geometry`].
pub struct GeometryV {
    pub format: GeometryFormat,
    pub lighting: Option<Lighting>,
    pub data: Option<GeometryDataV>,
    pub morph_targets: Seq<MorphTargetV>,
}

impl View for Geometry {
    type V = GeometryV;

    open spec fn view(&self) -> GeometryV {
        GeometryV {
            format: self.format,
            lighting: self.lighting,
            data: match self.data {
                Some(d) => Some(d@),
                None => None,
            },
            morph_targets: self.morph_targets@.map_values(|m: MorphTarget| m@),
        }
    }
}

/// A named bitmap of a texture dictionary, with its pixel format and its
/// still-compressed payload.
#[derive(Debug, PartialEq, Clone)]
pub struct Raster {
    pub filtering: TextureFiltering,
    pub uv: UvAddressing,
    pub name: String,
    pub mask_name: String,
    pub raster_format: RasterFormat,
    pub has_alpha: bool,
    pub width: u16,
    pub height: u16,
    pub depth: u8,
    pub level_count: u8,
    pub raster_type: u8,
    pub compression: u8,
    pub data: Vec<u8>,
}

/// Ghost view of [`Raster`].
pub struct RasterV {
    pub filtering: TextureFiltering,
    pub uv: UvAddressing,
    pub name: Seq<char>,
    pub mask_name: Seq<char>,
    pub raster_format: RasterFormat,
    pub has_alpha: bool,
    pub width: u16,
    pub height: u16,
    pub depth: u8,
    pub level_count: u8,
    pub raster_type: u8,
    pub compression: u8,
    pub data: Seq<u8>,
}

impl View for Raster {
    type V = RasterV;

    open spec fn view(&self) -> RasterV {
        RasterV {
            filtering: self.filtering,
            uv: self.uv,
            name: self.name@,
            mask_name: self.mask_name@,
            raster_format: self.raster_format,
            has_alpha: self.has_alpha,
            width: self.width,
            height: self.height,
            depth: self.depth,
            level_count: self.level_count,
            raster_type: self.raster_type,
            compression: self.compression,
            data: self.data@,
        }
    }
}

/// Interpreted payload of a section. The payload of a `Struct` section
/// depends on the parent's section type; a payload that belongs to no known
/// layout is kept as raw bytes; a known but uninterpreted section's
/// payload is likewise retained, never discarded.
#[derive(Debug, PartialEq, Clone)]
pub enum ClumpData {
    Struct(UnparsedData),
    String(String),
    Texture(Texture),
    Material(Material),
    MaterialList { material_indices: Vec<i32> },
    FrameList(Vec<Frame>),
    Geometry(Geometry),
    Clump(Clump),
    Atomic(Atomic),
    Raster(Raster),
    TextureDictionary(TextureDictionary),
    GeometryList { geometry_count: u32 },
    NodeName(String),
    Unknown(UnparsedData),
}

/// Ghost view of [`ClumpData`].
pub enum ClumpDataV {
    Struct(Seq<u8>),
    String(Seq<char>),
    Texture(Texture),
    Material(Material),
    MaterialList { material_indices: Seq<i32> },
    FrameList(Seq<Frame>),
    Geometry(GeometryV),
    Clump(Clump),
    Atomic(Atomic),
    Raster(RasterV),
    TextureDictionary(TextureDictionary),
    GeometryList { geometry_count: u32 },
    NodeName(Seq<char>),
    Unknown(Seq<u8>),
}

impl View for ClumpData {
    type V = ClumpDataV;

    open spec fn view(&self) -> ClumpDataV {
        match self {
            ClumpData::Struct(u) => ClumpDataV::Struct(u@),
            ClumpData::String(s) => ClumpDataV::String(s@),
            ClumpData::Texture(t) => ClumpDataV::Texture(*t),
            ClumpData::Material(m) => ClumpDataV::Material(*m),
            ClumpData::MaterialList { material_indices } => (ClumpDataV::MaterialList {
                material_indices: material_indices@,
            }),
            ClumpData::FrameList(f) => ClumpDataV::FrameList(f@),
            ClumpData::Geometry(g) => ClumpDataV::Geometry(g@),
            ClumpData::Clump(c) => ClumpDataV::Clump(*c),
            ClumpData::Atomic(a) => ClumpDataV::Atomic(*a),
            ClumpData::Raster(r) => ClumpDataV::Raster(r@),
            ClumpData::TextureDictionary(t) => ClumpDataV::TextureDictionary(*t),
            ClumpData::GeometryList { geometry_count } => (ClumpDataV::GeometryList {
                geometry_count: *geometry_count,
            }),
            ClumpData::NodeName(s) => ClumpDataV::NodeName(s@),
            ClumpData::Unknown(u) => ClumpDataV::Unknown(u@),
        }
    }
}

/// A node of the decoded section tree.
pub struct Section {
    pub section_type: SectionType,
    pub version: u32,
    pub children: Vec<Section>,
    pub data: ClumpData,
}

/// Ghost view of [`Section`].
pub struct SectionV {
    pub section_type: SectionType,
    pub version: u32,
    pub children: Seq<SectionV>,
    pub data: ClumpDataV,
}

/// The mathematical value of a section node, children included.
pub open spec fn section_view(s: &Section) -> SectionV
    decreases *s, 0int,
    via section_view_decreases
{
    SectionV {
        section_type: s.section_type,
        version: s.version,
        children: sections_view(s.children@),
        data: s.data@,
    }
}

#[via_fn]
proof fn section_view_decreases(s: &Section) {
    assert(decreases_to!(*s => s.children));
    assert(decreases_to!(s.children => s.children@));
}

/// The mathematical values of a sequence of section nodes.
pub open spec fn sections_view(q: Seq<Section>) -> Seq<SectionV>
    decreases q, 1int,
{
    if q.len() == 0 {
        Seq::empty()
    } else {
        seq![section_view(&q[0])] + sections_view(q.drop_first())
    }
}

/// `sections_view` is the element-wise image of `section_view`.
pub proof fn lemma_sections_view(q: Seq<Section>)
    ensures
        sections_view(q).len() == q.len(),
        forall|i: int| 0 <= i < q.len() ==> sections_view(q)[i] == section_view(&q[i]),
    decreases q.len(),
{
    if q.len() > 0 {
        lemma_sections_view(q.drop_first());
        assert forall|i: int| 0 <= i < q.len() implies sections_view(q)[i] == section_view(
            &q[i],
        ) by {
            if i > 0 {
                assert(sections_view(q)[i] == sections_view(q.drop_first())[i - 1]);
                assert(q.drop_first()[i - 1] == q[i]);
            }
        }
    }
}

/// Appending one section appends its view.
pub proof fn lemma_sections_view_push(q: Seq<Section>, x: Section)
    ensures
        sections_view(q.push(x)) == sections_view(q) + seq![section_view(&x)],
{
    lemma_sections_view(q.push(x));
    lemma_sections_view(q);
    assert(sections_view(q.push(x)) =~= sections_view(q) + seq![section_view(&x)]);
}

impl View for Section {
    type V = SectionV;

    open spec fn view(&self) -> SectionV {
        section_view(self)
    }
}

/// A decoded binary stream file: its top-level sections.
pub struct BinaryStreamFile {
    pub sections: Vec<Section>,
}

impl View for BinaryStreamFile {
    type V = Seq<SectionV>;

    open spec fn view(&self) -> Seq<SectionV> {
        sections_view(self.sections@)
    }
}

} // verus!
