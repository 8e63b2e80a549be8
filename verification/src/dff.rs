//! The scene graph resolver: walks a decoded section tree and produces, for
//! every render-enabled atomic, a transform paired with a flat renderable
//! model whose triangles are grouped by material.

use vstd::prelude::*;

use crate::constants::SectionType;
use crate::constants::TextureFiltering;
use crate::types::BinaryStreamFile;
use crate::types::ClumpData;
use crate::types::ClumpDataV;
use crate::types::Color;
use crate::types::Atomic;
use crate::types::Error;
use crate::types::GeometryV;
use crate::types::Frame;
use crate::types::Lighting;
use crate::types::Mat3;
use crate::types::Scalar;
use crate::types::Section;
use crate::types::SectionV;
use crate::types::TexCoord;
use crate::types::Triangle;
use crate::types::UvAddressing;
use crate::types::Vec3;
use crate::types::lemma_sections_view;
use crate::types::section_view;
use crate::types::sections_view;

verus! {

/// A rigid transform paired with a model: rotation and translation.
#[derive(Debug, PartialEq, Eq, Copy, Clone, Structural)]
pub struct Transform {
    pub rotation: Mat3,
    pub translation: Vec3,
}

/// One flat vertex: position, normal, first texture coordinate set, and the
/// material of the submesh it belongs to.
#[derive(Debug, PartialEq, Eq, Copy, Clone, Structural)]
pub struct Vertex {
    pub position: Vec3,
    pub normal: Vec3,
    pub uv: TexCoord,
    pub material_id: u16,
}

impl Vertex {
    pub fn new(position: Vec3, normal: Vec3, uv: TexCoord, material_id: u16) -> (v: Vertex)
        ensures
            v == (Vertex { position, normal, uv, material_id }),
    {
        Vertex { position, normal, uv, material_id }
    }
}

/// How a model's index buffer is to be drawn.
#[derive(Debug, PartialEq, Eq, Copy, Clone, Structural)]
pub enum Topology {
    TriangleList,
    TriangleStrip,
}

/// A resolved texture reference of a material.
#[derive(Debug, PartialEq, Eq, Clone)]
pub struct Texture {
    pub filtering: TextureFiltering,
    pub uv: UvAddressing,
    pub name: String,
    pub alpha_name: String,
}

/// Ghost view of [`Texture`].
pub struct TextureV {
    pub filtering: TextureFiltering,
    pub uv: UvAddressing,
    pub name: Seq<char>,
    pub alpha_name: Seq<char>,
}

impl View for Texture {
    type V = TextureV;

    open spec fn view(&self) -> TextureV {
        TextureV {
            filtering: self.filtering,
            uv: self.uv,
            name: self.name@,
            alpha_name: self.alpha_name@,
        }
    }
}

/// A resolved material: base color, lighting, optional texture reference.
#[derive(Debug, PartialEq, Eq, Clone)]
pub struct Material {
    pub color: Color,
    pub is_textured: bool,
    pub lighting: Option<Lighting>,
    pub texture: Option<Texture>,
}

/// Ghost view of [`Material`].
pub struct MaterialV {
    pub color: Color,
    pub is_textured: bool,
    pub lighting: Option<Lighting>,
    pub texture: Option<TextureV>,
}

impl View for Material {
    type V = MaterialV;

    open spec fn view(&self) -> MaterialV {
        MaterialV {
            color: self.color,
            is_textured: self.is_textured,
            lighting: self.lighting,
            texture: match self.texture {
                Some(t) => Some(t@),
                None => None,
            },
        }
    }
}

/// A renderable model: flat vertex buffer, index buffer grouped by
/// material, the material list and the per-slot material indices.
#[derive(Debug, PartialEq, Eq, Clone)]
pub struct Model {
    pub vertices: Vec<Vertex>,
    pub indices: Vec<u16>,
    pub topology: Topology,
    pub materials: Vec<Material>,
    pub material_indices: Vec<usize>,
}

/// Ghost view of [`Model`].
pub struct ModelV {
    pub vertices: Seq<Vertex>,
    pub indices: Seq<u16>,
    pub topology: Topology,
    pub materials: Seq<MaterialV>,
    pub material_indices: Seq<usize>,
}

impl View for Model {
    type V = ModelV;

    open spec fn view(&self) -> ModelV {
        ModelV {
            vertices: self.vertices@,
            indices: self.indices@,
            topology: self.topology,
            materials: self.materials@.map_values(|m: Material| m@),
            material_indices: self.material_indices@,
        }
    }
}

/// The children of `sv` whose tag is `t`, in order.
pub open spec fn sp_children_of_type(q: Seq<SectionV>, t: SectionType) -> Seq<SectionV>
    decreases q.len(),
{
    if q.len() == 0 {
        Seq::empty()
    } else if q[0].section_type == t {
        seq![q[0]] + sp_children_of_type(q.drop_first(), t)
    } else {
        sp_children_of_type(q.drop_first(), t)
    }
}

/// The first child of `sv` whose tag is `t`.
pub open spec fn sp_first_child_of_type(q: Seq<SectionV>, t: SectionType) -> Option<SectionV>
    decreases q.len(),
{
    if q.len() == 0 {
        None
    } else if q[0].section_type == t {
        Some(q[0])
    } else {
        sp_first_child_of_type(q.drop_first(), t)
    }
}

/// The payload of the first `Struct` child of `sv`, if any.
pub open spec fn sp_struct_data(sv: SectionV) -> Option<ClumpDataV> {
    match sp_first_child_of_type(sv.children, SectionType::Struct) {
        Some(c) => Some(c.data),
        None => None,
    }
}

impl Section {
    /// Indices of this section's children that carry the given tag, in
    /// order; the corresponding child views are exactly the children of
    /// that tag.
    pub fn find_children_by_type(&self, section_type: SectionType) -> (r: Vec<usize>)
        ensures
            sp_children_of_type(section_view(self).children, section_type) == Seq::new(
                r@.len(),
                |j: int| section_view(&self.children[r@[j] as int]),
            ),
            forall|j: int|
                0 <= j < r@.len() ==> r@[j] < self.children@.len() && #[trigger] self.children@[(
                r@[j] as int)].section_type == section_type,
            forall|j1: int, j2: int| 0 <= j1 < j2 < r@.len() ==> r@[j1] < r@[j2],
    {
        let mut r: Vec<usize> = Vec::new();
        let n = self.children.len();
        let mut i: usize = 0;
        proof {
            lemma_sections_view(self.children@);
        }
        while i < n
            invariant
                i <= n == self.children@.len(),
                sections_view(self.children@).len() == n,
                forall|k: int|
                    0 <= k < n ==> #[trigger] sections_view(self.children@)[k] == section_view(
                        &self.children@[k],
                    ),
                sp_children_of_type(
                    sections_view(self.children@).take(i as int),
                    section_type,
                ) == Seq::new(r@.len(), |j: int| section_view(&self.children[r@[j] as int])),
                forall|j: int|
                    0 <= j < r@.len() ==> (#[trigger] r@[j]) < i && self.children@[(
                    r@[j] as int)].section_type == section_type,
                forall|j1: int, j2: int| 0 <= j1 < j2 < r@.len() ==> r@[j1] < r@[j2],
            decreases n - i,
        {
            let ghost old_r = r@;
            let ghost pre = sections_view(self.children@).take(i as int);
            let ghost post = sections_view(self.children@).take(i + 1);
            let is_match = self.children[i].section_type == section_type;
            if is_match {
                r.push(i);
            }
            proof {
                if is_match {
                    assert(r@ =~= old_r.push(i as usize));
                    assert forall|j1: int, j2: int| 0 <= j1 < j2 < r@.len() implies r@[j1]
                        < r@[j2] by {
                        if j2 < old_r.len() as int {
                            assert(r@[j1] == old_r[j1] && r@[j2] == old_r[j2]);
                        } else {
                            assert(r@[j2] == i as usize);
                            assert(r@[j1] == old_r[j1]);
                        }
                    }
                }
                lemma_children_of_type_take_step(sections_view(self.children@), i as int, section_type);
                if is_match {
                    assert(Seq::new(
                        r@.len(),
                        |j: int| section_view(&self.children[r@[j] as int]),
                    ) =~= sp_children_of_type(pre, section_type) + seq![
                        section_view(&self.children@[i as int]),
                    ]);
                } else {
                    assert(Seq::new(
                        r@.len(),
                        |j: int| section_view(&self.children[r@[j] as int]),
                    ) =~= sp_children_of_type(pre, section_type));
                }
            }
            i = i + 1;
        }
        proof {
            assert(sections_view(self.children@).take(n as int) =~= sections_view(self.children@));
        }
        r
    }

    /// Index of the first child with the given tag, if any.
    pub fn find_child_by_type(&self, section_type: SectionType) -> (r: Option<usize>)
        ensures
            match r {
                Some(i) => i < self.children@.len() && sp_first_child_of_type(
                    section_view(self).children,
                    section_type,
                ) == Some(section_view(&self.children@[i as int])),
                None => sp_first_child_of_type(section_view(self).children, section_type)
                    is None,
            },
    {
        let n = self.children.len();
        let mut i: usize = 0;
        proof {
            lemma_sections_view(self.children@);
            assert(sections_view(self.children@).skip(0) =~= sections_view(self.children@));
        }
        while i < n
            invariant
                i <= n == self.children@.len(),
                sections_view(self.children@).len() == n,
                forall|k: int|
                    0 <= k < n ==> #[trigger] sections_view(self.children@)[k] == section_view(
                        &self.children@[k],
                    ),
                sp_first_child_of_type(sections_view(self.children@), section_type)
                    == sp_first_child_of_type(
                    sections_view(self.children@).skip(i as int),
                    section_type,
                ),
                forall|k: int|
                    0 <= k < i ==> #[trigger] self.children@[k].section_type != section_type,
            decreases n - i,
        {
            let ghost rem = sections_view(self.children@).skip(i as int);
            if self.children[i].section_type == section_type {
                return Some(i);
            }
            proof {
                assert(rem.len() > 0 && rem[0] == section_view(&self.children@[i as int]));
                assert(rem.drop_first() =~= sections_view(self.children@).skip(i + 1));
            }
            i = i + 1;
        }
        proof {
            assert(sections_view(self.children@).skip(n as int) =~= Seq::<SectionV>::empty());
        }
        None
    }

    /// The payload of this section's first `Struct` child, if any.
    pub fn get_child_struct_data(&self) -> (r: Option<&ClumpData>)
        ensures
            match r {
                Some(d) => sp_struct_data(section_view(self)) == Some(d@),
                None => sp_struct_data(section_view(self)) is None,
            },
    {
        match self.find_child_by_type(SectionType::Struct) {
            Some(i) => Some(&self.children[i].data),
            None => None,
        }
    }
}

/// One step of `sp_children_of_type` over a growing prefix.
proof fn lemma_children_of_type_take_step(q: Seq<SectionV>, i: int, t: SectionType)
    requires
        0 <= i < q.len(),
    ensures
        q[i].section_type == t ==> sp_children_of_type(q.take(i + 1), t) == sp_children_of_type(
            q.take(i),
            t,
        ) + seq![q[i]],
        q[i].section_type != t ==> sp_children_of_type(q.take(i + 1), t) == sp_children_of_type(
            q.take(i),
            t,
        ),
    decreases i,
{
    if i == 0 {
        assert(q.take(1) =~= seq![q[0]]);
        assert(q.take(1).drop_first() =~= Seq::empty());
        assert(q.take(0) =~= Seq::<SectionV>::empty());
        assert(sp_children_of_type(Seq::<SectionV>::empty(), t) =~= Seq::empty());
        if q[0].section_type == t {
            assert(sp_children_of_type(q.take(1), t) == seq![q.take(1)[0]] + sp_children_of_type(
                q.take(1).drop_first(),
                t,
            ));
            assert(seq![q[0]] + Seq::<SectionV>::empty() =~= seq![q[0]]);
            assert(sp_children_of_type(q.take(0), t) + seq![q[0]] =~= seq![q[0]]);
        }
    } else {
        lemma_children_of_type_take_step(q.drop_first(), i - 1, t);
        assert(q.take(i + 1).drop_first() =~= q.drop_first().take(i));
        assert(q.take(i).drop_first() =~= q.drop_first().take(i - 1));
        assert(q.take(i + 1)[0] == q[0] && q.take(i)[0] == q[0]);
        if q[0].section_type == t {
            if q[i].section_type == t {
                assert(seq![q[0]] + (sp_children_of_type(q.drop_first().take(i - 1), t) + seq![
                    q[i],
                ]) =~= (seq![q[0]] + sp_children_of_type(q.drop_first().take(i - 1), t)) + seq![
                    q[i],
                ]);
            }
        }
    }
}


/// The string payloads of the `String` children of a section, in order.
pub open spec fn sp_string_children(q: Seq<SectionV>) -> Seq<Seq<char>>
    decreases q.len(),
{
    if q.len() == 0 {
        Seq::empty()
    } else {
        let rest = sp_string_children(q.drop_first());
        if q[0].section_type == SectionType::String && q[0].data matches ClumpDataV::String(s) {
            seq![q[0].data->String_0] + rest
        } else {
            rest
        }
    }
}

/// The material a `Material` section resolves to: its struct payload's
/// color and flags, and, when a texture child with a texture payload is
/// present, a texture reference built from that child's first two string
/// children (name and alpha name). A section without a material payload
/// resolves to nothing; a texture child with fewer than two strings is
/// malformed.
pub open spec fn sp_material_of(sv: SectionV) -> Result<Option<MaterialV>, Error> {
    match sp_struct_data(sv) {
        Some(ClumpDataV::Material(m)) => {
            match sp_first_child_of_type(sv.children, SectionType::Texture) {
                None => Ok(
                    Some(
                        MaterialV {
                            color: m.color,
                            is_textured: m.is_textured,
                            lighting: m.lighting,
                            texture: None,
                        },
                    ),
                ),
                Some(tex_sec) => match sp_struct_data(tex_sec) {
                    Some(ClumpDataV::Texture(t)) => {
                        let names = sp_string_children(tex_sec.children);
                        if names.len() < 2 {
                            Err(Error::MalformedField)
                        } else {
                            Ok(
                                Some(
                                    MaterialV {
                                        color: m.color,
                                        is_textured: m.is_textured,
                                        lighting: m.lighting,
                                        texture: Some(
                                            TextureV {
                                                filtering: t.filtering,
                                                uv: t.uv,
                                                name: names[0],
                                                alpha_name: names[1],
                                            },
                                        ),
                                    },
                                ),
                            )
                        }
                    },
                    _ => Ok(
                        Some(
                            MaterialV {
                                color: m.color,
                                is_textured: m.is_textured,
                                lighting: m.lighting,
                                texture: None,
                            },
                        ),
                    ),
                },
            }
        },
        _ => Ok(None),
    }
}

/// The materials of a material list's children: every `Material` child
/// that resolves to a material, in order.
pub open spec fn sp_collect_materials(q: Seq<SectionV>) -> Result<Seq<MaterialV>, Error>
    decreases q.len(),
{
    if q.len() == 0 {
        Ok(Seq::empty())
    } else {
        let first = if q[0].section_type == SectionType::Material {
            sp_material_of(q[0])
        } else {
            Ok(None)
        };
        match first {
            Err(e) => Err(e),
            Ok(opt) => match sp_collect_materials(q.drop_first()) {
                Err(e) => Err(e),
                Ok(rest) => Ok(
                    match opt {
                        Some(m) => seq![m] + rest,
                        None => rest,
                    },
                ),
            },
        }
    }
}

/// State of de-duplication unpacking after the first `k` raw indices: the
/// count of new materials seen, and the dense indices produced so far. A
/// raw index of -1 introduces the next new material; a non-negative raw
/// index must re-reference an already-introduced one.
pub open spec fn sp_unpack(raw: Seq<i32>, k: int) -> Result<(int, Seq<usize>), Error>
    decreases k,
{
    if k <= 0 {
        Ok((0, Seq::empty()))
    } else {
        match sp_unpack(raw, k - 1) {
            Err(e) => Err(e),
            Ok(st) => {
                let x = raw[k - 1];
                if x == -1 {
                    Ok((st.0 + 1, st.1.push(st.0 as usize)))
                } else if 0 <= x < st.0 {
                    Ok((st.0, st.1.push(x as usize)))
                } else {
                    Err(Error::IndexOutOfRange)
                }
            },
        }
    }
}

/// The dense material indices a raw de-duplication table unpacks to.
pub open spec fn sp_unpack_indices(raw: Seq<i32>) -> Result<Seq<usize>, Error> {
    match sp_unpack(raw, raw.len() as int) {
        Err(e) => Err(e),
        Ok(st) => Ok(st.1),
    }
}

/// An unpacking error persists for every longer prefix.
proof fn lemma_unpack_err(raw: Seq<i32>, k: int, m: int)
    requires
        0 <= k <= m,
        sp_unpack(raw, k) is Err,
    ensures
        sp_unpack(raw, m) == sp_unpack(raw, k),
    decreases m - k,
{
    if m > k {
        lemma_unpack_err(raw, k, m - 1);
    }
}

/// Unpack a material list's de-duplication table into dense indices, one
/// per material slot.
pub fn unpack_material_indices(raw: &Vec<i32>) -> (r: Result<Vec<usize>, Error>)
    ensures
        match sp_unpack_indices(raw@) {
            Ok(m) => r matches Ok(v) && v@ == m,
            Err(e) => r matches Err(e2) && e2 == e,
        },
{
    let mut res: Vec<usize> = Vec::new();
    let mut count: usize = 0;
    let n = raw.len();
    let mut i: usize = 0;
    while i < n
        invariant
            i <= n == raw@.len(),
            count <= i,
            sp_unpack(raw@, i as int) == Ok::<(int, Seq<usize>), Error>((count as int, res@)),
        decreases n - i,
    {
        let x = raw[i];
        if x == -1 {
            res.push(count);
            count = count + 1;
        } else if x >= 0 && (x as usize) < count {
            res.push(x as usize);
        } else {
            proof {
                assert(sp_unpack(raw@, i + 1) == Err::<(int, Seq<usize>), Error>(
                    Error::IndexOutOfRange,
                ));
                lemma_unpack_err(raw@, i + 1, n as int);
            }
            return Err(Error::IndexOutOfRange);
        }
        i = i + 1;
    }
    Ok(res)
}

/// A failed material collection is always a malformed-field error.
proof fn lemma_collect_materials_err(q: Seq<SectionV>)
    requires
        sp_collect_materials(q) is Err,
    ensures
        sp_collect_materials(q)->Err_0 == Error::MalformedField,
    decreases q.len(),
{
    if q.len() > 0 {
        let first = if q[0].section_type == SectionType::Material {
            sp_material_of(q[0])
        } else {
            Ok(None)
        };
        match first {
            Err(_) => {},
            Ok(_) => {
                lemma_collect_materials_err(q.drop_first());
            },
        }
    }
}

/// A failed unpacking is always an index error.
proof fn lemma_unpack_err_kind(raw: Seq<i32>, k: int)
    requires
        sp_unpack(raw, k) is Err,
    ensures
        sp_unpack(raw, k)->Err_0 == Error::IndexOutOfRange,
    decreases k,
{
    if k > 0 {
        if sp_unpack(raw, k - 1) is Err {
            lemma_unpack_err_kind(raw, k - 1);
        }
    }
}

/// Resolve one `Material` section.
pub fn section_to_material(material: &Section) -> (r: Result<Option<Material>, Error>)
    ensures
        match sp_material_of(section_view(material)) {
            Ok(m) => r matches Ok(o) && (match o {
                Some(mm) => m matches Some(mv) && mm@ == mv,
                None => m is None,
            }),
            Err(e) => r matches Err(e2) && e2 == e,
        },
{
    let md = match material.get_child_struct_data() {
        Some(d) => d,
        None => {
            return Ok(None);
        },
    };
    let m = match md {
        ClumpData::Material(m) => *m,
        _ => {
            return Ok(None);
        },
    };
    let tex_idx = match material.find_child_by_type(SectionType::Texture) {
        Some(i) => i,
        None => {
            return Ok(
                Some(
                    Material {
                        color: m.color,
                        is_textured: m.is_textured,
                        lighting: m.lighting,
                        texture: None,
                    },
                ),
            );
        },
    };
    let tex_sec = &material.children[tex_idx];
    let td = match tex_sec.get_child_struct_data() {
        Some(ClumpData::Texture(t)) => *t,
        _ => {
            return Ok(
                Some(
                    Material {
                        color: m.color,
                        is_textured: m.is_textured,
                        lighting: m.lighting,
                        texture: None,
                    },
                ),
            );
        },
    };
    let names = string_children(tex_sec);
    if names.len() < 2 {
        return Err(Error::MalformedField);
    }
    let name = names[0].clone();
    let alpha_name = names[1].clone();
    proof {
        assert(sp_string_children(section_view(tex_sec).children)[0] == names@[0]@);
        assert(sp_string_children(section_view(tex_sec).children)[1] == names@[1]@);
    }
    Ok(
        Some(
            Material {
                color: m.color,
                is_textured: m.is_textured,
                lighting: m.lighting,
                texture: Some(
                    Texture { filtering: td.filtering, uv: td.uv, name, alpha_name },
                ),
            },
        ),
    )
}

/// One step of `sp_string_children` over a growing prefix.
proof fn lemma_string_children_take_step(q: Seq<SectionV>, i: int)
    requires
        0 <= i < q.len(),
    ensures
        (q[i].section_type == SectionType::String && q[i].data matches ClumpDataV::String(s))
            ==> sp_string_children(q.take(i + 1)) == sp_string_children(q.take(i)) + seq![
            q[i].data->String_0,
        ],
        !(q[i].section_type == SectionType::String && q[i].data matches ClumpDataV::String(s))
            ==> sp_string_children(q.take(i + 1)) == sp_string_children(q.take(i)),
    decreases i,
{
    if i == 0 {
        assert(q.take(1) =~= seq![q[0]]);
        assert(q.take(1).drop_first() =~= Seq::empty());
        assert(q.take(0) =~= Seq::<SectionV>::empty());
        assert(sp_string_children(Seq::<SectionV>::empty()) =~= Seq::empty());
        if q[0].section_type == SectionType::String && q[0].data matches ClumpDataV::String(s) {
            assert(seq![q[0].data->String_0] + Seq::<Seq<char>>::empty() =~= seq![
                q[0].data->String_0,
            ]);
            assert(sp_string_children(q.take(0)) + seq![q[0].data->String_0] =~= seq![
                q[0].data->String_0,
            ]);
        }
    } else {
        lemma_string_children_take_step(q.drop_first(), i - 1);
        assert(q.take(i + 1).drop_first() =~= q.drop_first().take(i));
        assert(q.take(i).drop_first() =~= q.drop_first().take(i - 1));
        assert(q.take(i + 1)[0] == q[0] && q.take(i)[0] == q[0]);
        if q[0].section_type == SectionType::String && q[0].data matches ClumpDataV::String(s0) {
            if q[i].section_type == SectionType::String && q[i].data matches ClumpDataV::String(
                s1,
            ) {
                assert(seq![q[0].data->String_0] + (sp_string_children(
                    q.drop_first().take(i - 1),
                ) + seq![q[i].data->String_0]) =~= (seq![q[0].data->String_0]
                    + sp_string_children(q.drop_first().take(i - 1))) + seq![
                    q[i].data->String_0,
                ]);
            }
        }
    }
}

/// Collect the string payloads of a section's `String` children.
pub fn string_children(sec: &Section) -> (r: Vec<String>)
    ensures
        r@.map_values(|s: String| s@) == sp_string_children(section_view(sec).children),
{
    let mut r: Vec<String> = Vec::new();
    let n = sec.children.len();
    let mut i: usize = 0;
    proof {
        lemma_sections_view(sec.children@);
        assert(r@.map_values(|s: String| s@) =~= sp_string_children(
            sections_view(sec.children@).take(0),
        ));
    }
    while i < n
        invariant
            i <= n == sec.children@.len(),
            sections_view(sec.children@).len() == n,
            forall|k: int|
                0 <= k < n ==> #[trigger] sections_view(sec.children@)[k] == section_view(
                    &sec.children@[k],
                ),
            r@.map_values(|s: String| s@) == sp_string_children(
                sections_view(sec.children@).take(i as int),
            ),
        decreases n - i,
    {
        let ghost old_r = r@;
        let child = &sec.children[i];
        let mut matched = false;
        if child.section_type == SectionType::String {
            match &child.data {
                ClumpData::String(s) => {
                    r.push(s.clone());
                    matched = true;
                },
                _ => {},
            }
        }
        proof {
            lemma_string_children_take_step(sections_view(sec.children@), i as int);
            if matched {
                assert(r@ =~= old_r.push(r@[r@.len() - 1]));
                assert(r@.map_values(|s: String| s@) =~= old_r.map_values(|s: String| s@) + seq![
                    r@[r@.len() - 1]@,
                ]);
            } else {
                assert(r@.map_values(|s: String| s@) =~= old_r.map_values(|s: String| s@));
            }
        }
        i = i + 1;
    }
    proof {
        assert(sections_view(sec.children@).take(n as int) =~= sections_view(sec.children@));
    }
    r
}


/// The triangles whose material id is below `k`, grouped by material id in
/// ascending order; within one group the input order is kept. This is
/// the stable sort of the triangle list by material id, built group by
/// group.
pub open spec fn sp_sorted_upto(tris: Seq<Triangle>, k: int) -> Seq<Triangle>
    decreases k,
{
    if k <= 0 {
        Seq::empty()
    } else {
        sp_sorted_upto(tris, k - 1) + tris.filter(|t: Triangle| t.material_id == k - 1)
    }
}

/// The stable sort of a triangle list by material id.
pub open spec fn sp_sorted_tris(tris: Seq<Triangle>) -> Seq<Triangle> {
    sp_sorted_upto(tris, 0x10000)
}

proof fn lemma_upto_empty(k: int)
    ensures
        sp_sorted_upto(Seq::empty(), k).len() == 0,
    decreases k,
{
    if k > 0 {
        reveal(Seq::filter);
        lemma_upto_empty(k - 1);
        assert(Seq::<Triangle>::empty().filter(|t: Triangle| t.material_id == k - 1).len() == 0);
    }
}

proof fn lemma_upto_push(s: Seq<Triangle>, t: Triangle, k: int)
    ensures
        sp_sorted_upto(s.push(t), k).len() == sp_sorted_upto(s, k).len() + (if (t.material_id as int)
            < k {
            1int
        } else {
            0int
        }),
    decreases k,
{
    if k > 0 {
        reveal(Seq::filter);
        lemma_upto_push(s, t, k - 1);
        let pred = |x: Triangle| x.material_id == k - 1;
        assert(s.push(t).drop_last() =~= s);
        assert(s.push(t).filter(pred).len() == s.filter(pred).len() + (if t.material_id == k - 1 {
            1int
        } else {
            0int
        }));
    }
}

/// The stable sort keeps every triangle: it is as long as its input.
pub proof fn lemma_sorted_len(tris: Seq<Triangle>)
    ensures
        sp_sorted_tris(tris).len() == tris.len(),
    decreases tris.len(),
{
    if tris.len() == 0 {
        lemma_upto_empty(0x10000);
        assert(tris =~= Seq::<Triangle>::empty());
    } else {
        lemma_sorted_len(tris.drop_last());
        lemma_upto_push(tris.drop_last(), tris.last(), 0x10000);
        assert(tris.drop_last().push(tris.last()) =~= tris);
    }
}

/// The triangles of `tris` whose material id is `mid`, in order.
fn filter_by_material(tris: &Vec<Triangle>, mid: u16) -> (r: Vec<Triangle>)
    ensures
        r@ == tris@.filter(|t: Triangle| t.material_id == mid),
{
    let mut r: Vec<Triangle> = Vec::new();
    let n = tris.len();
    let mut j: usize = 0;
    proof {
        reveal(Seq::filter);
        assert(tris@.take(0) =~= Seq::<Triangle>::empty());
        assert(Seq::<Triangle>::empty().filter(|t: Triangle| t.material_id == mid) =~= Seq::<
            Triangle,
        >::empty());
    }
    while j < n
        invariant
            j <= n == tris@.len(),
            r@ == tris@.take(j as int).filter(|t: Triangle| t.material_id == mid),
        decreases n - j,
    {
        let t = tris[j];
        proof {
            reveal(Seq::filter);
            assert(tris@.take(j + 1).drop_last() =~= tris@.take(j as int));
            assert(tris@.take(j + 1).last() == tris@[j as int]);
        }
        if t.material_id == mid {
            r.push(t);
        }
        j = j + 1;
    }
    proof {
        assert(tris@.take(n as int) =~= tris@);
    }
    r
}

/// Stable-sort a triangle list by material id.
pub fn sort_triangles_by_material(tris: &Vec<Triangle>) -> (r: Vec<Triangle>)
    ensures
        r@ == sp_sorted_tris(tris@),
        r@.len() == tris@.len(),
{
    let mut r: Vec<Triangle> = Vec::new();
    let mut k: u32 = 0;
    while k < 0x10000
        invariant
            k <= 0x10000,
            r@ == sp_sorted_upto(tris@, k as int),
        decreases 0x10000 - k,
    {
        let ghost old_r = r@;
        let mut group = filter_by_material(tris, k as u16);
        r.append(&mut group);
        proof {
            assert(k as u16 as int == k as int);
            assert(r@ =~= old_r + tris@.filter(|t: Triangle| t.material_id == k as u16));
        }
        k = k + 1;
    }
    proof {
        lemma_sorted_len(tris@);
    }
    r
}


/// The view of an optional section argument.
pub open spec fn sp_ml_view(ml: Option<&Section>) -> Option<SectionV> {
    match ml {
        Some(s) => Some(section_view(s)),
        None => None,
    }
}

/// The materials and dense material indices a material-list section
/// resolves to; no section resolves to empty lists.
pub open spec fn sp_model_materials(ml: Option<SectionV>) -> Result<
    (Seq<MaterialV>, Seq<usize>),
    Error,
> {
    match ml {
        None => Ok((Seq::empty(), Seq::empty())),
        Some(m) => match sp_collect_materials(m.children) {
            Err(e) => Err(e),
            Ok(mats) => match sp_struct_data(m) {
                Some(ClumpDataV::MaterialList { material_indices }) => match sp_unpack_indices(
                    material_indices,
                ) {
                    Err(e) => Err(e),
                    Ok(idx) => Ok((mats, idx)),
                },
                _ => Err(Error::MalformedField),
            },
        },
    }
}

/// Resolve the materials of a material-list section, in order.
pub fn collect_materials(ml: &Section) -> (r: Result<Vec<Material>, Error>)
    ensures
        match sp_collect_materials(section_view(ml).children) {
            Ok(m) => r matches Ok(v) && v@.map_values(|x: Material| x@) == m,
            Err(e) => r matches Err(e2) && e2 == e,
        },
{
    let mut mats: Vec<Material> = Vec::new();
    let n = ml.children.len();
    let mut i: usize = 0;
    proof {
        lemma_sections_view(ml.children@);
        assert(sections_view(ml.children@).skip(0) =~= sections_view(ml.children@));
        assert(mats@.map_values(|x: Material| x@) =~= Seq::<MaterialV>::empty());
        match sp_collect_materials(sections_view(ml.children@)) {
            Ok(rest) => {
                assert(Seq::<MaterialV>::empty() + rest =~= rest);
            },
            Err(_) => {},
        }
    }
    while i < n
        invariant
            i <= n == ml.children@.len(),
            sections_view(ml.children@).len() == n,
            forall|k: int|
                0 <= k < n ==> #[trigger] sections_view(ml.children@)[k] == section_view(
                    &ml.children@[k],
                ),
            sp_collect_materials(sections_view(ml.children@)) == (match sp_collect_materials(
                sections_view(ml.children@).skip(i as int),
            ) {
                Ok(rest) => Ok::<Seq<MaterialV>, Error>(
                    mats@.map_values(|x: Material| x@) + rest,
                ),
                Err(e) => Err::<Seq<MaterialV>, Error>(e),
            }),
        decreases n - i,
    {
        let ghost old_mats = mats@;
        let ghost rem = sections_view(ml.children@).skip(i as int);
        let child = &ml.children[i];
        proof {
            assert(rem.len() > 0 && rem[0] == section_view(&ml.children@[i as int]));
            assert(rem.drop_first() =~= sections_view(ml.children@).skip(i + 1));
        }
        if child.section_type == SectionType::Material {
            match section_to_material(child) {
                Ok(Some(m)) => {
                    mats.push(m);
                    proof {
                        assert(mats@ =~= old_mats.push(mats@[mats@.len() - 1]));
                        match sp_collect_materials(sections_view(ml.children@).skip(i + 1)) {
                            Ok(rest) => {
                                assert(mats@.map_values(|x: Material| x@) =~= old_mats.map_values(
                                    |x: Material| x@,
                                ).push(mats@[mats@.len() - 1]@));
                                assert((old_mats.map_values(|x: Material| x@) + (seq![
                                    mats@[mats@.len() - 1]@,
                                ] + rest)) =~= (mats@.map_values(|x: Material| x@) + rest));
                            },
                            Err(_) => {},
                        }
                    }
                },
                Ok(None) => {},
                Err(e) => {
                    return Err(e);
                },
            }
        }
        i = i + 1;
    }
    proof {
        assert(sections_view(ml.children@).skip(n as int) =~= Seq::<SectionV>::empty());
        assert(mats@.map_values(|x: Material| x@) + Seq::<MaterialV>::empty() =~= mats@.map_values(
            |x: Material| x@,
        ));
    }
    Ok(mats)
}

/// The zero texture coordinate.
pub open spec fn sp_zero_uv() -> TexCoord {
    TexCoord { u: Scalar { bits: 0 }, v: Scalar { bits: 0 } }
}

/// The zero vector.
pub open spec fn sp_zero_vec3() -> Vec3 {
    Vec3 { x: Scalar { bits: 0 }, y: Scalar { bits: 0 }, z: Scalar { bits: 0 } }
}

/// The flat source vertices of a geometry: the first morph target's
/// positions zipped with its normals (zero-filled when absent) and the
/// first texture coordinate set (zero-filled when there is none), cut to
/// the shortest of the three.
pub open spec fn sp_source_verts(g: GeometryV) -> Seq<Vertex>
    recommends
        g.data is Some,
        g.morph_targets.len() > 0,
{
    let gd = g.data->Some_0;
    let mt = g.morph_targets[0];
    let uvs = if gd.texture_sets.len() == 0 {
        Seq::new(mt.vertices.len(), |i: int| sp_zero_uv())
    } else {
        gd.texture_sets[0]
    };
    let nrm = if mt.normals.len() == 0 {
        Seq::new(mt.vertices.len(), |i: int| sp_zero_vec3())
    } else {
        mt.normals
    };
    let n1 = if mt.vertices.len() <= nrm.len() {
        mt.vertices.len()
    } else {
        nrm.len()
    };
    let n = if n1 <= uvs.len() {
        n1
    } else {
        uvs.len()
    };
    Seq::new(
        n,
        |i: int|
            Vertex { position: mt.vertices[i], normal: nrm[i], uv: uvs[i], material_id: 0 },
    )
}

/// Build the flat source vertices of a geometry.
fn build_source_verts(geometry: &crate::types::Geometry) -> (r: Vec<Vertex>)
    requires
        geometry@.data is Some,
        geometry@.morph_targets.len() > 0,
    ensures
        r@ == sp_source_verts(geometry@),
{
    let gd = match &geometry.data {
        Some(gd) => gd,
        None => {
            return Vec::new();
        },
    };
    let mt = &geometry.morph_targets[0];
    proof {
        assert(geometry@.morph_targets[0] == mt@);
        assert(geometry@.data->Some_0 == gd@);
    }
    let nv = mt.vertices.len();
    let no_uv = gd.texture_sets.len() == 0;
    let no_nrm = mt.normals.len() == 0;
    let uv_len = if no_uv {
        nv
    } else {
        gd.texture_sets[0].len()
    };
    let nrm_len = if no_nrm {
        nv
    } else {
        mt.normals.len()
    };
    let n1 = if nv <= nrm_len {
        nv
    } else {
        nrm_len
    };
    let n = if n1 <= uv_len {
        n1
    } else {
        uv_len
    };
    let mut r: Vec<Vertex> = Vec::new();
    let mut i: usize = 0;
    while i < n
        invariant
            i <= n,
            n <= nv == mt.vertices@.len(),
            no_uv == (gd.texture_sets@.len() == 0),
            no_nrm == (mt.normals@.len() == 0),
            !no_uv ==> n <= gd.texture_sets@[0]@.len(),
            !no_nrm ==> n <= mt.normals@.len(),
            geometry@.morph_targets[0] == mt@,
            geometry@.data->Some_0 == gd@,
            geometry@.data is Some,
            geometry@.morph_targets.len() > 0,
            n as int == sp_source_verts(geometry@).len(),
            r@.len() == i,
            forall|k: int| 0 <= k < i ==> r@[k] == sp_source_verts(geometry@)[k],
        decreases n - i,
    {
        let normal = if no_nrm {
            Vec3 { x: Scalar { bits: 0 }, y: Scalar { bits: 0 }, z: Scalar { bits: 0 } }
        } else {
            mt.normals[i]
        };
        let uv = if no_uv {
            TexCoord { u: Scalar { bits: 0 }, v: Scalar { bits: 0 } }
        } else {
            gd.texture_sets[0][i]
        };
        r.push(Vertex { position: mt.vertices[i], normal, uv, material_id: 0 });
        i = i + 1;
    }
    proof {
        assert(r@ =~= sp_source_verts(geometry@));
    }
    r
}

/// The `j`-th corner of a triangle, in emission order.
pub open spec fn sp_corner(t: Triangle, j: int) -> int {
    if j == 0 {
        t.vertex1 as int
    } else if j == 1 {
        t.vertex2 as int
    } else {
        t.vertex3 as int
    }
}

/// Every corner of every triangle references a source vertex.
pub open spec fn sp_corners_in_range(tris: Seq<Triangle>, nverts: int) -> bool {
    forall|k: int, j: int|
        0 <= k < tris.len() && 0 <= j < 3 ==> #[trigger] sp_corner(tris[k], j) < nverts
}

/// The corner `j2` of sorted triangle `k2` has been emitted: its index
/// slot is in range and selects a vertex that copies the right source
/// vertex, stamped with the triangle's material id.
pub open spec fn sp_tri_emitted(
    st: Seq<Triangle>,
    vs: Seq<Vertex>,
    fi: Seq<u16>,
    fv: Seq<Vertex>,
    k2: int,
    j2: int,
) -> bool {
    let vi = sp_corner(st[k2], j2);
    &&& 3 * k2 + j2 < fi.len()
    &&& vi < vs.len()
    &&& (fi[3 * k2 + j2] as int) < fv.len()
    &&& fv[fi[3 * k2 + j2] as int] == (Vertex {
        position: vs[vi].position,
        normal: vs[vi].normal,
        uv: vs[vi].uv,
        material_id: st[k2].material_id,
    })
}

/// Emitted corners stay emitted when the index and vertex buffers grow.
proof fn lemma_tri_emitted_grow(
    st: Seq<Triangle>,
    vs: Seq<Vertex>,
    fi: Seq<u16>,
    fv: Seq<Vertex>,
    fi2: Seq<u16>,
    fv2: Seq<Vertex>,
    k2: int,
    j2: int,
)
    requires
        0 <= k2,
        0 <= j2 < 3,
        sp_tri_emitted(st, vs, fi, fv, k2, j2),
        fi.len() <= fi2.len(),
        fv.len() <= fv2.len(),
        forall|q: int| 0 <= q < fi.len() ==> (#[trigger] fi2[q]) == fi[q],
        forall|q: int| 0 <= q < fv.len() ==> (#[trigger] fv2[q]) == fv[q],
    ensures
        sp_tri_emitted(st, vs, fi2, fv2, k2, j2),
{
    assert(3 * k2 + j2 < fi2.len());
    assert(fi2[3 * k2 + j2] == fi[3 * k2 + j2]);
    assert((fi[3 * k2 + j2] as int) < fv2.len());
    assert(fv2[fi[3 * k2 + j2] as int] == fv[fi[3 * k2 + j2] as int]);
}

/// What a split model guarantees of its mesh part: triangles in stable
/// material order, one locally-reindexed corner per index slot, and every
/// referenced vertex a copy of the right source vertex stamped with its
/// triangle's material id.
pub open spec fn sp_split_mesh_ok(g: GeometryV, m: ModelV) -> bool {
    if g.data is None {
        m.vertices == Seq::<Vertex>::empty() && m.indices == Seq::<u16>::empty()
    } else {
        let sorted = sp_sorted_tris(g.data->Some_0.triangles);
        let verts = sp_source_verts(g);
        &&& m.indices.len() == 3 * sorted.len()
        &&& forall|k: int, j: int|
            0 <= k < sorted.len() && 0 <= j < 3 ==> #[trigger] sp_tri_emitted(
                sorted,
                verts,
                m.indices,
                m.vertices,
                k,
                j,
            )
    }
}

/// Entry `p` of the current submesh's remap table is consistent: it maps a
/// source vertex to a vertex-buffer slot holding a copy of that source
/// vertex stamped with the submesh's material id.
pub open spec fn sp_ours_entry(
    vs: Seq<Vertex>,
    fv: Seq<Vertex>,
    mid: u16,
    ours: Seq<(u16, u16)>,
    p: int,
) -> bool {
    &&& (ours[p].0 as int) < vs.len()
    &&& (ours[p].1 as int) < fv.len()
    &&& fv[ours[p].1 as int] == (Vertex {
        position: vs[ours[p].0 as int].position,
        normal: vs[ours[p].0 as int].normal,
        uv: vs[ours[p].0 as int].uv,
        material_id: mid,
    })
}

/// Find the remapped index already assigned to source vertex `v` in the
/// current submesh, if any.
fn lookup_remap(ours: &Vec<(u16, u16)>, v: u16) -> (r: Option<u16>)
    ensures
        match r {
            Some(x) => exists|p: int|
                0 <= p < ours@.len() && (#[trigger] ours@[p]).0 == v && ours@[p].1 == x,
            None => forall|p: int| 0 <= p < ours@.len() ==> (#[trigger] ours@[p]).0 != v,
        },
{
    let n = ours.len();
    let mut p: usize = 0;
    while p < n
        invariant
            p <= n == ours@.len(),
            forall|p2: int| 0 <= p2 < p ==> (#[trigger] ours@[p2]).0 != v,
        decreases n - p,
    {
        if ours[p].0 == v {
            return Some(ours[p].1);
        }
        p = p + 1;
    }
    None
}

/// Build a model from a geometry, splitting its triangles into one
/// submesh per material: triangles are stably grouped by material id, and
/// the vertices of each group are compacted and renumbered from the end of
/// the previous group, so that a vertex shared by two materials is
/// duplicated, once per submesh.
///
/// A missing mesh payload (native geometry) yields a model with no
/// vertices and no triangles rather than an error.
#[verifier::rlimit(100)]
#[verifier::loop_isolation(false)]
pub fn from_geometry_split_by_material(
    geometry: &crate::types::Geometry,
    material_list: Option<&Section>,
) -> (r: Result<Model, Error>)
    ensures
        match sp_model_materials(sp_ml_view(material_list)) {
            Err(e) => r matches Err(e2) && e2 == e && (e == Error::MalformedField || e
                == Error::IndexOutOfRange),
            Ok(mi) => {
                if geometry@.data is Some && geometry@.morph_targets.len() == 0 {
                    r matches Err(e) && e == Error::MalformedField
                } else {
                    &&& (r matches Ok(m) ==> {
                        &&& m@.topology == Topology::TriangleList
                        &&& m@.materials == mi.0
                        &&& m@.material_indices == mi.1
                        &&& sp_split_mesh_ok(geometry@, m@)
                    })
                    &&& (r is Err ==> (r matches Err(e) && e == Error::IndexOutOfRange))
                    &&& (geometry@.data is None ==> r is Ok)
                    &&& (geometry@.data matches Some(gd) ==> ((sp_corners_in_range(
                        sp_sorted_tris(gd.triangles),
                        sp_source_verts(geometry@).len() as int,
                    ) && 3 * gd.triangles.len() <= 0x10000) ==> r is Ok))
                    &&& (geometry@.data matches Some(gd) ==> (!sp_corners_in_range(
                        sp_sorted_tris(gd.triangles),
                        sp_source_verts(geometry@).len() as int,
                    ) ==> r is Err))
                }
            },
        },
{
    let mats_pair = match material_list {
        None => (Vec::new(), Vec::new()),
        Some(ml) => {
            let mats = match collect_materials(ml) {
                Ok(v) => v,
                Err(e) => {
                    proof {
                        lemma_collect_materials_err(section_view(ml).children);
                    }
                    return Err(e);
                },
            };
            let mi = match ml.get_child_struct_data() {
                Some(ClumpData::MaterialList { material_indices }) => match unpack_material_indices(
                    material_indices,
                ) {
                    Ok(v) => v,
                    Err(e) => {
                        proof {
                            if sp_unpack_indices(material_indices@) is Err {
                                lemma_unpack_err_kind(
                                    material_indices@,
                                    material_indices@.len() as int,
                                );
                            }
                        }
                        return Err(e);
                    },
                },
                _ => {
                    return Err(Error::MalformedField);
                },
            };
            (mats, mi)
        },
    };
    let (materials, material_indices) = mats_pair;
    proof {
        assert(sp_model_materials(sp_ml_view(material_list)) matches Ok(mi) && mi.0
            == materials@.map_values(|x: Material| x@) && mi.1 == material_indices@);
    }
    let gd = match &geometry.data {
        Some(gd) => gd,
        None => {
            return Ok(
                Model {
                    vertices: Vec::new(),
                    indices: Vec::new(),
                    topology: Topology::TriangleList,
                    materials,
                    material_indices,
                },
            );
        },
    };
    if geometry.morph_targets.len() == 0 {
        return Err(Error::MalformedField);
    }
    proof {
        assert(geometry@.data is Some);
        assert(geometry@.data->Some_0 == gd@);
        assert(geometry@.morph_targets.len() == geometry.morph_targets@.len());
        assert(geometry@.morph_targets.len() > 0);
    }
    let verts = build_source_verts(geometry);
    let sorted = sort_triangles_by_material(&gd.triangles);
    let ghost sortedv = sp_sorted_tris(geometry@.data->Some_0.triangles);
    let ghost vertsv = sp_source_verts(geometry@);
    let nverts = verts.len();
    let n = sorted.len();
    proof {
        lemma_sorted_len(geometry@.data->Some_0.triangles);
        assert(vertsv.len() == nverts as int);
    }
    let mut final_vertices: Vec<Vertex> = Vec::new();
    let mut final_indices: Vec<u16> = Vec::new();
    let mut ours: Vec<(u16, u16)> = Vec::new();
    let mut k: usize = 0;
    while k < n
        invariant
            k <= n == sortedv.len(),
            sorted@ == sortedv,
            verts@ == vertsv,
            vertsv.len() == nverts as int,
            final_indices@.len() == 3 * k,
            final_vertices@.len() <= final_indices@.len(),
            forall|k2: int, j2: int|
                0 <= k2 < k && 0 <= j2 < 3 ==> #[trigger] sp_tri_emitted(
                    sortedv,
                    vertsv,
                    final_indices@,
                    final_vertices@,
                    k2,
                    j2,
                ),
            forall|p: int|
                0 <= p < ours@.len() ==> k > 0 && #[trigger] sp_ours_entry(
                    vertsv,
                    final_vertices@,
                    sortedv[k - 1].material_id,
                    ours@,
                    p,
                ),
        decreases n - k,
    {
        let t = sorted[k];
        if k == 0 || sorted[k - 1].material_id != t.material_id {
            ours = Vec::new();
        }
        let mid = t.material_id;
        let mut j: usize = 0;
        while j < 3
            invariant
                0 <= j <= 3,
                k < n == sortedv.len(),
                sorted@ == sortedv,
                verts@ == vertsv,
                vertsv.len() == nverts as int,
                t == sortedv[k as int],
                mid == t.material_id,
                final_indices@.len() == 3 * k + j,
                final_vertices@.len() <= final_indices@.len(),
                forall|k2: int, j2: int|
                    0 <= k2 < k && 0 <= j2 < 3 ==> #[trigger] sp_tri_emitted(
                        sortedv,
                        vertsv,
                        final_indices@,
                        final_vertices@,
                        k2,
                        j2,
                    ),
                forall|j2: int|
                    0 <= j2 < j ==> #[trigger] sp_tri_emitted(
                        sortedv,
                        vertsv,
                        final_indices@,
                        final_vertices@,
                        k as int,
                        j2,
                    ),
                forall|p: int|
                    0 <= p < ours@.len() ==> #[trigger] sp_ours_entry(
                        vertsv,
                        final_vertices@,
                        mid,
                        ours@,
                        p,
                    ),
            decreases 3 - j,
        {
            let v: u16 = if j == 0 {
                t.vertex1
            } else if j == 1 {
                t.vertex2
            } else {
                t.vertex3
            };
            proof {
                assert(sp_corner(sortedv[k as int], j as int) == v as int);
            }
            if (v as usize) >= nverts {
                proof {
                    assert(sp_corner(sortedv[k as int], j as int) >= vertsv.len());
                    assert(!sp_corners_in_range(sortedv, vertsv.len() as int));
                }
                return Err(Error::IndexOutOfRange);
            }
            let ghost old_fi = final_indices@;
            let ghost old_fv = final_vertices@;
            let ghost old_ours = ours@;
            let looked = lookup_remap(&ours, v);
            let idx: u16;
            match looked {
                Some(x) => {
                    proof {
                        let p = choose|p: int|
                            0 <= p < ours@.len() && (#[trigger] ours@[p]).0 == v && ours@[p].1
                                == x;
                        assert(sp_ours_entry(vertsv, final_vertices@, mid, ours@, p));
                        assert((x as int) < final_vertices@.len());
                        assert(final_vertices@[x as int] == (Vertex {
                            position: vertsv[v as int].position,
                            normal: vertsv[v as int].normal,
                            uv: vertsv[v as int].uv,
                            material_id: mid,
                        }));
                    }
                    idx = x;
                },
                None => {
                    if final_vertices.len() >= 0x10000 {
                        proof {
                            assert(3 * (k as int) + j >= 0x10000);
                            assert(3 * sortedv.len() > 0x10000);
                        }
                        return Err(Error::IndexOutOfRange);
                    }
                    let nidx = final_vertices.len() as u16;
                    let sv = verts[v as usize];
                    final_vertices.push(
                        Vertex {
                            position: sv.position,
                            normal: sv.normal,
                            uv: sv.uv,
                            material_id: mid,
                        },
                    );
                    ours.push((v, nidx));
                    proof {
                        assert(final_vertices@ =~= old_fv.push(
                            Vertex {
                                position: vertsv[v as int].position,
                                normal: vertsv[v as int].normal,
                                uv: vertsv[v as int].uv,
                                material_id: mid,
                            },
                        ));
                        assert(ours@ =~= old_ours.push((v, nidx)));
                        assert((nidx as int) < final_vertices@.len());
                        assert(final_vertices@[nidx as int] == (Vertex {
                            position: vertsv[v as int].position,
                            normal: vertsv[v as int].normal,
                            uv: vertsv[v as int].uv,
                            material_id: mid,
                        }));
                        assert forall|p: int| 0 <= p < ours@.len() implies #[trigger] sp_ours_entry(
                            vertsv,
                            final_vertices@,
                            mid,
                            ours@,
                            p,
                        ) by {
                            if p < old_ours.len() {
                                assert(sp_ours_entry(vertsv, old_fv, mid, old_ours, p));
                                assert(ours@[p] == old_ours[p]);
                                assert(final_vertices@[old_ours[p].1 as int] == old_fv[(
                                old_ours[p].1 as int)]);
                            } else {
                                assert(ours@[p] == (v, nidx));
                            }
                        }
                    }
                    idx = nidx;
                },
            };
            final_indices.push(idx);
            proof {
                assert(final_indices@ =~= old_fi.push(idx));
                assert((idx as int) < final_vertices@.len());
                assert(final_vertices@[idx as int] == (Vertex {
                    position: vertsv[v as int].position,
                    normal: vertsv[v as int].normal,
                    uv: vertsv[v as int].uv,
                    material_id: mid,
                }));
                assert(forall|q: int|
                    0 <= q < old_fi.len() ==> #[trigger] final_indices@[q] == old_fi[q]);
                assert(forall|q: int|
                    0 <= q < old_fv.len() ==> #[trigger] final_vertices@[q] == old_fv[q]);
                assert(final_indices@[3 * (k as int) + (j as int)] == idx);
                assert(sp_tri_emitted(
                    sortedv,
                    vertsv,
                    final_indices@,
                    final_vertices@,
                    k as int,
                    j as int,
                ));
                assert forall|k2: int, j2: int|
                    0 <= k2 < k && 0 <= j2 < 3 implies #[trigger] sp_tri_emitted(
                    sortedv,
                    vertsv,
                    final_indices@,
                    final_vertices@,
                    k2,
                    j2,
                ) by {
                    lemma_tri_emitted_grow(
                        sortedv,
                        vertsv,
                        old_fi,
                        old_fv,
                        final_indices@,
                        final_vertices@,
                        k2,
                        j2,
                    );
                }
                assert forall|j2: int| 0 <= j2 < j + 1 implies #[trigger] sp_tri_emitted(
                    sortedv,
                    vertsv,
                    final_indices@,
                    final_vertices@,
                    k as int,
                    j2,
                ) by {
                    if j2 < j {
                        lemma_tri_emitted_grow(
                            sortedv,
                            vertsv,
                            old_fi,
                            old_fv,
                            final_indices@,
                            final_vertices@,
                            k as int,
                            j2,
                        );
                    }
                }
                assert forall|p: int| 0 <= p < ours@.len() implies #[trigger] sp_ours_entry(
                    vertsv,
                    final_vertices@,
                    mid,
                    ours@,
                    p,
                ) by {
                }
            }
            j = j + 1;
        }
        proof {
            assert forall|k2: int, j2: int|
                0 <= k2 < k + 1 && 0 <= j2 < 3 implies #[trigger] sp_tri_emitted(
                sortedv,
                vertsv,
                final_indices@,
                final_vertices@,
                k2,
                j2,
            ) by {
                if k2 < k {
                } else {
                    assert(sp_tri_emitted(
                        sortedv,
                        vertsv,
                        final_indices@,
                        final_vertices@,
                        k as int,
                        j2,
                    ));
                }
            }
        }
        k = k + 1;
    }
    proof {
        assert forall|k2: int, j2: int|
            0 <= k2 < sortedv.len() && 0 <= j2 < 3 implies #[trigger] sp_corner(
            sortedv[k2],
            j2,
        ) < vertsv.len() by {
            assert(sp_tri_emitted(sortedv, vertsv, final_indices@, final_vertices@, k2, j2));
        }
        assert(sp_corners_in_range(sortedv, vertsv.len() as int));
    }
    Ok(
        Model {
            vertices: final_vertices,
            indices: final_indices,
            topology: Topology::TriangleList,
            materials,
            material_indices,
        },
    )
}


/// The render-enabled atomics among a clump's children, in order. An
/// `Atomic` child with no nested struct section is malformed; one whose
/// first child holds something else is skipped; one whose render flag is
/// clear is parsed but excluded.
pub open spec fn sp_atomics(q: Seq<SectionV>) -> Result<Seq<Atomic>, Error>
    decreases q.len(),
{
    if q.len() == 0 {
        Ok(Seq::empty())
    } else if q[0].section_type == SectionType::Atomic {
        if q[0].children.len() == 0 {
            Err(Error::MalformedField)
        } else {
            match q[0].children[0].data {
                ClumpDataV::Atomic(a) => match sp_atomics(q.drop_first()) {
                    Err(e) => Err(e),
                    Ok(rest) => Ok(
                        if a.render {
                            seq![a] + rest
                        } else {
                            rest
                        },
                    ),
                },
                _ => sp_atomics(q.drop_first()),
            }
        }
    } else {
        sp_atomics(q.drop_first())
    }
}

/// The geometries among a geometry list's children, each paired with its
/// first material-list child. A `Geometry` child without a geometry struct
/// payload is malformed.
pub open spec fn sp_geometries(q: Seq<SectionV>) -> Result<
    Seq<(GeometryV, Option<SectionV>)>,
    Error,
>
    decreases q.len(),
{
    if q.len() == 0 {
        Ok(Seq::empty())
    } else if q[0].section_type == SectionType::Geometry {
        match sp_struct_data(q[0]) {
            Some(ClumpDataV::Geometry(g)) => match sp_geometries(q.drop_first()) {
                Err(e) => Err(e),
                Ok(rest) => Ok(
                    seq![(g, sp_first_child_of_type(q[0].children, SectionType::MaterialList))]
                        + rest,
                ),
            },
            _ => Err(Error::MalformedField),
        }
    } else {
        sp_geometries(q.drop_first())
    }
}

/// The structural scene of a decoded file: the clump's frames, its
/// geometries with their material lists, and its render-enabled atomics.
/// The geometry count announced by the geometry list header must match the
/// geometries found.
pub open spec fn sp_scene(file: Seq<SectionV>) -> Result<
    (Seq<Frame>, Seq<(GeometryV, Option<SectionV>)>, Seq<Atomic>),
    Error,
> {
    if file.len() == 0 {
        Err(Error::IndexOutOfRange)
    } else {
        let clump = file[0];
        match sp_first_child_of_type(clump.children, SectionType::FrameList) {
            None => Err(Error::MalformedField),
            Some(fl) => match sp_struct_data(fl) {
                Some(ClumpDataV::FrameList(frames)) => match sp_first_child_of_type(
                    clump.children,
                    SectionType::GeometryList,
                ) {
                    None => Err(Error::MalformedField),
                    Some(gl) => match sp_struct_data(gl) {
                        Some(ClumpDataV::GeometryList { geometry_count }) => match sp_geometries(
                            gl.children,
                        ) {
                            Err(e) => Err(e),
                            Ok(geoms) => if geometry_count as int != geoms.len() {
                                Err(Error::MalformedField)
                            } else {
                                match sp_atomics(clump.children) {
                                    Err(e) => Err(e),
                                    Ok(atoms) => Ok((frames, geoms, atoms)),
                                }
                            },
                        },
                        _ => Err(Error::MalformedField),
                    },
                },
                _ => Err(Error::MalformedField),
            },
        }
    }
}

/// Whether the model of a geometry and material list can be built: its
/// materials resolve, a mesh payload comes with a morph target, every
/// triangle corner is a valid vertex reference, and the index space of one
/// submesh split fits sixteen bits.
pub open spec fn sp_model_builds(g: GeometryV, ml: Option<SectionV>) -> bool {
    &&& sp_model_materials(ml) is Ok
    &&& !(g.data is Some && g.morph_targets.len() == 0)
    &&& (g.data matches Some(gd) ==> (sp_corners_in_range(
        sp_sorted_tris(gd.triangles),
        sp_source_verts(g).len() as int,
    ) && 3 * gd.triangles.len() <= 0x10000))
}

/// What a built model states about its geometry and material list.
pub open spec fn sp_model_matches(g: GeometryV, ml: Option<SectionV>, m: ModelV) -> bool {
    &&& m.topology == Topology::TriangleList
    &&& (sp_model_materials(ml) matches Ok(mi) ==> m.materials == mi.0 && m.material_indices
        == mi.1)
    &&& sp_split_mesh_ok(g, m)
}

impl Model {
    /// Build a model from a geometry: triangles are split into one submesh
    /// per material.
    pub fn from_geometry_split(
        geometry: &crate::types::Geometry,
        material_list: Option<&Section>,
    ) -> (r: Result<Model, Error>)
        ensures
            sp_model_builds(geometry@, sp_ml_view(material_list)) ==> r is Ok,
            r matches Ok(m) ==> sp_model_matches(geometry@, sp_ml_view(material_list), m@),
            r matches Err(e) ==> e == Error::IndexOutOfRange || e == Error::MalformedField,
    {
        let r = from_geometry_split_by_material(geometry, material_list);
        proof {
            match sp_model_materials(sp_ml_view(material_list)) {
                Ok(mi) => {},
                Err(e) => {},
            }
        }
        r
    }

    /// Resolve a decoded file into its renderable instances: one transform
    /// and model per render-enabled atomic, in atomic order.
    ///
    /// Index references are validated: an atomic whose frame or geometry
    /// index points outside its list is an `IndexOutOfRange` error, never a
    /// crash. When the scene is structurally sound, every index is in
    /// range and every referenced model builds, resolution succeeds.
    #[verifier::rlimit(100)]
    #[verifier::loop_isolation(false)]
    pub fn from_raw(raw: &BinaryStreamFile) -> (r: Result<Vec<(Transform, Model)>, Error>)
        ensures
            match sp_scene(raw@) {
                Err(e) => r matches Err(e2) && e2 == e,
                Ok(sc) => {
                    &&& (r matches Ok(out) ==> {
                        &&& out@.len() == sc.2.len()
                        &&& forall|i: int|
                            0 <= i < sc.2.len() ==> {
                                let a = #[trigger] sc.2[i];
                                &&& (a.frame_index as int) < sc.0.len()
                                &&& (a.geometry_index as int) < sc.1.len()
                                &&& out@[i].0 == (Transform {
                                    rotation: sc.0[a.frame_index as int].rotation,
                                    translation: sc.0[a.frame_index as int].position,
                                })
                                &&& sp_model_matches(
                                    sc.1[a.geometry_index as int].0,
                                    sc.1[a.geometry_index as int].1,
                                    out@[i].1@,
                                )
                            }
                    })
                    &&& ((forall|i: int|
                        0 <= i < sc.2.len() ==> ((#[trigger] sc.2[i]).frame_index as int)
                            < sc.0.len() && (sc.2[i].geometry_index as int) < sc.1.len()
                            && sp_model_builds(
                            sc.1[sc.2[i].geometry_index as int].0,
                            sc.1[sc.2[i].geometry_index as int].1,
                        )) ==> r is Ok)
                    &&& (r matches Err(e) ==> e == Error::IndexOutOfRange || e
                        == Error::MalformedField)
                },
            },
    {
        if raw.sections.len() == 0 {
            return Err(Error::IndexOutOfRange);
        }
        proof {
            lemma_sections_view(raw.sections@);
        }
        let clump = &raw.sections[0];
        proof {
            assert(raw@[0] == section_view(clump));
        }
        let fl_idx = match clump.find_child_by_type(SectionType::FrameList) {
            Some(i) => i,
            None => {
                return Err(Error::MalformedField);
            },
        };
        let frames: &Vec<Frame> = match (&clump.children[fl_idx]).get_child_struct_data() {
            Some(ClumpData::FrameList(v)) => v,
            _ => {
                return Err(Error::MalformedField);
            },
        };
        let gl_idx = match clump.find_child_by_type(SectionType::GeometryList) {
            Some(i) => i,
            None => {
                return Err(Error::MalformedField);
            },
        };
        let glist = &clump.children[gl_idx];
        let gcount = match glist.get_child_struct_data() {
            Some(ClumpData::GeometryList { geometry_count }) => *geometry_count,
            _ => {
                return Err(Error::MalformedField);
            },
        };
        let ghost glv = section_view(glist);
        // Collect the geometries of the geometry list, each with its
        // material-list child.
        let mut geoms: Vec<(usize, Option<usize>)> = Vec::new();
        let gn = glist.children.len();
        let mut gi: usize = 0;
        proof {
            lemma_sections_view(glist.children@);
            assert(sections_view(glist.children@).skip(0) =~= sections_view(glist.children@));
            match sp_geometries(sections_view(glist.children@)) {
                Ok(rest) => {
                    assert(Seq::<(GeometryV, Option<SectionV>)>::empty() + rest =~= rest);
                },
                Err(_) => {},
            }
        }
        while gi < gn
            invariant
                gi <= gn,
                geoms@.len() <= gi,
                sp_geometries(sections_view(glist.children@)) == (match sp_geometries(
                    sections_view(glist.children@).skip(gi as int),
                ) {
                    Ok(rest) => Ok::<Seq<(GeometryV, Option<SectionV>)>, Error>(
                        Seq::new(
                            geoms@.len(),
                            |p: int|
                                {
                                    let gs = &glist.children[geoms@[p].0 as int];
                                    (
                                        sp_struct_data(section_view(gs))->Some_0->Geometry_0,
                                        match geoms@[p].1 {
                                            Some(mli) => Some(
                                                section_view(&gs.children[mli as int]),
                                            ),
                                            None => None,
                                        },
                                    )
                                },
                        ) + rest,
                    ),
                    Err(e) => Err::<Seq<(GeometryV, Option<SectionV>)>, Error>(e),
                }),
                forall|p: int|
                    0 <= p < geoms@.len() ==> {
                        let gs = &glist.children[(#[trigger] geoms@[p]).0 as int];
                        &&& geoms@[p].0 < glist.children@.len()
                        &&& (sp_struct_data(section_view(gs)) matches Some(
                            ClumpDataV::Geometry(g),
                        ))
                        &&& (match geoms@[p].1 {
                            Some(mli) => mli < gs.children@.len()
                                && sp_first_child_of_type(
                                section_view(gs).children,
                                SectionType::MaterialList,
                            ) == Some(section_view(&gs.children[mli as int])),
                            None => sp_first_child_of_type(
                                section_view(gs).children,
                                SectionType::MaterialList,
                            ) is None,
                        })
                    },
            decreases gn - gi,
        {
            let ghost old_geoms = geoms@;
            let ghost rem = sections_view(glist.children@).skip(gi as int);
            let child = &glist.children[gi];
            proof {
                assert(rem.len() > 0 && rem[0] == section_view(&glist.children@[gi as int]));
                assert(rem.drop_first() =~= sections_view(glist.children@).skip(gi + 1));
            }
            if child.section_type == SectionType::Geometry {
                let is_geom = match child.get_child_struct_data() {
                    Some(ClumpData::Geometry(_)) => true,
                    _ => false,
                };
                if !is_geom {
                    return Err(Error::MalformedField);
                }
                let mli = child.find_child_by_type(SectionType::MaterialList);
                geoms.push((gi, mli));
                proof {
                    assert(geoms@ =~= old_geoms.push((gi, mli)));
                    match sp_geometries(sections_view(glist.children@).skip(gi + 1)) {
                        Ok(rest) => {
                            assert(Seq::new(
                                geoms@.len(),
                                |p: int|
                                    {
                                        let gs = &glist.children[geoms@[p].0 as int];
                                        (
                                            sp_struct_data(
                                                section_view(gs),
                                            )->Some_0->Geometry_0,
                                            match geoms@[p].1 {
                                                Some(mli2) => Some(
                                                    section_view(&gs.children[mli2 as int]),
                                                ),
                                                None => None,
                                            },
                                        )
                                    },
                            ) + rest =~= Seq::new(
                                old_geoms.len(),
                                |p: int|
                                    {
                                        let gs = &glist.children[old_geoms[p].0 as int];
                                        (
                                            sp_struct_data(
                                                section_view(gs),
                                            )->Some_0->Geometry_0,
                                            match old_geoms[p].1 {
                                                Some(mli2) => Some(
                                                    section_view(&gs.children[mli2 as int]),
                                                ),
                                                None => None,
                                            },
                                        )
                                    },
                            ) + (seq![
                                (
                                    sp_struct_data(
                                        section_view(&glist.children[gi as int]),
                                    )->Some_0->Geometry_0,
                                    sp_first_child_of_type(
                                        section_view(&glist.children[gi as int]).children,
                                        SectionType::MaterialList,
                                    ),
                                ),
                            ] + rest));
                        },
                        Err(_) => {},
                    }
                }
            }
            gi = gi + 1;
        }
        proof {
            assert(sections_view(glist.children@).skip(gn as int) =~= Seq::<SectionV>::empty());
            match sp_geometries(sections_view(glist.children@)) {
                Ok(rest) => {},
                Err(_) => {},
            }
        }
        if !(gcount as usize == geoms.len()) {
            return Err(Error::MalformedField);
        }
        // Collect the render-enabled atomics of the clump.
        let mut atoms: Vec<Atomic> = Vec::new();
        let an = clump.children.len();
        let mut ai: usize = 0;
        proof {
            lemma_sections_view(clump.children@);
            assert(sections_view(clump.children@).skip(0) =~= sections_view(clump.children@));
            match sp_atomics(sections_view(clump.children@)) {
                Ok(rest) => {
                    assert(Seq::<Atomic>::empty() + rest =~= rest);
                },
                Err(_) => {},
            }
        }
        while ai < an
            invariant
                ai <= an,
                sp_atomics(sections_view(clump.children@)) == (match sp_atomics(
                    sections_view(clump.children@).skip(ai as int),
                ) {
                    Ok(rest) => Ok::<Seq<Atomic>, Error>(atoms@ + rest),
                    Err(e) => Err::<Seq<Atomic>, Error>(e),
                }),
            decreases an - ai,
        {
            let ghost old_atoms = atoms@;
            let ghost rem = sections_view(clump.children@).skip(ai as int);
            let child = &clump.children[ai];
            proof {
                assert(rem.len() > 0 && rem[0] == section_view(&clump.children@[ai as int]));
                assert(rem.drop_first() =~= sections_view(clump.children@).skip(ai + 1));
            }
            if child.section_type == SectionType::Atomic {
                if child.children.len() == 0 {
                    return Err(Error::MalformedField);
                }
                proof {
                    lemma_sections_view(child.children@);
                    assert(section_view(child).children[0] == section_view(&child.children@[0]));
                }
                match &child.children[0].data {
                    ClumpData::Atomic(a) => {
                        if a.render {
                            atoms.push(*a);
                            proof {
                                assert(atoms@ =~= old_atoms.push(*a));
                                match sp_atomics(sections_view(clump.children@).skip(ai + 1)) {
                                    Ok(rest) => {
                                        assert((old_atoms + (seq![*a] + rest)) =~= (atoms@
                                            + rest));
                                    },
                                    Err(_) => {},
                                }
                            }
                        }
                    },
                    _ => {},
                }
            }
            ai = ai + 1;
        }
        proof {
            assert(sections_view(clump.children@).skip(an as int) =~= Seq::<SectionV>::empty());
            assert(atoms@ + Seq::<Atomic>::empty() =~= atoms@);
        }
        let ghost sc = sp_scene(raw@)->Ok_0;
        proof {
            assert(sp_scene(raw@) is Ok);
            assert(sc.0 == frames@);
            assert(sc.2 == atoms@);
            assert(sc.1.len() == geoms@.len());
        }
        // Pair each atomic with its frame and geometry.
        let mut out: Vec<(Transform, Model)> = Vec::new();
        let nat_ = atoms.len();
        let mut i: usize = 0;
        while i < nat_
            invariant
                i <= nat_ == sc.2.len(),
                out@.len() == i,
                forall|i2: int|
                    0 <= i2 < i ==> {
                        let a = #[trigger] sc.2[i2];
                        &&& (a.frame_index as int) < sc.0.len()
                        &&& (a.geometry_index as int) < sc.1.len()
                        &&& out@[i2].0 == (Transform {
                            rotation: sc.0[a.frame_index as int].rotation,
                            translation: sc.0[a.frame_index as int].position,
                        })
                        &&& sp_model_matches(
                            sc.1[a.geometry_index as int].0,
                            sc.1[a.geometry_index as int].1,
                            out@[i2].1@,
                        )
                    },
            decreases nat_ - i,
        {
            let ghost old_out = out@;
            let a = atoms[i];
            if !((a.frame_index as usize) < frames.len()) {
                return Err(Error::IndexOutOfRange);
            }
            if !((a.geometry_index as usize) < geoms.len()) {
                return Err(Error::IndexOutOfRange);
            }
            let frame = &frames[a.frame_index as usize];
            let transform = Transform { rotation: frame.rotation, translation: frame.position };
            let (gsec_idx, mli) = geoms[a.geometry_index as usize];
            let gs = &glist.children[gsec_idx];
            let geometry: &crate::types::Geometry = match gs.get_child_struct_data() {
                Some(ClumpData::Geometry(g)) => g,
                _ => {
                    return Err(Error::MalformedField);
                },
            };
            let ml_sec: Option<&Section> = match mli {
                Some(x) => Some(&gs.children[x]),
                None => None,
            };
            proof {
                assert(sc.1[a.geometry_index as int].0 == geometry@);
                assert(sc.1[a.geometry_index as int].1 == sp_ml_view(ml_sec));
            }
            let model = match Model::from_geometry_split(geometry, ml_sec) {
                Ok(m) => m,
                Err(e) => {
                    proof {
                        assert(!sp_model_builds(
                            sc.1[a.geometry_index as int].0,
                            sc.1[a.geometry_index as int].1,
                        ));
                        assert(sc.2[i as int] == a);
                    }
                    return Err(e);
                },
            };
            out.push((transform, model));
            i = i + 1;
        }
        Ok(out)
    }
}

} // verus!
