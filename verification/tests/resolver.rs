use renderware::dff::Model;
use renderware::dff::Topology;
use renderware::types::BinaryStreamFile;
use renderware::types::Error;

fn le32(v: u32) -> [u8; 4] {
    v.to_le_bytes()
}

fn sec(ty: u32, ver: u32, payload: &[u8]) -> Vec<u8> {
    let mut out = Vec::new();
    out.extend_from_slice(&le32(ty));
    out.extend_from_slice(&le32(payload.len() as u32));
    out.extend_from_slice(&le32(ver));
    out.extend_from_slice(payload);
    out
}

const VER: u32 = 0x340;

fn frame_list() -> Vec<u8> {
    // One frame of zeros: 9 + 3 floats and two skipped words.
    let mut p = Vec::new();
    p.extend_from_slice(&le32(1));
    p.extend_from_slice(&[0u8; 56]);
    sec(0x0E, VER, &sec(0x01, VER, &p))
}

fn geometry(material_id0: u16, material_id1: u16) -> Vec<u8> {
    // Two triangles over three vertices with one texture coordinate set.
    let mut g = Vec::new();
    g.extend_from_slice(&le32(0x0001_0004)); // textured, one coordinate set
    g.extend_from_slice(&le32(2)); // triangles
    g.extend_from_slice(&le32(3)); // vertices
    g.extend_from_slice(&le32(1)); // morph targets
    // texture coordinates: three pairs
    for k in 0..6u32 {
        g.extend_from_slice(&le32(0x3F00_0000 + k));
    }
    // triangles, wire order vertex2, vertex1, material id, vertex3
    for (v2, v1, mid, v3) in [(1u16, 0u16, material_id0, 2u16), (2, 0, material_id1, 1)] {
        g.extend_from_slice(&v2.to_le_bytes());
        g.extend_from_slice(&v1.to_le_bytes());
        g.extend_from_slice(&mid.to_le_bytes());
        g.extend_from_slice(&v3.to_le_bytes());
    }
    // morph target: sphere, has-vertices, has-normals, three positions
    g.extend_from_slice(&[0u8; 16]);
    g.extend_from_slice(&le32(1));
    g.extend_from_slice(&le32(0));
    for k in 0..9u32 {
        g.extend_from_slice(&le32(0x4000_0000 + k));
    }
    g
}

fn material(r: u8, gg: u8, b: u8, a: u8) -> Vec<u8> {
    let mut m = Vec::new();
    m.extend_from_slice(&le32(0)); // flags
    m.extend_from_slice(&[r, gg, b, a]);
    m.extend_from_slice(&le32(0)); // unused
    m.extend_from_slice(&le32(0)); // not textured
    m.extend_from_slice(&[0u8; 12]); // lighting
    sec(0x07, VER, &sec(0x01, VER, &m))
}

fn material_list() -> Vec<u8> {
    let mut ml = Vec::new();
    ml.extend_from_slice(&le32(1));
    ml.extend_from_slice(&(-1i32).to_le_bytes());
    let mut payload = sec(0x01, VER, &ml);
    payload.extend_from_slice(&material(10, 20, 30, 40));
    sec(0x08, VER, &payload)
}

fn atomic(frame: u32, geo: u32, flags: u32) -> Vec<u8> {
    let mut a = Vec::new();
    a.extend_from_slice(&le32(frame));
    a.extend_from_slice(&le32(geo));
    a.extend_from_slice(&le32(flags));
    a.extend_from_slice(&le32(0));
    sec(0x14, VER, &sec(0x01, VER, &a))
}

fn clump(atomic_flags: u32, frame_index: u32) -> Vec<u8> {
    let mut geo_payload = sec(0x01, VER, &geometry(0, 0));
    geo_payload.extend_from_slice(&material_list());
    let geo = sec(0x0F, VER, &geo_payload);

    let mut gl_payload = sec(0x01, VER, &le32(1));
    gl_payload.extend_from_slice(&geo);
    let geometry_list = sec(0x1A, VER, &gl_payload);

    let mut payload = sec(0x01, VER, &le32(1));
    payload.extend_from_slice(&frame_list());
    payload.extend_from_slice(&geometry_list);
    payload.extend_from_slice(&atomic(frame_index, 0, atomic_flags));
    sec(0x10, VER, &payload)
}

#[test]
fn resolves_one_renderable_instance() {
    let bytes = clump(0x05, 0);
    let file = BinaryStreamFile::from_bytes(&bytes).unwrap();
    let out = Model::from_raw(&file).unwrap();
    assert_eq!(out.len(), 1);
    let model = &out[0].1;
    assert!(matches!(model.topology, Topology::TriangleList));
    assert_eq!(model.materials.len(), 1);
    assert_eq!(model.materials[0].color.r, 10);
    assert_eq!(model.material_indices, vec![0]);
    // Both triangles share one material: one submesh, vertices compacted
    // in first-occurrence order, corners locally renumbered.
    assert_eq!(model.vertices.len(), 3);
    assert_eq!(model.indices, vec![0, 1, 2, 0, 2, 1]);
    // The first vertex copies source vertex 0 of the morph target.
    assert_eq!(model.vertices[0].position.x.bits, 0x4000_0000);
    assert_eq!(model.vertices[0].uv.u.bits, 0x3F00_0000);
    assert_eq!(model.vertices[0].normal.x.bits, 0);
}

#[test]
fn render_flag_gating_excludes_atomic() {
    // Flag bit 0x04 unset: the atomic is decoded but excluded entirely.
    let bytes = clump(0x01, 0);
    let file = BinaryStreamFile::from_bytes(&bytes).unwrap();
    let out = Model::from_raw(&file).unwrap();
    assert_eq!(out.len(), 0);
}

#[test]
fn frame_index_out_of_range_is_an_error() {
    let bytes = clump(0x05, 7);
    let file = BinaryStreamFile::from_bytes(&bytes).unwrap();
    assert!(matches!(Model::from_raw(&file), Err(Error::IndexOutOfRange)));
}
