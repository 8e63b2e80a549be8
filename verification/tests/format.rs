use renderware::dff::unpack_material_indices;
use renderware::parser::decode_version;
use renderware::parser::parse_triangle;
use renderware::types::BinaryStreamFile;
use renderware::types::ClumpData;
use renderware::types::Error;

fn le32(v: u32) -> [u8; 4] {
    v.to_le_bytes()
}

fn sec(ty: u32, ver: u32, payload: &[u8]) -> Vec<u8> {
    let mut out = Vec::new();
    out.extend_from_slice(&le32(ty));
    out.extend_from_slice(&le32(payload.len() as u32));
    out.extend_from_slice(&le32(ver));
    out.extend_from_slice(payload);
    out
}

#[test]
fn version_decoding_legacy() {
    // Legacy versions (top 16 bits zero) are shifted left by one byte.
    assert_eq!(decode_version(0), 0);
    assert_eq!(decode_version(0x304), 0x3_0400);
    assert_eq!(decode_version(0x340), 0x3_4000);
    assert_eq!(decode_version(0x360), 0x3_6000);
    assert_eq!(decode_version(0xFFFF), 0xFF_FF00);
}

#[test]
fn version_decoding_packed() {
    // Packed versions follow the documented bit remap.
    let check = |raw: u32| {
        let expected = (((raw >> 14) & 0x3FF00) + 0x30000) | ((raw >> 16) & 0x3F);
        assert_eq!(decode_version(raw), expected);
    };
    check(0x1003FFFF);
    check(0x1803FFFF);
    check(0x00010000);
    check(0xFFFFFFFF);
}

#[test]
fn triangle_field_reorder() {
    // The wire order of the four fields is vertex2, vertex1, material id,
    // vertex3; they are stored under those names.
    let raw = [0x02u8, 0x00, 0x01, 0x00, 0x05, 0x00, 0x03, 0x00];
    let t = parse_triangle(&raw, 0);
    assert_eq!(t.vertex2, 2);
    assert_eq!(t.vertex1, 1);
    assert_eq!(t.material_id, 5);
    assert_eq!(t.vertex3, 3);
}

#[test]
fn material_dedup_unpacking() {
    // Each -1 introduces the next new material; a non-negative index
    // re-references the already-introduced material of that number.
    let raw = vec![-1, -1, 0, -1, 2];
    let dense = unpack_material_indices(&raw).unwrap();
    assert_eq!(dense, vec![0, 1, 0, 2, 2]);
}

#[test]
fn material_dedup_rejects_out_of_range() {
    let raw = vec![-1, 3];
    assert_eq!(unpack_material_indices(&raw), Err(Error::IndexOutOfRange));
    let raw2 = vec![-2];
    assert_eq!(unpack_material_indices(&raw2), Err(Error::IndexOutOfRange));
}

#[test]
fn decode_rejects_unknown_section_type() {
    let bytes = sec(0x9999, 0x340, &[]);
    match BinaryStreamFile::from_bytes(&bytes) {
        Err(Error::UnknownSectionType) => {}
        other => panic!("unexpected result: {:?}", other.is_ok()),
    }
}

#[test]
fn decode_rejects_truncated_section() {
    // Declared size exceeds the available bytes.
    let mut bytes = Vec::new();
    bytes.extend_from_slice(&le32(0x10));
    bytes.extend_from_slice(&le32(100));
    bytes.extend_from_slice(&le32(0x340));
    bytes.extend_from_slice(&[0u8; 4]);
    match BinaryStreamFile::from_bytes(&bytes) {
        Err(Error::Truncated) => {}
        other => panic!("unexpected result: {:?}", other.is_ok()),
    }
}

#[test]
fn decode_consumes_exactly_the_declared_extent() {
    // A clump whose struct payload announces one atomic; bytes after the
    // declared extent of the top section are ignored.
    let clump_struct = sec(0x01, 0x340, &le32(1));
    let mut clump = sec(0x10, 0x340, &clump_struct);
    clump.extend_from_slice(&[0xAA, 0xBB, 0xCC]);
    let file = BinaryStreamFile::from_bytes(&clump).unwrap();
    assert_eq!(file.sections.len(), 1);
    let top = &file.sections[0];
    assert_eq!(top.children.len(), 1);
    match &top.children[0].data {
        ClumpData::Clump(c) => {
            assert_eq!(c.atomic_count, 1);
            assert_eq!(c.light_count, 0);
            assert_eq!(c.camera_count, 0);
        }
        _ => panic!("expected a clump payload"),
    }
}

#[test]
fn decode_material_list_indices() {
    let mut payload = Vec::new();
    payload.extend_from_slice(&le32(3));
    payload.extend_from_slice(&(-1i32).to_le_bytes());
    payload.extend_from_slice(&(0i32).to_le_bytes());
    payload.extend_from_slice(&(-1i32).to_le_bytes());
    let ml_struct = sec(0x01, 0x340, &payload);
    let ml = sec(0x08, 0x340, &ml_struct);
    let file = BinaryStreamFile::from_bytes(&ml).unwrap();
    match &file.sections[0].children[0].data {
        ClumpData::MaterialList { material_indices } => {
            assert_eq!(material_indices, &vec![-1, 0, -1]);
        }
        _ => panic!("expected a material list payload"),
    }
}
