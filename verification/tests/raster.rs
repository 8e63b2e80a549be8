use renderware::txd::Texture;
use renderware::types::BinaryStreamFile;
use renderware::types::Error;

fn le32(v: u32) -> [u8; 4] {
    v.to_le_bytes()
}

fn sec(ty: u32, ver: u32, payload: &[u8]) -> Vec<u8> {
    let mut out = Vec::new();
    out.extend_from_slice(&le32(ty));
    out.extend_from_slice(&le32(payload.len() as u32));
    out.extend_from_slice(&le32(ver));
    out.extend_from_slice(payload);
    out
}

const VER: u32 = 0x340;

fn raster_with_format(
    platform: u32,
    format: u32,
    width: u16,
    height: u16,
    compression: u8,
    data: &[u8],
) -> Vec<u8> {
    let mut r = Vec::new();
    r.extend_from_slice(&le32(platform));
    r.extend_from_slice(&[0u8, 0, 0, 0]); // filtering and addressing bits
    let mut name = [0u8; 32];
    name[..3].copy_from_slice(b"tex");
    r.extend_from_slice(&name);
    r.extend_from_slice(&[0u8; 32]); // mask name
    r.extend_from_slice(&le32(format)); // raster format
    r.extend_from_slice(&le32(0)); // has alpha
    r.extend_from_slice(&width.to_le_bytes());
    r.extend_from_slice(&height.to_le_bytes());
    r.extend_from_slice(&[32u8, 1, 4, compression]);
    r.extend_from_slice(&le32(data.len() as u32));
    r.extend_from_slice(data);
    sec(0x15, VER, &sec(0x01, VER, &r))
}

fn raster(platform: u32, width: u16, height: u16, compression: u8, data: &[u8]) -> Vec<u8> {
    raster_with_format(platform, 0x0500, width, height, compression, data)
}

fn txd(platform: u32, width: u16, height: u16, compression: u8, data: &[u8]) -> Vec<u8> {
    let mut payload = sec(0x01, VER, &le32(1));
    payload.extend_from_slice(&raster(platform, width, height, compression, data));
    sec(0x16, VER, &payload)
}

#[test]
fn raw_raster_passes_through() {
    let pixels: Vec<u8> = (0u8..16).collect();
    let bytes = txd(8, 2, 2, 0, &pixels);
    let file = BinaryStreamFile::from_bytes(&bytes).unwrap();
    let textures = Texture::from_raw(&file).unwrap();
    assert_eq!(textures.len(), 1);
    assert_eq!(textures[0].name, "tex");
    assert_eq!(textures[0].width, 2);
    assert_eq!(textures[0].height, 2);
    assert_eq!(textures[0].data, pixels);
    let colors = textures[0].as_colors();
    assert_eq!(colors.len(), 4);
    assert_eq!(colors[0].r, 0);
    assert_eq!(colors[3].a, 15);
}

#[test]
fn short_raw_raster_is_zero_padded() {
    let bytes = txd(8, 2, 2, 0, &[9u8, 8, 7, 6]);
    let file = BinaryStreamFile::from_bytes(&bytes).unwrap();
    let textures = Texture::from_raw(&file).unwrap();
    let mut expected = vec![9u8, 8, 7, 6];
    expected.extend_from_slice(&[0u8; 12]);
    assert_eq!(textures[0].data, expected);
}

#[test]
fn bc1_raster_decompresses_to_rgba() {
    // One BC1 block: both endpoints pure red, all indices zero.
    let block = [0x00u8, 0xF8, 0x00, 0xF8, 0, 0, 0, 0];
    let bytes = txd(8, 2, 2, 1, &block);
    let file = BinaryStreamFile::from_bytes(&bytes).unwrap();
    let textures = Texture::from_raw(&file).unwrap();
    assert_eq!(textures[0].data.len(), 16);
    for px in textures[0].data.chunks(4) {
        assert_eq!(px, &[255, 0, 0, 255]);
    }
}

#[test]
fn unsupported_compression_code_is_an_error() {
    // Code 2 must yield an error, never a best-effort guess.
    let bytes = txd(8, 2, 2, 2, &[0u8; 16]);
    let file = BinaryStreamFile::from_bytes(&bytes).unwrap();
    assert!(matches!(Texture::from_raw(&file), Err(Error::UnsupportedCompression)));
}

#[test]
fn non_pc_platform_is_rejected_at_decode() {
    let bytes = txd(9, 2, 2, 0, &[0u8; 16]);
    assert!(matches!(
        BinaryStreamFile::from_bytes(&bytes),
        Err(Error::UnsupportedPlatform)
    ));
}

#[test]
fn raster_format_without_scheme_bits_is_malformed() {
    let mut payload = sec(0x01, VER, &le32(1));
    payload.extend_from_slice(&raster_with_format(8, 0, 2, 2, 0, &[0u8; 16]));
    let bytes = sec(0x16, VER, &payload);
    assert!(matches!(
        BinaryStreamFile::from_bytes(&bytes),
        Err(Error::MalformedField)
    ));
}
