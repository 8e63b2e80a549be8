use renderware::dff::Material;
use renderware::packer::material_to_texture_data;
use renderware::packer::repack_model_textures;
use renderware::txd::Texture;
use renderware::types::Color;
use renderware::types::Error;
use renderware::constants::TextureAddressing;
use renderware::constants::TextureFiltering;
use renderware::types::UvAddressing;

fn solid_material(r: u8, g: u8, b: u8, a: u8) -> Material {
    Material {
        color: Color { r, g, b, a },
        is_textured: false,
        lighting: None,
        texture: None,
    }
}

fn textured_material(name: &str, color: Color) -> Material {
    Material {
        color,
        is_textured: true,
        lighting: None,
        texture: Some(renderware::dff::Texture {
            filtering: TextureFiltering::Linear,
            uv: UvAddressing { u: TextureAddressing::Wrap, v: TextureAddressing::Wrap },
            name: name.to_string(),
            alpha_name: String::new(),
        }),
    }
}

fn texture(name: &str, width: u16, height: u16, data: Vec<u8>) -> Texture {
    Texture {
        filtering: TextureFiltering::Linear,
        uv: UvAddressing { u: TextureAddressing::Wrap, v: TextureAddressing::Wrap },
        name: name.to_string(),
        mask_name: String::new(),
        width,
        height,
        data,
    }
}

#[test]
fn untextured_material_gives_solid_tile() {
    // A material with no texture reference produces an 8-by-8 tile of its
    // base color repeated in every pixel, alpha included.
    let m = solid_material(10, 20, 30, 40);
    let (data, w, h) = material_to_texture_data(&m, &Vec::new());
    assert_eq!((w, h), (8, 8));
    assert_eq!(data.len(), 256);
    for px in data.chunks(4) {
        assert_eq!(px, &[10, 20, 30, 40]);
    }
}

#[test]
fn textured_material_tile_is_tinted() {
    let texs = vec![texture("wall", 1, 1, vec![200, 100, 50, 255])];
    let m = textured_material("wall", Color { r: 255, g: 128, b: 0, a: 255 });
    let (data, w, h) = material_to_texture_data(&m, &texs);
    assert_eq!((w, h), (1, 1));
    // Channel-wise multiply in unit space, floored on requantization.
    assert_eq!(data, vec![200, (100u32 * 128 / 255) as u8, 0, 255]);
}

#[test]
fn missing_texture_name_falls_back_to_solid_tile() {
    let texs = vec![texture("other", 1, 1, vec![1, 2, 3, 4])];
    let m = textured_material("wall", Color { r: 9, g: 8, b: 7, a: 6 });
    let (data, w, h) = material_to_texture_data(&m, &texs);
    assert_eq!((w, h), (8, 8));
    assert_eq!(&data[..4], &[9, 8, 7, 6]);
}

#[test]
fn single_material_tile_fills_the_atlas() {
    // With exactly one slot the packed tile is the whole atlas.
    let mats = vec![solid_material(1, 2, 3, 255)];
    let pt = repack_model_textures(&mats, &vec![0], &Vec::new()).unwrap();
    assert_eq!((pt.width, pt.height), (8, 8));
    assert_eq!(pt.frames.len(), 1);
    let f = &pt.frames[0];
    assert_eq!((f.left, f.top), (0, 0));
    assert_eq!((f.right, f.bottom), (pt.width as u32, pt.height as u32));
    assert_eq!(pt.data.len(), 256);
    for px in pt.data.chunks(4) {
        assert_eq!(px, &[1, 2, 3, 255]);
    }
}

#[test]
fn two_slots_pack_two_tiles() {
    let mats = vec![solid_material(255, 0, 0, 255), solid_material(0, 255, 0, 255)];
    let pt = repack_model_textures(&mats, &vec![0, 1], &Vec::new()).unwrap();
    assert_eq!(pt.frames.len(), 2);
    let f0 = &pt.frames[0];
    let f1 = &pt.frames[1];
    assert_eq!((f0.right - f0.left, f0.bottom - f0.top), (8, 8));
    assert_eq!((f1.right - f1.left, f1.bottom - f1.top), (8, 8));
    // The two tiles do not share their top-left corner.
    assert!(f0.left != f1.left || f0.top != f1.top);
    // A pixel inside each frame carries that tile's color.
    let at = |x: u32, y: u32| {
        let i = 4 * (y as usize * pt.width as usize + x as usize);
        [pt.data[i], pt.data[i + 1], pt.data[i + 2], pt.data[i + 3]]
    };
    assert_eq!(at(f0.left, f0.top), [255, 0, 0, 255]);
    assert_eq!(at(f1.left, f1.top), [0, 255, 0, 255]);
}

#[test]
fn material_ceiling_is_enforced() {
    let mats: Vec<Material> = (0..257).map(|_| solid_material(0, 0, 0, 255)).collect();
    let idx: Vec<usize> = (0..257).collect();
    assert!(matches!(
        repack_model_textures(&mats, &idx, &Vec::new()),
        Err(Error::MaterialCeilingExceeded)
    ));
}

#[test]
fn slot_index_outside_material_list_is_an_error() {
    let mats = vec![solid_material(0, 0, 0, 255)];
    assert!(matches!(
        repack_model_textures(&mats, &vec![1], &Vec::new()),
        Err(Error::IndexOutOfRange)
    ));
}
