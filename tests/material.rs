use image::DynamicImage;
use voxel_store::material::{
    align_to, Color, ColoredMaterial, Material, MaterialBufferLayout, MaterialPalette,
};
use voxel_store::texture_repo::TextureRepo;
use voxel_store::voxel::{Voxel, VoxelData};

fn plain(name: &str, scale: f32) -> Material {
    Material { name: name.to_string(), scale_bits: scale.to_bits(), diffuse: None, normal: None }
}

#[test]
fn palette_sizes_and_material_round_trip() {
    let mut repo = TextureRepo::new(2, 2);
    let handle = repo.load(DynamicImage::new_rgba8(2, 2)).unwrap();
    let mut palette = MaterialPalette::new();
    let stone = Material {
        name: "stone".to_string(),
        scale_bits: 1.5f32.to_bits(),
        diffuse: Some(handle),
        normal: None,
    };
    let v = palette.add_material(stone);
    assert_eq!(v.get(), VoxelData::Regular(1));
    let c = palette.add_colored_material(ColoredMaterial::default());
    assert_eq!(c.get(), VoxelData::Colored(0, 0));
    assert_eq!(palette.materials_size(), 16);
    assert_eq!(palette.colored_materials_size(), 4112);

    let mut buffer = vec![0xffu8; 16];
    palette.materials_write_bytes(&mut buffer, 0);
    assert_eq!(f32::from_le_bytes([buffer[0], buffer[1], buffer[2], buffer[3]]), 1.5);
    assert_eq!(u16::from_le_bytes([buffer[4], buffer[5]]), handle.get());
    assert_eq!(u16::from_le_bytes([buffer[6], buffer[7]]), 0);
    assert_eq!(&buffer[8..16], &[0u8; 8]);
}

#[test]
fn material_ids_count_up() {
    let mut palette = MaterialPalette::new();
    assert_eq!(palette.add_material(plain("a", 1.0)), Voxel::new(1));
    assert_eq!(palette.add_material(plain("b", 1.0)), Voxel::new(2));
    assert_eq!(palette.add_colored_material(ColoredMaterial::default()), Voxel::new_colored(0, 0));
    assert_eq!(palette.add_colored_material(ColoredMaterial::default()), Voxel::new_colored(1, 0));
    assert_eq!(palette.materials_size(), 32);
    assert_eq!(palette.colored_materials_size(), 8224);
}

#[test]
fn colored_material_record_holds_palette() {
    let mut m = ColoredMaterial::default();
    m.color_palette[1] = Color {
        red: 0.0f32.to_bits(),
        green: 0.0f32.to_bits(),
        blue: 1.0f32.to_bits(),
        alpha: 1.0f32.to_bits(),
    };
    m.material.scale_bits = 2.0f32.to_bits();
    let mut buffer = vec![0xffu8; 4112];
    m.write_bytes(&mut buffer, 0);
    assert_eq!(&buffer[0..4], &2.0f32.to_le_bytes());
    assert_eq!(&buffer[4..16], &[0u8; 12]);
    // color 0 is black
    assert_eq!(&buffer[16..28], &[0u8; 12]);
    assert_eq!(&buffer[28..32], &1.0f32.to_le_bytes());
    // color 1 is blue
    assert_eq!(&buffer[40..44], &1.0f32.to_le_bytes());
    assert_eq!(&buffer[44..48], &1.0f32.to_le_bytes());
    // last color
    assert_eq!(&buffer[4108..4112], &1.0f32.to_le_bytes());
    assert_eq!(m.byte_len(), 4112);
    assert_eq!(m.material.byte_len(), 16);
}

#[test]
fn default_colored_material_is_plain_black() {
    let m = ColoredMaterial::default();
    assert_eq!(m.material.name, "PlainColor");
    assert_eq!(m.material.scale_bits, 0);
    assert!(m.material.diffuse.is_none());
    assert!(m.color_palette.iter().all(|c| *c == Color::black()));
    assert_eq!(Color::black().alpha, 1.0f32.to_bits());
}

#[test]
fn align_to_rounds_up() {
    assert_eq!(align_to(0, 256), 0);
    assert_eq!(align_to(1, 256), 256);
    assert_eq!(align_to(256, 256), 256);
    assert_eq!(align_to(257, 256), 512);
    assert_eq!(align_to(4112, 256), 4352);
    assert_eq!(align_to(7, 4), 8);
}

#[test]
fn material_buffer_layout_and_contents() {
    let mut palette = MaterialPalette::new();
    palette.add_colored_material(ColoredMaterial::default());
    palette.add_material(plain("sand", 0.5));
    palette.add_material(plain("dirt", 3.0));
    let layout = palette.buffer_layout(256, 4);
    assert_eq!(
        layout,
        MaterialBufferLayout {
            colored_size: 4112,
            colored_size_aligned: 4352,
            total_size: 4384,
            total_size_aligned: 4384,
        }
    );
    let buffer = palette.write_buffer(256, 4);
    assert_eq!(buffer.len(), 4384);
    assert_eq!(&buffer[28..32], &1.0f32.to_le_bytes());
    assert!(buffer[4112..4352].iter().all(|b| *b == 0));
    assert_eq!(&buffer[4352..4356], &0.5f32.to_le_bytes());
    assert_eq!(&buffer[4368..4372], &3.0f32.to_le_bytes());

    let wide = palette.write_buffer(256, 256);
    assert_eq!(wide.len(), 4608);
    assert!(wide[4384..].iter().all(|b| *b == 0));
}

#[test]
fn empty_palette_buffer_is_empty() {
    let palette = MaterialPalette::new();
    assert_eq!(palette.write_buffer(256, 4).len(), 0);
}
