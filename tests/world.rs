use voxel_store::packed::read_field;
use voxel_store::voxel::{Voxel, VoxelData};
use voxel_store::world::{
    block_rule_of, block_voxel_of, decode_chunk, decode_section, model_placement, section_origin,
    BlockRule, Placement, Section, SectionError,
};

fn names(list: &[&str]) -> Vec<String> {
    list.iter().map(|s| s.to_string()).collect()
}

#[test]
fn one_bit_section_of_stone_fills_every_position() {
    let base = Voxel::new_colored(0, 0);
    let palette = names(&["minecraft:air", "minecraft:stone"]);
    let words = vec![u64::MAX; 64];
    let section_y = 2u32;
    let origin = section_origin(0, 0, 0, 0, section_y);
    let placed = decode_section(&palette, &words, origin, base).unwrap();
    assert_eq!(placed.len(), 4096);
    let stone = block_voxel_of("minecraft:stone", base).unwrap();
    assert_eq!(stone.get(), VoxelData::Colored(0, 3));
    for (i, p) in placed.iter().enumerate() {
        assert_eq!(p.voxel, stone);
        assert!(p.y >= section_y * 16 && p.y <= section_y * 16 + 15);
        assert_eq!(p.x, (i & 0xf) as u32);
        assert_eq!(p.z, ((i >> 4) & 0xf) as u32);
        assert_eq!(p.y, (i >> 8) as u32 + 32);
    }
}

#[test]
fn air_entries_place_nothing() {
    let base = Voxel::new_colored(0, 0);
    let palette = names(&["minecraft:air", "minecraft:stone"]);
    let mut words = vec![0u64; 64];
    words[0] = 0b101;
    let origin = section_origin(1, 2, 3, 4, 0);
    let placed = decode_section(&palette, &words, origin, base).unwrap();
    assert_eq!(placed.len(), 2);
    let stone = base.with_color(3);
    assert_eq!(placed[0], Placement { x: 3 * 16 + 512, y: 0, z: 4 * 16 + 1024, voxel: stone });
    assert_eq!(placed[1], Placement { x: 3 * 16 + 512 + 2, y: 0, z: 4 * 16 + 1024, voxel: stone });
}

#[test]
fn section_errors() {
    let base = Voxel::new_colored(0, 0);
    let origin = section_origin(0, 0, 0, 0, 0);
    let one = names(&["minecraft:stone"]);
    let ones = vec![u64::MAX; 64];
    assert_eq!(
        decode_section(&one, &ones, origin, base).unwrap_err(),
        SectionError::PaletteIndexOutOfRange
    );
    let wide = vec![0u64; 64 * 17];
    assert_eq!(decode_section(&one, &wide, origin, base).unwrap_err(), SectionError::EntryTooWide);
    let empty: Vec<String> = Vec::new();
    assert_eq!(
        decode_section(&empty, &vec![0u64; 64], origin, base).unwrap_err(),
        SectionError::PaletteIndexOutOfRange
    );
}

#[test]
fn fields_span_word_boundaries() {
    let words = [u64::MAX, 0];
    assert_eq!(read_field(&words, 62, 4), 3);
    let words = [1u64 << 63, 1];
    assert_eq!(read_field(&words, 63, 2), 3);
    let words = [0xabcd_u64 << 56, 0x12];
    assert_eq!(read_field(&words, 56, 12), 0x2cd);
    assert_eq!(read_field(&words, 0, 0), 0);
}

#[test]
fn four_bit_entries_decode_in_order() {
    let base = Voxel::new(9);
    let palette = names(&[
        "minecraft:air",
        "minecraft:sand",
        "minecraft:water",
        "minecraft:unknown_block",
    ]);
    // 4 bits per entry: 256 words
    let mut words = vec![0u64; 256];
    words[0] = 0x0000_0000_0000_3210;
    let placed = decode_section(&palette, &words, section_origin(0, 0, 0, 0, 1), base).unwrap();
    // regular base voxels are not recolored
    assert_eq!(placed.len(), 3);
    assert_eq!(placed[0].x, 1);
    assert_eq!(placed[2].x, 3);
    assert!(placed.iter().all(|p| p.voxel == base && p.y == 16));
}

#[test]
fn block_table() {
    assert_eq!(block_rule_of("minecraft:air"), BlockRule::Skip);
    assert_eq!(block_rule_of("minecraft:cave_air"), BlockRule::Skip);
    assert_eq!(block_rule_of("minecraft:tall_grass"), BlockRule::Skip);
    assert_eq!(block_rule_of("minecraft:grass"), BlockRule::Skip);
    assert_eq!(block_rule_of("minecraft:bedrock"), BlockRule::Color(3));
    assert_eq!(block_rule_of("minecraft:grass_block"), BlockRule::Color(4));
    assert_eq!(block_rule_of("minecraft:oak_log"), BlockRule::Color(1));
    assert_eq!(block_rule_of("minecraft:sand"), BlockRule::Color(2));
    assert_eq!(block_rule_of("minecraft:sandstone"), BlockRule::Base);
    assert_eq!(block_rule_of(""), BlockRule::Base);
    let base = Voxel::new_colored(2, 0);
    assert_eq!(block_voxel_of("minecraft:air", base), None);
    assert_eq!(block_voxel_of("minecraft:water", base).unwrap().get(), VoxelData::Colored(2, 1));
    assert_eq!(block_voxel_of("minecraft:obsidian", base), Some(base));
}

#[test]
fn chunk_skips_sections_without_data() {
    let base = Voxel::new_colored(0, 0);
    let stone = names(&["minecraft:air", "minecraft:stone"]);
    let sections = vec![
        Section { y: 0, palette: None, block_states: Some(vec![u64::MAX; 64]) },
        Section { y: 1, palette: Some(stone.clone()), block_states: None },
        Section { y: 3, palette: Some(stone.clone()), block_states: Some(vec![u64::MAX; 64]) },
    ];
    let placed = decode_chunk(&sections, 1, 0, 2, 5, base).unwrap();
    assert_eq!(placed.len(), 4096);
    assert!(placed.iter().all(|p| p.y >= 48 && p.y < 64));
    assert!(placed.iter().all(|p| p.x >= 544 && p.x < 560 && p.z >= 80 && p.z < 96));

    let bad = vec![
        Section { y: 0, palette: Some(stone.clone()), block_states: Some(vec![u64::MAX; 64]) },
        Section { y: 1, palette: Some(names(&["minecraft:dirt"])), block_states: Some(vec![u64::MAX; 64]) },
    ];
    assert_eq!(decode_chunk(&bad, 0, 0, 0, 0, base).unwrap_err(), SectionError::PaletteIndexOutOfRange);
}

#[test]
fn model_voxels_swap_y_and_z() {
    let p = model_placement(1, 2, 3, 77);
    assert_eq!((p.x, p.y, p.z), (1, 3, 2));
    assert_eq!(p.voxel.raw(), 77);
    assert_eq!(section_origin(3, 4, 31, 0, 15).x, 31 * 16 + 3 * 512);
    assert_eq!(section_origin(3, 4, 31, 0, 15).y, 240);
    assert_eq!(section_origin(3, 4, 31, 0, 15).z, 4 * 512);
}
