use voxel_store::voxel::{Voxel, VoxelData};

#[test]
fn regular_voxel_decodes_to_its_id() {
    for id in [1u16, 2, 100, 0x1234, 0x7fff] {
        assert_eq!(Voxel::new(id).get(), VoxelData::Regular(id));
        assert_eq!(Voxel::new(id).raw(), id);
    }
}

#[test]
fn colored_voxel_decodes_to_id_and_color() {
    for (id, color) in [(0u8, 0u8), (5, 200), (0x7f, 0xff), (1, 2)] {
        let v = Voxel::new_colored(id, color);
        assert_eq!(v.get(), VoxelData::Colored(id, color));
        for c2 in [0u8, 7, 255] {
            assert_eq!(v.with_color(c2).get(), VoxelData::Colored(id, c2));
        }
    }
    assert_eq!(Voxel::new_colored(1, 2).raw(), 0x8102);
    assert_eq!(Voxel::new_colored(0x7f, 0xff).raw(), 0xffff);
}

#[test]
fn with_color_leaves_regular_voxel_unchanged() {
    for id in [0u16, 1, 300, 0x7fff] {
        let v = Voxel::new(id);
        assert_eq!(v.with_color(9), v);
    }
}

#[test]
fn reduce8_ignores_input_order() {
    let a = Voxel::from_raw(7);
    let b = Voxel::from_raw(3);
    let c = Voxel::from_raw(0x8105);
    let first = [a, b, c, a, b, c, a, a];
    let second = [c, c, b, b, a, a, a, a];
    let third = [a, a, a, a, c, b, c, b];
    let r = Voxel::reduce8(&first);
    assert_eq!(r, a);
    assert_eq!(Voxel::reduce8(&second), r);
    assert_eq!(Voxel::reduce8(&third), r);
}

#[test]
fn reduce8_unanimous_returns_the_value() {
    for raw in [0u16, 1, 10, 0x7fff, 0x8000, 0xffff] {
        let v = Voxel::from_raw(raw);
        assert_eq!(Voxel::reduce8(&[v; 8]), v);
    }
}

#[test]
fn reduce8_plurality_wins_anywhere() {
    let a = Voxel::from_raw(10);
    let b = Voxel::from_raw(20);
    assert_eq!(Voxel::reduce8(&[a, a, a, a, a, b, b, b]), a);
    assert_eq!(Voxel::reduce8(&[b, b, b, a, a, a, a, a]), a);
    assert_eq!(Voxel::reduce8(&[b, a, b, a, b, a, a, a]), a);
    assert_eq!(Voxel::reduce8(&[a, b, a, b, a, b, a, a]).raw(), 10);
}

#[test]
fn reduce8_tie_goes_to_smaller_code() {
    let big = Voxel::from_raw(30);
    let small = Voxel::from_raw(5);
    assert_eq!(Voxel::reduce8(&[big, big, big, big, small, small, small, small]).raw(), 5);
    assert_eq!(Voxel::reduce8(&[small, big, small, big, small, big, small, big]).raw(), 5);
    let c = Voxel::from_raw(1);
    let d = Voxel::from_raw(2);
    let e = Voxel::from_raw(3);
    let f = Voxel::from_raw(4);
    assert_eq!(Voxel::reduce8(&[f, e, d, c, f, e, d, c]).raw(), 1);
}

#[test]
fn reduce8_single_most_frequent_beats_smaller_values() {
    let v = |r: u16| Voxel::from_raw(r);
    assert_eq!(Voxel::reduce8(&[v(1), v(2), v(3), v(9), v(9), v(4), v(5), v(6)]).raw(), 9);
    assert_eq!(Voxel::reduce8(&[v(1), v(2), v(3), v(4), v(5), v(6), v(7), v(8)]).raw(), 1);
}
