use image::DynamicImage;
use voxel_store::texture_repo::{
    layer_size, ArrayUpdate, Extent3d, TextureError, TextureRepo,
};

#[test]
fn load_two_then_drain() {
    let mut repo = TextureRepo::new(8, 4);
    let h1 = repo.load(DynamicImage::new_rgba8(8, 4)).unwrap();
    let h2 = repo.load(DynamicImage::new_rgba8(8, 4)).unwrap();
    assert_eq!(h1.get(), 1);
    assert_eq!(h2.get(), 2);
    assert_eq!(repo.len(), 2);
    let drained = repo.drain();
    let handles: Vec<u16> = drained.iter().map(|(h, _)| h.get()).collect();
    assert_eq!(handles, vec![1, 2]);
    assert!(repo.drain().is_empty());
    assert_eq!(repo.get_extent(), Extent3d { width: 8, height: 4, depth: 2 });
    assert_eq!(repo.len(), 2);
}

#[test]
fn load_rejects_wrong_size() {
    let mut repo = TextureRepo::new(8, 4);
    assert_eq!(repo.load(DynamicImage::new_rgba8(4, 8)).unwrap_err(), TextureError::SizeMismatch);
    assert_eq!(repo.load(DynamicImage::new_rgba8(8, 5)).unwrap_err(), TextureError::SizeMismatch);
    assert_eq!(repo.len(), 0);
    assert!(repo.drain().is_empty());
    let h = repo.load(DynamicImage::new_rgba8(8, 4)).unwrap();
    assert_eq!(h.get(), 1);
}

#[test]
fn load_sized_uses_given_size() {
    let mut repo = TextureRepo::new(3, 3);
    let r = repo.load_sized(DynamicImage::new_rgba8(1, 1), 3, 3);
    assert_eq!(r.unwrap().get(), 1);
    let e = repo.load_sized(DynamicImage::new_rgba8(3, 3), 3, 2);
    assert_eq!(e.unwrap_err(), TextureError::SizeMismatch);
}

#[test]
fn set_replaces_pending_image() {
    let mut repo = TextureRepo::new(2, 2);
    let h = repo.load(DynamicImage::new_rgba8(2, 2)).unwrap();
    assert_eq!(repo.set(h, DynamicImage::new_rgba8(2, 2)), Ok(()));
    assert_eq!(repo.drain().len(), 1);
    assert_eq!(repo.set(h, DynamicImage::new_rgba8(2, 2)), Ok(()));
    assert_eq!(repo.set(h, DynamicImage::new_rgba8(3, 2)), Err(TextureError::SizeMismatch));
    let drained = repo.drain();
    assert_eq!(drained.len(), 1);
    assert_eq!(drained[0].0, h);
    assert_eq!(repo.len(), 1);
}

#[test]
fn array_update_grows_and_keeps_old_layers() {
    let mut repo = TextureRepo::new(16, 16);
    let none = Extent3d { width: 0, height: 0, depth: 0 };
    assert_eq!(
        repo.plan_array_update(none, false),
        ArrayUpdate { create_placeholder: true, grow_to: None, copy_layers: 0 }
    );
    let h1 = repo.load(DynamicImage::new_rgba8(16, 16)).unwrap();
    repo.load(DynamicImage::new_rgba8(16, 16)).unwrap();
    assert_eq!(
        repo.plan_array_update(none, true),
        ArrayUpdate {
            create_placeholder: false,
            grow_to: Some(Extent3d { width: 16, height: 16, depth: 2 }),
            copy_layers: 0,
        }
    );
    let one = Extent3d { width: 16, height: 16, depth: 1 };
    assert_eq!(repo.plan_array_update(one, true).copy_layers, 1);
    let two = Extent3d { width: 16, height: 16, depth: 2 };
    assert_eq!(repo.plan_array_update(two, true).grow_to, None);
    assert_eq!(h1.layer(), 0);
}

#[test]
fn layer_size_is_four_bytes_per_pixel() {
    assert_eq!(layer_size(512, 512), 1_048_576);
    assert_eq!(layer_size(0, 9), 0);
    assert_eq!(layer_size(3, 5), 60);
}
