//! A repository of fixed-size images, each under a 1-based 16-bit handle, that
//! backs one layer of a texture array per handle.

use image::{DynamicImage, GenericImageView};
use vstd::prelude::*;

verus! {

/// Declares image's `DynamicImage`: the repository holds such images without
/// looking inside them.
#[verifier::external_type_specification]
#[verifier::external_body]
pub struct ExDynamicImage(DynamicImage);

/// The width and height in pixels of an image.
pub uninterp spec fn image_size(image: DynamicImage) -> (u32, u32);

/// Relies on image's `GenericImageView::dimensions` for `DynamicImage`: the
/// image's width and height in pixels, which depend on the image alone.
#[verifier::external_body]
fn image_dimensions(image: &DynamicImage) -> (r: (u32, u32))
    ensures
        r == image_size(*image),
{
    image.dimensions()
}

/// The handle of an image in a repository: a nonzero 16-bit number. Array
/// layer `h - 1` holds the image of handle `h`.
#[derive(Copy, Clone, PartialEq, Eq, Structural, Hash, Debug)]
pub struct TextureRepoHandle(u16);

impl TextureRepoHandle {
    #[verifier::type_invariant]
    spec fn nonzero(self) -> bool {
        self.0 != 0
    }
}

impl View for TextureRepoHandle {
    type V = u16;

    closed spec fn view(&self) -> u16 {
        self.0
    }
}

impl TextureRepoHandle {
    /// The handle's number, never zero.
    pub fn get(&self) -> (r: u16)
        ensures
            r == self@,
            r > 0,
    {
        proof {
            use_type_invariant(self);
        }
        self.0
    }
}

/// The size of a texture array: layer width and height, and the number of layers.
#[derive(Copy, Clone, PartialEq, Eq, Structural, Debug)]
pub struct Extent3d {
    pub width: u32,
    pub height: u32,
    pub depth: u32,
}

/// Why an image was not taken into a repository.
#[derive(Copy, Clone, PartialEq, Eq, Structural, Debug)]
pub enum TextureError {
    /// The image's width or height differs from the repository's.
    SizeMismatch,
}

/// The handles of a list of pending images.
pub open spec fn pending_handles(s: Seq<(TextureRepoHandle, DynamicImage)>) -> Seq<u16> {
    s.map_values(|e: (TextureRepoHandle, DynamicImage)| e.0@)
}

/// Images of a fixed width and height under handles `1..=len()`, with the images
/// not yet uploaded held as pending.
pub struct TextureRepo {
    width: u32,
    height: u32,
    /// Pending images keyed by handle, each handle at most once (see `wf`). A
    /// list rather than a hash map: `drain` hands the images out by value, in
    /// the order they were taken in, which needs no hashing and is fully specified.
    textures: Vec<(TextureRepoHandle, DynamicImage)>,
    length: u16,
}

impl TextureRepo {
    /// Width every image must have.
    pub closed spec fn spec_width(&self) -> u32 {
        self.width
    }

    /// Height every image must have.
    pub closed spec fn spec_height(&self) -> u32 {
        self.height
    }

    /// Number of handles issued so far.
    pub closed spec fn spec_len(&self) -> u16 {
        self.length
    }

    /// The pending images with their handles, oldest first.
    pub closed spec fn pending(&self) -> Seq<(TextureRepoHandle, DynamicImage)> {
        self.textures@
    }

    /// Each pending handle was issued, and none is pending twice.
    pub open spec fn wf(&self) -> bool {
        let hs = pending_handles(self.pending());
        &&& forall|i: int| 0 <= i < hs.len() ==> 1 <= #[trigger] hs[i] <= self.spec_len()
        &&& forall|i: int, j: int| 0 <= i < j < hs.len() ==> hs[i] != hs[j]
    }

    /// An empty repository for images of `width` by `height` pixels.
    pub fn new(width: u32, height: u32) -> (r: TextureRepo)
        ensures
            r.wf(),
            r.spec_width() == width,
            r.spec_height() == height,
            r.spec_len() == 0,
            r.pending().len() == 0,
    {
        TextureRepo { width, height, textures: Vec::new(), length: 0 }
    }

    /// Removes and returns every pending image; the handles issued stay issued.
    pub fn drain(&mut self) -> (r: Vec<(TextureRepoHandle, DynamicImage)>)
        requires
            old(self).wf(),
        ensures
            final(self).wf(),
            r@ == old(self).pending(),
            final(self).pending().len() == 0,
            final(self).spec_len() == old(self).spec_len(),
            final(self).spec_width() == old(self).spec_width(),
            final(self).spec_height() == old(self).spec_height(),
    {
        let mut drained: Vec<(TextureRepoHandle, DynamicImage)> = Vec::new();
        std::mem::swap(&mut drained, &mut self.textures);
        drained
    }

    /// Number of handles issued so far.
    pub fn len(&self) -> (r: u16)
        ensures
            r == self.spec_len(),
    {
        self.length
    }

    /// Takes in an image whose size was read as `width` by `height`: if that is
    /// the repository's size, the image becomes pending under the next handle.
    pub fn load_sized(&mut self, image: DynamicImage, width: u32, height: u32) -> (r: Result<
        TextureRepoHandle,
        TextureError,
    >)
        requires
            old(self).wf(),
            old(self).spec_len() < u16::MAX,
        ensures
            final(self).wf(),
            final(self).spec_width() == old(self).spec_width(),
            final(self).spec_height() == old(self).spec_height(),
            width == old(self).spec_width() && height == old(self).spec_height() ==> {
                &&& r matches Ok(h)
                &&& h@ == old(self).spec_len() + 1
                &&& final(self).spec_len() == h@
                &&& final(self).pending() == old(self).pending().push((h, image))
            },
            !(width == old(self).spec_width() && height == old(self).spec_height()) ==> {
                &&& r == Err::<TextureRepoHandle, TextureError>(TextureError::SizeMismatch)
                &&& final(self).spec_len() == old(self).spec_len()
                &&& final(self).pending() == old(self).pending()
            },
    {
        if width != self.width || height != self.height {
            return Err(TextureError::SizeMismatch);
        }
        self.length = self.length + 1;
        let handle = TextureRepoHandle(self.length);
        let ghost before = self.textures@;
        self.textures.push((handle, image));
        assert(pending_handles(self.textures@) =~= pending_handles(before).push(handle@));
        proof {
            let hs0 = pending_handles(before);
            let hs = pending_handles(self.textures@);
            assert(before == old(self).pending());
            assert(forall|i: int| 0 <= i < hs0.len() ==> 1 <= #[trigger] hs0[i] <= old(self).spec_len());
            assert forall|i: int| 0 <= i < hs.len() implies 1 <= #[trigger] hs[i]
                <= self.length by {
                if i < hs0.len() {
                    assert(hs[i] == hs0[i]);
                }
            }
            assert forall|i: int, j: int| 0 <= i < j < hs.len() implies hs[i] != hs[j] by {
                assert(hs[i] == hs0[i]);
                assert(1 <= hs0[i] <= old(self).spec_len());
            }
        }
        Ok(handle)
    }

    /// Takes in an image under the next handle, provided it has the
    /// repository's size.
    pub fn load(&mut self, image: DynamicImage) -> (r: Result<TextureRepoHandle, TextureError>)
        requires
            old(self).wf(),
            old(self).spec_len() < u16::MAX,
        ensures
            final(self).wf(),
            final(self).spec_width() == old(self).spec_width(),
            final(self).spec_height() == old(self).spec_height(),
            (r is Ok) == (image_size(image) == (old(self).spec_width(), old(self).spec_height())),
            r matches Ok(h) ==> {
                &&& h@ == old(self).spec_len() + 1
                &&& final(self).spec_len() == h@
                &&& final(self).pending() == old(self).pending().push((h, image))
            },
            r is Err ==> {
                &&& r == Err::<TextureRepoHandle, TextureError>(TextureError::SizeMismatch)
                &&& final(self).spec_len() == old(self).spec_len()
                &&& final(self).pending() == old(self).pending()
            },
    {
        let (width, height) = image_dimensions(&image);
        self.load_sized(image, width, height)
    }

    /// Replaces the image of an issued handle with one whose size was read as
    /// `width` by `height`, if that is the repository's size; the new image
    /// becomes pending in place of any pending one of that handle.
    pub fn set_sized(
        &mut self,
        handle: TextureRepoHandle,
        image: DynamicImage,
        width: u32,
        height: u32,
    ) -> (r: Result<(), TextureError>)
        requires
            old(self).wf(),
            handle@ <= old(self).spec_len(),
        ensures
            final(self).wf(),
            final(self).spec_width() == old(self).spec_width(),
            final(self).spec_height() == old(self).spec_height(),
            final(self).spec_len() == old(self).spec_len(),
            width == old(self).spec_width() && height == old(self).spec_height() ==> {
                &&& r is Ok
                &&& if pending_handles(old(self).pending()).contains(handle@) {
                    exists|i: int|
                        0 <= i < old(self).pending().len() && old(self).pending()[i].0 == handle
                            && final(self).pending() == old(self).pending().update(
                            i,
                            (handle, image),
                        )
                } else {
                    final(self).pending() == old(self).pending().push((handle, image))
                }
            },
            !(width == old(self).spec_width() && height == old(self).spec_height()) ==> {
                &&& r == Err::<(), TextureError>(TextureError::SizeMismatch)
                &&& final(self).pending() == old(self).pending()
            },
    {
        if width != self.width || height != self.height {
            return Err(TextureError::SizeMismatch);
        }
        proof {
            use_type_invariant(&handle);
        }
        let ghost before = self.textures@;
        let mut i: usize = 0;
        while i < self.textures.len()
            invariant
                self.textures@ == before,
                before == old(self).pending(),
                self.width == old(self).spec_width() == width,
                self.height == old(self).spec_height() == height,
                self.length == old(self).spec_len(),
                old(self).wf(),
                i <= before.len(),
                forall|k: int| 0 <= k < i ==> before[k].0@ != handle@,
            decreases before.len() - i,
        {
            if self.textures[i].0.get() == handle.get() {
                let ghost hs = pending_handles(before);
                self.textures.set(i, (handle, image));
                assert(pending_handles(self.textures@) =~= hs);
                assert(before[i as int].0 == handle);
                assert(hs[i as int] == handle@);
                assert(hs.contains(handle@));
                return Ok(());
            }
            i = i + 1;
        }
        self.textures.push((handle, image));
        assert(pending_handles(self.textures@) =~= pending_handles(before).push(handle@));
        assert(!pending_handles(before).contains(handle@)) by {
            if pending_handles(before).contains(handle@) {
                let k = choose|k: int|
                    0 <= k < pending_handles(before).len() && pending_handles(before)[k] == handle@;
                assert(before[k].0@ == handle@);
            }
        }
        Ok(())
    }

    /// Replaces the image of an issued handle, provided the new one has the
    /// repository's size.
    pub fn set(&mut self, handle: TextureRepoHandle, image: DynamicImage) -> (r: Result<(), TextureError>)
        requires
            old(self).wf(),
            handle@ <= old(self).spec_len(),
        ensures
            final(self).wf(),
            final(self).spec_width() == old(self).spec_width(),
            final(self).spec_height() == old(self).spec_height(),
            final(self).spec_len() == old(self).spec_len(),
            (r is Ok) == (image_size(image) == (old(self).spec_width(), old(self).spec_height())),
            r is Ok ==> if pending_handles(old(self).pending()).contains(handle@) {
                exists|i: int|
                    0 <= i < old(self).pending().len() && old(self).pending()[i].0 == handle
                        && final(self).pending() == old(self).pending().update(i, (handle, image))
            } else {
                final(self).pending() == old(self).pending().push((handle, image))
            },
            r is Err ==> r == Err::<(), TextureError>(TextureError::SizeMismatch)
                && final(self).pending() == old(self).pending(),
    {
        let (width, height) = image_dimensions(&image);
        self.set_sized(handle, image, width, height)
    }

    /// The texture array that holds every issued handle: one layer per handle.
    pub fn get_extent(&self) -> (r: Extent3d)
        ensures
            r.width == self.spec_width(),
            r.height == self.spec_height(),
            r.depth == self.spec_len(),
    {
        Extent3d { width: self.width, height: self.height, depth: self.length as u32 }
    }
}


/// What the GPU-side texture array must do before the pending images are uploaded.
#[derive(Copy, Clone, PartialEq, Eq, Structural, Debug)]
pub struct ArrayUpdate {
    /// No array exists and no handle was issued: bind a 1 x 1 x 1 placeholder.
    pub create_placeholder: bool,
    /// The array must be replaced by a larger one of this extent.
    pub grow_to: Option<Extent3d>,
    /// Layers `0..copy_layers` of the old array are copied into the new one.
    pub copy_layers: u32,
}

impl TextureRepo {
    /// Plans the update of a texture array of extent `current` (`has_texture`:
    /// whether one exists): it grows to hold a layer per issued handle, keeping
    /// the layers it already holds.
    pub fn plan_array_update(&self, current: Extent3d, has_texture: bool) -> (r: ArrayUpdate)
        ensures
            r.create_placeholder == (!has_texture && self.spec_len() == 0),
            current.depth < self.spec_len() ==> r.grow_to == Some(
                Extent3d {
                    width: self.spec_width(),
                    height: self.spec_height(),
                    depth: self.spec_len() as u32,
                },
            ) && r.copy_layers == current.depth,
            current.depth >= self.spec_len() ==> r.grow_to is None && r.copy_layers == 0,
    {
        let create_placeholder = !has_texture && self.length == 0;
        if current.depth < self.length as u32 {
            ArrayUpdate {
                create_placeholder,
                grow_to: Some(self.get_extent()),
                copy_layers: current.depth,
            }
        } else {
            ArrayUpdate { create_placeholder, grow_to: None, copy_layers: 0 }
        }
    }
}

impl TextureRepoHandle {
    /// The array layer that holds this handle's image.
    pub fn layer(&self) -> (r: u32)
        ensures
            r == self@ - 1,
    {
        (self.get() - 1) as u32
    }
}

/// Bytes of one layer of `width` by `height` pixels of four bytes each.
pub fn layer_size(width: u32, height: u32) -> (r: usize)
    requires
        width * height * 4 <= usize::MAX,
    ensures
        r == width * height * 4,
{
    let w = width as usize;
    let h = height as usize;
    assert(w * h <= w * h * 4) by (nonlinear_arith);
    w * h * 4
}

} // verus!
