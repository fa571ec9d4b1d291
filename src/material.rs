//! Materials and the palette that maps voxel codes to them, with the byte
//! layout in which both kinds of material are handed to the GPU.

use crate::bytes::{
    le_u16, le_u32, lemma_written_concat, put_u16_le, put_u32_le, put_zeros, written, zeros,
};
use crate::texture_repo::TextureRepoHandle;
use crate::voxel::{colored_code, Voxel};
use vstd::prelude::*;

verus! {

/// Bytes of one material record.
pub const MATERIAL_DATA_SIZE: usize = 16;

/// Bytes of one palette color (four 32-bit floats).
pub const COLOR_DATA_SIZE: usize = 16;

/// Number of colors in the palette of a colored material.
pub const PALETTE_COLORS: usize = 256;

/// Bytes of one colored material record: the material record, then its palette.
pub const COLORED_MATERIAL_DATA_SIZE: usize = MATERIAL_DATA_SIZE + PALETTE_COLORS * COLOR_DATA_SIZE;

/// Bit pattern of the 32-bit float 1.0.
pub const FLOAT_ONE_BITS: u32 = 0x3f80_0000;

/// A color as the bit patterns of four 32-bit floats.
#[derive(Copy, Clone, PartialEq, Eq, Structural, Debug)]
pub struct Color {
    pub red: u32,
    pub green: u32,
    pub blue: u32,
    pub alpha: u32,
}

impl Color {
    /// Opaque black: red, green and blue 0.0, alpha 1.0.
    pub fn black() -> (r: Color)
        ensures
            r == (Color { red: 0, green: 0, blue: 0, alpha: FLOAT_ONE_BITS }),
    {
        Color { red: 0, green: 0, blue: 0, alpha: FLOAT_ONE_BITS }
    }
}

/// A textured material.
pub struct Material {
    pub name: String,
    /// Bit pattern of the 32-bit float scale factor.
    pub scale_bits: u32,
    pub diffuse: Option<TextureRepoHandle>,
    pub normal: Option<TextureRepoHandle>,
}

/// A material with a palette of 256 colors.
pub struct ColoredMaterial {
    pub material: Material,
    pub color_palette: [Color; 256],
}

/// A handle's number, or 0 for none.
pub open spec fn handle_code(h: Option<TextureRepoHandle>) -> u16 {
    match h {
        Some(h) => h@,
        None => 0,
    }
}

/// The 16-byte record of a material: scale, diffuse handle, normal handle, then
/// eight zero bytes.
pub open spec fn material_record(m: Material) -> Seq<u8> {
    le_u32(m.scale_bits) + le_u16(handle_code(m.diffuse)) + le_u16(handle_code(m.normal)) + zeros(
        8,
    )
}

/// The 16 bytes of a color: red, green, blue, alpha.
pub open spec fn color_record(c: Color) -> Seq<u8> {
    le_u32(c.red) + le_u32(c.green) + le_u32(c.blue) + le_u32(c.alpha)
}

/// The records of a sequence of colors, one after another.
pub open spec fn colors_bytes(cs: Seq<Color>) -> Seq<u8>
    decreases cs.len(),
{
    if cs.len() == 0 {
        Seq::empty()
    } else {
        colors_bytes(cs.drop_last()) + color_record(cs.last())
    }
}

/// The record of a colored material: its material record, then its palette.
pub open spec fn colored_record(c: ColoredMaterial) -> Seq<u8> {
    material_record(c.material) + colors_bytes(c.color_palette@)
}

/// The records of a sequence of materials, one after another.
pub open spec fn materials_bytes(ms: Seq<Material>) -> Seq<u8>
    decreases ms.len(),
{
    if ms.len() == 0 {
        Seq::empty()
    } else {
        materials_bytes(ms.drop_last()) + material_record(ms.last())
    }
}

/// The records of a sequence of colored materials, one after another.
pub open spec fn colored_materials_bytes(cs: Seq<ColoredMaterial>) -> Seq<u8>
    decreases cs.len(),
{
    if cs.len() == 0 {
        Seq::empty()
    } else {
        colored_materials_bytes(cs.drop_last()) + colored_record(cs.last())
    }
}

proof fn lemma_colors_bytes_len(cs: Seq<Color>)
    ensures
        colors_bytes(cs).len() == 16 * cs.len(),
    decreases cs.len(),
{
    if cs.len() > 0 {
        lemma_colors_bytes_len(cs.drop_last());
    }
}

proof fn lemma_materials_bytes_len(ms: Seq<Material>)
    ensures
        materials_bytes(ms).len() == 16 * ms.len(),
    decreases ms.len(),
{
    if ms.len() > 0 {
        lemma_materials_bytes_len(ms.drop_last());
    }
}

proof fn lemma_colored_materials_bytes_len(cs: Seq<ColoredMaterial>)
    ensures
        colored_materials_bytes(cs).len() == 4112 * cs.len(),
    decreases cs.len(),
{
    if cs.len() > 0 {
        lemma_colored_materials_bytes_len(cs.drop_last());
        lemma_colors_bytes_len(cs.last().color_palette@);
    }
}

fn handle_number(h: Option<TextureRepoHandle>) -> (r: u16)
    ensures
        r == handle_code(h),
{
    match h {
        Some(h) => h.get(),
        None => 0,
    }
}

impl Color {
    /// Writes the color's 16 bytes at offset `at`.
    pub fn write_bytes(&self, buffer: &mut [u8], at: usize)
        requires
            at + 16 <= old(buffer)@.len(),
        ensures
            final(buffer)@ == written(old(buffer)@, at as int, color_record(*self)),
    {
        let ghost b0 = buffer@;
        let len = buffer.len();
        assert(at + 16 <= len);
        put_u32_le(buffer, at, self.red);
        put_u32_le(buffer, at + 4, self.green);
        proof {
            lemma_written_concat(b0, at as int, le_u32(self.red), le_u32(self.green));
        }
        put_u32_le(buffer, at + 8, self.blue);
        proof {
            lemma_written_concat(
                b0,
                at as int,
                le_u32(self.red) + le_u32(self.green),
                le_u32(self.blue),
            );
        }
        put_u32_le(buffer, at + 12, self.alpha);
        proof {
            lemma_written_concat(
                b0,
                at as int,
                le_u32(self.red) + le_u32(self.green) + le_u32(self.blue),
                le_u32(self.alpha),
            );
        }
    }
}

impl Material {
    /// Writes the material's 16-byte record at offset `at`.
    pub fn write_bytes(&self, buffer: &mut [u8], at: usize)
        requires
            at + 16 <= old(buffer)@.len(),
        ensures
            final(buffer)@ == written(old(buffer)@, at as int, material_record(*self)),
    {
        let ghost b0 = buffer@;
        let len = buffer.len();
        assert(at + 16 <= len);
        let diffuse = handle_number(self.diffuse);
        let normal = handle_number(self.normal);
        put_u32_le(buffer, at, self.scale_bits);
        put_u16_le(buffer, at + 4, diffuse);
        proof {
            lemma_written_concat(b0, at as int, le_u32(self.scale_bits), le_u16(diffuse));
        }
        put_u16_le(buffer, at + 6, normal);
        proof {
            lemma_written_concat(
                b0,
                at as int,
                le_u32(self.scale_bits) + le_u16(diffuse),
                le_u16(normal),
            );
        }
        put_zeros(buffer, at + 8, 8);
        proof {
            lemma_written_concat(
                b0,
                at as int,
                le_u32(self.scale_bits) + le_u16(diffuse) + le_u16(normal),
                zeros(8),
            );
        }
    }

    /// Bytes of the record.
    pub fn byte_len(&self) -> (r: usize)
        ensures
            r == 16,
    {
        MATERIAL_DATA_SIZE
    }
}

impl ColoredMaterial {
    /// Writes the colored material's 4112-byte record at offset `at`.
    pub fn write_bytes(&self, buffer: &mut [u8], at: usize)
        requires
            at + 4112 <= old(buffer)@.len(),
        ensures
            final(buffer)@ == written(old(buffer)@, at as int, colored_record(*self)),
    {
        let ghost b0 = buffer@;
        let ghost cs = self.color_palette@;
        let len = buffer.len();
        self.material.write_bytes(buffer, at);
        let mut j: usize = 0;
        assert(cs.subrange(0, 0) =~= Seq::<Color>::empty());
        assert(material_record(self.material) + colors_bytes(cs.subrange(0, 0))
            =~= material_record(self.material));
        while j < PALETTE_COLORS
            invariant
                j <= 256,
                cs == self.color_palette@,
                cs.len() == 256,
                at + 4112 <= b0.len(),
                len == b0.len(),
                buffer@ == written(
                    b0,
                    at as int,
                    material_record(self.material) + colors_bytes(cs.subrange(0, j as int)),
                ),
            decreases 256 - j,
        {
            let ghost before = buffer@;
            let ghost prefix = material_record(self.material) + colors_bytes(
                cs.subrange(0, j as int),
            );
            proof {
                lemma_colors_bytes_len(cs.subrange(0, j as int));
            }
            self.color_palette[j].write_bytes(buffer, at + 16 + 16 * j);
            proof {
                lemma_written_concat(b0, at as int, prefix, color_record(cs[j as int]));
                assert(cs.subrange(0, j + 1).drop_last() =~= cs.subrange(0, j as int));
                assert(prefix + color_record(cs[j as int]) =~= material_record(self.material)
                    + colors_bytes(cs.subrange(0, j + 1)));
            }
            j = j + 1;
        }
        assert(cs.subrange(0, 256) =~= cs);
    }

    /// Bytes of the record.
    pub fn byte_len(&self) -> (r: usize)
        ensures
            r == 4112,
    {
        COLORED_MATERIAL_DATA_SIZE
    }
}


impl Default for ColoredMaterial {
    /// A plain-color material named "PlainColor": scale 0.0, no textures and an
    /// all-black palette.
    fn default() -> (r: ColoredMaterial)
        ensures
            r.material.name@ == "PlainColor"@,
            r.material.scale_bits == 0,
            r.material.diffuse is None,
            r.material.normal is None,
            forall|i: int| 0 <= i < 256 ==> #[trigger] r.color_palette@[i] == (Color {
                red: 0,
                green: 0,
                blue: 0,
                alpha: FLOAT_ONE_BITS,
            }),
    {
        ColoredMaterial {
            material: Material {
                name: String::from_str("PlainColor"),
                scale_bits: 0,
                diffuse: None,
                normal: None,
            },
            color_palette: [Color::black(); 256],
        }
    }
}

/// The registry of materials that voxel codes refer to: colored material `i`
/// under the colored code with id `i`, material `i` under regular code `i + 1`.
pub struct MaterialPalette {
    pub colored_materials: Vec<ColoredMaterial>,
    pub materials: Vec<Material>,
}

/// `n` rounded up to a multiple of `alignment`.
pub open spec fn align_up(n: nat, alignment: nat) -> nat
    recommends
        alignment > 0,
{
    ((n + alignment - 1) as nat / alignment) * alignment
}

/// Rounds `num` up to a multiple of `alignment`.
pub fn align_to(num: usize, alignment: usize) -> (r: usize)
    requires
        alignment > 0,
        num + alignment - 1 <= usize::MAX,
    ensures
        r == align_up(num as nat, alignment as nat),
        num <= r < num + alignment,
        r % alignment == 0,
{
    let q = (num + (alignment - 1)) / alignment;
    let ghost a = alignment as int;
    let ghost n = num as int;
    assert(q * a <= n + a - 1 && n <= q * a && (q * a) % a == 0) by (nonlinear_arith)
        requires
            a > 0,
            n >= 0,
            q == (n + a - 1) / a,
    ;
    q * alignment
}

/// Where the two segments of the material buffer lie.
#[derive(Copy, Clone, PartialEq, Eq, Structural, Debug)]
pub struct MaterialBufferLayout {
    /// Bytes of the colored materials segment, which starts at offset 0.
    pub colored_size: usize,
    /// Offset of the materials segment: `colored_size` rounded up.
    pub colored_size_aligned: usize,
    /// End of the materials segment.
    pub total_size: usize,
    /// Length of the whole buffer: `total_size` rounded up.
    pub total_size_aligned: usize,
}

/// Largest alignment a material buffer may be asked for.
pub const MAX_BUFFER_ALIGNMENT: usize = 0x1000_0000;

impl MaterialPalette {
    /// Every material can be named by a voxel code.
    pub open spec fn wf(&self) -> bool {
        &&& self.colored_materials@.len() <= 0x80
        &&& self.materials@.len() < 0x8000
    }

    /// The layout of the buffer for segment alignment `bind_alignment` and length
    /// alignment `copy_alignment`.
    pub open spec fn spec_layout(&self, bind_alignment: nat, copy_alignment: nat) -> MaterialBufferLayout {
        let colored = 4112 * self.colored_materials@.len();
        let colored_aligned = align_up(colored, bind_alignment);
        let total = colored_aligned + 16 * self.materials@.len();
        MaterialBufferLayout {
            colored_size: colored as usize,
            colored_size_aligned: colored_aligned as usize,
            total_size: total as usize,
            total_size_aligned: align_up(total, copy_alignment) as usize,
        }
    }

    /// The bytes of the whole buffer: the colored materials segment, zeros up to
    /// the aligned offset, the materials segment, zeros up to the aligned length.
    pub open spec fn spec_buffer(&self, bind_alignment: nat, copy_alignment: nat) -> Seq<u8> {
        let l = self.spec_layout(bind_alignment, copy_alignment);
        colored_materials_bytes(self.colored_materials@) + zeros(
            (l.colored_size_aligned - l.colored_size) as nat,
        ) + materials_bytes(self.materials@) + zeros((l.total_size_aligned - l.total_size) as nat)
    }

    /// An empty palette.
    pub fn new() -> (r: MaterialPalette)
        ensures
            r.wf(),
            r.colored_materials@.len() == 0,
            r.materials@.len() == 0,
    {
        MaterialPalette { colored_materials: Vec::new(), materials: Vec::new() }
    }

    /// Appends a material and returns the regular voxel that refers to it: the
    /// new number of materials.
    pub fn add_material(&mut self, material: Material) -> (r: Voxel)
        requires
            old(self).wf(),
            old(self).materials@.len() + 1 < 0x8000,
        ensures
            final(self).wf(),
            final(self).materials@ == old(self).materials@.push(material),
            final(self).colored_materials@ == old(self).colored_materials@,
            r@ == final(self).materials@.len(),
    {
        self.materials.push(material);
        Voxel::new(self.materials.len() as u16)
    }

    /// Appends a colored material and returns the colored voxel that refers to
    /// it: id the old number of colored materials, color 0.
    pub fn add_colored_material(&mut self, material: ColoredMaterial) -> (r: Voxel)
        requires
            old(self).wf(),
            old(self).colored_materials@.len() < 0x80,
        ensures
            final(self).wf(),
            final(self).colored_materials@ == old(self).colored_materials@.push(material),
            final(self).materials@ == old(self).materials@,
            r@ == colored_code(old(self).colored_materials@.len() as u8, 0),
    {
        let voxel = Voxel::new_colored(self.colored_materials.len() as u8, 0);
        self.colored_materials.push(material);
        voxel
    }

    /// Bytes of the materials segment.
    pub fn materials_size(&self) -> (r: usize)
        requires
            self.wf(),
        ensures
            r == 16 * self.materials@.len(),
    {
        MATERIAL_DATA_SIZE * self.materials.len()
    }

    /// Bytes of the colored materials segment.
    pub fn colored_materials_size(&self) -> (r: usize)
        requires
            self.wf(),
        ensures
            r == 4112 * self.colored_materials@.len(),
    {
        COLORED_MATERIAL_DATA_SIZE * self.colored_materials.len()
    }

    /// Writes the materials segment at offset `at`, in list order.
    pub fn materials_write_bytes(&self, buffer: &mut [u8], at: usize)
        requires
            self.wf(),
            at + 16 * self.materials@.len() <= old(buffer)@.len(),
        ensures
            final(buffer)@ == written(old(buffer)@, at as int, materials_bytes(self.materials@)),
    {
        let ghost b0 = buffer@;
        let ghost ms = self.materials@;
        let len = buffer.len();
        assert(ms.subrange(0, 0) =~= Seq::<Material>::empty());
        assert(buffer@ =~= written(b0, at as int, materials_bytes(ms.subrange(0, 0))));
        let mut k: usize = 0;
        while k < self.materials.len()
            invariant
                k <= ms.len(),
                ms == self.materials@,
                ms.len() < 0x8000,
                at + 16 * ms.len() <= b0.len(),
                len == b0.len(),
                buffer@ == written(b0, at as int, materials_bytes(ms.subrange(0, k as int))),
            decreases ms.len() - k,
        {
            let ghost prefix = materials_bytes(ms.subrange(0, k as int));
            proof {
                lemma_materials_bytes_len(ms.subrange(0, k as int));
            }
            self.materials[k].write_bytes(buffer, at + MATERIAL_DATA_SIZE * k);
            proof {
                lemma_written_concat(b0, at as int, prefix, material_record(ms[k as int]));
                assert(ms.subrange(0, k + 1).drop_last() =~= ms.subrange(0, k as int));
            }
            k = k + 1;
        }
        assert(ms.subrange(0, ms.len() as int) =~= ms);
    }

    /// Writes the colored materials segment at offset `at`, in list order.
    pub fn colored_materials_write_bytes(&self, buffer: &mut [u8], at: usize)
        requires
            self.wf(),
            at + 4112 * self.colored_materials@.len() <= old(buffer)@.len(),
        ensures
            final(buffer)@ == written(
                old(buffer)@,
                at as int,
                colored_materials_bytes(self.colored_materials@),
            ),
    {
        let ghost b0 = buffer@;
        let ghost cs = self.colored_materials@;
        let len = buffer.len();
        assert(cs.subrange(0, 0) =~= Seq::<ColoredMaterial>::empty());
        assert(buffer@ =~= written(b0, at as int, colored_materials_bytes(cs.subrange(0, 0))));
        let mut k: usize = 0;
        while k < self.colored_materials.len()
            invariant
                k <= cs.len(),
                cs == self.colored_materials@,
                cs.len() <= 0x80,
                at + 4112 * cs.len() <= b0.len(),
                len == b0.len(),
                buffer@ == written(
                    b0,
                    at as int,
                    colored_materials_bytes(cs.subrange(0, k as int)),
                ),
            decreases cs.len() - k,
        {
            let ghost prefix = colored_materials_bytes(cs.subrange(0, k as int));
            proof {
                lemma_colored_materials_bytes_len(cs.subrange(0, k as int));
                lemma_colors_bytes_len(cs[k as int].color_palette@);
            }
            self.colored_materials[k].write_bytes(buffer, at + COLORED_MATERIAL_DATA_SIZE * k);
            proof {
                lemma_written_concat(b0, at as int, prefix, colored_record(cs[k as int]));
                assert(cs.subrange(0, k + 1).drop_last() =~= cs.subrange(0, k as int));
            }
            k = k + 1;
        }
        assert(cs.subrange(0, cs.len() as int) =~= cs);
    }

    /// Where the segments lie when the materials segment starts at a multiple of
    /// `bind_alignment` and the buffer's length is a multiple of `copy_alignment`.
    pub fn buffer_layout(&self, bind_alignment: usize, copy_alignment: usize) -> (r:
        MaterialBufferLayout)
        requires
            self.wf(),
            0 < bind_alignment <= MAX_BUFFER_ALIGNMENT,
            0 < copy_alignment <= MAX_BUFFER_ALIGNMENT,
        ensures
            r == self.spec_layout(bind_alignment as nat, copy_alignment as nat),
            r.colored_size <= r.colored_size_aligned <= r.total_size <= r.total_size_aligned,
            r.total_size == r.colored_size_aligned + 16 * self.materials@.len(),
            r.colored_size_aligned % bind_alignment == 0,
            r.total_size_aligned % copy_alignment == 0,
    {
        let colored_size = self.colored_materials_size();
        let colored_size_aligned = align_to(colored_size, bind_alignment);
        let total_size = colored_size_aligned + self.materials_size();
        let total_size_aligned = align_to(total_size, copy_alignment);
        MaterialBufferLayout { colored_size, colored_size_aligned, total_size, total_size_aligned }
    }

    /// The whole material buffer: colored materials from offset 0, materials
    /// from the aligned offset, every other byte zero.
    pub fn write_buffer(&self, bind_alignment: usize, copy_alignment: usize) -> (r: Vec<u8>)
        requires
            self.wf(),
            0 < bind_alignment <= MAX_BUFFER_ALIGNMENT,
            0 < copy_alignment <= MAX_BUFFER_ALIGNMENT,
        ensures
            r@ == self.spec_buffer(bind_alignment as nat, copy_alignment as nat),
            r@.len() == self.spec_layout(bind_alignment as nat, copy_alignment as nat).total_size_aligned,
    {
        let layout = self.buffer_layout(bind_alignment, copy_alignment);
        let mut buffer: Vec<u8> = vec![0u8; layout.total_size_aligned];
        let ghost b0 = buffer@;
        proof {
            lemma_colored_materials_bytes_len(self.colored_materials@);
            lemma_materials_bytes_len(self.materials@);
        }
        self.colored_materials_write_bytes(buffer.as_mut_slice(), 0);
        self.materials_write_bytes(buffer.as_mut_slice(), layout.colored_size_aligned);
        let ghost cb = colored_materials_bytes(self.colored_materials@);
        let ghost mb = materials_bytes(self.materials@);
        let ghost pad1 = zeros((layout.colored_size_aligned - layout.colored_size) as nat);
        let ghost pad2 = zeros((layout.total_size_aligned - layout.total_size) as nat);
        assert(buffer@ =~= cb + pad1 + mb + pad2);
        buffer
    }
}

/// The record of a material, read back at its documented offsets, gives the
/// scale, the diffuse handle and the normal handle that were written.
pub proof fn lemma_material_record_round_trip(m: Material)
    ensures
        material_record(m).len() == 16,
        crate::bytes::read_le_u32(material_record(m).subrange(0, 4)) == m.scale_bits,
        crate::bytes::read_le_u16(material_record(m).subrange(4, 6)) == handle_code(m.diffuse),
        crate::bytes::read_le_u16(material_record(m).subrange(6, 8)) == handle_code(m.normal),
{
    let r = material_record(m);
    assert(r.subrange(0, 4) =~= le_u32(m.scale_bits));
    assert(r.subrange(4, 6) =~= le_u16(handle_code(m.diffuse)));
    assert(r.subrange(6, 8) =~= le_u16(handle_code(m.normal)));
    crate::bytes::lemma_le_u32_round_trip(m.scale_bits);
    crate::bytes::lemma_le_u16_round_trip(handle_code(m.diffuse));
    crate::bytes::lemma_le_u16_round_trip(handle_code(m.normal));
}


/// In a materials segment, bytes `16 * k .. 16 * k + 16` are the record of material `k`.
pub proof fn lemma_materials_bytes_at(ms: Seq<Material>, k: int)
    requires
        0 <= k < ms.len(),
    ensures
        materials_bytes(ms).len() == 16 * ms.len(),
        materials_bytes(ms).subrange(16 * k, 16 * k + 16) == material_record(ms[k]),
    decreases ms.len(),
{
    lemma_materials_bytes_len(ms);
    lemma_materials_bytes_len(ms.drop_last());
    let prev = materials_bytes(ms.drop_last());
    if k == ms.len() - 1 {
        assert(materials_bytes(ms).subrange(16 * k, 16 * k + 16) =~= material_record(ms[k]));
    } else {
        lemma_materials_bytes_at(ms.drop_last(), k);
        assert(materials_bytes(ms).subrange(16 * k, 16 * k + 16) =~= prev.subrange(
            16 * k,
            16 * k + 16,
        ));
    }
}

/// The materials segment of a palette, read back at the documented offsets of
/// record `k`, gives the scale and the texture handles of material `k`.
pub proof fn lemma_materials_segment_round_trip(palette: MaterialPalette, k: int)
    requires
        0 <= k < palette.materials@.len(),
    ensures
        crate::bytes::read_le_u32(materials_bytes(palette.materials@).subrange(16 * k, 16 * k + 4))
            == palette.materials@[k].scale_bits,
        crate::bytes::read_le_u16(
            materials_bytes(palette.materials@).subrange(16 * k + 4, 16 * k + 6),
        ) == handle_code(palette.materials@[k].diffuse),
        crate::bytes::read_le_u16(
            materials_bytes(palette.materials@).subrange(16 * k + 6, 16 * k + 8),
        ) == handle_code(palette.materials@[k].normal),
{
    let ms = palette.materials@;
    let seg = materials_bytes(ms);
    lemma_materials_bytes_at(ms, k);
    lemma_material_record_round_trip(ms[k]);
    let rec = seg.subrange(16 * k, 16 * k + 16);
    assert(seg.subrange(16 * k, 16 * k + 4) =~= rec.subrange(0, 4));
    assert(seg.subrange(16 * k + 4, 16 * k + 6) =~= rec.subrange(4, 6));
    assert(seg.subrange(16 * k + 6, 16 * k + 8) =~= rec.subrange(6, 8));
}

} // verus!
