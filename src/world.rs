//! Decoding of world sections: a palette of block names and a packed array of
//! 4096 palette indices become absolute voxel placements.

use crate::packed::{bit_at, field, read_field};
use crate::voxel::{option_code, recolored, Voxel};
use vstd::prelude::*;
use vstd::string::StrSliceExecFns;

verus! {

/// Number of block positions in one section (16 x 16 x 16).
pub const SECTION_VOLUME: usize = 4096;

/// Edge length of a section and of a chunk, in blocks.
pub const SECTION_EDGE: u32 = 16;

/// Edge length of a region, in blocks (32 chunks).
pub const REGION_EDGE: u32 = 512;

/// Widest palette index that a section may pack.
pub const MAX_ENTRY_WIDTH: usize = 16;

/// What a block name of the world format turns into.
#[derive(Copy, Clone, PartialEq, Eq, Structural, Debug)]
pub enum BlockRule {
    /// The block places no voxel.
    Skip,
    /// The block places the base voxel recolored with this palette color.
    Color(u8),
    /// The block is not in the table and places the base voxel itself.
    Base,
}

/// The fixed table from block names to rules.
pub open spec fn block_rule(name: Seq<char>) -> BlockRule {
    if name == "minecraft:air"@ || name == "minecraft:cave_air"@ || name == "minecraft:grass"@
        || name == "minecraft:tall_grass"@ {
        BlockRule::Skip
    } else if name == "minecraft:stone"@ || name == "minecraft:granite"@ || name
        == "minecraft:gravel"@ || name == "minecraft:diorite"@ || name == "minecraft:iron_ore"@
        || name == "minecraft:coal_ore"@ || name == "minecraft:andesite"@ || name
        == "minecraft:bedrock"@ || name == "minecraft:dirt"@ || name == "minecraft:lava"@ {
        BlockRule::Color(3)
    } else if name == "minecraft:grass_block"@ || name == "minecraft:oak_leaves"@ || name
        == "minecraft:acacia_leaves"@ {
        BlockRule::Color(4)
    } else if name == "minecraft:oak_log"@ || name == "minecraft:water"@ {
        BlockRule::Color(1)
    } else if name == "minecraft:sand"@ {
        BlockRule::Color(2)
    } else {
        BlockRule::Base
    }
}

/// The voxel code that block `name` places, given the code of the base voxel.
pub open spec fn block_voxel(name: Seq<char>, base: u16) -> Option<u16> {
    match block_rule(name) {
        BlockRule::Skip => None,
        BlockRule::Color(c) => Some(recolored(base, c)),
        BlockRule::Base => Some(base),
    }
}

/// Whether two strings hold the same characters.
fn same_text(a: &str, b: &str) -> (r: bool)
    ensures
        r == (a@ == b@),
{
    let n = a.unicode_len();
    if n != b.unicode_len() {
        return false;
    }
    let mut i: usize = 0;
    while i < n
        invariant
            n == a@.len() == b@.len(),
            i <= n,
            forall|k: int| 0 <= k < i ==> a@[k] == b@[k],
        decreases n - i,
    {
        if a.get_char(i) != b.get_char(i) {
            return false;
        }
        i = i + 1;
    }
    assert(a@ =~= b@);
    true
}

/// Looks up the rule of a block name.
pub fn block_rule_of(name: &str) -> (r: BlockRule)
    ensures
        r == block_rule(name@),
{
    if same_text(name, "minecraft:air") || same_text(name, "minecraft:cave_air") || same_text(
        name,
        "minecraft:grass",
    ) || same_text(name, "minecraft:tall_grass") {
        BlockRule::Skip
    } else if same_text(name, "minecraft:stone") || same_text(name, "minecraft:granite")
        || same_text(name, "minecraft:gravel") || same_text(name, "minecraft:diorite")
        || same_text(name, "minecraft:iron_ore") || same_text(name, "minecraft:coal_ore")
        || same_text(name, "minecraft:andesite") || same_text(name, "minecraft:bedrock")
        || same_text(name, "minecraft:dirt") || same_text(name, "minecraft:lava") {
        BlockRule::Color(3)
    } else if same_text(name, "minecraft:grass_block") || same_text(name, "minecraft:oak_leaves")
        || same_text(name, "minecraft:acacia_leaves") {
        BlockRule::Color(4)
    } else if same_text(name, "minecraft:oak_log") || same_text(name, "minecraft:water") {
        BlockRule::Color(1)
    } else if same_text(name, "minecraft:sand") {
        BlockRule::Color(2)
    } else {
        BlockRule::Base
    }
}

/// The voxel that block `name` places, if any.
pub fn block_voxel_of(name: &str, base: Voxel) -> (r: Option<Voxel>)
    ensures
        option_code(r) == block_voxel(name@, base@),
{
    match block_rule_of(name) {
        BlockRule::Skip => None,
        BlockRule::Color(c) => Some(base.with_color(c)),
        BlockRule::Base => Some(base),
    }
}


/// Width in bits of each packed palette index: the packed array's length in bytes,
/// times eight, over the number of positions in a section.
pub open spec fn entry_width(word_count: nat) -> nat {
    (word_count * 8) * 8 / 4096
}

/// The palette index packed for position `i` of a section.
pub open spec fn palette_index(words: Seq<u64>, i: int) -> nat {
    let w = entry_width(words.len());
    field(words, i * w, w)
}

/// World coordinates of the lowest corner of a section.
#[derive(Copy, Clone, PartialEq, Eq, Structural, Debug)]
pub struct SectionOrigin {
    pub x: u32,
    pub y: u32,
    pub z: u32,
}

/// Every position of a section starting at `o` has coordinates that fit in a `u32`.
pub open spec fn origin_fits(o: SectionOrigin) -> bool {
    &&& o.x + 15 <= u32::MAX
    &&& o.y + 15 <= u32::MAX
    &&& o.z + 15 <= u32::MAX
}

/// The corner of section `section_y` of chunk `(chunk_x, chunk_z)` of region
/// `(region_x, region_y)`.
pub fn section_origin(region_x: u32, region_y: u32, chunk_x: u32, chunk_z: u32, section_y: u32) -> (o:
    SectionOrigin)
    requires
        chunk_x < 32,
        chunk_z < 32,
        region_x < 0x80_0000,
        region_y < 0x80_0000,
        section_y < 0x1000_0000,
    ensures
        o.x == chunk_x * 16 + region_x * 512,
        o.y == section_y * 16,
        o.z == chunk_z * 16 + region_y * 512,
        origin_fits(o),
{
    SectionOrigin {
        x: chunk_x * SECTION_EDGE + region_x * REGION_EDGE,
        y: section_y * SECTION_EDGE,
        z: chunk_z * SECTION_EDGE + region_y * REGION_EDGE,
    }
}

/// One voxel to be written into the store at world coordinates.
#[derive(Copy, Clone, PartialEq, Eq, Structural, Debug)]
pub struct Placement {
    pub x: u32,
    pub y: u32,
    pub z: u32,
    pub voxel: Voxel,
}

impl View for Placement {
    type V = (u32, u32, u32, u16);

    open spec fn view(&self) -> (u32, u32, u32, u16) {
        (self.x, self.y, self.z, self.voxel@)
    }
}

/// The views of a sequence of placements.
pub open spec fn placement_views(s: Seq<Placement>) -> Seq<(u32, u32, u32, u16)> {
    s.map_values(|p: Placement| p@)
}

/// The placement of code `code` at position `i` of the section at `o`:
/// `x = i % 16`, `z = (i / 16) % 16`, `y = i / 256` within the section.
pub open spec fn placement_at(o: SectionOrigin, i: int, code: u16) -> (u32, u32, u32, u16) {
    ((o.x + i % 16) as u32, (o.y + i / 256) as u32, (o.z + (i / 16) % 16) as u32, code)
}

/// The characters of each palette name.
pub open spec fn names(palette: Seq<String>) -> Seq<Seq<char>> {
    palette.map_values(|s: String| s@)
}

/// The placements made by the first `n` positions of a section, in position order.
pub open spec fn section_placements(
    palette: Seq<Seq<char>>,
    words: Seq<u64>,
    o: SectionOrigin,
    base: u16,
    n: nat,
) -> Seq<(u32, u32, u32, u16)>
    decreases n,
{
    if n == 0 {
        Seq::empty()
    } else {
        let prev = section_placements(palette, words, o, base, (n - 1) as nat);
        let i = n - 1;
        match block_voxel(palette[palette_index(words, i) as int], base) {
            Some(code) => prev.push(placement_at(o, i, code)),
            None => prev,
        }
    }
}

/// Why a section could not be decoded.
#[derive(Copy, Clone, PartialEq, Eq, Structural, Debug)]
pub enum SectionError {
    /// The packed array implies palette indices wider than 16 bits.
    EntryTooWide,
    /// A packed index points past the end of the palette.
    PaletteIndexOutOfRange,
}

/// Every packed index of the section names an entry of a palette of `len` names.
pub open spec fn indices_in_range(words: Seq<u64>, len: nat) -> bool {
    forall|i: int| 0 <= i < 4096 ==> #[trigger] palette_index(words, i) < len
}

/// What decoding a section gives.
pub open spec fn section_result(
    palette: Seq<Seq<char>>,
    words: Seq<u64>,
    o: SectionOrigin,
    base: u16,
) -> Result<Seq<(u32, u32, u32, u16)>, SectionError> {
    if entry_width(words.len()) > 16 {
        Err(SectionError::EntryTooWide)
    } else if !indices_in_range(words, palette.len()) {
        Err(SectionError::PaletteIndexOutOfRange)
    } else {
        Ok(section_placements(palette, words, o, base, 4096))
    }
}

/// `r` is the executable form of the decoding result `expected`.
pub open spec fn decoded_as(
    r: Result<Vec<Placement>, SectionError>,
    expected: Result<Seq<(u32, u32, u32, u16)>, SectionError>,
) -> bool {
    match r {
        Ok(v) => expected == Ok::<Seq<(u32, u32, u32, u16)>, SectionError>(placement_views(v@)),
        Err(e) => expected == Err::<Seq<(u32, u32, u32, u16)>, SectionError>(e),
    }
}

/// The voxel each palette entry places.
fn resolve_palette(palette: &Vec<String>, base: Voxel) -> (r: Vec<Option<Voxel>>)
    ensures
        r@.len() == palette@.len(),
        forall|k: int|
            0 <= k < palette@.len() ==> option_code(#[trigger] r@[k]) == block_voxel(
                palette@[k]@,
                base@,
            ),
{
    let mut r: Vec<Option<Voxel>> = Vec::new();
    let mut k: usize = 0;
    while k < palette.len()
        invariant
            k <= palette@.len(),
            r@.len() == k,
            forall|j: int|
                0 <= j < k ==> option_code(#[trigger] r@[j]) == block_voxel(palette@[j]@, base@),
        decreases palette@.len() - k,
    {
        r.push(block_voxel_of(palette[k].as_str(), base));
        k = k + 1;
    }
    r
}

/// Decodes one section: each of the 4096 packed palette indices is resolved to a
/// block name, and each name that places a voxel gives a placement at the
/// position's world coordinates, in position order.
pub fn decode_section(palette: &Vec<String>, words: &[u64], origin: SectionOrigin, base: Voxel) -> (r:
    Result<Vec<Placement>, SectionError>)
    requires
        origin_fits(origin),
    ensures
        decoded_as(r, section_result(names(palette@), words@, origin, base@)),
{
    let ghost pal = names(palette@);
    let width: usize = words.len() / 64;
    assert(width == entry_width(words@.len())) by (nonlinear_arith)
        requires
            width == words@.len() / 64,
    ;
    if width > MAX_ENTRY_WIDTH {
        return Err(SectionError::EntryTooWide);
    }
    assert(4096 * width <= words@.len() * 64) by (nonlinear_arith)
        requires
            width == words@.len() / 64,
    ;
    let resolved = resolve_palette(palette, base);
    let mut out: Vec<Placement> = Vec::new();
    let mut i: usize = 0;
    let mut start: usize = 0;
    while i < SECTION_VOLUME
        invariant
            i <= 4096,
            width <= 16,
            width == entry_width(words@.len()),
            4096 * width <= words@.len() * 64,
            start == i * width,
            origin_fits(origin),
            pal == names(palette@),
            resolved@.len() == palette@.len(),
            forall|k: int|
                0 <= k < palette@.len() ==> option_code(#[trigger] resolved@[k]) == block_voxel(
                    palette@[k]@,
                    base@,
                ),
            forall|k: int| 0 <= k < i ==> #[trigger] palette_index(words@, k) < palette@.len(),
            placement_views(out@) == section_placements(pal, words@, origin, base@, i as nat),
        decreases 4096 - i,
    {
        assert(start + width == (i + 1) * width && (i + 1) * width <= 4096 * width) by (
        nonlinear_arith)
            requires
                start == i * width,
                i < 4096,
        ;
        let index = read_field(words, start, width);
        assert(index as nat == palette_index(words@, i as int));
        if index as usize >= palette.len() {
            assert(!indices_in_range(words@, pal.len()));
            return Err(SectionError::PaletteIndexOutOfRange);
        }
        let ghost before = out@;
        match resolved[index as usize] {
            Some(v) => {
                let x: u32 = (i & 0xf) as u32;
                let z: u32 = ((i >> 4u32) & 0xf) as u32;
                let y: u32 = (i >> 8u32) as u32;
                assert(i >> 12u32 == 0 && (i & 0xf) == i % 16 && ((i >> 4u32) & 0xf) == (i / 16)
                    % 16 && i >> 8u32 == i / 256 && i / 256 < 16) by (bit_vector)
                    requires
                        i < 4096,
                ;
                out.push(Placement { x: origin.x + x, y: origin.y + y, z: origin.z + z, voxel: v });
                assert(placement_views(out@) =~= placement_views(before).push(
                    placement_at(origin, i as int, v@),
                ));
            },
            None => {},
        }
        i = i + 1;
        start = start + width;
    }
    Ok(out)
}


/// One vertical section of a chunk as the world format stores it.
pub struct Section {
    /// Vertical index of the section within its chunk.
    pub y: u32,
    /// Block names, indexed by the packed array.
    pub palette: Option<Vec<String>>,
    /// The packed array of 4096 palette indices.
    pub block_states: Option<Vec<u64>>,
}

/// The corner of a section, as `section_origin` computes it.
pub open spec fn origin_of(
    region_x: u32,
    region_y: u32,
    chunk_x: u32,
    chunk_z: u32,
    section_y: u32,
) -> SectionOrigin {
    SectionOrigin {
        x: (chunk_x * 16 + region_x * 512) as u32,
        y: (section_y * 16) as u32,
        z: (chunk_z * 16 + region_y * 512) as u32,
    }
}

/// What decoding the first `n` sections of a chunk gives: the placements of every
/// section that has both a palette and a packed array, in order, or the error of
/// the first section that fails.
pub open spec fn chunk_result(
    sections: Seq<Section>,
    region_x: u32,
    region_y: u32,
    chunk_x: u32,
    chunk_z: u32,
    base: u16,
    n: nat,
) -> Result<Seq<(u32, u32, u32, u16)>, SectionError>
    decreases n,
{
    if n == 0 {
        Ok(Seq::empty())
    } else {
        match chunk_result(sections, region_x, region_y, chunk_x, chunk_z, base, (n - 1) as nat) {
            Err(e) => Err(e),
            Ok(prev) => {
                let s = sections[n - 1];
                match (s.palette, s.block_states) {
                    (Some(p), Some(w)) => match section_result(
                        names(p@),
                        w@,
                        origin_of(region_x, region_y, chunk_x, chunk_z, s.y),
                        base,
                    ) {
                        Ok(q) => Ok(prev + q),
                        Err(e) => Err(e),
                    },
                    _ => Ok(prev),
                }
            },
        }
    }
}

/// Once a section fails, the chunk's result is that failure.
proof fn lemma_chunk_error_sticks(
    sections: Seq<Section>,
    region_x: u32,
    region_y: u32,
    chunk_x: u32,
    chunk_z: u32,
    base: u16,
    n: nat,
    m: nat,
    e: SectionError,
)
    requires
        n <= m,
        chunk_result(sections, region_x, region_y, chunk_x, chunk_z, base, n) == Err::<
            Seq<(u32, u32, u32, u16)>,
            SectionError,
        >(e),
    ensures
        chunk_result(sections, region_x, region_y, chunk_x, chunk_z, base, m) == Err::<
            Seq<(u32, u32, u32, u16)>,
            SectionError,
        >(e),
    decreases m - n,
{
    if n < m {
        lemma_chunk_error_sticks(sections, region_x, region_y, chunk_x, chunk_z, base, n, (m
            - 1) as nat, e);
    }
}

/// Decodes every section of chunk `(chunk_x, chunk_z)` of region `(region_x, region_y)`.
/// A section without a palette or without a packed array is skipped.
pub fn decode_chunk(
    sections: &Vec<Section>,
    region_x: u32,
    region_y: u32,
    chunk_x: u32,
    chunk_z: u32,
    base: Voxel,
) -> (r: Result<Vec<Placement>, SectionError>)
    requires
        chunk_x < 32,
        chunk_z < 32,
        region_x < 0x80_0000,
        region_y < 0x80_0000,
        forall|k: int| 0 <= k < sections@.len() ==> #[trigger] sections@[k].y < 0x1000_0000,
    ensures
        decoded_as(
            r,
            chunk_result(sections@, region_x, region_y, chunk_x, chunk_z, base@, sections@.len()),
        ),
{
    let mut out: Vec<Placement> = Vec::new();
    assert(placement_views(out@) =~= Seq::empty());
    let mut k: usize = 0;
    while k < sections.len()
        invariant
            chunk_x < 32,
            chunk_z < 32,
            region_x < 0x80_0000,
            region_y < 0x80_0000,
            forall|j: int| 0 <= j < sections@.len() ==> #[trigger] sections@[j].y < 0x1000_0000,
            k <= sections@.len(),
            chunk_result(sections@, region_x, region_y, chunk_x, chunk_z, base@, k as nat) == Ok::<
                Seq<(u32, u32, u32, u16)>,
                SectionError,
            >(placement_views(out@)),
        decreases sections@.len() - k,
    {
        let section = &sections[k];
        assert(section.y < 0x1000_0000);
        match (&section.palette, &section.block_states) {
            (Some(palette), Some(words)) => {
                let origin = section_origin(region_x, region_y, chunk_x, chunk_z, section.y);
                match decode_section(palette, words.as_slice(), origin, base) {
                    Ok(mut placed) => {
                        let ghost before = out@;
                        let ghost added = placed@;
                        out.append(&mut placed);
                        assert(placement_views(out@) =~= placement_views(before)
                            + placement_views(added));
                    },
                    Err(e) => {
                        proof {
                            lemma_chunk_error_sticks(
                                sections@,
                                region_x,
                                region_y,
                                chunk_x,
                                chunk_z,
                                base@,
                                (k + 1) as nat,
                                sections@.len(),
                                e,
                            );
                        }
                        return Err(e);
                    },
                }
            },
            _ => {},
        }
        k = k + 1;
    }
    Ok(out)
}


/// Where every position of a section places the same code, the placements are
/// one per position, in position order.
pub proof fn lemma_uniform_section_placements(
    palette: Seq<Seq<char>>,
    words: Seq<u64>,
    o: SectionOrigin,
    base: u16,
    code: u16,
    n: nat,
)
    requires
        forall|i: int|
            0 <= i < n ==> block_voxel(palette[#[trigger] palette_index(words, i) as int], base)
                == Some(code),
    ensures
        section_placements(palette, words, o, base, n).len() == n,
        forall|i: int|
            0 <= i < n ==> #[trigger] section_placements(palette, words, o, base, n)[i]
                == placement_at(o, i, code),
    decreases n,
{
    if n > 0 {
        lemma_uniform_section_placements(palette, words, o, base, code, (n - 1) as nat);
        assert(block_voxel(palette[palette_index(words, n - 1) as int], base) == Some(code));
    }
}

/// The 4096 positions of a section lie in the 16 x 16 x 16 box at its origin,
/// each at its own point.
pub proof fn lemma_placement_positions(o: SectionOrigin, i: int, j: int, code: u16)
    requires
        origin_fits(o),
        0 <= i < 4096,
        0 <= j < 4096,
    ensures
        o.x <= placement_at(o, i, code).0 < o.x + 16,
        o.y <= placement_at(o, i, code).1 < o.y + 16,
        o.z <= placement_at(o, i, code).2 < o.z + 16,
        i != j ==> placement_at(o, i, code) != placement_at(o, j, code),
{
    if i != j && placement_at(o, i, code) == placement_at(o, j, code) {
        assert(i % 16 == j % 16 && i / 256 == j / 256 && (i / 16) % 16 == (j / 16) % 16);
        assert(i == i % 16 + 16 * ((i / 16) % 16) + 256 * (i / 256)) by (nonlinear_arith)
            requires
                0 <= i < 4096,
        ;
        assert(j == j % 16 + 16 * ((j / 16) % 16) + 256 * (j / 256)) by (nonlinear_arith)
            requires
                0 <= j < 4096,
        ;
    }
}

/// A section whose palette is air then stone and whose packed array is 64 words
/// of ones (one bit per position) places the recolored stone voxel at each of
/// its 4096 positions, in position order, at heights `o.y .. o.y + 16`.
pub proof fn lemma_one_bit_stone_section(
    palette: Seq<Seq<char>>,
    words: Seq<u64>,
    o: SectionOrigin,
    base: u16,
)
    requires
        palette == seq!["minecraft:air"@, "minecraft:stone"@],
        words.len() == 64,
        forall|k: int| 0 <= k < 64 ==> #[trigger] words[k] == u64::MAX,
        origin_fits(o),
    ensures
        section_result(palette, words, o, base) matches Ok(s) && s.len() == 4096 && forall|i: int|
            0 <= i < 4096 ==> #[trigger] s[i] == placement_at(o, i, recolored(base, 3)) && o.y
                <= s[i].1 < o.y + 16,
{
    reveal_strlit("minecraft:air");
    reveal_strlit("minecraft:cave_air");
    reveal_strlit("minecraft:grass");
    reveal_strlit("minecraft:tall_grass");
    reveal_strlit("minecraft:stone");
    assert("minecraft:stone"@.len() == 15 && "minecraft:air"@.len() == 13
        && "minecraft:cave_air"@.len() == 18 && "minecraft:tall_grass"@.len() == 20);
    assert("minecraft:stone"@ != "minecraft:air"@);
    assert("minecraft:stone"@ != "minecraft:cave_air"@);
    assert("minecraft:stone"@ != "minecraft:tall_grass"@);
    assert("minecraft:stone"@ != "minecraft:grass"@) by {
        assert("minecraft:stone"@[10] != "minecraft:grass"@[10]);
    }
    let code = recolored(base, 3);
    assert(block_voxel("minecraft:stone"@, base) == Some(code));
    assert(entry_width(64) == 1);
    assert forall|i: int| 0 <= i < 4096 implies #[trigger] palette_index(words, i) == 1 by {
        let k = (i % 64) as u64;
        let w = words[i / 64];
        assert(w == u64::MAX);
        assert((w >> k) & 1u64 == 1u64) by (bit_vector)
            requires
                w == 0xffff_ffff_ffff_ffffu64,
                k < 64,
        ;
        assert(i * 1 == i);
        assert(bit_at(words, i) == 1);
        assert(field(words, i, 1) == bit_at(words, i) + 2 * field(words, i + 1, 0));
    }
    assert(indices_in_range(words, palette.len()));
    lemma_uniform_section_placements(palette, words, o, base, code, 4096);
    let s = section_placements(palette, words, o, base, 4096);
    assert forall|i: int| 0 <= i < 4096 implies #[trigger] s[i] == placement_at(o, i, code) && o.y
        <= s[i].1 < o.y + 16 by {
        lemma_placement_positions(o, i, i, code);
    }
}

/// The placement of one voxel of a voxel model, whose z axis points up: its y
/// and z swap, and its color index becomes the voxel's code.
pub fn model_placement(x: u8, y: u8, z: u8, color_index: u8) -> (r: Placement)
    ensures
        r@ == (x as u32, z as u32, y as u32, color_index as u16),
{
    Placement { x: x as u32, y: z as u32, z: y as u32, voxel: Voxel::from_raw(color_index as u16) }
}

} // verus!
