//! The 16-bit tagged voxel code.
//!
//! Bit 15 clear: a regular material id in bits 0..15 (0 is air).
//! Bit 15 set: a colored material id in bits 8..15 and a palette color in bits 0..8.

use vstd::multiset::Multiset;
use vstd::prelude::*;

verus! {

broadcast use vstd::seq_lib::group_to_multiset_ensures;

/// Tag bit that marks a colored voxel.
pub const COLORED_TAG: u16 = 0x8000;

/// A voxel, stored in its packed 16-bit form.
#[derive(Copy, Clone, Default, PartialEq, Eq, Structural, PartialOrd, Ord, Hash, Debug)]
pub struct Voxel(u16);

/// The decoded form of a voxel.
#[derive(Copy, Clone, PartialEq, Eq, Structural, Debug)]
pub enum VoxelData {
    /// A regular material id below 0x8000.
    Regular(u16),
    /// A colored material id below 0x80 and a palette color index.
    Colored(u8, u8),
}

impl View for Voxel {
    type V = u16;

    closed spec fn view(&self) -> u16 {
        self.0
    }
}

/// The decoded meaning of a raw 16-bit voxel code.
pub open spec fn decode(raw: u16) -> VoxelData {
    if raw < 0x8000 {
        VoxelData::Regular(raw)
    } else {
        VoxelData::Colored(((raw - 0x8000) / 0x100) as u8, (raw % 0x100) as u8)
    }
}

/// The raw code of the colored voxel with material `id` and palette color `color`.
pub open spec fn colored_code(id: u8, color: u8) -> u16 {
    (0x8000 + id * 0x100 + color) as u16
}

/// The raw code that `with_color(color)` gives for the raw code `raw`.
pub open spec fn recolored(raw: u16, color: u8) -> u16 {
    match decode(raw) {
        VoxelData::Regular(_) => raw,
        VoxelData::Colored(id, _) => colored_code(id, color),
    }
}

impl Voxel {
    /// A colored voxel; `id` must fit in seven bits.
    pub fn new_colored(id: u8, color: u8) -> (r: Voxel)
        requires
            id < 0x80,
        ensures
            r@ == colored_code(id, color),
    {
        let tagged: u8 = id | 0x80;
        let raw: u16 = ((tagged as u16) << 8u16) | (color as u16);
        assert(raw == colored_code(id, color)) by (bit_vector)
            requires
                id < 0x80,
                tagged == id | 0x80,
                raw == ((tagged as u16) << 8u16) | (color as u16),
        ;
        Voxel(raw)
    }

    /// A regular voxel; `id` must leave the tag bit clear.
    pub fn new(id: u16) -> (r: Voxel)
        requires
            id < 0x8000,
        ensures
            r@ == id,
    {
        Voxel(id)
    }

    /// The voxel whose packed code is `raw`; every 16-bit value is a valid code.
    pub fn from_raw(raw: u16) -> (r: Voxel)
        ensures
            r@ == raw,
    {
        Voxel(raw)
    }

    /// The packed 16-bit code.
    pub fn raw(&self) -> (r: u16)
        ensures
            r == self@,
    {
        self.0
    }

    /// Decodes the packed code.
    pub fn get(&self) -> (r: VoxelData)
        ensures
            r == decode(self@),
    {
        let raw = self.0;
        if raw & COLORED_TAG == 0 {
            assert(raw < 0x8000) by (bit_vector)
                requires
                    raw & 0x8000 == 0,
            ;
            VoxelData::Regular(raw)
        } else {
            let id: u8 = ((raw >> 8u16) as u8) & 0x7f;
            let color: u8 = (raw & 0xff) as u8;
            assert(raw >= 0x8000 && id == ((raw - 0x8000) / 0x100) as u8 && color == (raw
                % 0x100) as u8) by (bit_vector)
                requires
                    raw & 0x8000 != 0,
                    id == ((raw >> 8u16) as u8) & 0x7f,
                    color == (raw & 0xff) as u8,
            ;
            VoxelData::Colored(id, color)
        }
    }

    /// A copy with the palette color replaced; a regular voxel comes back unchanged.
    pub fn with_color(&self, color: u8) -> (r: Voxel)
        ensures
            r@ == recolored(self@, color),
    {
        match self.get() {
            VoxelData::Regular(_) => *self,
            VoxelData::Colored(id, _) => {
                let raw = self.0;
                assert((((raw - 0x8000) / 0x100) as u8) < 0x80) by (bit_vector)
                    requires
                        raw >= 0x8000,
                ;
                Voxel::new_colored(id, color)
            },
        }
    }
}


/// The raw code of an optional voxel.
pub open spec fn option_code(v: Option<Voxel>) -> Option<u16> {
    match v {
        Some(x) => Some(x@),
        None => None,
    }
}

/// The raw codes of a sequence of voxels.
pub open spec fn codes(s: Seq<Voxel>) -> Seq<u16> {
    s.map_values(|v: Voxel| v@)
}

/// `w` wins the plurality vote over the multiset of codes `m`: it occurs, no code
/// occurs more often, and every code that occurs as often is not smaller.
pub open spec fn is_plurality(m: Multiset<u16>, w: u16) -> bool {
    &&& m.count(w) > 0
    &&& forall|v: u16|
        #![trigger m.count(v)]
        m.count(v) > 0 ==> m.count(v) < m.count(w) || (m.count(v) == m.count(w) && w <= v)
}

/// The winner of the plurality vote over `m`, ties going to the smallest code.
pub open spec fn plurality(m: Multiset<u16>) -> u16 {
    choose|w: u16| is_plurality(m, w)
}

/// The level-of-detail value of eight sibling voxels.
pub open spec fn reduced(values: Seq<Voxel>) -> u16 {
    plurality(codes(values).to_multiset())
}

/// A vote has at most one winner.
pub proof fn lemma_plurality_unique(m: Multiset<u16>, a: u16, b: u16)
    requires
        is_plurality(m, a),
        is_plurality(m, b),
    ensures
        a == b,
{
    assert(m.count(b) > 0);
    assert(m.count(a) > 0);
}

/// A winner is what `plurality` names.
pub proof fn lemma_plurality_is(m: Multiset<u16>, w: u16)
    requires
        is_plurality(m, w),
    ensures
        plurality(m) == w,
{
    lemma_plurality_unique(m, plurality(m), w);
}

/// How often `code` occurs among the eight voxels.
fn count_code(values: &[Voxel; 8], code: u16) -> (n: usize)
    ensures
        n == codes(values@).to_multiset().count(code),
{
    let ghost s = codes(values@);
    let mut n: usize = 0;
    let mut j: usize = 0;
    while j < 8
        invariant
            j <= 8,
            s == codes(values@),
            n <= j,
            n == s.subrange(0, j as int).to_multiset().count(code),
        decreases 8 - j,
    {
        assert(s.subrange(0, j + 1) =~= s.subrange(0, j as int).push(s[j as int]));
        if values[j].0 == code {
            n = n + 1;
        }
        j = j + 1;
    }
    assert(s.subrange(0, 8) =~= s);
    n
}

impl Voxel {
    /// Merges eight sibling voxels into one: the code that occurs most often,
    /// the smallest such code where several tie.
    pub fn reduce8(values: &[Voxel; 8]) -> (r: Voxel)
        ensures
            r@ == reduced(values@),
            is_plurality(codes(values@).to_multiset(), r@),
    {
        let ghost s = codes(values@);
        let ghost m = s.to_multiset();
        let mut best: u16 = values[0].0;
        let mut best_count: usize = count_code(values, best);
        assert(s[0] == best);
        let mut i: usize = 1;
        while i < 8
            invariant
                1 <= i <= 8,
                s == codes(values@),
                m == s.to_multiset(),
                s.contains(best),
                best_count == m.count(best),
                forall|k: int|
                    0 <= k < i ==> m.count(#[trigger] s[k]) < best_count || (m.count(s[k])
                        == best_count && best <= s[k]),
            decreases 8 - i,
        {
            let code = values[i].0;
            let n = count_code(values, code);
            assert(s[i as int] == code);
            if n > best_count || (n == best_count && code < best) {
                best = code;
                best_count = n;
            }
            i = i + 1;
        }
        assert forall|v: u16| #[trigger] m.count(v) > 0 implies m.count(v) < m.count(best) || (
        m.count(v) == m.count(best) && best <= v) by {
            assert(s.contains(v));
            let k = choose|k: int| 0 <= k < s.len() && s[k] == v;
            assert(s[k] == v);
        }
        proof {
            lemma_plurality_is(m, best);
        }
        Voxel(best)
    }
}

/// Decoding a regular voxel gives back its id.
pub proof fn lemma_regular_round_trip(id: u16)
    requires
        id < 0x8000,
    ensures
        decode(id) == VoxelData::Regular(id),
{
}

/// Decoding a colored voxel gives back its id and color, and recoloring it
/// changes the color alone.
pub proof fn lemma_colored_round_trip(id: u8, color: u8, other: u8)
    requires
        id < 0x80,
    ensures
        decode(colored_code(id, color)) == VoxelData::Colored(id, color),
        recolored(colored_code(id, color), other) == colored_code(id, other),
{
}

/// Recoloring leaves every regular voxel as it is.
pub proof fn lemma_recolor_regular(raw: u16, color: u8)
    requires
        raw < 0x8000,
    ensures
        recolored(raw, color) == raw,
{
}

/// The vote does not depend on the order of its inputs: two arrays holding the
/// same codes, each as often, reduce to the same code.
pub proof fn lemma_reduce8_order_independent(a: [Voxel; 8], b: [Voxel; 8])
    requires
        codes(a@).to_multiset() == codes(b@).to_multiset(),
    ensures
        reduced(a@) == reduced(b@),
{
}

/// Eight equal voxels reduce to that voxel.
pub proof fn lemma_reduce8_unanimous(values: [Voxel; 8], v: Voxel)
    requires
        forall|i: int| 0 <= i < 8 ==> values@[i] == v,
    ensures
        reduced(values@) == v@,
{
    let s = codes(values@);
    let m = s.to_multiset();
    assert(s.contains(v@)) by {
        assert(s[0] == v@);
    }
    assert forall|x: u16| #[trigger] m.count(x) > 0 implies m.count(x) < m.count(v@) || (m.count(x)
        == m.count(v@) && v@ <= x) by {
        assert(s.contains(x));
        let k = choose|k: int| 0 <= k < s.len() && s[k] == x;
        assert(s[k] == v@);
    }
    lemma_plurality_is(m, v@);
}


/// `p` is a permutation of `0..n`.
pub open spec fn is_permutation(p: Seq<int>, n: nat) -> bool {
    &&& p.len() == n
    &&& forall|k: int| 0 <= k < n ==> 0 <= #[trigger] p[k] < n
    &&& forall|j: int, k: int| 0 <= j < k < n ==> p[j] != p[k]
}

/// Rearranging a sequence by a permutation keeps its multiset.
pub proof fn lemma_permutation_multiset(a: Seq<u16>, b: Seq<u16>, p: Seq<int>)
    requires
        a.len() == b.len(),
        is_permutation(p, a.len()),
        forall|k: int| 0 <= k < b.len() ==> b[k] == a[#[trigger] p[k]],
    ensures
        a.to_multiset() == b.to_multiset(),
    decreases a.len(),
{
    broadcast use vstd::multiset::group_multiset_axioms;

    let n = a.len();
    if n == 0 {
        assert(a =~= Seq::<u16>::empty());
        assert(b =~= Seq::<u16>::empty());
    } else {
        let last = p[n - 1];
        let a1 = a.remove(last);
        let b1 = b.drop_last();
        let p1 = Seq::new((n - 1) as nat, |k: int| if p[k] > last { p[k] - 1 } else { p[k] });
        assert forall|k: int| 0 <= k < b1.len() implies b1[k] == a1[#[trigger] p1[k]] by {
            assert(p[k] != last);
        }
        assert forall|j: int, k: int| 0 <= j < k < n - 1 implies p1[j] != p1[k] by {
            assert(p[j] != p[k]);
            assert(p[j] != last && p[k] != last);
        }
        assert forall|k: int| 0 <= k < n - 1 implies 0 <= #[trigger] p1[k] < n - 1 by {
            assert(p[k] != last);
        }
        lemma_permutation_multiset(a1, b1, p1);
        assert(b =~= b1.push(b[n - 1]));
        vstd::seq_lib::to_multiset_remove(a, last);
        assert(a.to_multiset().count(a[last]) > 0) by {
            assert(a.contains(a[last]));
        }
        assert(b.to_multiset() =~= a.to_multiset());
    }
}

/// The vote does not depend on the order of its inputs: rearranging the eight
/// voxels by any permutation gives the same result.
pub proof fn lemma_reduce8_permutation(a: [Voxel; 8], b: [Voxel; 8], p: Seq<int>)
    requires
        is_permutation(p, 8),
        forall|k: int| 0 <= k < 8 ==> b@[k] == a@[#[trigger] p[k]],
    ensures
        reduced(a@) == reduced(b@),
{
    lemma_permutation_multiset(codes(a@), codes(b@), p);
}

} // verus!
