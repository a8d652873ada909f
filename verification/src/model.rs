//! The in-memory level model.
//!
//! Entities reference each other exclusively by integer index into the
//! shared arrays of `CompleteMap`; an absent sidedef is the sentinel `-1`.
//! Texture names are the raw 8-byte NUL-padded fields as decoded; every
//! lookup canonicalizes them first (see `defs`).

use vstd::prelude::*;

verus! {

/// A 2D map vertex, referenced by index from linedefs.
#[derive(Clone, Copy, Debug, PartialEq, Eq, Structural)]
pub struct Vert {
    pub x: i16,
    pub y: i16,
}

/// A decoded THINGS record.
#[derive(Clone, Copy, Debug, PartialEq, Eq, Structural)]
pub struct Thing {
    pub x: i16,
    pub y: i16,
    pub angle: i16,
    pub thing_type: i16,
    pub flags: i16,
}

/// A directed wall segment bounding one or two sectors.
///
/// `front_sidedef` / `back_sidedef` are indices into the sidedef array;
/// a negative value means the side is absent. A linedef with both sides
/// is a two-sided (interior) wall, with one a one-sided (exterior) wall.
#[derive(Clone, Copy, Debug, PartialEq, Eq, Structural)]
pub struct Linedef {
    pub start_vert: i16,
    pub end_vert: i16,
    pub flags: i16,
    pub special_type: i16,
    pub sector_tag: i16,
    pub front_sidedef: i16,
    pub back_sidedef: i16,
}

/// Per-linedef-per-side texture and offset data.
///
/// The three texture slots are raw 8-byte names; `"-"` means "no texture".
#[derive(Clone, Debug)]
pub struct Sidedef {
    pub x_off: i16,
    pub y_off: i16,
    pub upper_tex: Vec<u8>,
    pub lower_tex: Vec<u8>,
    pub mid_tex: Vec<u8>,
    pub sector: i16,
}

/// A floor-plan region with floor/ceiling heights and textures.
///
/// `linedefs` is populated once, after decoding, by the linking pass that
/// scans every linedef's front and back sector.
#[derive(Clone, Debug)]
pub struct Sector {
    pub floor_height: i16,
    pub ceil_height: i16,
    pub floor_tex: Vec<u8>,
    pub ceil_tex: Vec<u8>,
    pub light_level: i16,
    pub special: i16,
    pub tag: i16,
    pub linedefs: Vec<i16>,
}

/// One patch placement inside a composite texture: the patch-table index
/// and the placement offset on the texture canvas.
#[derive(Clone, Copy, Debug, PartialEq, Eq, Structural)]
pub struct TexturePatch {
    pub origin_x: i16,
    pub origin_y: i16,
    pub patch: i16,
}

/// A composite texture: a canvas of the declared size onto which each
/// patch is stamped at its offset, later patches overwriting earlier ones.
///
/// `wad_ind` is the archive whose patch-name table resolves `patch` indices.
#[derive(Clone, Debug)]
pub struct TextureEntry {
    pub width: i16,
    pub height: i16,
    pub patch_count: i16,
    pub patches: Vec<TexturePatch>,
    pub wad_ind: usize,
}

/// The assembled level model: one owned aggregate, constructed once per
/// loaded map and read-only afterwards except for the single linking pass
/// that fills each sector's linedef list.
pub struct CompleteMap {
    pub things_vec: Vec<Thing>,
    pub linedef_vec: Vec<Linedef>,
    pub vert_vec: Vec<Vert>,
    pub sector_vec: Vec<Sector>,
    pub sidefef_vec: Vec<Sidedef>,
    /// Per-archive patch-name tables: raw 8-byte NUL-padded names in
    /// table order; lookups canonicalize them on use.
    pub pnames: Vec<Vec<Vec<u8>>>,
    /// Composite texture table keyed by canonical name; keys are unique,
    /// insertion order kept, first definition wins.
    pub texture_defs: Vec<(Vec<u8>, TextureEntry)>,
}

/// The keys of an association list.
pub open spec fn assoc_keys<V>(m: Seq<(Vec<u8>, V)>) -> Seq<Seq<u8>> {
    m.map_values(|p: (Vec<u8>, V)| p.0@)
}

/// Whether the keys of an association list are pairwise distinct.
pub open spec fn assoc_keys_unique<V>(m: Seq<(Vec<u8>, V)>) -> bool {
    forall|i: int, j: int|
        0 <= i < j < m.len() ==> assoc_keys(m)[i] != assoc_keys(m)[j]
}

/// Whether some entry of the association list has key `key`.
pub open spec fn assoc_contains<V>(m: Seq<(Vec<u8>, V)>, key: Seq<u8>) -> bool {
    exists|i: int| 0 <= i < m.len() && assoc_keys(m)[i] == key
}

/// Finds the entry of `m` whose key equals `key` exactly, scanning in order.
pub fn assoc_find<V>(m: &Vec<(Vec<u8>, V)>, key: &Vec<u8>) -> (r: Option<usize>)
    ensures
        match r {
            Some(i) => i < m@.len() && assoc_keys(m@)[i as int] == key@
                && (forall|k: int| 0 <= k < i ==> assoc_keys(m@)[k] != key@),
            None => !assoc_contains(m@, key@),
        },
{
    let mut i: usize = 0;
    while i < m.len()
        invariant
            i <= m@.len(),
            forall|k: int| 0 <= k < i ==> assoc_keys(m@)[k] != key@,
        decreases m@.len() - i,
    {
        if bytes_eq(&m[i].0, key) {
            return Some(i);
        }
        i = i + 1;
    }
    None
}

/// Appending an entry with a fresh key keeps the keys unique.
pub proof fn lemma_assoc_push_unique<V>(s: Seq<(Vec<u8>, V)>, p: (Vec<u8>, V))
    requires
        assoc_keys_unique(s),
        !assoc_contains(s, p.0@),
    ensures
        assoc_keys_unique(s.push(p)),
{
    let t = s.push(p);
    assert forall|a: int, b: int| 0 <= a < b < t.len()
        implies assoc_keys(t)[a] != assoc_keys(t)[b] by {
        assert(assoc_keys(t)[a] == t[a].0@);
        assert(assoc_keys(t)[b] == t[b].0@);
        if b < t.len() - 1 {
            assert(t[a] == s[a] && t[b] == s[b]);
            assert(assoc_keys(s)[a] == s[a].0@);
            assert(assoc_keys(s)[b] == s[b].0@);
            assert(assoc_keys(s)[a] != assoc_keys(s)[b]);
        } else {
            assert(t[b].0@ == p.0@);
            assert(t[a] == s[a]);
            assert(assoc_keys(s)[a] == s[a].0@);
            if s[a].0@ == p.0@ {
                assert(assoc_contains(s, p.0@));
            }
        }
    }
}

/// A fresh copy of a point list.
pub fn copy_points(src: &Vec<Vert>) -> (r: Vec<Vert>)
    ensures
        r@ == src@,
{
    let mut r: Vec<Vert> = Vec::new();
    let mut i: usize = 0;
    while i < src.len()
        invariant
            i <= src@.len(),
            r@.len() == i,
            forall|k: int| 0 <= k < i ==> r@[k] == src@[k],
        decreases src@.len() - i,
    {
        r.push(src[i]);
        i = i + 1;
    }
    proof {
        assert(r@ =~= src@);
    }
    r
}

/// A fresh copy of a byte vector.
pub fn copy_bytes(src: &Vec<u8>) -> (r: Vec<u8>)
    ensures
        r@ == src@,
{
    let mut r: Vec<u8> = Vec::new();
    let mut i: usize = 0;
    while i < src.len()
        invariant
            i <= src@.len(),
            r@.len() == i,
            forall|k: int| 0 <= k < i ==> r@[k] == src@[k],
        decreases src@.len() - i,
    {
        r.push(src[i]);
        i = i + 1;
    }
    proof {
        assert(r@ =~= src@);
    }
    r
}

/// Exact byte-for-byte equality of two byte vectors.
pub fn bytes_eq(a: &Vec<u8>, b: &Vec<u8>) -> (r: bool)
    ensures
        r == (a@ == b@),
{
    if a.len() != b.len() {
        proof {
            assert(a@.len() != b@.len());
        }
        return false;
    }
    let mut i: usize = 0;
    while i < a.len()
        invariant
            i <= a@.len(),
            a@.len() == b@.len(),
            forall|k: int| 0 <= k < i ==> a@[k] == b@[k],
        decreases a@.len() - i,
    {
        if a[i] != b[i] {
            return false;
        }
        i = i + 1;
    }
    proof {
        assert(a@ =~= b@);
    }
    true
}

} // verus!
