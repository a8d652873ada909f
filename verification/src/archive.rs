//! The archive model: named binary chunks ("lumps") as plain values.
//!
//! An archive is an ordered list of lumps, each a name, its raw bytes and
//! a flag telling whether the chunk is a flat image. Several archives are
//! searched in a fixed override order: the first archive holding a name
//! wins. Lookup is by exact byte equality on the stored name; callers
//! canonicalize names first.

use vstd::prelude::*;
use crate::model::bytes_eq;

verus! {

/// One named binary chunk of an archive.
pub struct Lump {
    pub name: Vec<u8>,
    pub bytes: Vec<u8>,
    pub is_flat: bool,
}

/// One archive: an ordered list of lumps.
pub struct Archive {
    pub lumps: Vec<Lump>,
}

/// The first position `>= j` of a lump named `name`, or `-1`.
pub open spec fn lump_first(lumps: Seq<Lump>, name: Seq<u8>, j: int) -> int
    decreases lumps.len() - j when 0 <= j <= lumps.len()
{
    if j >= lumps.len() {
        -1
    } else if lumps[j].name@ == name {
        j
    } else {
        lump_first(lumps, name, j + 1)
    }
}

/// Whether some lump of the archive carries `name`.
pub open spec fn has_lump(lumps: Seq<Lump>, name: Seq<u8>) -> bool {
    lump_first(lumps, name, 0) >= 0
}

impl Archive {
    /// Finds the first lump with exactly the given name.
    pub fn find(&self, name: &Vec<u8>) -> (r: Option<usize>)
        ensures
            match r {
                Some(i) => i < self.lumps@.len() && i as int == lump_first(self.lumps@,
                    name@, 0),
                None => !has_lump(self.lumps@, name@),
            },
    {
        let mut i: usize = 0;
        while i < self.lumps.len()
            invariant
                i <= self.lumps@.len(),
                lump_first(self.lumps@, name@, 0) == lump_first(self.lumps@, name@, i as int),
            decreases self.lumps@.len() - i,
        {
            if bytes_eq(&self.lumps[i].name, name) {
                return Some(i);
            }
            i = i + 1;
        }
        None
    }
}

/// Whether any archive of the list carries a lump named `name`.
pub open spec fn any_has_lump(wads: Seq<Archive>, name: Seq<u8>) -> bool {
    exists|w: int| 0 <= w < wads.len() && has_lump((#[trigger] wads[w]).lumps@, name)
}

/// The first archive at or after `j` holding a lump named `name`, or `-1`.
pub open spec fn first_wad_with(wads: Seq<Archive>, name: Seq<u8>, j: int) -> int
    decreases wads.len() - j when 0 <= j <= wads.len()
{
    if j >= wads.len() {
        -1
    } else if has_lump(wads[j].lumps@, name) {
        j
    } else {
        first_wad_with(wads, name, j + 1)
    }
}

/// The lump a priority search resolves `name` to: the first matching lump
/// of the first archive holding one.
pub open spec fn found_lump(wads: Seq<Archive>, name: Seq<u8>) -> Lump {
    let w = first_wad_with(wads, name, 0);
    wads[w].lumps@[lump_first(wads[w].lumps@, name, 0)]
}

/// What `first_wad_with` returns: either no archive at or after `j` holds
/// the name, or the first one that does.
pub proof fn lemma_first_wad_char(wads: Seq<Archive>, name: Seq<u8>, j: int)
    requires
        0 <= j <= wads.len(),
    ensures
        first_wad_with(wads, name, j) == -1 ==> (forall|v: int| j <= v < wads.len()
            ==> !has_lump((#[trigger] wads[v]).lumps@, name)),
        first_wad_with(wads, name, j) >= 0 ==> ({
            let r = first_wad_with(wads, name, j);
            &&& j <= r < wads.len()
            &&& has_lump(wads[r].lumps@, name)
            &&& forall|v: int| j <= v < r
                ==> !has_lump((#[trigger] wads[v]).lumps@, name)
        }),
        first_wad_with(wads, name, j) == -1 || first_wad_with(wads, name, j) >= 0,
    decreases wads.len() - j,
{
    if j < wads.len() {
        if has_lump(wads[j].lumps@, name) {
        } else {
            lemma_first_wad_char(wads, name, j + 1);
        }
    }
}

/// Finds the first archive holding `name` and the lump's position in it:
/// the supplemental archive earlier in the list takes priority.
pub fn find_in_wads(wads: &Vec<Archive>, name: &Vec<u8>) -> (r: Option<(usize, usize)>)
    ensures
        match r {
            Some((w, i)) => w < wads@.len() && i < wads@[w as int].lumps@.len()
                && w as int == first_wad_with(wads@, name@, 0)
                && i as int == lump_first(wads@[w as int].lumps@, name@, 0)
                && wads@[w as int].lumps@[i as int] == found_lump(wads@, name@)
                && any_has_lump(wads@, name@),
            None => !any_has_lump(wads@, name@),
        },
{
    let mut w: usize = 0;
    while w < wads.len()
        invariant
            w <= wads@.len(),
            forall|v: int| 0 <= v < w ==> !has_lump((#[trigger] wads@[v]).lumps@, name@),
        decreases wads@.len() - w,
    {
        if let Some(i) = wads[w].find(name) {
            proof {
                lemma_first_wad_char(wads@, name@, 0);
                assert(has_lump(wads@[w as int].lumps@, name@));
                assert(first_wad_with(wads@, name@, 0) == w);
                assert(any_has_lump(wads@, name@));
            }
            return Some((w, i));
        }
        w = w + 1;
    }
    proof {
        assert(!any_has_lump(wads@, name@)) by {
            assert(forall|v: int| 0 <= v < wads@.len()
                ==> !has_lump((#[trigger] wads@[v]).lumps@, name@));
        }
    }
    None
}

} // verus!
