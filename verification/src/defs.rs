//! Error taxonomy and canonical texture-name handling.
//!
//! Every name stored in an archive is a fixed 8-byte, NUL-padded field.
//! Before any lookup the trailing NUL bytes are trimmed and the ASCII
//! letters are uppercased; all lookup paths use this canonical form.

use vstd::prelude::*;

verus! {

/// Errors of the level-reconstruction pipeline.
///
/// `MissingLump` and `PaletteMissing` abort a map load; the others are
/// confined to one texture, patch or sector and let processing continue.
#[derive(Clone, Copy, Debug, PartialEq, Eq, Structural)]
pub enum WadError {
    /// A required named buffer is absent from every archive.
    MissingLump,
    /// A named buffer exists but its declared size is zero.
    EmptyLump,
    /// Corrupt column-run data in a picture image.
    MalformedPatch,
    /// No archive holds a color palette.
    PaletteMissing,
    /// A name matches neither a composite texture entry nor any archive lump.
    UnknownTexture,
}

/// Uppercases one ASCII byte; other bytes pass through unchanged.
pub open spec fn upper_byte(b: u8) -> u8 {
    if 97 <= b && b <= 122 {
        (b - 32) as u8
    } else {
        b
    }
}

/// Drops the trailing NUL bytes of a name.
pub open spec fn trim_nul(s: Seq<u8>) -> Seq<u8>
    decreases s.len(),
{
    if s.len() > 0 && s[s.len() - 1] == 0 {
        trim_nul(s.drop_last())
    } else {
        s
    }
}

/// The canonical form of a name: trailing NULs trimmed, then uppercased.
pub open spec fn canon(s: Seq<u8>) -> Seq<u8> {
    trim_nul(s).map_values(|b: u8| upper_byte(b))
}

/// Number of trailing NUL bytes of `s`.
spec fn nul_tail_len(s: Seq<u8>) -> int
    decreases s.len(),
{
    if s.len() > 0 && s[s.len() - 1] == 0 {
        1 + nul_tail_len(s.drop_last())
    } else {
        0
    }
}

proof fn lemma_trim_nul_prefix(s: Seq<u8>)
    ensures
        0 <= nul_tail_len(s) <= s.len(),
        trim_nul(s) == s.subrange(0, s.len() - nul_tail_len(s)),
    decreases s.len(),
{
    if s.len() > 0 && s[s.len() - 1] == 0 {
        lemma_trim_nul_prefix(s.drop_last());
        assert(s.drop_last() == s.subrange(0, s.len() - 1));
        assert(s.drop_last().subrange(0, s.drop_last().len() - nul_tail_len(s.drop_last()))
            =~= s.subrange(0, s.len() - nul_tail_len(s)));
    } else {
        assert(trim_nul(s) == s);
        assert(s =~= s.subrange(0, s.len() as int));
    }
}

/// Builds the canonical form of a raw name: trailing NUL bytes trimmed,
/// ASCII letters uppercased.
pub fn canonical_name(name: &Vec<u8>) -> (r: Vec<u8>)
    ensures
        r@ == canon(name@),
{
    let mut end: usize = name.len();
    proof {
        assert(name@.subrange(0, end as int) =~= name@);
    }
    while end > 0 && name[end - 1] == 0
        invariant
            end <= name.len(),
            trim_nul(name@) == trim_nul(name@.subrange(0, end as int)),
        decreases end,
    {
        assert(name@.subrange(0, end as int).drop_last() =~= name@.subrange(0, end - 1));
        end = end - 1;
    }
    proof {
        lemma_trim_nul_prefix(name@.subrange(0, end as int));
        assert(nul_tail_len(name@.subrange(0, end as int)) == 0);
        assert(trim_nul(name@) =~= name@.subrange(0, end as int));
    }
    let mut r: Vec<u8> = Vec::new();
    let mut i: usize = 0;
    while i < end
        invariant
            i <= end,
            end <= name.len(),
            trim_nul(name@) == name@.subrange(0, end as int),
            r@.len() == i,
            forall|k: int| 0 <= k < i ==> r@[k] == upper_byte(name@[k]),
        decreases end - i,
    {
        let b = name[i];
        if 97 <= b && b <= 122 {
            r.push(b - 32);
        } else {
            r.push(b);
        }
        i = i + 1;
    }
    proof {
        assert(r@ =~= canon(name@));
    }
    r
}

} // verus!
