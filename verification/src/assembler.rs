//! Map assembly: resolving the named lumps of the loaded archives,
//! decoding them into the level model, building the patch-name table and
//! the composite-texture tables, and linking each linedef into the
//! linedef lists of the sectors it bounds.

use vstd::prelude::*;
use crate::archive::Archive;
use crate::codec;
use crate::defs::{canon, WadError};
use crate::model::{assoc_keys_unique, assoc_find, lemma_assoc_push_unique, CompleteMap,
    TextureEntry, TexturePatch};
use crate::palette::{Palette, FLAT_SIZE};
use crate::picture::TexImage;

verus! {

/// The number of names the patch-name table holds for a `PNAMES` buffer:
/// one fewer than the leading count, further limited by the bytes
/// actually present (the first record sits at offset 4).
pub open spec fn pnames_len(b: Seq<u8>) -> int {
    if b.len() < 4 {
        0
    } else {
        let count = codec::le_u32(b[0], b[1], b[2], b[3]);
        let fit = (b.len() - 4) / 8;
        if count - 1 <= fit {
            if count - 1 < 0 {
                0
            } else {
                count - 1
            }
        } else {
            fit
        }
    }
}

/// Decodes the patch-name table: a leading 4-byte count, then fixed
/// 8-byte names, the first at offset 4. Trailing entries that do not fit
/// in the buffer are dropped.
pub fn decode_pnames(buf: &Vec<u8>) -> (r: Vec<Vec<u8>>)
    ensures
        r@.len() == pnames_len(buf@),
        forall|k: int| 0 <= k < r@.len() ==> (#[trigger] r@[k])@ == buf@.subrange(8 * k + 4,
            8 * k + 12),
{
    let mut r: Vec<Vec<u8>> = Vec::new();
    if buf.len() < 4 {
        return r;
    }
    let blen = buf.len();
    let count = codec::read_field_u32(buf, 0);
    let fit = (blen - 4) / 8;
    let n: usize = if count == 0 {
        0
    } else if (count - 1) as usize <= fit {
        (count - 1) as usize
    } else {
        fit
    };
    proof {
        assert(n == pnames_len(buf@));
    }
    let mut k: usize = 0;
    while k < n
        invariant
            k <= n,
            n <= (blen - 4) / 8,
            4 <= blen,
            blen == buf@.len(),
            r@.len() == k,
            forall|t: int| 0 <= t < k ==> (#[trigger] r@[t])@ == buf@.subrange(8 * t + 4,
                8 * t + 12),
        decreases n - k,
    {
        proof {
            assert(8 * k + 12 <= blen) by (nonlinear_arith)
                requires
                    k < n,
                    n <= (blen as int - 4) / 8,
                    4 <= blen,
            ;
        }
        let name = codec::read_name8(buf, 8 * k + 4);
        r.push(name);
        k = k + 1;
    }
    r
}

/// The 10-byte patch placement record of `b` at offset `po`.
pub open spec fn patch_at(b: Seq<u8>, po: int) -> TexturePatch {
    TexturePatch {
        origin_x: codec::field_i16(b, po) as i16,
        origin_y: codec::field_i16(b, po + 2) as i16,
        patch: codec::field_i16(b, po + 4) as i16,
    }
}

/// Whether a whole texture header fits the buffer at `off`: the 22-byte
/// fixed part and one 10-byte record per patch, with a non-negative
/// patch count.
pub open spec fn entry_fits(b: Seq<u8>, off: int) -> bool {
    &&& off + 22 <= b.len()
    &&& codec::field_i16(b, off + 20) >= 0
    &&& codec::field_i16(b, off + 20) <= (b.len() - off - 22) / 10
}

/// Decodes one composite texture header at `offset`: its raw 8-byte name,
/// the canvas size, and the patch placement records. Yields nothing
/// exactly when some field would fall outside the buffer.
pub fn decode_texture_entry(buf: &Vec<u8>, offset: usize, wad_ind: usize) -> (r: Option<(Vec<
    u8>, TextureEntry)>)
    ensures
        (r is Some) <==> entry_fits(buf@, offset as int),
        match r {
            Some((name, e)) => {
                &&& offset + 22 <= buf@.len()
                &&& name@ == buf@.subrange(offset as int, offset + 8)
                &&& e.width as int == codec::field_i16(buf@, offset + 12)
                &&& e.height as int == codec::field_i16(buf@, offset + 14)
                &&& e.patch_count as int == codec::field_i16(buf@, offset + 20)
                &&& e.wad_ind == wad_ind
                &&& e.patches@.len() == e.patch_count as int
                &&& (forall|j: int| 0 <= j < e.patches@.len()
                    ==> (#[trigger] e.patches@[j]) == patch_at(buf@, offset + 22 + 10 * j))
            },
            None => true,
        },
{
    let blen = buf.len();
    if offset > blen || blen - offset < 22 {
        return None;
    }
    let name = codec::read_name8(buf, offset);
    let width = codec::read_field_i16(buf, offset + 12);
    let height = codec::read_field_i16(buf, offset + 14);
    let patch_count = codec::read_field_i16(buf, offset + 20);
    if patch_count < 0 {
        return None;
    }
    let pc = patch_count as usize;
    if pc > (blen - offset - 22) / 10 {
        return None;
    }
    let mut patches: Vec<TexturePatch> = Vec::new();
    let mut j: usize = 0;
    while j < pc
        invariant
            j <= pc,
            pc <= (blen - offset as int - 22) / 10,
            offset + 22 <= blen,
            blen == buf@.len(),
            patches@.len() == j,
            forall|t: int| 0 <= t < j
                ==> (#[trigger] patches@[t]) == patch_at(buf@, offset + 22 + 10 * t),
        decreases pc - j,
    {
        proof {
            assert(offset + 22 + 10 * j + 10 <= blen) by (nonlinear_arith)
                requires
                    j < pc,
                    pc <= (blen as int - offset as int - 22) / 10,
                    offset + 22 <= blen,
            ;
        }
        let po = offset + 22 + 10 * j;
        patches.push(TexturePatch {
            origin_x: codec::read_field_i16(buf, po),
            origin_y: codec::read_field_i16(buf, po + 2),
            patch: codec::read_field_i16(buf, po + 4),
        });
        j = j + 1;
    }
    Some((name, TextureEntry { width, height, patch_count, patches, wad_ind }))
}

/// The ghost image of one texture entry: width, height, patch count,
/// patch records and owning archive.
pub open spec fn entry_view_at(b: Seq<u8>, off: int, wad_ind: int) -> (int, int, int,
    Seq<TexturePatch>, int) {
    (codec::field_i16(b, off + 12), codec::field_i16(b, off + 14), codec::field_i16(b,
        off + 20), Seq::new(codec::field_i16(b, off + 20) as nat, |j: int| patch_at(b,
        off + 22 + 10 * j)), wad_ind)
}

/// The ghost image of a texture table: each entry's canonical key and
/// entry view.
pub open spec fn def_views(defs: Seq<(Vec<u8>, TextureEntry)>) -> Seq<(Seq<u8>, (int, int,
    int, Seq<TexturePatch>, int))> {
    defs.map_values(|p: (Vec<u8>, TextureEntry)| (p.0@, (p.1.width as int, p.1.height as int,
        p.1.patch_count as int, p.1.patches@, p.1.wad_ind as int)))
}

/// Whether some entry of the table image carries `key`.
pub open spec fn views_have_key(acc: Seq<(Seq<u8>, (int, int, int, Seq<TexturePatch>,
    int))>, key: Seq<u8>) -> bool {
    exists|t: int| 0 <= t < acc.len() && (#[trigger] acc[t]).0 == key
}

/// Folds the table slots `i .. n` over the accumulated image: each slot
/// names a header offset; a fitting header under a fresh canonical name
/// is appended, anything else is skipped.
pub open spec fn table_rec(
    b: Seq<u8>,
    wad_ind: int,
    acc: Seq<(Seq<u8>, (int, int, int, Seq<TexturePatch>, int))>,
    i: int,
    n: int,
) -> Seq<(Seq<u8>, (int, int, int, Seq<TexturePatch>, int))>
    decreases n - i,
{
    if i >= n {
        acc
    } else {
        let off = codec::le_u32(b[4 * i], b[4 * i + 1], b[4 * i + 2], b[4 * i + 3]);
        let acc2 = if off <= usize::MAX && entry_fits(b, off) {
            let key = canon(b.subrange(off, off + 8));
            if views_have_key(acc, key) {
                acc
            } else {
                acc.push((key, entry_view_at(b, off, wad_ind)))
            }
        } else {
            acc
        };
        table_rec(b, wad_ind, acc2, i + 1, n)
    }
}

/// The table image a whole lump folds to: slots run from 1 to one less
/// than the leading count, clamped to the offsets present in the buffer.
pub open spec fn spec_texture_table(
    b: Seq<u8>,
    wad_ind: int,
    acc: Seq<(Seq<u8>, (int, int, int, Seq<TexturePatch>, int))>,
) -> Seq<(Seq<u8>, (int, int, int, Seq<TexturePatch>, int))> {
    if b.len() < 4 {
        acc
    } else {
        let count = codec::le_u32(b[0], b[1], b[2], b[3]);
        let fit = b.len() as int / 4;
        table_rec(b, wad_ind, acc, 1, if count <= fit {
            count
        } else {
            fit
        })
    }
}

/// Decodes one composite-texture table lump into `defs`, keyed by the
/// canonical texture name. The table is a leading count, then 4-byte
/// offsets into the same buffer from position 4 on; a name already
/// present is skipped, so the first definition wins and the keys stay
/// unique. Malformed entries are skipped. The outcome is pinned by
/// `spec_texture_table`.
pub fn decode_texture_table(
    buf: &Vec<u8>,
    wad_ind: usize,
    defs: &mut Vec<(Vec<u8>, TextureEntry)>,
)
    requires
        assoc_keys_unique(old(defs)@),
    ensures
        assoc_keys_unique(final(defs)@),
        def_views(final(defs)@) == spec_texture_table(buf@, wad_ind as int,
            def_views(old(defs)@)),
{
    let ghost target = spec_texture_table(buf@, wad_ind as int, def_views(defs@));
    if buf.len() < 4 {
        return;
    }
    let blen = buf.len();
    let count = codec::read_field_u32(buf, 0);
    let fit: usize = blen / 4;
    let n: usize = if count as usize <= fit {
        count as usize
    } else {
        fit
    };
    proof {
        assert(target == table_rec(buf@, wad_ind as int, def_views(defs@), 1, n as int));
    }
    let mut i: usize = 1;
    while i < n
        invariant
            1 <= i,
            n <= blen as int / 4,
            4 <= blen,
            blen == buf@.len(),
            assoc_keys_unique(defs@),
            table_rec(buf@, wad_ind as int, def_views(defs@), i as int, n as int) == target,
        decreases n - i,
    {
        proof {
            assert(4 * (i as int) + 4 <= blen) by (nonlinear_arith)
                requires
                    i < n,
                    n <= blen as int / 4,
            ;
        }
        let tex_offset = i * 4;
        let off = codec::read_field_u32(buf, tex_offset);
        let ghost pre = defs@;
        let ghost goff = off as int;
        if let Some((name, entry)) = decode_texture_entry(buf, off as usize, wad_ind) {
            let key = crate::defs::canonical_name(&name);
            proof {
                assert(key@ == canon(buf@.subrange(goff, goff + 8)));
            }
            if assoc_find(defs, &key).is_none() {
                let ghost gkey = key@;
                proof {
                    assert(!crate::model::assoc_contains(pre, gkey));
                    assert(!views_have_key(def_views(pre), gkey)) by {
                        if views_have_key(def_views(pre), gkey) {
                            let t = choose|t: int| 0 <= t < def_views(pre).len()
                                && def_views(pre)[t].0 == gkey;
                            assert(def_views(pre)[t].0 == pre[t].0@);
                            assert(crate::model::assoc_keys(pre)[t] == pre[t].0@);
                            assert(crate::model::assoc_contains(pre, gkey));
                        }
                    }
                    lemma_assoc_push_unique(pre, (key, entry));
                }
                let ghost gentry = entry;
                defs.push((key, entry));
                proof {
                    assert(def_views(defs@) =~= def_views(pre).push((gkey, (gentry.width
                        as int, gentry.height as int, gentry.patch_count as int,
                        gentry.patches@, gentry.wad_ind as int))));
                    assert(gentry.patches@ =~= Seq::new(codec::field_i16(buf@, goff + 20)
                        as nat, |j: int| patch_at(buf@, goff + 22 + 10 * j)));
                    assert((gkey, (gentry.width as int, gentry.height as int,
                        gentry.patch_count as int, gentry.patches@, gentry.wad_ind as int))
                        == (gkey, entry_view_at(buf@, goff, wad_ind as int)));
                }
            } else {
                proof {
                    let t = choose|t: int| 0 <= t < pre.len()
                        && crate::model::assoc_keys(pre)[t] == key@;
                    assert(def_views(pre)[t].0 == pre[t].0@);
                    assert(views_have_key(def_views(pre), key@));
                }
            }
        } else {
            proof {
                assert(!entry_fits(buf@, goff));
            }
        }
        i = i + 1;
    }
    proof {
        assert(table_rec(buf@, wad_ind as int, def_views(defs@), n as int, n as int)
            == def_views(defs@));
    }
}

/// Whether the linking pass appends linedef `i` to the list of sector
/// `s`: every linedef joins its front sector, and a two-sided linedef
/// whose front and back sectors differ also joins its back sector.
/// Linedefs beyond the reach of a 16-bit index are left out.
pub open spec fn linked_to(
    linedefs: Seq<crate::model::Linedef>,
    sidedefs: Seq<crate::model::Sidedef>,
    n_sectors: int,
    i: int,
    s: int,
) -> bool {
    let l = linedefs[i];
    &&& 0 <= i <= 32767
    &&& l.front_sidedef >= 0 && l.front_sidedef < sidedefs.len()
    &&& {
        let fs = sidedefs[l.front_sidedef as int].sector as int;
        &&& 0 <= fs < n_sectors
        &&& (fs == s || (l.back_sidedef >= 0 && l.back_sidedef < sidedefs.len() && {
            let bs = sidedefs[l.back_sidedef as int].sector as int;
            0 <= bs < n_sectors && bs == s && bs != fs
        }))
    }
}

/// The linedef list of sector `s` after linking the first `n` linedefs,
/// in ascending linedef order.
pub open spec fn links_upto(
    linedefs: Seq<crate::model::Linedef>,
    sidedefs: Seq<crate::model::Sidedef>,
    n_sectors: int,
    s: int,
    n: int,
) -> Seq<i16>
    decreases n,
{
    if n <= 0 {
        Seq::empty()
    } else {
        let prev = links_upto(linedefs, sidedefs, n_sectors, s, n - 1);
        if linked_to(linedefs, sidedefs, n_sectors, n - 1, s) {
            prev.push((n - 1) as i16)
        } else {
            prev
        }
    }
}

/// The PLAYPAL lump name.
pub open spec fn playpal_base() -> Seq<u8> {
    seq![80u8, 76, 65, 89, 80, 65, 76]
}

/// The first archive at or after `w` holding a palette lump, or `-1`.
pub open spec fn first_palette_wad(wads: Seq<Archive>, w: int) -> int
    decreases wads.len() - w when 0 <= w <= wads.len()
{
    if w >= wads.len() {
        -1
    } else if crate::archive::has_lump(wads[w].lumps@, playpal_base()) {
        w
    } else {
        first_palette_wad(wads, w + 1)
    }
}

/// The PNAMES lump name.
pub open spec fn pnames_base() -> Seq<u8> {
    seq![80u8, 78, 65, 77, 69, 83]
}

/// The TEXTURE1 lump name.
pub open spec fn texture1_base() -> Seq<u8> {
    seq![84u8, 69, 88, 84, 85, 82, 69, 49]
}

/// The TEXTURE2 lump name.
pub open spec fn texture2_base() -> Seq<u8> {
    seq![84u8, 69, 88, 84, 85, 82, 69, 50]
}

/// The bytes of archive `w`'s first lump under `name`.
pub open spec fn wad_lump_bytes(wads: Seq<Archive>, w: int, name: Seq<u8>) -> Seq<u8> {
    wads[w].lumps@[crate::archive::lump_first(wads[w].lumps@, name, 0)].bytes@
}

/// Whether the first archive holds the suffixed core lump at all.
pub open spec fn core_present(wads: Seq<Archive>, base: Seq<u8>, map_ind: int) -> bool {
    crate::archive::has_lump(wads[0].lumps@, suffixed(base, map_ind))
}

/// Whether the palette check passes: some archive holds a palette lump
/// and the first one holding it has at least a whole palette.
pub open spec fn palette_ok(wads: Seq<Archive>) -> bool {
    let pw = first_palette_wad(wads, 0);
    pw >= 0 && wad_lump_bytes(wads, pw, playpal_base()).len() >= 768
}

/// What a load owes: the error of the first failing check, in load order
/// — each core lump present then nonempty, THINGS, LINEDEFS, VERTEXES,
/// SECTORS, SIDEDEFS, then the palette — or nothing when every check
/// passes and the load must succeed.
pub open spec fn spec_load_outcome(wads: Seq<Archive>, map_ind: int) -> Option<WadError> {
    if wads.len() == 0 {
        Some(WadError::MissingLump)
    } else if !core_present(wads, things_base(), map_ind) {
        Some(WadError::MissingLump)
    } else if core_bytes(wads, things_base(), map_ind).len() == 0 {
        Some(WadError::EmptyLump)
    } else if !core_present(wads, linedefs_base(), map_ind) {
        Some(WadError::MissingLump)
    } else if core_bytes(wads, linedefs_base(), map_ind).len() == 0 {
        Some(WadError::EmptyLump)
    } else if !core_present(wads, vertexes_base(), map_ind) {
        Some(WadError::MissingLump)
    } else if core_bytes(wads, vertexes_base(), map_ind).len() == 0 {
        Some(WadError::EmptyLump)
    } else if !core_present(wads, sectors_base(), map_ind) {
        Some(WadError::MissingLump)
    } else if core_bytes(wads, sectors_base(), map_ind).len() == 0 {
        Some(WadError::EmptyLump)
    } else if !core_present(wads, sidedefs_base(), map_ind) {
        Some(WadError::MissingLump)
    } else if core_bytes(wads, sidedefs_base(), map_ind).len() == 0 {
        Some(WadError::EmptyLump)
    } else if !palette_ok(wads) {
        Some(WadError::PaletteMissing)
    } else {
        None
    }
}

/// Whether `t` is the decoded patch-name table of the PNAMES buffer `b`.
pub open spec fn is_pnames_of(t: Seq<Vec<u8>>, b: Seq<u8>) -> bool {
    &&& t.len() == pnames_len(b)
    &&& forall|k: int| 0 <= k < t.len() ==> (#[trigger] t[k])@ == b.subrange(8 * k + 4,
        8 * k + 12)
}

/// The table image gathered across archives `w ..`: per archive with a
/// PNAMES lump, its TEXTURE1 then TEXTURE2 lumps fold into the image;
/// an archive without PNAMES contributes nothing.
pub open spec fn spec_tables(
    wads: Seq<Archive>,
    w: int,
    acc: Seq<(Seq<u8>, (int, int, int, Seq<TexturePatch>, int))>,
) -> Seq<(Seq<u8>, (int, int, int, Seq<TexturePatch>, int))>
    decreases wads.len() - w,
{
    if w < 0 || w >= wads.len() {
        acc
    } else {
        let acc2 = if crate::archive::has_lump(wads[w].lumps@, pnames_base()) {
            let a1 = if crate::archive::has_lump(wads[w].lumps@, texture1_base()) {
                spec_texture_table(wad_lump_bytes(wads, w, texture1_base()), w, acc)
            } else {
                acc
            };
            if crate::archive::has_lump(wads[w].lumps@, texture2_base()) {
                spec_texture_table(wad_lump_bytes(wads, w, texture2_base()), w, a1)
            } else {
                a1
            }
        } else {
            acc
        };
        spec_tables(wads, w + 1, acc2)
    }
}

/// The THINGS base name.
pub open spec fn things_base() -> Seq<u8> {
    seq![84u8, 72, 73, 78, 71, 83]
}

/// The LINEDEFS base name.
pub open spec fn linedefs_base() -> Seq<u8> {
    seq![76u8, 73, 78, 69, 68, 69, 70, 83]
}

/// The VERTEXES base name.
pub open spec fn vertexes_base() -> Seq<u8> {
    seq![86u8, 69, 82, 84, 69, 88, 69, 83]
}

/// The SECTORS base name.
pub open spec fn sectors_base() -> Seq<u8> {
    seq![83u8, 69, 67, 84, 79, 82, 83]
}

/// The SIDEDEFS base name.
pub open spec fn sidedefs_base() -> Seq<u8> {
    seq![83u8, 73, 68, 69, 68, 69, 70, 83]
}

/// The bytes of the first lump of the first archive under the suffixed
/// base name.
pub open spec fn core_bytes(wads: Seq<Archive>, base: Seq<u8>, map_ind: int) -> Seq<u8> {
    wads[0].lumps@[crate::archive::lump_first(wads[0].lumps@, suffixed(base, map_ind),
        0)].bytes@
}

/// Whether a single-image lump can be decoded at all: a flat must hold
/// exactly its fixed size, any other lump must be a well-formed picture;
/// an empty lump never decodes.
pub open spec fn lump_decodable(l: crate::archive::Lump) -> bool {
    &&& l.bytes@.len() > 0
    &&& if l.is_flat {
        l.bytes@.len() == FLAT_SIZE
    } else {
        crate::picture::spec_picture_cells(l.bytes@) is Some
    }
}

/// Whether `img` is the decode of the single-image lump `l` through the
/// palette `pal`: a flat maps each byte through the palette at the fixed
/// 64x64 size; a picture maps the model's cells, transparent where never
/// written.
pub open spec fn is_image_of(img: TexImage, l: crate::archive::Lump, pal: Seq<u8>) -> bool {
    if l.is_flat {
        &&& img.width == 64 && img.height == 64
        &&& img.pixels@.len() == 4 * FLAT_SIZE
        &&& forall|k: int| 0 <= k < FLAT_SIZE ==> #[trigger] img.pixels@.subrange(4 * k,
            4 * k + 4) == crate::palette::rgba_entry(pal, l.bytes@[k])
    } else {
        &&& img.width as int == crate::picture::le_u16(l.bytes@, 0)
        &&& img.height as int == crate::picture::le_u16(l.bytes@, 2)
        &&& img.wf()
        &&& forall|k: int| 0 <= k < crate::picture::le_u16(l.bytes@, 0)
            * crate::picture::le_u16(l.bytes@, 2) ==> #[trigger] img.pixels@.subrange(4 * k,
            4 * k + 4) == crate::picture::cell_rgba(pal,
            crate::picture::spec_picture_cells(l.bytes@).unwrap()[k])
    }
}

/// The pixel width of a single-image lump: flats are fixed 64 wide, a
/// picture carries its width in its header.
pub open spec fn lump_width(l: crate::archive::Lump) -> int {
    if l.is_flat {
        64
    } else {
        crate::picture::le_u16(l.bytes@, 0)
    }
}

/// The pixel height of a single-image lump.
pub open spec fn lump_height(l: crate::archive::Lump) -> int {
    if l.is_flat {
        64
    } else {
        crate::picture::le_u16(l.bytes@, 2)
    }
}

/// The RGBA bytes a single-image lump decodes to, as one sequence.
pub open spec fn lump_pixels(l: crate::archive::Lump, pal: Seq<u8>) -> Seq<u8> {
    Seq::new((4 * lump_width(l) * lump_height(l)) as nat, |i: int|
        if l.is_flat {
            crate::palette::rgba_entry(pal, l.bytes@[i / 4])[i % 4]
        } else {
            crate::picture::cell_rgba(pal,
                crate::picture::spec_picture_cells(l.bytes@).unwrap()[i / 4])[i % 4]
        })
}

/// An image matching a lump holds exactly the lump's decoded bytes.
pub proof fn lemma_image_pixels(img: TexImage, l: crate::archive::Lump, pal: Seq<u8>)
    requires
        is_image_of(img, l, pal),
    ensures
        img.width as int == lump_width(l),
        img.height as int == lump_height(l),
        img.pixels@ == lump_pixels(l, pal),
{
    assert(img.pixels@.len() == 4 * lump_width(l) * lump_height(l)) by {
        if l.is_flat {
            assert(4 * lump_width(l) * lump_height(l) == 4 * FLAT_SIZE);
        }
    }
    assert forall|i: int| 0 <= i < img.pixels@.len()
        implies img.pixels@[i] == lump_pixels(l, pal)[i] by {
        let k = i / 4;
        let c = i % 4;
        vstd::arithmetic::div_mod::lemma_fundamental_div_mod(i, 4);
        vstd::arithmetic::div_mod::lemma_mod_bound(i, 4);
        vstd::arithmetic::div_mod::lemma_div_pos_is_pos(i, 4);
        assert(0 <= c < 4);
        assert(i == 4 * k + c);
        assert(0 <= k);
        assert(k < lump_width(l) * lump_height(l) && 4 * k + 4 <= 4 * lump_width(l)
            * lump_height(l)) by (nonlinear_arith)
            requires
                i == 4 * k + c,
                0 <= c < 4,
                0 <= k,
                i < 4 * lump_width(l) * lump_height(l),
        ;
        assert(4 * k + 4 <= img.pixels@.len());
        assert(img.pixels@.subrange(4 * k, 4 * k + 4)[c] == img.pixels@[4 * k + c]);
        if l.is_flat {
            assert(img.pixels@.subrange(4 * k, 4 * k + 4)
                == crate::palette::rgba_entry(pal, l.bytes@[k]));
        } else {
            assert(img.pixels@.subrange(4 * k, 4 * k + 4) == crate::picture::cell_rgba(pal,
                crate::picture::spec_picture_cells(l.bytes@).unwrap()[k]));
        }
    }
    assert(img.pixels@ =~= lump_pixels(l, pal));
}

/// The whole reconstruction engine: the loaded archives in override
/// order, the color palette, the assembled level model, the image and
/// texture caches, and the count of image decodes actually performed.
pub struct MapManager {
    pub res_wads: Vec<Archive>,
    pub palette: Palette,
    pub map: CompleteMap,
    /// Single-image (patch or flat) results, keyed by canonical name.
    pub tex_cache: Vec<(Vec<u8>, TexImage)>,
    /// Fully resolved texture results, keyed by canonical name.
    pub mat_cache: Vec<(Vec<u8>, TexImage)>,
    /// Number of times an image was actually decoded rather than served
    /// from a cache.
    pub decode_count: usize,
}

/// The decimal digits of a non-negative number, most significant first;
/// zero renders as no digits at all.
pub open spec fn decimal(v: int) -> Seq<u8>
    decreases v,
{
    if v <= 0 {
        Seq::empty()
    } else {
        decimal(v / 10).push((v % 10 + 48) as u8)
    }
}

/// The name under which a map lump is looked up: the base name, plus the
/// decimal map index when it is positive, matching the unique names that
/// archives give to repeated lumps.
pub open spec fn suffixed(base: Seq<u8>, map_ind: int) -> Seq<u8> {
    if map_ind > 0 {
        base + decimal(map_ind)
    } else {
        base
    }
}

/// Appends the decimal digits of a positive map index to a lump name.
fn push_decimal(name: &mut Vec<u8>, v: i32)
    requires
        v > 0,
    ensures
        final(name)@ == old(name)@ + decimal(v as int),
{
    let mut digits: Vec<u8> = Vec::new();
    let mut x: u32 = v as u32;
    while x > 0
        invariant
            decimal(v as int) == decimal(x as int) + digits@.reverse(),
        decreases x,
    {
        let ghost pre = digits@;
        digits.push((x % 10) as u8 + 48);
        proof {
            assert(digits@.reverse() =~= seq![(x as int % 10 + 48) as u8] + pre.reverse());
            assert(decimal(x as int) == decimal(x as int / 10).push((x as int % 10 + 48)
                as u8));
            assert(decimal(x as int / 10) + digits@.reverse() =~= decimal(x as int)
                + pre.reverse());
        }
        x = x / 10;
    }
    proof {
        assert(decimal(0int) =~= Seq::<u8>::empty());
        assert(decimal(v as int) =~= digits@.reverse());
    }
    let n = digits.len();
    let mut i: usize = n;
    while i > 0
        invariant
            i <= n,
            n == digits@.len(),
            name@ == old(name)@ + digits@.reverse().subrange(0, n - i),
        decreases i,
    {
        i = i - 1;
        name.push(digits[i]);
        proof {
            assert(digits@.reverse()[n - i - 1] == digits@[i as int]);
            assert(name@ =~= old(name)@ + digits@.reverse().subrange(0, n - i));
        }
    }
    proof {
        assert(digits@.reverse().subrange(0, n as int) =~= digits@.reverse());
        assert(name@ =~= old(name)@ + decimal(v as int));
    }
}

/// Builds a lump name from its base plus the optional map index suffix.
fn lump_name(base: &Vec<u8>, map_ind: i32) -> (r: Vec<u8>)
    ensures
        r@ == suffixed(base@, map_ind as int),
{
    let mut r = crate::model::copy_bytes(base);
    if map_ind > 0 {
        push_decimal(&mut r, map_ind);
    }
    r
}

/// What `first_palette_wad` returns: either no archive at or after `w`
/// holds a palette, or the first one that does.
proof fn lemma_first_palette_char(wads: Seq<Archive>, w: int)
    requires
        0 <= w <= wads.len(),
    ensures
        first_palette_wad(wads, w) == -1 ==> (forall|v: int| w <= v < wads.len()
            ==> !crate::archive::has_lump((#[trigger] wads[v]).lumps@, playpal_base())),
        first_palette_wad(wads, w) >= 0 ==> ({
            let r = first_palette_wad(wads, w);
            &&& w <= r < wads.len()
            &&& crate::archive::has_lump(wads[r].lumps@, playpal_base())
            &&& forall|v: int| w <= v < r
                ==> !crate::archive::has_lump((#[trigger] wads[v]).lumps@, playpal_base())
        }),
        first_palette_wad(wads, w) == -1 || first_palette_wad(wads, w) >= 0,
    decreases wads.len() - w,
{
    if w < wads.len() {
        if crate::archive::has_lump(wads[w].lumps@, playpal_base()) {
        } else {
            lemma_first_palette_char(wads, w + 1);
        }
    }
}

impl MapManager {
    /// The established state of a loaded manager: a whole palette and
    /// unique texture keys.
    pub open spec fn wf(&self) -> bool {
        &&& self.palette.wf()
        &&& assoc_keys_unique(self.map.texture_defs@)
        &&& assoc_keys_unique(self.tex_cache@)
        &&& assoc_keys_unique(self.mat_cache@)
        &&& forall|k: int| 0 <= k < self.tex_cache@.len()
            ==> (#[trigger] self.tex_cache@[k]).1.wf()
        &&& forall|k: int| 0 <= k < self.mat_cache@.len()
            ==> (#[trigger] self.mat_cache@[k]).1.wf()
        &&& forall|k: int| 0 <= k < self.tex_cache@.len()
            ==> crate::archive::any_has_lump(self.res_wads@,
                (#[trigger] self.tex_cache@[k]).0@) && lump_decodable(
                crate::archive::found_lump(self.res_wads@, self.tex_cache@[k].0@))
                && is_image_of(self.tex_cache@[k].1, crate::archive::found_lump(
                self.res_wads@, self.tex_cache@[k].0@), self.palette.data@)
    }

    /// Fetches a required map lump from the first archive: `MissingLump`
    /// when absent, `EmptyLump` when present with no bytes, else exactly
    /// the bytes of the first lump under the suffixed name.
    fn required_lump(wads: &Vec<Archive>, base: &Vec<u8>, map_ind: i32) -> (r: Result<Vec<u8>,
        WadError>)
        requires
            wads@.len() >= 1,
        ensures
            match r {
                Ok(b) => ({
                    let li = crate::archive::lump_first(wads@[0].lumps@, suffixed(base@,
                        map_ind as int), 0);
                    &&& li >= 0
                    &&& b@ == wads@[0].lumps@[li].bytes@
                    &&& b@.len() > 0
                }),
                Err(e) => {
                    &&& (e == WadError::MissingLump <==> !crate::archive::has_lump(
                        wads@[0].lumps@, suffixed(base@, map_ind as int)))
                    &&& (e == WadError::EmptyLump ==> wads@[0].lumps@[
                        crate::archive::lump_first(wads@[0].lumps@, suffixed(base@,
                        map_ind as int), 0)].bytes@.len() == 0)
                    &&& (e == WadError::MissingLump || e == WadError::EmptyLump)
                },
            },
    {
        let name = lump_name(base, map_ind);
        match wads[0].find(&name) {
            None => Err(WadError::MissingLump),
            Some(i) => {
                let bytes = crate::model::copy_bytes(&wads[0].lumps[i].bytes);
                if bytes.len() == 0 {
                    Err(WadError::EmptyLump)
                } else {
                    Ok(bytes)
                }
            },
        }
    }

    /// Loads and assembles the whole level model for the map `map_ind`
    /// from the archives, searched in override order (a supplemental
    /// archive first). The five core lumps come from the first archive;
    /// the palette comes from the first archive holding one; the
    /// patch-name and composite-texture tables are gathered across all
    /// archives, first texture definition winning. After decoding, one
    /// linking pass appends each linedef to its front sector's list and,
    /// for a two-sided linedef whose sectors differ, to its back
    /// sector's list.
    pub fn new(res_wads: Vec<Archive>, map_ind: i32) -> (r: Result<MapManager, WadError>)
        ensures
            match r {
                Ok(m) => {
                    &&& m.wf()
                    &&& m.tex_cache@.len() == 0
                    &&& m.mat_cache@.len() == 0
                    &&& m.decode_count == 0
                    &&& ({
                        let pw = first_palette_wad(res_wads@, 0);
                        let b = res_wads@[pw].lumps@[crate::archive::lump_first(
                            res_wads@[pw].lumps@, playpal_base(), 0)].bytes@;
                        pw >= 0 && b.len() >= 768 && m.palette.data@ == b.subrange(0, 768)
                    })
                    &&& ({
                        let b = core_bytes(res_wads@, things_base(), map_ind as int);
                        m.map.things_vec@.len() == b.len() as int / 10
                            && forall|k: int| 0 <= k < m.map.things_vec@.len()
                                ==> m.map.things_vec@[k] == codec::thing_at(b, k * 10)
                    })
                    &&& ({
                        let b = core_bytes(res_wads@, linedefs_base(), map_ind as int);
                        m.map.linedef_vec@.len() == b.len() as int / 14
                            && forall|k: int| 0 <= k < m.map.linedef_vec@.len()
                                ==> m.map.linedef_vec@[k] == codec::linedef_at(b, k * 14)
                    })
                    &&& ({
                        let b = core_bytes(res_wads@, vertexes_base(), map_ind as int);
                        m.map.vert_vec@.len() == b.len() as int / 4
                            && forall|k: int| 0 <= k < m.map.vert_vec@.len()
                                ==> m.map.vert_vec@[k] == codec::vert_at(b, k * 4)
                    })
                    &&& ({
                        let b = core_bytes(res_wads@, sectors_base(), map_ind as int);
                        m.map.sector_vec@.len() == b.len() as int / 26
                            && forall|k: int| 0 <= k < m.map.sector_vec@.len()
                                ==> codec::sector_fields_at(#[trigger] m.map.sector_vec@[k],
                                    b, k * 26)
                    })
                    &&& ({
                        let b = core_bytes(res_wads@, sidedefs_base(), map_ind as int);
                        m.map.sidefef_vec@.len() == b.len() as int / 30
                            && forall|k: int| 0 <= k < m.map.sidefef_vec@.len()
                                ==> codec::is_sidedef_at(#[trigger] m.map.sidefef_vec@[k],
                                    b, k * 30)
                    })
                    &&& forall|s: int| 0 <= s < m.map.sector_vec@.len()
                        ==> (#[trigger] m.map.sector_vec@[s]).linedefs@ == links_upto(
                            m.map.linedef_vec@, m.map.sidefef_vec@,
                            m.map.sector_vec@.len() as int, s, m.map.linedef_vec@.len() as int)
                    &&& m.map.pnames@.len() == res_wads@.len()
                    &&& (forall|wd: int| 0 <= wd < res_wads@.len() ==> ({
                        let t = (#[trigger] m.map.pnames@[wd])@;
                        if crate::archive::has_lump(res_wads@[wd].lumps@, pnames_base()) {
                            is_pnames_of(t, wad_lump_bytes(res_wads@, wd, pnames_base()))
                        } else {
                            t.len() == 0
                        }
                    }))
                    &&& def_views(m.map.texture_defs@) == spec_tables(res_wads@, 0,
                        Seq::empty())
                    &&& spec_load_outcome(res_wads@, map_ind as int) is None
                },
                Err(e) => spec_load_outcome(res_wads@, map_ind as int) == Some(e),
            },
    {
        if res_wads.len() == 0 {
            return Err(WadError::MissingLump);
        }
        // T H I N G S
        let things_name: Vec<u8> = vec![84u8, 72, 73, 78, 71, 83];
        // L I N E D E F S
        let linedefs_name: Vec<u8> = vec![76u8, 73, 78, 69, 68, 69, 70, 83];
        // V E R T E X E S
        let vertexes_name: Vec<u8> = vec![86u8, 69, 82, 84, 69, 88, 69, 83];
        // S E C T O R S
        let sectors_name: Vec<u8> = vec![83u8, 69, 67, 84, 79, 82, 83];
        // S I D E D E F S
        let sidedefs_name: Vec<u8> = vec![83u8, 73, 68, 69, 68, 69, 70, 83];
        // P L A Y P A L
        let playpal_name: Vec<u8> = vec![80u8, 76, 65, 89, 80, 65, 76];
        // P N A M E S
        let pnames_name: Vec<u8> = vec![80u8, 78, 65, 77, 69, 83];
        // T E X T U R E 1
        let texture1_name: Vec<u8> = vec![84u8, 69, 88, 84, 85, 82, 69, 49];
        // T E X T U R E 2
        let texture2_name: Vec<u8> = vec![84u8, 69, 88, 84, 85, 82, 69, 50];
        proof {
            assert(things_name@ =~= things_base());
            assert(linedefs_name@ =~= linedefs_base());
            assert(vertexes_name@ =~= vertexes_base());
            assert(sectors_name@ =~= sectors_base());
            assert(sidedefs_name@ =~= sidedefs_base());
        }

        let things_buf = Self::required_lump(&res_wads, &things_name, map_ind)?;
        let linedefs_buf = Self::required_lump(&res_wads, &linedefs_name, map_ind)?;
        let vertexes_buf = Self::required_lump(&res_wads, &vertexes_name, map_ind)?;
        let sectors_buf = Self::required_lump(&res_wads, &sectors_name, map_ind)?;
        let sidedefs_buf = Self::required_lump(&res_wads, &sidedefs_name, map_ind)?;

        // the first archive holding a palette wins
        proof {
            assert(playpal_name@ =~= playpal_base());
            lemma_first_palette_char(res_wads@, 0);
        }
        let ghost outcome_hinges_on_palette = spec_load_outcome(res_wads@, map_ind as int);
        proof {
            assert(palette_ok(res_wads@) ==> outcome_hinges_on_palette is None);
            assert(!palette_ok(res_wads@) ==> outcome_hinges_on_palette
                == Some(WadError::PaletteMissing));
        }
        let mut palette: Option<Palette> = None;
        let mut w: usize = 0;
        while w < res_wads.len()
            invariant
                w <= res_wads@.len(),
                playpal_name@ == playpal_base(),
                outcome_hinges_on_palette == spec_load_outcome(res_wads@, map_ind as int),
                palette_ok(res_wads@) ==> outcome_hinges_on_palette is None,
                !palette_ok(res_wads@) ==> outcome_hinges_on_palette
                    == Some(WadError::PaletteMissing),
                match palette {
                    Some(p) => ({
                        let pw = first_palette_wad(res_wads@, 0);
                        let b = res_wads@[pw].lumps@[crate::archive::lump_first(
                            res_wads@[pw].lumps@, playpal_base(), 0)].bytes@;
                        &&& p.wf()
                        &&& 0 <= pw < w
                        &&& b.len() >= 768
                        &&& p.data@ == b.subrange(0, 768)
                    }),
                    None => first_palette_wad(res_wads@, 0) == -1
                        || first_palette_wad(res_wads@, 0) >= w,
                },
            decreases res_wads@.len() - w,
        {
            if palette.is_none() {
                if let Some(i) = res_wads[w].find(&playpal_name) {
                    proof {
                        assert(crate::archive::has_lump(res_wads@[w as int].lumps@,
                            playpal_base()));
                        lemma_first_palette_char(res_wads@, 0);
                        assert(first_palette_wad(res_wads@, 0) == w);
                    }
                    match Palette::from_lump(&res_wads[w].lumps[i].bytes) {
                        Ok(p) => {
                            palette = Some(p);
                        },
                        Err(_) => {
                            proof {
                                assert(!palette_ok(res_wads@));
                            }
                            return Err(WadError::PaletteMissing);
                        },
                    }
                } else {
                    proof {
                        lemma_first_palette_char(res_wads@, 0);
                    }
                }
            }
            w = w + 1;
        }
        let palette = match palette {
            Some(p) => p,
            None => {
                proof {
                    lemma_first_palette_char(res_wads@, 0);
                    assert(first_palette_wad(res_wads@, 0) == -1);
                }
                return Err(WadError::PaletteMissing);
            },
        };

        // patch-name and composite-texture tables, per archive
        proof {
            assert(pnames_name@ =~= pnames_base());
            assert(texture1_name@ =~= texture1_base());
            assert(texture2_name@ =~= texture2_base());
        }
        let mut pnames: Vec<Vec<Vec<u8>>> = Vec::new();
        let mut texture_defs: Vec<(Vec<u8>, TextureEntry)> = Vec::new();
        proof {
            assert(def_views(texture_defs@) =~= Seq::<(Seq<u8>, (int, int, int,
                Seq<TexturePatch>, int))>::empty());
        }
        let ghost tables_target = spec_tables(res_wads@, 0, Seq::empty());
        let mut w2: usize = 0;
        while w2 < res_wads.len()
            invariant
                w2 <= res_wads@.len(),
                assoc_keys_unique(texture_defs@),
                pnames_name@ == pnames_base(),
                texture1_name@ == texture1_base(),
                texture2_name@ == texture2_base(),
                pnames@.len() == w2,
                forall|wd: int| 0 <= wd < w2 ==> ({
                    let t = (#[trigger] pnames@[wd])@;
                    if crate::archive::has_lump(res_wads@[wd].lumps@, pnames_base()) {
                        is_pnames_of(t, wad_lump_bytes(res_wads@, wd, pnames_base()))
                    } else {
                        t.len() == 0
                    }
                }),
                spec_tables(res_wads@, w2 as int, def_views(texture_defs@)) == tables_target,
            decreases res_wads@.len() - w2,
        {
            let ghost views_entry = def_views(texture_defs@);
            match res_wads[w2].find(&pnames_name) {
                None => {
                    let empty_table: Vec<Vec<u8>> = Vec::new();
                    pnames.push(empty_table);
                    proof {
                        assert(spec_tables(res_wads@, w2 as int, views_entry)
                            == spec_tables(res_wads@, w2 + 1, def_views(texture_defs@)));
                    }
                },
                Some(i) => {
                    pnames.push(decode_pnames(&res_wads[w2].lumps[i].bytes));
                    if let Some(t) = res_wads[w2].find(&texture1_name) {
                        decode_texture_table(&res_wads[w2].lumps[t].bytes, w2,
                            &mut texture_defs);
                    } else {
                        proof {
                            assert(!crate::archive::has_lump(res_wads@[w2 as int].lumps@,
                                texture1_base()));
                        }
                    }
                    let ghost views_mid = def_views(texture_defs@);
                    if let Some(t) = res_wads[w2].find(&texture2_name) {
                        decode_texture_table(&res_wads[w2].lumps[t].bytes, w2,
                            &mut texture_defs);
                    } else {
                        proof {
                            assert(!crate::archive::has_lump(res_wads@[w2 as int].lumps@,
                                texture2_base()));
                        }
                    }
                    proof {
                        assert(spec_tables(res_wads@, w2 as int, views_entry)
                            == spec_tables(res_wads@, w2 + 1, def_views(texture_defs@)));
                    }
                },
            }
            w2 = w2 + 1;
        }
        proof {
            assert(spec_tables(res_wads@, res_wads@.len() as int, def_views(texture_defs@))
                == def_views(texture_defs@));
        }

        let things_vec = codec::decode_things(&things_buf);
        let linedef_vec = codec::decode_linedefs(&linedefs_buf);
        let vert_vec = codec::decode_verts(&vertexes_buf);
        let mut sector_vec = codec::decode_sectors(&sectors_buf);
        let sidefef_vec = codec::decode_sidedefs(&sidedefs_buf);

        // linking pass: every linedef joins its front sector's list, and
        // its back sector's list when two-sided with differing sectors
        let ghost n_sec = sector_vec@.len() as int;
        let ghost sectors_decoded = sector_vec@;
        let mut i: usize = 0;
        while i < linedef_vec.len()
            invariant
                i <= linedef_vec@.len(),
                sector_vec@.len() == n_sec,
                sectors_decoded.len() == n_sec,
                forall|s: int| 0 <= s < n_sec ==> (#[trigger] sector_vec@[s]).linedefs@
                    == links_upto(linedef_vec@, sidefef_vec@, n_sec, s, i as int),
                forall|s: int| 0 <= s < n_sec
                    ==> codec::sector_fields_at(#[trigger] sector_vec@[s], sectors_buf@,
                        s * 26),
            decreases linedef_vec@.len() - i,
        {
            let ghost pre = sector_vec@;
            let ghost gi = i as int;
            if i <= 32767 {
                let l = &linedef_vec[i];
                if l.front_sidedef >= 0 && (l.front_sidedef as usize) < sidefef_vec.len() {
                    let fsec = sidefef_vec[l.front_sidedef as usize].sector;
                    if fsec >= 0 && (fsec as usize) < sector_vec.len() {
                        sector_vec[fsec as usize].linedefs.push(i as i16);
                        let mut back_pushed = false;
                        let ghost mut bsec_g: int = 0;
                        if l.back_sidedef >= 0 && (l.back_sidedef as usize)
                            < sidefef_vec.len() {
                            let bsec = sidefef_vec[l.back_sidedef as usize].sector;
                            if bsec >= 0 && (bsec as usize) < sector_vec.len()
                                && bsec != fsec {
                                sector_vec[bsec as usize].linedefs.push(i as i16);
                                back_pushed = true;
                                proof {
                                    bsec_g = bsec as int;
                                }
                            }
                        }
                        proof {
                            assert forall|s: int| 0 <= s < n_sec
                                implies (#[trigger] sector_vec@[s]).linedefs@
                                    == links_upto(linedef_vec@, sidefef_vec@, n_sec, s,
                                        gi + 1) by {
                                if s == fsec as int {
                                    assert(linked_to(linedef_vec@, sidefef_vec@, n_sec, gi,
                                        s));
                                    assert(sector_vec@[s].linedefs@
                                        == pre[s].linedefs@.push(gi as i16));
                                } else if back_pushed && s == bsec_g {
                                    assert(linked_to(linedef_vec@, sidefef_vec@, n_sec, gi,
                                        s));
                                    assert(sector_vec@[s].linedefs@
                                        == pre[s].linedefs@.push(gi as i16));
                                } else {
                                    assert(!linked_to(linedef_vec@, sidefef_vec@, n_sec, gi,
                                        s));
                                    assert(sector_vec@[s] == pre[s]);
                                }
                            }
                        }
                    } else {
                        proof {
                            assert forall|s: int| 0 <= s < n_sec
                                implies !linked_to(linedef_vec@, sidefef_vec@, n_sec, gi,
                                    s) by {}
                        }
                    }
                } else {
                    proof {
                        assert forall|s: int| 0 <= s < n_sec
                            implies !linked_to(linedef_vec@, sidefef_vec@, n_sec, gi, s)
                            by {}
                    }
                }
            } else {
                proof {
                    assert forall|s: int| 0 <= s < n_sec
                        implies !linked_to(linedef_vec@, sidefef_vec@, n_sec, gi, s) by {}
                }
            }
            i = i + 1;
        }

        Ok(MapManager {
            res_wads,
            palette,
            map: CompleteMap {
                things_vec,
                linedef_vec,
                vert_vec,
                sector_vec,
                sidefef_vec,
                pnames,
                texture_defs,
            },
            tex_cache: Vec::new(),
            mat_cache: Vec::new(),
            decode_count: 0,
        })
    }
}

} // verus!
