//! Texture resolution and compositing.
//!
//! A name resolves either to a composite texture entry, assembled by
//! stamping each referenced patch image onto a zero-initialized canvas at
//! its offset (later patches overwriting earlier pixels, clipped to the
//! canvas), or to a single named image lump: a flat decoded at the fixed
//! 64x64 size, otherwise a column-run-length picture. All results are
//! cached by canonical name; a repeated request is served from the cache
//! without decoding anything again.

use vstd::prelude::*;
use crate::archive::{any_has_lump, found_lump};
use crate::assembler::{is_image_of, lump_decodable, MapManager};
use crate::defs::{canon, WadError};
use crate::model::{assoc_contains, assoc_find, assoc_keys, lemma_assoc_push_unique,
    TextureEntry, TexturePatch};
use crate::palette::{Flat, FLAT_SIZE};
use crate::picture::{decode_picture, spec_picture_cells, TexImage, MAX_PICTURE_PIXELS};

verus! {

/// Whether `get_texture` owes success for an uncached name: a composite
/// entry must have a usable canvas size; any other name must already sit
/// in the single-image cache or resolve to a decodable lump.
pub open spec fn texture_resolvable(
    defs: Seq<(Vec<u8>, TextureEntry)>,
    tex_cache: Seq<(Vec<u8>, TexImage)>,
    wads: Seq<crate::archive::Archive>,
    key: Seq<u8>,
) -> bool {
    if assoc_contains(defs, key) {
        let e = defs[crate::walls::assoc_first(defs, key, 0)].1;
        e.width > 0 && e.height > 0
            && e.width as int <= MAX_PICTURE_PIXELS as int / e.height as int
    } else {
        assoc_contains(tex_cache, key) || (any_has_lump(wads, key)
            && lump_decodable(found_lump(wads, key)))
    }
}

/// Writes the four channels of one source pixel onto the canvas.
pub open spec fn stamp_px(canvas: Seq<u8>, dest: int, src: Seq<u8>, srci: int, c: int)
    -> Seq<u8>
    decreases 4 - c,
{
    if c >= 4 {
        canvas
    } else {
        stamp_px(canvas.update(dest + c, src[srci + c]), dest, src, srci, c + 1)
    }
}

/// Stamps source row `y` from column `x` on, clipped to the canvas width.
pub open spec fn stamp_row(canvas: Seq<u8>, w: int, ox: int, oy: int, src: Seq<u8>,
    sw: int, y: int, x: int) -> Seq<u8>
    decreases sw - x,
{
    if x >= sw {
        canvas
    } else {
        let c2 = if ox + x < w {
            stamp_px(canvas, ((oy + y) * w + (ox + x)) * 4, src, (y * sw + x) * 4, 0)
        } else {
            canvas
        };
        stamp_row(c2, w, ox, oy, src, sw, y, x + 1)
    }
}

/// Stamps a whole source image from row `y` on, clipped to the canvas.
pub open spec fn stamp_patch(canvas: Seq<u8>, w: int, h: int, ox: int, oy: int,
    src: Seq<u8>, sw: int, sh: int, y: int) -> Seq<u8>
    decreases sh - y,
{
    if y >= sh {
        canvas
    } else {
        let c2 = if oy + y < h {
            stamp_row(canvas, w, ox, oy, src, sw, y, 0)
        } else {
            canvas
        };
        stamp_patch(c2, w, h, ox, oy, src, sw, sh, y + 1)
    }
}

/// Whether one patch placement contributes to the canvas: its table
/// indices in range, its named lump present and decodable, and its
/// placement offsets non-negative.
pub open spec fn patch_used(pnames: Seq<Vec<Vec<u8>>>, wad_ind: int,
    wads: Seq<crate::archive::Archive>, p: TexturePatch) -> bool {
    &&& 0 <= wad_ind < pnames.len()
    &&& 0 <= p.patch < pnames[wad_ind]@.len()
    &&& any_has_lump(wads, canon(pnames[wad_ind]@[p.patch as int]@))
    &&& crate::assembler::lump_decodable(found_lump(wads,
        canon(pnames[wad_ind]@[p.patch as int]@)))
    &&& p.origin_x >= 0
    &&& p.origin_y >= 0
}

/// The lump a patch placement resolves to through the patch-name table.
pub open spec fn patch_lump(pnames: Seq<Vec<Vec<u8>>>, wad_ind: int,
    wads: Seq<crate::archive::Archive>, p: TexturePatch) -> crate::archive::Lump {
    found_lump(wads, canon(pnames[wad_ind]@[p.patch as int]@))
}

/// The canvas after the first `n` placements: each contributing patch is
/// stamped over the previous state in list order — so the last covering
/// patch wins each pixel — and skipped placements change nothing.
pub open spec fn stamp_all(canvas: Seq<u8>, w: int, h: int, pnames: Seq<Vec<Vec<u8>>>,
    wad_ind: int, wads: Seq<crate::archive::Archive>, pal: Seq<u8>,
    patches: Seq<TexturePatch>, n: int) -> Seq<u8>
    decreases n,
{
    if n <= 0 {
        canvas
    } else {
        let prev = stamp_all(canvas, w, h, pnames, wad_ind, wads, pal, patches, n - 1);
        let p = patches[n - 1];
        if patch_used(pnames, wad_ind, wads, p) {
            let l = patch_lump(pnames, wad_ind, wads, p);
            stamp_patch(prev, w, h, p.origin_x as int, p.origin_y as int,
                crate::assembler::lump_pixels(l, pal), crate::assembler::lump_width(l),
                crate::assembler::lump_height(l), 0)
        } else {
            prev
        }
    }
}

/// Stamping an image of zero width changes nothing.
proof fn lemma_stamp_patch_nop(canvas: Seq<u8>, w: int, h: int, ox: int, oy: int,
    src: Seq<u8>, sw: int, sh: int, y: int)
    requires
        sw <= 0,
    ensures
        stamp_patch(canvas, w, h, ox, oy, src, sw, sh, y) == canvas,
    decreases sh - y,
{
    if y < sh {
        lemma_stamp_patch_nop(canvas, w, h, ox, oy, src, sw, sh, y + 1);
    }
}

/// A fully transparent canvas of `n` bytes.
pub open spec fn zero_canvas(n: int) -> Seq<u8> {
    Seq::new(n as nat, |i: int| 0u8)
}

/// The composited RGBA bytes of a texture entry: every patch stamped in
/// order onto a zero-initialized canvas of the entry's declared size.
pub open spec fn spec_composite_pixels(e: TextureEntry, pnames: Seq<Vec<Vec<u8>>>,
    wads: Seq<crate::archive::Archive>, pal: Seq<u8>) -> Seq<u8> {
    stamp_all(zero_canvas(4 * e.width * e.height), e.width as int, e.height as int, pnames,
        e.wad_ind as int, wads, pal, e.patches@, e.patches@.len() as int)
}

/// A fresh copy of an image.
fn copy_image(img: &TexImage) -> (r: TexImage)
    ensures
        r.pixels@ == img.pixels@,
        r.width == img.width,
        r.height == img.height,
{
    TexImage {
        pixels: crate::model::copy_bytes(&img.pixels),
        width: img.width,
        height: img.height,
    }
}

impl MapManager {
    /// Resolves a single named image lump — a flat at the fixed 64x64
    /// size, otherwise a picture — and caches the result by canonical
    /// name. A cached name is served without touching the archives or
    /// the decoder; a fresh decode appends one cache entry and counts
    /// one decode. `UnknownTexture` exactly when no archive has the
    /// lump; an empty lump is `EmptyLump`; corrupt image data is
    /// `MalformedPatch`. Errors leave the manager unchanged.
    pub fn get_patch(&mut self, name: &Vec<u8>) -> (r: Result<usize, WadError>)
        requires
            old(self).wf(),
        ensures
            final(self).wf(),
            final(self).map == old(self).map,
            final(self).res_wads == old(self).res_wads,
            final(self).palette == old(self).palette,
            final(self).mat_cache == old(self).mat_cache,
            assoc_contains(old(self).tex_cache@, canon(name@)) ==> *final(self) == *old(self)
                && (r matches Ok(i) && i < old(self).tex_cache@.len()
                && old(self).tex_cache@[i as int].0@ == canon(name@)),
            !assoc_contains(old(self).tex_cache@, canon(name@)) ==> ((r is Ok)
                <==> (any_has_lump(old(self).res_wads@, canon(name@)) && lump_decodable(
                found_lump(old(self).res_wads@, canon(name@))))),
            !assoc_contains(old(self).tex_cache@, canon(name@)) ==> match r {
                Ok(i) => {
                    &&& i as int == old(self).tex_cache@.len()
                    &&& final(self).tex_cache@.len() == old(self).tex_cache@.len() + 1
                    &&& final(self).tex_cache@[i as int].0@ == canon(name@)
                    &&& final(self).tex_cache@[i as int].1.wf()
                    &&& is_image_of(final(self).tex_cache@[i as int].1, found_lump(
                        old(self).res_wads@, canon(name@)), old(self).palette.data@)
                    &&& forall|k: int| 0 <= k < old(self).tex_cache@.len()
                        ==> final(self).tex_cache@[k] == old(self).tex_cache@[k]
                    &&& old(self).decode_count < usize::MAX ==> final(self).decode_count
                        == old(self).decode_count + 1
                },
                Err(e) => {
                    &&& *final(self) == *old(self)
                    &&& (e == WadError::UnknownTexture <==> !any_has_lump(
                        old(self).res_wads@, canon(name@)))
                    &&& (e == WadError::EmptyLump <==> (any_has_lump(old(self).res_wads@,
                        canon(name@)) && found_lump(old(self).res_wads@,
                        canon(name@)).bytes@.len() == 0))
                    &&& (e == WadError::UnknownTexture || e == WadError::EmptyLump
                        || e == WadError::MalformedPatch)
                },
            },
    {
        let key = crate::defs::canonical_name(name);
        if let Some(i) = assoc_find(&self.tex_cache, &key) {
            proof {
                assert(assoc_keys(self.tex_cache@)[i as int] == self.tex_cache@[i as int].0@);
                assert(assoc_contains(self.tex_cache@, key@));
            }
            return Ok(i);
        }
        proof {
            assert(!assoc_contains(self.tex_cache@, key@));
        }
        let found = crate::archive::find_in_wads(&self.res_wads, &key);
        match found {
            None => Err(WadError::UnknownTexture),
            Some((w, i)) => {
                proof {
                    assert(crate::archive::has_lump(self.res_wads@[w as int].lumps@, key@));
                    assert(any_has_lump(self.res_wads@, key@));
                }
                let lump = &self.res_wads[w].lumps[i];
                if lump.bytes.len() == 0 {
                    return Err(WadError::EmptyLump);
                }
                let img: TexImage = if lump.is_flat {
                    if lump.bytes.len() != FLAT_SIZE {
                        return Err(WadError::MalformedPatch);
                    }
                    let flat = Flat::from_lump(&lump.bytes);
                    let pixels = flat.get_image(&self.palette);
                    proof {
                        assert(pixels@.len() == 4 * FLAT_SIZE);
                        assert(4 * FLAT_SIZE == 4 * 64 * 64);
                    }
                    TexImage { pixels, width: 64, height: 64 }
                } else {
                    match decode_picture(&lump.bytes, &self.palette) {
                        Ok(img) => img,
                        Err(e) => {
                            return Err(e);
                        },
                    }
                };
                let idx = self.tex_cache.len();
                proof {
                    assert(img.wf());
                    lemma_assoc_push_unique(self.tex_cache@, (key, img));
                }
                let ghost pre = self.tex_cache@;
                self.tex_cache.push((key, img));
                proof {
                    assert(forall|k: int| 0 <= k < pre.len()
                        ==> #[trigger] self.tex_cache@[k] == pre[k]);
                    assert forall|k: int| 0 <= k < self.tex_cache@.len()
                        implies (#[trigger] self.tex_cache@[k]).1.wf() by {
                        if k < pre.len() {
                            assert(pre[k].1.wf());
                        }
                    }
                }
                if self.decode_count < usize::MAX {
                    self.decode_count = self.decode_count + 1;
                }
                Ok(idx)
            },
        }
    }

    /// Assembles the composite texture entry at `tex_idx` by stamping
    /// each patch image onto a zero-initialized canvas of the entry's
    /// declared size, skipping patches with a negative placement offset,
    /// an out-of-range patch-table index or an unresolvable image, later
    /// patches overwriting earlier pixels, clipped to the canvas.
    pub fn generate_image_from_texentry(&mut self, tex_idx: usize) -> (r: Result<TexImage,
        WadError>)
        requires
            old(self).wf(),
            tex_idx < old(self).map.texture_defs@.len(),
        ensures
            final(self).wf(),
            final(self).map == old(self).map,
            final(self).res_wads == old(self).res_wads,
            final(self).palette == old(self).palette,
            final(self).mat_cache == old(self).mat_cache,
            (r is Err) <==> ({
                let e = old(self).map.texture_defs@[tex_idx as int].1;
                e.width <= 0 || e.height <= 0
                    || e.width as int > MAX_PICTURE_PIXELS as int / e.height as int
            }),
            match r {
                Ok(img) => img.wf()
                    && img.width as int == old(self).map.texture_defs@[
                        tex_idx as int].1.width as int
                    && img.height as int == old(self).map.texture_defs@[
                        tex_idx as int].1.height as int
                    && img.pixels@ == spec_composite_pixels(old(self).map.texture_defs@[
                        tex_idx as int].1, old(self).map.pnames@, old(self).res_wads@,
                        old(self).palette.data@)
                    && (old(self).map.texture_defs@[tex_idx as int].1.patches@.len() == 0
                        ==> forall|k: int| 0 <= k < img.pixels@.len()
                            ==> img.pixels@[k] == 0),
                Err(e) => e == WadError::MalformedPatch,
            },
    {
        let entry_width = self.map.texture_defs[tex_idx].1.width;
        let entry_height = self.map.texture_defs[tex_idx].1.height;
        let entry_wad = self.map.texture_defs[tex_idx].1.wad_ind;
        if entry_width <= 0 || entry_height <= 0 {
            return Err(WadError::MalformedPatch);
        }
        let w = entry_width as usize;
        let hgt = entry_height as usize;
        if w > MAX_PICTURE_PIXELS / hgt {
            return Err(WadError::MalformedPatch);
        }
        proof {
            assert(w * hgt <= MAX_PICTURE_PIXELS) by (nonlinear_arith)
                requires
                    0 < hgt,
                    w <= MAX_PICTURE_PIXELS as int / hgt as int,
            ;
            assert(w * hgt * 4 <= MAX_PICTURE_PIXELS * 4) by (nonlinear_arith)
                requires
                    w * hgt <= MAX_PICTURE_PIXELS as int,
            ;
        }
        let size = w * hgt * 4;
        let ghost ge = self.map.texture_defs@[tex_idx as int].1;
        let ghost gpn = self.map.pnames@;
        let ghost gwads = self.res_wads@;
        let ghost gpal = self.palette.data@;
        proof {
            assert(size as int == 4 * ge.width * ge.height) by (nonlinear_arith)
                requires
                    size == w * hgt * 4,
                    w == ge.width as int,
                    hgt == ge.height as int,
            ;
        }
        let mut data: Vec<u8> = Vec::new();
        let mut z: usize = 0;
        while z < size
            invariant
                z <= size,
                data@.len() == z,
                forall|k: int| 0 <= k < z ==> data@[k] == 0,
            decreases size - z,
        {
            data.push(0);
            z = z + 1;
        }
        proof {
            assert(data@ =~= zero_canvas(size as int));
        }

        // copy the patch placements aside so the caches can move freely
        let mut placements: Vec<TexturePatch> = Vec::new();
        let n_p = self.map.texture_defs[tex_idx].1.patches.len();
        let mut t: usize = 0;
        while t < n_p
            invariant
                t <= n_p,
                tex_idx < self.map.texture_defs@.len(),
                self.map.texture_defs@[tex_idx as int].1 == ge,
                n_p == ge.patches@.len(),
                placements@.len() == t,
                forall|k: int| 0 <= k < t ==> placements@[k] == ge.patches@[k],
            decreases n_p - t,
        {
            placements.push(self.map.texture_defs[tex_idx].1.patches[t]);
            t = t + 1;
        }
        proof {
            assert(placements@ =~= ge.patches@);
        }

        let mut pi: usize = 0;
        while pi < placements.len()
            invariant
                pi <= placements@.len(),
                placements@ == ge.patches@,
                placements@.len() == 0 ==> forall|k: int| 0 <= k < data@.len()
                    ==> data@[k] == 0,
                self.wf(),
                self.map == old(self).map,
                self.res_wads == old(self).res_wads,
                self.palette == old(self).palette,
                self.mat_cache == old(self).mat_cache,
                gpn == self.map.pnames@,
                gwads == self.res_wads@,
                gpal == self.palette.data@,
                data@.len() == size,
                size == w * hgt * 4,
                w == entry_width as int,
                hgt == entry_height as int,
                entry_wad == ge.wad_ind,
                0 < w,
                0 < hgt,
                data@ == stamp_all(zero_canvas(size as int), w as int, hgt as int, gpn,
                    entry_wad as int, gwads, gpal, placements@, pi as int),
            decreases placements@.len() - pi,
        {
            let patch = placements[pi];
            let ghost gpi = pi as int;
            pi = pi + 1;
            // resolve the patch image by its patch-table name, through
            // the cache; failures skip this one patch
            if entry_wad >= self.map.pnames.len() {
                proof {
                    assert(!patch_used(gpn, entry_wad as int, gwads, patch));
                }
                continue;
            }
            if patch.patch < 0 || patch.patch as usize >= self.map.pnames[entry_wad].len() {
                proof {
                    assert(!patch_used(gpn, entry_wad as int, gwads, patch));
                }
                continue;
            }
            let pname = crate::model::copy_bytes(
                &self.map.pnames[entry_wad][patch.patch as usize]);
            proof {
                assert(pname@ == gpn[entry_wad as int]@[patch.patch as int]@);
            }
            let got = self.get_patch(&pname);
            let cache_idx = match got {
                Ok(ci) => ci,
                Err(_) => {
                    proof {
                        assert(!patch_used(gpn, entry_wad as int, gwads, patch));
                    }
                    continue;
                },
            };
            if patch.origin_x < 0 || patch.origin_y < 0 {
                proof {
                    assert(!patch_used(gpn, entry_wad as int, gwads, patch));
                }
                continue;
            }
            let ox = patch.origin_x as usize;
            let oy = patch.origin_y as usize;
            proof {
                // the resolved cache entry carries this very name
                assert(self.tex_cache@[cache_idx as int].0@ == canon(pname@));
                assert(patch_used(gpn, entry_wad as int, gwads, patch));
            }
            if cache_idx >= self.tex_cache.len() {
                proof {
                    assert(false);
                }
                continue;
            }
            let src = &self.tex_cache[cache_idx].1;
            let ghost gl = patch_lump(gpn, entry_wad as int, gwads, patch);
            let ghost src_pix = crate::assembler::lump_pixels(gl, gpal);
            proof {
                crate::assembler::lemma_image_pixels(self.tex_cache@[cache_idx as int].1,
                    gl, gpal);
                assert(src.pixels@ == src_pix);
            }
            let sw = src.width as usize;
            let sh = src.height as usize;
            let plen = src.pixels.len();
            proof {
                assert(src.wf());
                assert(plen == 4 * sw * sh);
            }
            let ghost entry_data = data@;
            if sw == 0 || sh == 0 {
                proof {
                    if sw == 0 {
                        lemma_stamp_patch_nop(entry_data, w as int, hgt as int, ox as int,
                            oy as int, src_pix, sw as int, sh as int, 0);
                    }
                    assert(stamp_patch(entry_data, w as int, hgt as int, ox as int,
                        oy as int, src_pix, sw as int, sh as int, 0) == entry_data);
                }
                continue;
            }
            let mut y: usize = 0;
            while y < sh
                invariant
                    y <= sh,
                    0 < sw <= 65535,
                    0 < sh <= 65535,
                    oy <= 32767,
                    ox <= 32767,
                    src_pix == src.pixels@,
                    plen == src.pixels@.len(),
                    plen == 4 * sw * sh,
                    data@.len() == size,
                    size == w * hgt * 4,
                    0 < w,
                    0 < hgt,
                    stamp_patch(data@, w as int, hgt as int, ox as int, oy as int, src_pix,
                        sw as int, sh as int, y as int) == stamp_patch(entry_data, w as int,
                        hgt as int, ox as int, oy as int, src_pix, sw as int, sh as int, 0),
                decreases sh - y,
            {
                if oy + y < hgt {
                    let ghost row_entry = data@;
                    let mut x: usize = 0;
                    while x < sw
                        invariant
                            x <= sw,
                            y < sh,
                            oy + y < hgt,
                            0 < sw <= 65535,
                            0 < sh <= 65535,
                            oy <= 32767,
                            ox <= 32767,
                            src_pix == src.pixels@,
                            plen == src.pixels@.len(),
                            plen == 4 * sw * sh,
                            data@.len() == size,
                            size == w * hgt * 4,
                            0 < w,
                            0 < hgt,
                            stamp_row(data@, w as int, ox as int, oy as int, src_pix,
                                sw as int, y as int, x as int) == stamp_row(row_entry,
                                w as int, ox as int, oy as int, src_pix, sw as int,
                                y as int, 0),
                        decreases sw - x,
                    {
                        if ox + x < w {
                            proof {
                                assert((y * sw + x) * 4 + 4 <= 4 * sw * sh)
                                    by (nonlinear_arith)
                                    requires
                                        y < sh,
                                        x < sw,
                                        0 < sw,
                                ;
                                assert(4 * sw * sh == plen);
                                assert(((oy + y) * w + (ox + x)) * 4 + 4 <= w * hgt * 4)
                                    by (nonlinear_arith)
                                    requires
                                        oy + y < hgt,
                                        ox + x < w,
                                        0 < w,
                                ;
                            }
                            let src_index = (y * sw + x) * 4;
                            let dest_index = ((oy + y) * w + (ox + x)) * 4;
                            proof {
                                assert(src_index + 4 <= plen);
                                assert(dest_index + 4 <= size);
                            }
                            let ghost px_entry = data@;
                            let mut c: usize = 0;
                            while c < 4
                                invariant
                                    c <= 4,
                                    src_index + 4 <= plen,
                                    src_pix == src.pixels@,
                                    plen == src.pixels@.len(),
                                    dest_index + 4 <= size,
                                    data@.len() == size,
                                    stamp_px(data@, dest_index as int, src_pix,
                                        src_index as int, c as int) == stamp_px(px_entry,
                                        dest_index as int, src_pix, src_index as int, 0),
                                decreases 4 - c,
                            {
                                let v = src.pixels[src_index + c];
                                data.set(dest_index + c, v);
                                c = c + 1;
                            }
                        }
                        x = x + 1;
                    }
                }
                y = y + 1;
            }
            proof {
                // the whole patch was replayed: the canvas model takes
                // the same stamping step
                assert(data@ == stamp_patch(entry_data, w as int, hgt as int, ox as int,
                    oy as int, src_pix, sw as int, sh as int, 0));
                assert(sw as int == crate::assembler::lump_width(gl));
                assert(sh as int == crate::assembler::lump_height(gl));
            }
        }
        proof {
            assert(data@ == spec_composite_pixels(ge, gpn, gwads, gpal));
        }
        proof {
            assert(4 * (entry_width as u16 as int) * (entry_height as u16 as int)
                == w * hgt * 4) by (nonlinear_arith)
                requires
                    w == entry_width as int,
                    hgt == entry_height as int,
                    0 < entry_width as int <= 32767,
                    0 < entry_height as int <= 32767,
                    w == entry_width as u16 as int,
                    hgt == entry_height as u16 as int,
            ;
        }
        Ok(TexImage { pixels: data, width: entry_width as u16, height: entry_height as u16 })
    }

    /// Resolves a texture name to an RGBA image, returning its position
    /// in the resolved-texture cache: a composite entry when the name
    /// matches one, otherwise a single image lump. A previously resolved
    /// name is served from the cache with the manager untouched and
    /// nothing decoded again. `UnknownTexture` exactly when the name
    /// matches neither a composite entry nor any archive lump.
    pub fn get_texture(&mut self, name: &Vec<u8>) -> (r: Result<usize, WadError>)
        requires
            old(self).wf(),
        ensures
            final(self).wf(),
            final(self).map == old(self).map,
            final(self).res_wads == old(self).res_wads,
            final(self).palette == old(self).palette,
            assoc_contains(old(self).mat_cache@, canon(name@)) ==> *final(self) == *old(self)
                && (r matches Ok(i) && i < old(self).mat_cache@.len()
                && old(self).mat_cache@[i as int].0@ == canon(name@)),
            !assoc_contains(old(self).mat_cache@, canon(name@)) ==> ((r is Ok)
                <==> texture_resolvable(old(self).map.texture_defs@, old(self).tex_cache@,
                old(self).res_wads@, canon(name@))),
            !assoc_contains(old(self).mat_cache@, canon(name@)) ==> match r {
                Ok(i) => {
                    &&& i as int == old(self).mat_cache@.len()
                    &&& final(self).mat_cache@.len() == old(self).mat_cache@.len() + 1
                    &&& final(self).mat_cache@[i as int].0@ == canon(name@)
                    &&& final(self).mat_cache@[i as int].1.wf()
                    &&& assoc_contains(old(self).map.texture_defs@, canon(name@))
                        ==> ({
                        let e = old(self).map.texture_defs@[crate::walls::assoc_first(
                            old(self).map.texture_defs@, canon(name@), 0)].1;
                        final(self).mat_cache@[i as int].1.width as int == e.width as int
                            && final(self).mat_cache@[i as int].1.height as int
                                == e.height as int
                            && final(self).mat_cache@[i as int].1.pixels@
                                == spec_composite_pixels(e, old(self).map.pnames@,
                                    old(self).res_wads@, old(self).palette.data@)
                    })
                    &&& !assoc_contains(old(self).map.texture_defs@, canon(name@))
                        && !assoc_contains(old(self).tex_cache@, canon(name@))
                        ==> is_image_of(final(self).mat_cache@[i as int].1, found_lump(
                        old(self).res_wads@, canon(name@)), old(self).palette.data@)
                    &&& !assoc_contains(old(self).map.texture_defs@, canon(name@))
                        && assoc_contains(old(self).tex_cache@, canon(name@))
                        ==> (exists|t: int| 0 <= t < old(self).tex_cache@.len()
                            && (#[trigger] old(self).tex_cache@[t]).0@ == canon(name@)
                            && final(self).mat_cache@[i as int].1.pixels@
                                == old(self).tex_cache@[t].1.pixels@)
                    &&& forall|k: int| 0 <= k < old(self).mat_cache@.len()
                        ==> final(self).mat_cache@[k] == old(self).mat_cache@[k]
                },
                Err(e) => {
                    &&& final(self).mat_cache == old(self).mat_cache
                    &&& (e == WadError::UnknownTexture <==> (!assoc_contains(
                        old(self).map.texture_defs@, canon(name@)) && !any_has_lump(
                        old(self).res_wads@, canon(name@))))
                },
            },
    {
        let key = crate::defs::canonical_name(name);
        if let Some(i) = assoc_find(&self.mat_cache, &key) {
            proof {
                assert(assoc_keys(self.mat_cache@)[i as int] == self.mat_cache@[i as int].0@);
                assert(assoc_contains(self.mat_cache@, key@));
            }
            return Ok(i);
        }
        proof {
            assert(!assoc_contains(self.mat_cache@, key@));
        }
        let img: TexImage = match assoc_find(&self.map.texture_defs, &key) {
            Some(tex_idx) => {
                proof {
                    assert(assoc_keys(self.map.texture_defs@)[tex_idx as int]
                        == self.map.texture_defs@[tex_idx as int].0@);
                    assert(assoc_contains(self.map.texture_defs@, key@));
                    crate::walls::lemma_assoc_first_char(self.map.texture_defs@, key@, 0);
                    assert forall|k: int| 0 <= k < tex_idx
                        implies (#[trigger] self.map.texture_defs@[k]).0@ != key@ by {
                        assert(assoc_keys(self.map.texture_defs@)[k]
                            == self.map.texture_defs@[k].0@);
                        assert(assoc_keys(self.map.texture_defs@)[k] != key@);
                    }
                    assert(crate::walls::assoc_first(self.map.texture_defs@, key@, 0)
                        == tex_idx);
                }
                match self.generate_image_from_texentry(tex_idx) {
                    Ok(img) => img,
                    Err(e) => {
                        proof {
                            assert(e != WadError::UnknownTexture);
                        }
                        return Err(e);
                    },
                }
            },
            None => {
                match self.get_patch(name) {
                    Ok(ci) => {
                        proof {
                            if assoc_contains(old(self).tex_cache@, key@) {
                                assert(old(self).tex_cache@[ci as int].0@ == key@);
                            }
                        }
                        if ci < self.tex_cache.len() {
                            copy_image(&self.tex_cache[ci].1)
                        } else {
                            proof {
                                assert(false);
                            }
                            return Err(WadError::MalformedPatch);
                        }
                    },
                    Err(e) => {
                        return Err(e);
                    },
                }
            },
        };
        let idx = self.mat_cache.len();
        proof {
            assert(img.wf());
            lemma_assoc_push_unique(self.mat_cache@, (key, img));
        }
        let ghost pre = self.mat_cache@;
        self.mat_cache.push((key, img));
        proof {
            assert(forall|k: int| 0 <= k < pre.len()
                ==> #[trigger] self.mat_cache@[k] == pre[k]);
            assert forall|k: int| 0 <= k < self.mat_cache@.len()
                implies (#[trigger] self.mat_cache@[k]).1.wf() by {
                if k < pre.len() {
                    assert(pre[k].1.wf());
                }
            }
        }
        Ok(idx)
    }
}

} // verus!
