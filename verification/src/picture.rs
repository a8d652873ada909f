//! The column-run-length picture image format.
//!
//! A picture is a paletted image stored as columns: an 8-byte header
//! (width, height, left and top offsets, each little-endian 16-bit), one
//! 4-byte offset per column into the same buffer, and per column a chain
//! of posts. Each post is a row start, a pixel count, one padding byte,
//! the pixel bytes, one more padding byte; a row start of `0xff` ends the
//! column. Pixels never written stay fully transparent. Any read outside
//! the buffer or outside the image is `MalformedPatch`: unlike the sector
//! tolerance elsewhere, corrupt run data fails, and the caller skips that
//! one image. The whole decode is pinned by the spec model
//! `spec_picture_cells`.

use vstd::prelude::*;
use crate::defs::WadError;
use crate::palette::{Palette, rgba_entry};

verus! {

/// A decoded RGBA image: `4 * width * height` bytes, row-major.
pub struct TexImage {
    pub pixels: Vec<u8>,
    pub width: u16,
    pub height: u16,
}

impl TexImage {
    /// The pixel buffer holds exactly its declared size.
    pub open spec fn wf(&self) -> bool {
        self.pixels@.len() == 4 * (self.width as int) * (self.height as int)
    }
}

/// The unsigned 16-bit little-endian field of `b` at `off`.
pub open spec fn le_u16(b: Seq<u8>, off: int) -> int {
    b[off] + 256 * b[off + 1]
}

/// An upper bound on accepted image sizes, in pixels: guards against
/// absurd headers on machines with a narrow address space.
pub const MAX_PICTURE_PIXELS: usize = 0x4000000;

/// The cells after one post's pixels: pixel `j` of the post, read at byte
/// `pos0 + j`, lands on row `row_start + j` of column `col`.
pub open spec fn write_post(
    b: Seq<u8>,
    w: int,
    col: int,
    row_start: int,
    count: int,
    j: int,
    pos0: int,
    cells: Seq<Option<u8>>,
) -> Seq<Option<u8>>
    decreases count - j,
{
    if j >= count {
        cells
    } else {
        write_post(b, w, col, row_start, count, j + 1, pos0, cells.update(
            (row_start + j) * w + col, Some(b[pos0 + j])))
    }
}

/// The cells after the whole post chain of column `col` starting at byte
/// `pos`, or nothing when the chain reads outside the buffer or writes
/// outside the image.
pub open spec fn posts_rec(
    b: Seq<u8>,
    w: int,
    h: int,
    col: int,
    pos: int,
    cells: Seq<Option<u8>>,
) -> Option<Seq<Option<u8>>>
    decreases b.len() - pos,
{
    if pos < 0 || pos >= b.len() {
        None
    } else if b[pos] == 255 {
        Some(cells)
    } else if pos + 1 >= b.len() || b.len() - (pos + 1) < 2 {
        None
    } else {
        let row_start = b[pos] as int;
        let count = b[pos + 1] as int;
        if row_start + count > h || pos + 3 + count >= b.len() {
            None
        } else {
            posts_rec(b, w, h, col, pos + 3 + count + 1, write_post(b, w, col, row_start,
                count, 0, pos + 3, cells))
        }
    }
}

/// The cells after decoding columns `col .. w`, or nothing when some
/// column is malformed. Column `col`'s chain starts at the 4-byte offset
/// stored at byte `8 + 4 * col`.
pub open spec fn cols_rec(
    b: Seq<u8>,
    w: int,
    h: int,
    col: int,
    cells: Seq<Option<u8>>,
) -> Option<Seq<Option<u8>>>
    decreases w - col,
{
    if col >= w {
        Some(cells)
    } else {
        let tpos = 8 + 4 * col;
        if tpos + 4 > b.len() {
            None
        } else {
            let off = crate::codec::le_u32(b[tpos], b[tpos + 1], b[tpos + 2], b[tpos + 3]);
            if off >= b.len() {
                None
            } else {
                match posts_rec(b, w, h, col, off, cells) {
                    None => None,
                    Some(c2) => cols_rec(b, w, h, col + 1, c2),
                }
            }
        }
    }
}

/// The palette-index cells a picture lump decodes to — `None` for a pixel
/// never written, left transparent — or nothing when the lump is
/// malformed: too short for its header, a zero or oversized dimension, or
/// a corrupt column.
pub open spec fn spec_picture_cells(b: Seq<u8>) -> Option<Seq<Option<u8>>> {
    if b.len() < 8 {
        None
    } else {
        let w = le_u16(b, 0);
        let h = le_u16(b, 2);
        if w == 0 || h == 0 || w > MAX_PICTURE_PIXELS as int / h {
            None
        } else {
            cols_rec(b, w, h, 0, Seq::new((w * h) as nat, |i: int| None))
        }
    }
}

/// The RGBA quadruple of one cell: the palette entry, opaque, for a
/// written pixel, fully transparent otherwise.
pub open spec fn cell_rgba(pal: Seq<u8>, c: Option<u8>) -> Seq<u8> {
    match c {
        Some(idx) => rgba_entry(pal, idx),
        None => seq![0u8, 0u8, 0u8, 0u8],
    }
}

/// Decodes a picture lump into an RGBA image through the palette.
///
/// Succeeds exactly when the spec model does; the image dimensions are
/// the header's, and each pixel quadruple is the model's cell mapped
/// through the palette. Corrupt data gives `MalformedPatch`.
pub fn decode_picture(bytes: &Vec<u8>, palette: &Palette) -> (r: Result<TexImage, WadError>)
    requires
        palette.wf(),
    ensures
        (r is Ok) <==> spec_picture_cells(bytes@) is Some,
        match r {
            Ok(img) => {
                &&& bytes@.len() >= 8
                &&& img.width as int == le_u16(bytes@, 0)
                &&& img.height as int == le_u16(bytes@, 2)
                &&& img.wf()
                &&& forall|k: int| 0 <= k < le_u16(bytes@, 0) * le_u16(bytes@, 2)
                    ==> #[trigger] img.pixels@.subrange(4 * k, 4 * k + 4)
                        == cell_rgba(palette.data@, spec_picture_cells(bytes@).unwrap()[k])
            },
            Err(e) => e == WadError::MalformedPatch,
        },
{
    if bytes.len() < 8 {
        return Err(WadError::MalformedPatch);
    }
    let blen = bytes.len();
    let width: u16 = bytes[0] as u16 + (bytes[1] as u16) * 256;
    let height: u16 = bytes[2] as u16 + (bytes[3] as u16) * 256;
    let w = width as usize;
    let hgt = height as usize;
    if w == 0 || hgt == 0 {
        return Err(WadError::MalformedPatch);
    }
    if w > MAX_PICTURE_PIXELS / hgt {
        return Err(WadError::MalformedPatch);
    }
    proof {
        assert(w * hgt <= MAX_PICTURE_PIXELS) by (nonlinear_arith)
            requires
                0 < hgt,
                w <= MAX_PICTURE_PIXELS as int / hgt as int,
        ;
    }
    let img_size = w * hgt;

    let mut cells: Vec<Option<u8>> = Vec::new();
    let mut i: usize = 0;
    while i < img_size
        invariant
            i <= img_size,
            cells@.len() == i,
            forall|k: int| 0 <= k < i ==> cells@[k] is None,
        decreases img_size - i,
    {
        cells.push(None);
        i = i + 1;
    }
    proof {
        assert(cells@ =~= Seq::new((w * hgt) as nat, |t: int| None::<u8>));
    }
    let ghost target = cols_rec(bytes@, w as int, hgt as int, 0, cells@);
    proof {
        assert(spec_picture_cells(bytes@) == target);
    }

    let mut col: usize = 0;
    while col < w
        invariant
            col <= w,
            w == width as int,
            hgt == height as int,
            0 < w,
            0 < hgt,
            img_size == w * hgt,
            img_size <= MAX_PICTURE_PIXELS,
            cells@.len() == img_size,
            blen == bytes@.len(),
            8 <= blen,
            spec_picture_cells(bytes@) == target,
            cols_rec(bytes@, w as int, hgt as int, col as int, cells@) == target,
        decreases w - col,
    {
        let tpos = 8 + 4 * col;
        proof {
            assert(4 * col < 4 * w) by (nonlinear_arith)
                requires
                    col < w,
            ;
            assert(4 * w <= 4 * MAX_PICTURE_PIXELS as int) by (nonlinear_arith)
                requires
                    0 < hgt,
                    w * hgt <= MAX_PICTURE_PIXELS as int,
            ;
        }
        if tpos + 4 > blen {
            return Err(WadError::MalformedPatch);
        }
        let off = crate::codec::read_field_u32(bytes, tpos);
        let mut pos: usize = off as usize;
        if pos >= blen {
            return Err(WadError::MalformedPatch);
        }
        let ghost col_entry_cells = cells@;
        let ghost col_entry_pos = pos as int;
        proof {
            assert(col_entry_pos == off as int);
            assert(cols_rec(bytes@, w as int, hgt as int, col as int, col_entry_cells)
                == target);
            if posts_rec(bytes@, w as int, hgt as int, col as int, col_entry_pos,
                col_entry_cells) is None {
                assert(cols_rec(bytes@, w as int, hgt as int, col as int,
                    col_entry_cells) is None);
            }
        }
        loop
            invariant_except_break
                spec_picture_cells(bytes@) == target,
                posts_rec(bytes@, w as int, hgt as int, col as int, col_entry_pos,
                    col_entry_cells) is None ==> target is None,
                pos <= blen,
                w == width as int,
                hgt == height as int,
                col < w,
                0 < w,
                0 < hgt,
                img_size == w * hgt,
                img_size <= MAX_PICTURE_PIXELS,
                cells@.len() == img_size,
                blen == bytes@.len(),
                8 <= blen,
                posts_rec(bytes@, w as int, hgt as int, col as int, col_entry_pos,
                    col_entry_cells) == posts_rec(bytes@, w as int, hgt as int, col as int,
                    pos as int, cells@),
            ensures
                w == width as int,
                hgt == height as int,
                img_size == w * hgt,
                cells@.len() == img_size,
                blen == bytes@.len(),
                posts_rec(bytes@, w as int, hgt as int, col as int, col_entry_pos,
                    col_entry_cells) == Some(cells@),
            decreases blen - pos,
        {
            if pos >= blen {
                proof {
                    assert(posts_rec(bytes@, w as int, hgt as int, col as int, pos as int,
                        cells@) is None);
                }
                return Err(WadError::MalformedPatch);
            }
            let row_start = bytes[pos];
            if row_start == 255 {
                proof {
                    assert(posts_rec(bytes@, w as int, hgt as int, col as int, pos as int,
                        cells@) == Some(cells@));
                }
                break;
            }
            pos = pos + 1;
            if pos >= blen {
                proof {
                    assert(posts_rec(bytes@, w as int, hgt as int, col as int, pos - 1,
                        cells@) is None);
                }
                return Err(WadError::MalformedPatch);
            }
            let count = bytes[pos];
            if blen - pos < 2 {
                proof {
                    assert(posts_rec(bytes@, w as int, hgt as int, col as int, pos - 1,
                        cells@) is None);
                }
                return Err(WadError::MalformedPatch);
            }
            pos = pos + 2;
            // pixels fill rows row_start onward; a write outside the
            // image or a read outside the buffer is malformed
            if row_start as usize + count as usize > hgt {
                proof {
                    assert(posts_rec(bytes@, w as int, hgt as int, col as int,
                        pos - 3, cells@) is None);
                }
                return Err(WadError::MalformedPatch);
            }
            if count as usize >= blen - pos {
                proof {
                    assert(posts_rec(bytes@, w as int, hgt as int, col as int,
                        pos - 3, cells@) is None);
                }
                return Err(WadError::MalformedPatch);
            }
            let ghost post_start = pos - 3;
            let ghost cells_before = cells@;
            let ghost pos0 = pos as int;
            let mut j: usize = 0;
            while j < count as usize
                invariant
                    j <= count as int,
                    pos == pos0 + j,
                    pos0 == post_start + 3,
                    pos0 + count < blen,
                    row_start as int + count <= hgt,
                    w == width as int,
                    hgt == height as int,
                    col < w,
                    0 < w,
                    0 < hgt,
                    img_size == w * hgt,
                    img_size <= MAX_PICTURE_PIXELS,
                    cells@.len() == img_size,
                    blen == bytes@.len(),
                    8 <= blen,
                    write_post(bytes@, w as int, col as int, row_start as int, count as int,
                        j as int, pos0, cells@) == write_post(bytes@, w as int, col as int,
                        row_start as int, count as int, 0, pos0, cells_before),
                decreases count as int - j,
            {
                let row = row_start as usize + j;
                proof {
                    assert(row < hgt);
                    assert(row * w + col < hgt * w) by (nonlinear_arith)
                        requires
                            row < hgt,
                            col < w,
                            0 < w,
                    ;
                    assert(hgt * w == w * hgt) by (nonlinear_arith);
                }
                let index = row * w + col;
                let ghost pre = cells@;
                cells.set(index, Some(bytes[pos]));
                proof {
                    assert(cells@ == pre.update((row_start as int + j) * (w as int)
                        + col as int, Some(bytes@[pos0 + j])));
                }
                proof {
                    assert(write_post(bytes@, w as int, col as int, row_start as int,
                        count as int, j as int, pos0, pre) == write_post(bytes@, w as int,
                        col as int, row_start as int, count as int, j + 1, pos0,
                        cells@)) by {
                        assert(write_post(bytes@, w as int, col as int, row_start as int,
                            count as int, j as int, pos0, pre) == write_post(bytes@,
                            w as int, col as int, row_start as int, count as int, j + 1,
                            pos0, pre.update((row_start as int + j) * (w as int)
                            + col as int, Some(bytes@[pos0 + j]))));
                    }
                }
                pos = pos + 1;
                j = j + 1;
            }
            if pos >= blen {
                proof {
                    assert(write_post(bytes@, w as int, col as int, row_start as int,
                        count as int, count as int, pos0, cells@) == cells@);
                    assert(posts_rec(bytes@, w as int, hgt as int, col as int, post_start,
                        cells_before) is None);
                }
                return Err(WadError::MalformedPatch);
            }
            pos = pos + 1;
            proof {
                // one whole post was replayed: the spec takes the same step
                assert(write_post(bytes@, w as int, col as int, row_start as int,
                    count as int, count as int, pos0, cells@) == cells@);
                assert(posts_rec(bytes@, w as int, hgt as int, col as int, post_start,
                    cells_before) == posts_rec(bytes@, w as int, hgt as int, col as int,
                    pos as int, cells@));
            }
        }
        proof {
            assert(cols_rec(bytes@, w as int, hgt as int, col as int, col_entry_cells)
                == cols_rec(bytes@, w as int, hgt as int, col + 1, cells@));
        }
        col = col + 1;
    }
    proof {
        assert(cols_rec(bytes@, w as int, hgt as int, w as int, cells@) == Some(cells@));
        assert(target == Some(cells@));
    }

    // map the cells through the palette; unwritten cells stay transparent
    let mut pixels: Vec<u8> = Vec::new();
    let mut k: usize = 0;
    while k < img_size
        invariant
            k <= img_size,
            cells@.len() == img_size,
            palette.wf(),
            pixels@.len() == 4 * k,
            forall|t: int| 0 <= t < k ==> #[trigger] pixels@.subrange(4 * t, 4 * t + 4)
                == cell_rgba(palette.data@, cells@[t]),
        decreases img_size - k,
    {
        let ghost prev = pixels@;
        match cells[k] {
            None => {
                pixels.push(0);
                pixels.push(0);
                pixels.push(0);
                pixels.push(0);
            },
            Some(idx) => {
                palette.push_rgba(&mut pixels, idx);
            },
        }
        proof {
            assert(forall|t: int| 0 <= t < k ==> #[trigger] pixels@.subrange(4 * t,
                4 * t + 4) =~= prev.subrange(4 * t, 4 * t + 4));
            assert(pixels@.subrange(4 * k as int, 4 * k as int + 4)
                =~= cell_rgba(palette.data@, cells@[k as int]));
        }
        k = k + 1;
    }
    proof {
        assert(4 * (w as int) * (hgt as int) == 4 * img_size) by (nonlinear_arith)
            requires
                img_size == w * hgt,
        ;
    }
    Ok(TexImage { pixels, width, height })
}

} // verus!
