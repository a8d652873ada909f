//! Palette decoding and flat (floor/ceiling) image conversion.
//!
//! A palette lump holds one or more 768-byte palettes of 256 RGB entries;
//! only the first palette is used. A flat is a fixed 64x64 grid of raw
//! palette-index bytes, 4096 bytes in all, decoded row-major through the
//! palette into RGBA with the alpha channel always opaque.

use vstd::prelude::*;
use crate::defs::WadError;

verus! {

/// Size of one palette in bytes: 256 entries of 3 bytes.
pub const PALETTE_SIZE: usize = 768;

/// Number of bytes in a flat image: 64 rows of 64 palette indices.
pub const FLAT_SIZE: usize = 4096;

/// A 256-entry RGB color table: exactly 768 raw bytes, entry `i` at
/// offset `3 * i`.
pub struct Palette {
    pub data: Vec<u8>,
}

impl Palette {
    /// The palette holds exactly 256 RGB entries.
    pub open spec fn wf(&self) -> bool {
        self.data@.len() == PALETTE_SIZE
    }

    /// Decodes the first palette of a palette lump.
    ///
    /// A lump shorter than one palette counts as no palette at all.
    pub fn from_lump(buf: &Vec<u8>) -> (r: Result<Palette, WadError>)
        ensures
            buf@.len() >= PALETTE_SIZE ==> (r matches Ok(p) && p.wf()
                && p.data@ == buf@.subrange(0, PALETTE_SIZE as int)),
            buf@.len() < PALETTE_SIZE ==> (r matches Err(e) && e == WadError::PaletteMissing),
    {
        if buf.len() < PALETTE_SIZE {
            return Err(WadError::PaletteMissing);
        }
        let mut data: Vec<u8> = Vec::new();
        let mut i: usize = 0;
        while i < PALETTE_SIZE
            invariant
                i <= PALETTE_SIZE,
                PALETTE_SIZE <= buf@.len(),
                buf@.len() <= usize::MAX,
                data@.len() == i,
                forall|k: int| 0 <= k < i ==> data@[k] == buf@[k],
            decreases PALETTE_SIZE - i,
        {
            data.push(buf[i]);
            i = i + 1;
        }
        proof {
            assert(data@ =~= buf@.subrange(0, PALETTE_SIZE as int));
        }
        Ok(Palette { data })
    }

    /// Appends the RGBA quadruple of palette entry `idx`: the three RGB
    /// bytes of the entry followed by an opaque alpha.
    pub fn push_rgba(&self, out: &mut Vec<u8>, idx: u8)
        requires
            self.wf(),
        ensures
            final(out)@ == old(out)@ + rgba_entry(self.data@, idx),
    {
        let off: usize = (idx as usize) * 3;
        out.push(self.data[off]);
        out.push(self.data[off + 1]);
        out.push(self.data[off + 2]);
        out.push(255);
        proof {
            assert(out@ =~= old(out)@ + rgba_entry(self.data@, idx));
        }
    }
}

/// The RGBA quadruple a palette maps index `idx` to.
pub open spec fn rgba_entry(pal: Seq<u8>, idx: u8) -> Seq<u8> {
    seq![pal[3 * idx], pal[3 * idx + 1], pal[3 * idx + 2], 255u8]
}

/// A flat: a fixed 64x64 paletted floor/ceiling image.
pub struct Flat {
    pub buffer: Vec<u8>,
}

impl Flat {
    /// The flat holds exactly 64 * 64 palette-index bytes.
    pub open spec fn wf(&self) -> bool {
        self.buffer@.len() == FLAT_SIZE
    }

    /// Wraps the raw bytes of a flat lump.
    pub fn from_lump(data: &Vec<u8>) -> (r: Flat)
        requires
            data@.len() == FLAT_SIZE,
        ensures
            r.wf(),
            r.buffer@ == data@,
    {
        let mut buffer: Vec<u8> = Vec::new();
        let mut i: usize = 0;
        while i < FLAT_SIZE
            invariant
                i <= FLAT_SIZE,
                data@.len() == FLAT_SIZE,
                buffer@.len() == i,
                forall|k: int| 0 <= k < i ==> buffer@[k] == data@[k],
            decreases FLAT_SIZE - i,
        {
            buffer.push(data[i]);
            i = i + 1;
        }
        proof {
            assert(buffer@ =~= data@);
        }
        Flat { buffer }
    }

    /// Converts the flat to RGBA by mapping each byte through the palette
    /// in row-major order.
    pub fn get_image(&self, palette: &Palette) -> (r: Vec<u8>)
        requires
            self.wf(),
            palette.wf(),
        ensures
            r@.len() == 4 * FLAT_SIZE,
            forall|k: int|
                0 <= k < FLAT_SIZE ==> #[trigger] r@.subrange(4 * k, 4 * k + 4)
                    == rgba_entry(palette.data@, self.buffer@[k]),
    {
        let mut r: Vec<u8> = Vec::new();
        let mut i: usize = 0;
        while i < FLAT_SIZE
            invariant
                i <= FLAT_SIZE,
                self.wf(),
                palette.wf(),
                r@.len() == 4 * i,
                forall|k: int|
                    0 <= k < i ==> #[trigger] r@.subrange(4 * k, 4 * k + 4)
                        == rgba_entry(palette.data@, self.buffer@[k]),
            decreases FLAT_SIZE - i,
        {
            let ghost prev = r@;
            palette.push_rgba(&mut r, self.buffer[i]);
            proof {
                assert(forall|k: int| 0 <= k < i ==> #[trigger] r@.subrange(4 * k, 4 * k + 4)
                    =~= prev.subrange(4 * k, 4 * k + 4));
                assert(r@.subrange(4 * i, 4 * i + 4)
                    =~= rgba_entry(palette.data@, self.buffer@[i as int]));
            }
            i = i + 1;
        }
        r
    }
}

} // verus!
