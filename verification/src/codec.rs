//! Fixed-width little-endian record decoding.
//!
//! A lump is a raw byte buffer; record count = buffer length / record width,
//! and a partial trailing record is silently dropped. Every multi-byte field
//! is a little-endian two-byte signed integer unless noted; names are raw
//! 8-byte NUL-padded fields.

use vstd::prelude::*;
use crate::model::{Thing, Linedef, Vert, Sector, Sidedef};

verus! {

/// Record widths in bytes.
pub const THING_WIDTH: usize = 10;
pub const LINEDEF_WIDTH: usize = 14;
pub const VERT_WIDTH: usize = 4;
pub const SECTOR_WIDTH: usize = 26;
pub const SIDEDEF_WIDTH: usize = 30;

/// A record index strictly below the record count fits inside the buffer.
proof fn lemma_record_fits(i: int, w: int, len: int)
    requires
        0 < w,
        0 <= len,
        0 <= i < len / w,
    ensures
        i * w + w <= len,
{
    vstd::arithmetic::div_mod::lemma_fundamental_div_mod(len, w);
    vstd::arithmetic::div_mod::lemma_remainder_lower(len, w);
    assert(i * w + w <= (len / w) * w) by (nonlinear_arith)
        requires
            0 < w,
            0 <= i < len / w,
    ;
}

/// The signed 16-bit little-endian interpretation of two bytes.
pub open spec fn le_i16(lo: u8, hi: u8) -> int {
    let v = lo + 256 * hi;
    if v >= 32768 {
        v - 65536
    } else {
        v
    }
}

/// The signed 16-bit field of `b` at byte offset `off`.
pub open spec fn field_i16(b: Seq<u8>, off: int) -> int {
    le_i16(b[off], b[off + 1])
}

/// The unsigned 32-bit little-endian interpretation of four bytes.
pub open spec fn le_u32(b0: u8, b1: u8, b2: u8, b3: u8) -> int {
    b0 + 256 * b1 + 65536 * b2 + 16777216 * b3
}

/// Reads a signed 16-bit little-endian value from two bytes.
pub fn read_i16(lo: u8, hi: u8) -> (r: i16)
    ensures
        r as int == le_i16(lo, hi),
{
    let v: u16 = lo as u16 + (hi as u16) * 256;
    if v >= 32768 {
        -((65535 - v) as i16) - 1
    } else {
        v as i16
    }
}

/// Reads a signed 16-bit field of `buf` at `off`.
pub fn read_field_i16(buf: &Vec<u8>, off: usize) -> (r: i16)
    requires
        off + 2 <= buf@.len(),
    ensures
        r as int == field_i16(buf@, off as int),
{
    let blen = buf.len();
    read_i16(buf[off], buf[off + 1])
}

/// Reads an unsigned 32-bit little-endian field of `buf` at `off`.
pub fn read_field_u32(buf: &Vec<u8>, off: usize) -> (r: u32)
    requires
        off + 4 <= buf@.len(),
    ensures
        r as int == le_u32(buf@[off as int], buf@[off as int + 1], buf@[off as int + 2],
            buf@[off as int + 3]),
{
    let blen = buf.len();
    buf[off] as u32 + (buf[off + 1] as u32) * 256 + (buf[off + 2] as u32) * 65536
        + (buf[off + 3] as u32) * 16777216
}

/// Copies the 8-byte name field of `buf` at `off`.
pub fn read_name8(buf: &Vec<u8>, off: usize) -> (r: Vec<u8>)
    requires
        off + 8 <= buf@.len(),
    ensures
        r@ == buf@.subrange(off as int, off as int + 8),
{
    let blen = buf.len();
    let mut r: Vec<u8> = Vec::new();
    let mut i: usize = 0;
    while i < 8
        invariant
            i <= 8,
            off + 8 <= buf@.len(),
            buf@.len() <= usize::MAX,
            r@.len() == i,
            forall|k: int| 0 <= k < i ==> r@[k] == buf@[off + k],
        decreases 8 - i,
    {
        r.push(buf[off + i]);
        i = i + 1;
    }
    proof {
        assert(r@ =~= buf@.subrange(off as int, off as int + 8));
    }
    r
}

/// The THINGS record decoded from `b` at byte offset `off`.
pub open spec fn thing_at(b: Seq<u8>, off: int) -> Thing {
    Thing {
        x: field_i16(b, off) as i16,
        y: field_i16(b, off + 2) as i16,
        angle: field_i16(b, off + 4) as i16,
        thing_type: field_i16(b, off + 6) as i16,
        flags: field_i16(b, off + 8) as i16,
    }
}

/// The LINEDEFS record decoded from `b` at byte offset `off`.
pub open spec fn linedef_at(b: Seq<u8>, off: int) -> Linedef {
    Linedef {
        start_vert: field_i16(b, off) as i16,
        end_vert: field_i16(b, off + 2) as i16,
        flags: field_i16(b, off + 4) as i16,
        special_type: field_i16(b, off + 6) as i16,
        sector_tag: field_i16(b, off + 8) as i16,
        front_sidedef: field_i16(b, off + 10) as i16,
        back_sidedef: field_i16(b, off + 12) as i16,
    }
}

/// The VERTEXES record decoded from `b` at byte offset `off`.
pub open spec fn vert_at(b: Seq<u8>, off: int) -> Vert {
    Vert { x: field_i16(b, off) as i16, y: field_i16(b, off + 2) as i16 }
}

/// The value a signed 16-bit field takes once stored as `i16`.
///
/// `le_i16` always lies within the `i16` range, so the cast in the record
/// specs above never truncates.
pub proof fn lemma_le_i16_in_range(lo: u8, hi: u8)
    ensures
        -32768 <= le_i16(lo, hi) <= 32767,
        le_i16(lo, hi) as i16 as int == le_i16(lo, hi),
{
}

/// Decodes THINGS records: x, y, angle, type, flags.
pub fn decode_things(buf: &Vec<u8>) -> (r: Vec<Thing>)
    ensures
        r@.len() == buf@.len() as int / THING_WIDTH as int,
        forall|k: int| 0 <= k < r@.len() ==> r@[k] == thing_at(buf@, k * THING_WIDTH),
{
    let n = buf.len() / THING_WIDTH;
    let mut r: Vec<Thing> = Vec::new();
    let mut i: usize = 0;
    while i < n
        invariant
            i <= n,
            n == buf@.len() as int / THING_WIDTH as int,
            buf@.len() <= usize::MAX,
            r@.len() == i,
            forall|k: int| 0 <= k < i ==> r@[k] == thing_at(buf@, k * THING_WIDTH),
        decreases n - i,
    {
        proof {
            lemma_record_fits(i as int, THING_WIDTH as int, buf@.len() as int);
        }
        let off = i * THING_WIDTH;
        r.push(Thing {
            x: read_field_i16(buf, off),
            y: read_field_i16(buf, off + 2),
            angle: read_field_i16(buf, off + 4),
            thing_type: read_field_i16(buf, off + 6),
            flags: read_field_i16(buf, off + 8),
        });
        i = i + 1;
    }
    r
}

/// Decodes LINEDEFS records: start-vertex, end-vertex, flags, special-type,
/// sector-tag, front-sidedef, back-sidedef.
pub fn decode_linedefs(buf: &Vec<u8>) -> (r: Vec<Linedef>)
    ensures
        r@.len() == buf@.len() as int / LINEDEF_WIDTH as int,
        forall|k: int| 0 <= k < r@.len() ==> r@[k] == linedef_at(buf@, k * LINEDEF_WIDTH),
{
    let n = buf.len() / LINEDEF_WIDTH;
    let mut r: Vec<Linedef> = Vec::new();
    let mut i: usize = 0;
    while i < n
        invariant
            i <= n,
            n == buf@.len() as int / LINEDEF_WIDTH as int,
            buf@.len() <= usize::MAX,
            r@.len() == i,
            forall|k: int| 0 <= k < i ==> r@[k] == linedef_at(buf@, k * LINEDEF_WIDTH),
        decreases n - i,
    {
        proof {
            lemma_record_fits(i as int, LINEDEF_WIDTH as int, buf@.len() as int);
        }
        let off = i * LINEDEF_WIDTH;
        r.push(Linedef {
            start_vert: read_field_i16(buf, off),
            end_vert: read_field_i16(buf, off + 2),
            flags: read_field_i16(buf, off + 4),
            special_type: read_field_i16(buf, off + 6),
            sector_tag: read_field_i16(buf, off + 8),
            front_sidedef: read_field_i16(buf, off + 10),
            back_sidedef: read_field_i16(buf, off + 12),
        });
        i = i + 1;
    }
    r
}

/// Decodes VERTEXES records: x, y.
pub fn decode_verts(buf: &Vec<u8>) -> (r: Vec<Vert>)
    ensures
        r@.len() == buf@.len() as int / VERT_WIDTH as int,
        forall|k: int| 0 <= k < r@.len() ==> r@[k] == vert_at(buf@, k * VERT_WIDTH),
{
    let n = buf.len() / VERT_WIDTH;
    let mut r: Vec<Vert> = Vec::new();
    let mut i: usize = 0;
    while i < n
        invariant
            i <= n,
            n == buf@.len() as int / VERT_WIDTH as int,
            buf@.len() <= usize::MAX,
            r@.len() == i,
            forall|k: int| 0 <= k < i ==> r@[k] == vert_at(buf@, k * VERT_WIDTH),
        decreases n - i,
    {
        proof {
            lemma_record_fits(i as int, VERT_WIDTH as int, buf@.len() as int);
        }
        let off = i * VERT_WIDTH;
        r.push(Vert { x: read_field_i16(buf, off), y: read_field_i16(buf, off + 2) });
        i = i + 1;
    }
    r
}

/// Whether the decoded fields of `s` are the SECTORS record of `b` at
/// byte offset `off`: floor-height, ceil-height, floor-tex, ceil-tex,
/// light, special, tag. The linedef list is not a stored field; the
/// linking pass fills it later.
pub open spec fn sector_fields_at(s: Sector, b: Seq<u8>, off: int) -> bool {
    &&& s.floor_height as int == field_i16(b, off)
    &&& s.ceil_height as int == field_i16(b, off + 2)
    &&& s.floor_tex@ == b.subrange(off + 4, off + 12)
    &&& s.ceil_tex@ == b.subrange(off + 12, off + 20)
    &&& s.light_level as int == field_i16(b, off + 20)
    &&& s.special as int == field_i16(b, off + 22)
    &&& s.tag as int == field_i16(b, off + 24)
}

/// Whether `s` is the freshly decoded SECTORS record of `b` at byte
/// offset `off`, its linedef list still empty.
pub open spec fn is_sector_at(s: Sector, b: Seq<u8>, off: int) -> bool {
    &&& sector_fields_at(s, b, off)
    &&& s.linedefs@ == Seq::<i16>::empty()
}

/// Decodes SECTORS records; each sector's linedef list starts empty.
pub fn decode_sectors(buf: &Vec<u8>) -> (r: Vec<Sector>)
    ensures
        r@.len() == buf@.len() as int / SECTOR_WIDTH as int,
        forall|k: int| 0 <= k < r@.len() ==> is_sector_at(#[trigger] r@[k], buf@,
            k * SECTOR_WIDTH),
{
    let n = buf.len() / SECTOR_WIDTH;
    let mut r: Vec<Sector> = Vec::new();
    let mut i: usize = 0;
    while i < n
        invariant
            i <= n,
            n == buf@.len() as int / SECTOR_WIDTH as int,
            buf@.len() <= usize::MAX,
            r@.len() == i,
            forall|k: int| 0 <= k < i ==> is_sector_at(#[trigger] r@[k], buf@,
                k * SECTOR_WIDTH),
        decreases n - i,
    {
        proof {
            lemma_record_fits(i as int, SECTOR_WIDTH as int, buf@.len() as int);
        }
        let off = i * SECTOR_WIDTH;
        r.push(Sector {
            floor_height: read_field_i16(buf, off),
            ceil_height: read_field_i16(buf, off + 2),
            floor_tex: read_name8(buf, off + 4),
            ceil_tex: read_name8(buf, off + 12),
            light_level: read_field_i16(buf, off + 20),
            special: read_field_i16(buf, off + 22),
            tag: read_field_i16(buf, off + 24),
            linedefs: Vec::new(),
        });
        i = i + 1;
    }
    r
}

/// Whether `s` is the SIDEDEFS record of `b` at byte offset `off`:
/// x-off, y-off, upper-tex, lower-tex, mid-tex, sector-index.
pub open spec fn is_sidedef_at(s: Sidedef, b: Seq<u8>, off: int) -> bool {
    &&& s.x_off as int == field_i16(b, off)
    &&& s.y_off as int == field_i16(b, off + 2)
    &&& s.upper_tex@ == b.subrange(off + 4, off + 12)
    &&& s.lower_tex@ == b.subrange(off + 12, off + 20)
    &&& s.mid_tex@ == b.subrange(off + 20, off + 28)
    &&& s.sector as int == field_i16(b, off + 28)
}

/// Decodes SIDEDEFS records.
pub fn decode_sidedefs(buf: &Vec<u8>) -> (r: Vec<Sidedef>)
    ensures
        r@.len() == buf@.len() as int / SIDEDEF_WIDTH as int,
        forall|k: int| 0 <= k < r@.len() ==> is_sidedef_at(#[trigger] r@[k], buf@,
            k * SIDEDEF_WIDTH),
{
    let n = buf.len() / SIDEDEF_WIDTH;
    let mut r: Vec<Sidedef> = Vec::new();
    let mut i: usize = 0;
    while i < n
        invariant
            i <= n,
            n == buf@.len() as int / SIDEDEF_WIDTH as int,
            buf@.len() <= usize::MAX,
            r@.len() == i,
            forall|k: int| 0 <= k < i ==> is_sidedef_at(#[trigger] r@[k], buf@,
                k * SIDEDEF_WIDTH),
        decreases n - i,
    {
        proof {
            lemma_record_fits(i as int, SIDEDEF_WIDTH as int, buf@.len() as int);
        }
        let off = i * SIDEDEF_WIDTH;
        r.push(Sidedef {
            x_off: read_field_i16(buf, off),
            y_off: read_field_i16(buf, off + 2),
            upper_tex: read_name8(buf, off + 4),
            lower_tex: read_name8(buf, off + 12),
            mid_tex: read_name8(buf, off + 20),
            sector: read_field_i16(buf, off + 28),
        });
        i = i + 1;
    }
    r
}

} // verus!
