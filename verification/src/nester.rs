//! Polygon nesting: turning traced loops into one outer boundary plus
//! holes.
//!
//! Each loop becomes a deduplicated ordered point list (a vertex already
//! present, compared by exact coordinate equality, is not re-added). The
//! loop with the largest axis-aligned bounding-box area is classified as
//! the outer boundary and every other loop as a hole. This is a heuristic
//! approximation of true containment, kept deliberately: it can
//! misclassify loops whose bounding boxes overlap or are not nested, and
//! no point-in-polygon test is made.

use vstd::prelude::*;
use crate::model::{Linedef, Vert};
use crate::tracer::valid_indices;

verus! {

/// Every linedef of the loop `lp` references valid vertex indices of
/// `verts`. Only the loop's own linedefs matter: a corrupt linedef
/// elsewhere in the map does not affect this loop.
pub open spec fn loop_vert_refs_ok(lines: Seq<Linedef>, verts: Seq<Vert>, lp: Seq<i16>)
    -> bool {
    forall|j: int| 0 <= j < lp.len()
        ==> 0 <= lines[(#[trigger] lp[j]) as int].start_vert < verts.len()
            && 0 <= lines[lp[j] as int].end_vert < verts.len()
}

/// Appends `p` unless it is already present.
pub open spec fn add_point(ps: Seq<Vert>, p: Vert) -> Seq<Vert> {
    if ps.contains(p) {
        ps
    } else {
        ps.push(p)
    }
}

/// The deduplicated point list of the first `i` linedefs of `lp`: for each
/// linedef its start vertex then its end vertex, skipping points already
/// collected.
pub open spec fn loop_points_rec(
    lines: Seq<Linedef>,
    verts: Seq<Vert>,
    lp: Seq<i16>,
    i: int,
) -> Seq<Vert>
    decreases i,
{
    if i <= 0 {
        Seq::empty()
    } else {
        let prev = loop_points_rec(lines, verts, lp, i - 1);
        let l = lines[lp[i - 1] as int];
        add_point(add_point(prev, verts[l.start_vert as int]), verts[l.end_vert as int])
    }
}

/// The deduplicated point list of a whole loop.
pub open spec fn spec_loop_points(lines: Seq<Linedef>, verts: Seq<Vert>, lp: Seq<i16>)
    -> Seq<Vert> {
    loop_points_rec(lines, verts, lp, lp.len() as int)
}

/// Whether `p` occurs in `ps`.
pub fn contains_point(ps: &Vec<Vert>, p: Vert) -> (r: bool)
    ensures
        r == ps@.contains(p),
{
    let mut i: usize = 0;
    while i < ps.len()
        invariant
            i <= ps@.len(),
            forall|k: int| 0 <= k < i ==> ps@[k] != p,
        decreases ps@.len() - i,
    {
        if ps[i].x == p.x && ps[i].y == p.y {
            return true;
        }
        i = i + 1;
    }
    false
}

/// Converts a loop of linedef indices to its deduplicated ordered point
/// list, in traversal order, by exact coordinate equality.
pub fn loop_points(lines: &Vec<Linedef>, verts: &Vec<Vert>, lp: &Vec<i16>) -> (r: Vec<Vert>)
    requires
        valid_indices(lines@, lp@),
        loop_vert_refs_ok(lines@, verts@, lp@),
    ensures
        r@ == spec_loop_points(lines@, verts@, lp@),
        r@.no_duplicates(),
{
    let mut r: Vec<Vert> = Vec::new();
    let mut i: usize = 0;
    while i < lp.len()
        invariant
            i <= lp@.len(),
            valid_indices(lines@, lp@),
            loop_vert_refs_ok(lines@, verts@, lp@),
            r@ == loop_points_rec(lines@, verts@, lp@, i as int),
            r@.no_duplicates(),
        decreases lp@.len() - i,
    {
        let l = &lines[lp[i] as usize];
        let sp = verts[l.start_vert as usize];
        let ep = verts[l.end_vert as usize];
        if !contains_point(&r, sp) {
            r.push(sp);
        }
        if !contains_point(&r, ep) {
            r.push(ep);
        }
        i = i + 1;
    }
    r
}

/// The bounding box of a loop: minima and maxima over the x and y
/// coordinates of both endpoints of every linedef in the loop.
#[derive(Clone, Copy, Debug, PartialEq, Eq, Structural)]
pub struct BBox {
    pub min_x: i16,
    pub min_y: i16,
    pub max_x: i16,
    pub max_y: i16,
}

/// The x coordinate of the start vertex of linedef `lp[k]`.
pub open spec fn sx(lines: Seq<Linedef>, verts: Seq<Vert>, lp: Seq<i16>, k: int) -> i16 {
    verts[lines[lp[k] as int].start_vert as int].x
}

/// The y coordinate of the start vertex of linedef `lp[k]`.
pub open spec fn sy(lines: Seq<Linedef>, verts: Seq<Vert>, lp: Seq<i16>, k: int) -> i16 {
    verts[lines[lp[k] as int].start_vert as int].y
}

/// The x coordinate of the end vertex of linedef `lp[k]`.
pub open spec fn ex(lines: Seq<Linedef>, verts: Seq<Vert>, lp: Seq<i16>, k: int) -> i16 {
    verts[lines[lp[k] as int].end_vert as int].x
}

/// The y coordinate of the end vertex of linedef `lp[k]`.
pub open spec fn ey(lines: Seq<Linedef>, verts: Seq<Vert>, lp: Seq<i16>, k: int) -> i16 {
    verts[lines[lp[k] as int].end_vert as int].y
}

/// The smaller of two integers.
pub open spec fn lo2(a: int, b: int) -> int {
    if a <= b {
        a
    } else {
        b
    }
}

/// The larger of two integers.
pub open spec fn hi2(a: int, b: int) -> int {
    if a >= b {
        a
    } else {
        b
    }
}

/// The minimum x coordinate over both endpoints of the first `n` linedefs.
pub open spec fn min_x_upto(lines: Seq<Linedef>, verts: Seq<Vert>, lp: Seq<i16>, n: int) -> int
    decreases n,
{
    if n <= 1 {
        lo2(sx(lines, verts, lp, 0) as int, ex(lines, verts, lp, 0) as int)
    } else {
        lo2(min_x_upto(lines, verts, lp, n - 1),
            lo2(sx(lines, verts, lp, n - 1) as int, ex(lines, verts, lp, n - 1) as int))
    }
}

/// The maximum x coordinate over both endpoints of the first `n` linedefs.
pub open spec fn max_x_upto(lines: Seq<Linedef>, verts: Seq<Vert>, lp: Seq<i16>, n: int) -> int
    decreases n,
{
    if n <= 1 {
        hi2(sx(lines, verts, lp, 0) as int, ex(lines, verts, lp, 0) as int)
    } else {
        hi2(max_x_upto(lines, verts, lp, n - 1),
            hi2(sx(lines, verts, lp, n - 1) as int, ex(lines, verts, lp, n - 1) as int))
    }
}

/// The minimum y coordinate over both endpoints of the first `n` linedefs.
pub open spec fn min_y_upto(lines: Seq<Linedef>, verts: Seq<Vert>, lp: Seq<i16>, n: int) -> int
    decreases n,
{
    if n <= 1 {
        lo2(sy(lines, verts, lp, 0) as int, ey(lines, verts, lp, 0) as int)
    } else {
        lo2(min_y_upto(lines, verts, lp, n - 1),
            lo2(sy(lines, verts, lp, n - 1) as int, ey(lines, verts, lp, n - 1) as int))
    }
}

/// The maximum y coordinate over both endpoints of the first `n` linedefs.
pub open spec fn max_y_upto(lines: Seq<Linedef>, verts: Seq<Vert>, lp: Seq<i16>, n: int) -> int
    decreases n,
{
    if n <= 1 {
        hi2(sy(lines, verts, lp, 0) as int, ey(lines, verts, lp, 0) as int)
    } else {
        hi2(max_y_upto(lines, verts, lp, n - 1),
            hi2(sy(lines, verts, lp, n - 1) as int, ey(lines, verts, lp, n - 1) as int))
    }
}

/// Whether `b` is exactly the bounding box of the nonempty loop `lp`:
/// each bound is the minimum or maximum of the matching coordinate over
/// both endpoints of every linedef of the loop.
pub open spec fn is_bbox_of(
    b: BBox,
    lines: Seq<Linedef>,
    verts: Seq<Vert>,
    lp: Seq<i16>,
) -> bool {
    &&& b.min_x as int == min_x_upto(lines, verts, lp, lp.len() as int)
    &&& b.max_x as int == max_x_upto(lines, verts, lp, lp.len() as int)
    &&& b.min_y as int == min_y_upto(lines, verts, lp, lp.len() as int)
    &&& b.max_y as int == max_y_upto(lines, verts, lp, lp.len() as int)
}

/// Computes the axis-aligned bounding box of a nonempty loop.
pub fn loop_bbox(lines: &Vec<Linedef>, verts: &Vec<Vert>, lp: &Vec<i16>) -> (r: BBox)
    requires
        valid_indices(lines@, lp@),
        loop_vert_refs_ok(lines@, verts@, lp@),
        lp@.len() >= 1,
    ensures
        is_bbox_of(r, lines@, verts@, lp@),
{
    let l0 = &lines[lp[0] as usize];
    let s0 = verts[l0.start_vert as usize];
    let mut b = BBox { min_x: s0.x, min_y: s0.y, max_x: s0.x, max_y: s0.y };
    let mut i: usize = 0;
    while i < lp.len()
        invariant
            i <= lp@.len(),
            lp@.len() >= 1,
            valid_indices(lines@, lp@),
            loop_vert_refs_ok(lines@, verts@, lp@),
            i > 0 ==> b.min_x as int == min_x_upto(lines@, verts@, lp@, i as int)
                && b.max_x as int == max_x_upto(lines@, verts@, lp@, i as int)
                && b.min_y as int == min_y_upto(lines@, verts@, lp@, i as int)
                && b.max_y as int == max_y_upto(lines@, verts@, lp@, i as int),
            i == 0 ==> b.min_x == sx(lines@, verts@, lp@, 0) && b.min_y == sy(lines@, verts@,
                lp@, 0) && b.max_x == sx(lines@, verts@, lp@, 0) && b.max_y == sy(lines@,
                verts@, lp@, 0),
        decreases lp@.len() - i,
    {
        let l = &lines[lp[i] as usize];
        let sv = verts[l.start_vert as usize];
        let ev = verts[l.end_vert as usize];
        if sv.x < b.min_x {
            b.min_x = sv.x;
        }
        if sv.x > b.max_x {
            b.max_x = sv.x;
        }
        if sv.y < b.min_y {
            b.min_y = sv.y;
        }
        if sv.y > b.max_y {
            b.max_y = sv.y;
        }
        if ev.x < b.min_x {
            b.min_x = ev.x;
        }
        if ev.x > b.max_x {
            b.max_x = ev.x;
        }
        if ev.y < b.min_y {
            b.min_y = ev.y;
        }
        if ev.y > b.max_y {
            b.max_y = ev.y;
        }
        proof {
            assert(sv.x == sx(lines@, verts@, lp@, i as int));
            assert(ev.x == ex(lines@, verts@, lp@, i as int));
            assert(sv.y == sy(lines@, verts@, lp@, i as int));
            assert(ev.y == ey(lines@, verts@, lp@, i as int));
        }
        i = i + 1;
    }
    b
}

/// The bounding-box area of a loop, straight from the coordinate minima
/// and maxima of its linedefs' endpoints.
pub open spec fn spec_loop_area(lines: Seq<Linedef>, verts: Seq<Vert>, lp: Seq<i16>) -> int {
    (max_x_upto(lines, verts, lp, lp.len() as int) - min_x_upto(lines, verts, lp,
        lp.len() as int)) * (max_y_upto(lines, verts, lp, lp.len() as int) - min_y_upto(
        lines, verts, lp, lp.len() as int))
}

/// The bounding-box area of `b` as a mathematical integer.
pub open spec fn bbox_area(b: BBox) -> int {
    (b.max_x - b.min_x) * (b.max_y - b.min_y)
}

/// Computes the bounding-box area of `b`.
pub fn bbox_area_i64(b: &BBox) -> (r: i64)
    ensures
        r as int == bbox_area(*b),
{
    let dx = b.max_x as i64 - b.min_x as i64;
    let dy = b.max_y as i64 - b.min_y as i64;
    proof {
        assert(dx * dy <= 65535 * 65535 && dx * dy >= -(65535 * 65535)) by (nonlinear_arith)
            requires
                -65535 <= dx <= 65535,
                -65535 <= dy <= 65535,
        ;
    }
    dx * dy
}

/// Classifies the loop with the largest bounding-box area as the outer
/// boundary: returns the index of the first loop whose area is maximal.
/// Every other loop counts as a hole.
pub fn classify_outer(areas: &Vec<i64>) -> (r: usize)
    requires
        areas@.len() >= 1,
    ensures
        r < areas@.len(),
        forall|j: int| 0 <= j < areas@.len() ==> #[trigger] areas@[j] <= areas@[r as int],
        forall|j: int| 0 <= j < r ==> #[trigger] areas@[j] < areas@[r as int],
{
    let mut best: usize = 0;
    let mut i: usize = 1;
    while i < areas.len()
        invariant
            1 <= i <= areas@.len(),
            best < i,
            forall|j: int| 0 <= j < i ==> #[trigger] areas@[j] <= areas@[best as int],
            forall|j: int| 0 <= j < best ==> #[trigger] areas@[j] < areas@[best as int],
        decreases areas@.len() - i,
    {
        if areas[i] > areas[best] {
            best = i;
        }
        i = i + 1;
    }
    best
}

} // verus!
