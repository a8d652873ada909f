//! Ear-clipping triangulation of a polygon with holes, over exact integer
//! coordinates.
//!
//! Each hole is first joined to the outer boundary by a bridge: a segment
//! from the hole's rightmost vertex to a mutually visible boundary vertex,
//! duplicating the two bridge endpoints, which turns the region into one
//! weakly simple polygon. Plain ear clipping then cuts one strictly convex
//! ear at a time. With zero holes this degenerates to plain ear clipping
//! of the outer loop. A polygon on which no ear can be found (degenerate
//! or self-intersecting input) yields no mesh, which callers treat as a
//! non-fatal, skippable failure.

use vstd::prelude::*;
use crate::model::Vert;

verus! {

/// A triangle mesh: a point list and triples of indices into it.
pub struct TriMesh {
    pub vertices: Vec<Vert>,
    pub indices: Vec<usize>,
}

/// Twice the signed area of the triangle `(ps[a], ps[b], ps[c])`;
/// positive when the three points turn counterclockwise, zero exactly
/// when they are collinear.
pub open spec fn cross_at(ps: Seq<Vert>, a: int, b: int, c: int) -> int {
    (ps[b].x - ps[a].x) * (ps[c].y - ps[a].y) - (ps[b].y - ps[a].y) * (ps[c].x - ps[a].x)
}

/// Reversing a triangle's corner order negates its signed area.
pub proof fn lemma_cross_antisym(ps: Seq<Vert>, a: int, b: int, c: int)
    ensures
        cross_at(ps, a, b, c) == -cross_at(ps, c, b, a),
{
    assert((ps[b].x - ps[a].x) * (ps[c].y - ps[a].y) - (ps[b].y - ps[a].y) * (ps[c].x
        - ps[a].x) == -((ps[b].x - ps[c].x) * (ps[a].y - ps[c].y) - (ps[b].y - ps[c].y)
        * (ps[a].x - ps[c].x))) by (nonlinear_arith);
}

/// Swapping a triangle's last two corners negates its signed area.
pub proof fn lemma_cross_swap_last(ps: Seq<Vert>, a: int, b: int, c: int)
    ensures
        cross_at(ps, a, b, c) == -cross_at(ps, a, c, b),
{
    assert((ps[b].x - ps[a].x) * (ps[c].y - ps[a].y) - (ps[b].y - ps[a].y) * (ps[c].x
        - ps[a].x) == -((ps[c].x - ps[a].x) * (ps[b].y - ps[a].y) - (ps[c].y - ps[a].y)
        * (ps[b].x - ps[a].x))) by (nonlinear_arith);
}

/// Rotating a triangle's corners keeps its signed area.
pub proof fn lemma_cross_rotate(ps: Seq<Vert>, a: int, b: int, c: int)
    ensures
        cross_at(ps, a, b, c) == cross_at(ps, b, c, a),
{
    assert((ps[b].x - ps[a].x) * (ps[c].y - ps[a].y) - (ps[b].y - ps[a].y) * (ps[c].x
        - ps[a].x) == (ps[c].x - ps[b].x) * (ps[a].y - ps[b].y) - (ps[c].y - ps[b].y)
        * (ps[a].x - ps[b].x)) by (nonlinear_arith);
}

/// Twice the signed area of the triangle on three points directly.
pub open spec fn cross3(a: Vert, b: Vert, c: Vert) -> int {
    (b.x - a.x) * (c.y - a.y) - (b.y - a.y) * (c.x - a.x)
}

/// Whether `p` blocks an ear with corners `a`, `b`, `c`: it coincides
/// with no corner and lies inside or on the counterclockwise triangle.
pub open spec fn spec_blocks(a: Vert, b: Vert, c: Vert, p: Vert) -> bool {
    &&& !((p.x == a.x && p.y == a.y) || (p.x == b.x && p.y == b.y) || (p.x == c.x
        && p.y == c.y))
    &&& cross3(a, b, p) >= 0
    &&& cross3(b, c, p) >= 0
    &&& cross3(c, a, p) >= 0
}

/// Whether `poly` lists the corners of a strictly convex counterclockwise
/// quadrilateral of `ps`: every consecutive corner triple turns strictly
/// left.
pub open spec fn convex_ccw_quad(ps: Seq<Vert>, poly: Seq<usize>) -> bool {
    &&& poly.len() == 4
    &&& (forall|k: int| 0 <= k < 4 ==> (#[trigger] poly[k]) < ps.len())
    &&& cross_at(ps, poly[3] as int, poly[0] as int, poly[1] as int) > 0
    &&& cross_at(ps, poly[0] as int, poly[1] as int, poly[2] as int) > 0
    &&& cross_at(ps, poly[1] as int, poly[2] as int, poly[3] as int) > 0
    &&& cross_at(ps, poly[2] as int, poly[3] as int, poly[0] as int) > 0
}

/// Whether four points list the corners of a strictly convex
/// quadrilateral, wound either way round.
pub open spec fn strictly_convex_quad_pts(ps: Seq<Vert>) -> bool {
    &&& ps.len() == 4
    &&& ((cross_at(ps, 3, 0, 1) > 0 && cross_at(ps, 0, 1, 2) > 0 && cross_at(ps, 1, 2, 3) > 0
        && cross_at(ps, 2, 3, 0) > 0) || (cross_at(ps, 3, 0, 1) < 0
        && cross_at(ps, 0, 1, 2) < 0 && cross_at(ps, 1, 2, 3) < 0
        && cross_at(ps, 2, 3, 0) < 0))
}

/// Whether triangle `t` of the index list has three non-collinear corners.
pub open spec fn tri_not_collinear(ps: Seq<Vert>, idx: Seq<usize>, t: int) -> bool {
    cross_at(ps, idx[3 * t] as int, idx[3 * t + 1] as int, idx[3 * t + 2] as int) != 0
}

/// Structural validity of a produced mesh: the index list holds whole
/// triangles, every index points into the point list, and no triangle is
/// collinear.
pub open spec fn valid_mesh(m: TriMesh) -> bool {
    &&& m.indices@.len() % 3 == 0
    &&& forall|k: int| 0 <= k < m.indices@.len() ==> (#[trigger] m.indices@[k]) < m.vertices@.len()
    &&& forall|t: int| 0 <= t < m.indices@.len() / 3 ==> tri_not_collinear(m.vertices@,
        m.indices@, t)
}

/// The concatenation of the hole point lists.
pub open spec fn holes_flat(holes: Seq<Vec<Vert>>) -> Seq<Vert>
    decreases holes.len(),
{
    if holes.len() == 0 {
        Seq::empty()
    } else {
        holes_flat(holes.drop_last()) + holes.last()@
    }
}

/// The exact product of two point coordinates, with its machine bound.
fn mul_coord(a: i16, b: i16) -> (r: i64)
    ensures
        r as int == a * b,
        -0x40000000 <= r <= 0x40000000,
{
    proof {
        assert((a as i64) * (b as i64) == a * b && -0x40000000 <= (a as i64) * (b as i64)
            <= 0x40000000) by (nonlinear_arith)
            requires
                -32768 <= a <= 32767,
                -32768 <= b <= 32767,
        ;
    }
    (a as i64) * (b as i64)
}

/// Twice the signed area of the triangle `(a, b, c)`.
fn cross_of(a: Vert, b: Vert, c: Vert) -> (r: i64)
    ensures
        r as int == (b.x - a.x) * (c.y - a.y) - (b.y - a.y) * (c.x - a.x),
        -0x200000000 <= r <= 0x200000000,
{
    let dx1 = b.x as i64 - a.x as i64;
    let dy1 = b.y as i64 - a.y as i64;
    let dx2 = c.x as i64 - a.x as i64;
    let dy2 = c.y as i64 - a.y as i64;
    proof {
        assert(dx1 * dy2 == (b.x - a.x) * (c.y - a.y) && dy1 * dx2 == (b.y - a.y) * (c.x
            - a.x) && -0x100000000 <= dx1 * dy2 <= 0x100000000 && -0x100000000 <= dy1 * dx2
            <= 0x100000000) by (nonlinear_arith)
            requires
                dx1 == b.x - a.x,
                dy1 == b.y - a.y,
                dx2 == c.x - a.x,
                dy2 == c.y - a.y,
                -65535 <= dx1 <= 65535,
                -65535 <= dy1 <= 65535,
                -65535 <= dx2 <= 65535,
                -65535 <= dy2 <= 65535,
        ;
    }
    dx1 * dy2 - dy1 * dx2
}

/// Twice the signed area of the triangle at indices `a`, `b`, `c`.
fn cross_idx(ps: &Vec<Vert>, a: usize, b: usize, c: usize) -> (r: i64)
    requires
        a < ps@.len(),
        b < ps@.len(),
        c < ps@.len(),
    ensures
        r as int == cross_at(ps@, a as int, b as int, c as int),
{
    cross_of(ps[a], ps[b], ps[c])
}

/// Whether `p` lies inside or on the counterclockwise triangle `(a, b, c)`
/// while coinciding with none of its corners.
fn point_blocks_ear(a: Vert, b: Vert, c: Vert, p: Vert) -> (r: bool)
    ensures
        r == spec_blocks(a, b, c, p),
{
    if (p.x == a.x && p.y == a.y) || (p.x == b.x && p.y == b.y) || (p.x == c.x && p.y == c.y) {
        return false;
    }
    let d1 = cross_of(a, b, p);
    let d2 = cross_of(b, c, p);
    let d3 = cross_of(c, a, p);
    d1 >= 0 && d2 >= 0 && d3 >= 0
}

/// Whether the open segments `p1 p2` and `q1 q2` properly cross.
fn segments_cross(p1: Vert, p2: Vert, q1: Vert, q2: Vert) -> bool {
    let d1 = cross_of(q1, q2, p1);
    let d2 = cross_of(q1, q2, p2);
    let d3 = cross_of(p1, p2, q1);
    let d4 = cross_of(p1, p2, q2);
    ((d1 > 0 && d2 < 0) || (d1 < 0 && d2 > 0)) && ((d3 > 0 && d4 < 0) || (d3 < 0 && d4 > 0))
}

/// The shoelace sum over the first `n` edges of the polygon: twice its
/// signed area once every edge is in, positive for counterclockwise
/// winding.
pub open spec fn area2_upto(ps: Seq<Vert>, poly: Seq<usize>, n: int) -> int
    decreases n,
{
    if n <= 0 {
        0
    } else {
        let i = n - 1;
        let p = ps[poly[i] as int];
        let q = ps[poly[if i + 1 == poly.len() {
            0int
        } else {
            i + 1
        }] as int];
        area2_upto(ps, poly, n - 1) + (p.x * q.y - q.x * p.y)
    }
}

/// Twice the signed area of the polygon given by `poly` as indices into
/// `ps`; positive for counterclockwise winding.
fn polygon_area2(ps: &Vec<Vert>, poly: &Vec<usize>) -> (r: i128)
    requires
        forall|k: int| 0 <= k < poly@.len() ==> (#[trigger] poly@[k]) < ps@.len(),
    ensures
        r as int == area2_upto(ps@, poly@, poly@.len() as int),
{
    let n = poly.len();
    let mut acc: i128 = 0;
    let mut i: usize = 0;
    while i < n
        invariant
            i <= n,
            n == poly@.len(),
            forall|k: int| 0 <= k < poly@.len() ==> (#[trigger] poly@[k]) < ps@.len(),
            -0x100000000 * (i as int) <= acc as int <= 0x100000000 * (i as int),
            acc as int == area2_upto(ps@, poly@, i as int),
        decreases n - i,
    {
        let p = ps[poly[i]];
        let q = ps[poly[if i + 1 == n {
            0
        } else {
            i + 1
        }]];
        let term: i64 = mul_coord(p.x, q.y) - mul_coord(q.x, p.y);
        proof {
            assert(-0x100000000 * (i as int) - 0x100000000 <= acc as int + term as int
                <= 0x100000000 * (i as int) + 0x100000000);
            assert(0x100000000 * (i as int) + 0x100000000 == 0x100000000 * (i + 1 as int))
                by (nonlinear_arith);
            assert(0x100000000 * (i + 1 as int) < i128::MAX) by (nonlinear_arith)
                requires
                    0 <= i <= 0xffffffffffffffff,
            ;
        }
        acc = acc + term as i128;
        i = i + 1;
    }
    acc
}

/// Appends every point of `src` to `dst`.
fn extend_points(dst: &mut Vec<Vert>, src: &Vec<Vert>)
    ensures
        final(dst)@ == old(dst)@ + src@,
{
    let mut i: usize = 0;
    while i < src.len()
        invariant
            i <= src@.len(),
            dst@ == old(dst)@ + src@.subrange(0, i as int),
        decreases src@.len() - i,
    {
        dst.push(src[i]);
        proof {
            assert(dst@ =~= old(dst)@ + src@.subrange(0, i + 1));
        }
        i = i + 1;
    }
    proof {
        assert(dst@ =~= old(dst)@ + src@);
    }
}

/// The position before `i` on a cycle of length `n`.
pub open spec fn prev_pos(n: int, i: int) -> int {
    if i == 0 {
        n - 1
    } else {
        i - 1
    }
}

/// The position after `i` on a cycle of length `n`.
pub open spec fn next_pos(n: int, i: int) -> int {
    if i + 1 == n {
        0
    } else {
        i + 1
    }
}

/// Scans for an ear of `poly`: a strictly convex corner whose triangle
/// holds no other polygon vertex. Returns the polygon length when there
/// is none.
fn find_ear(ps: &Vec<Vert>, poly: &Vec<usize>) -> (r: usize)
    requires
        poly@.len() >= 3,
        forall|k: int| 0 <= k < poly@.len() ==> (#[trigger] poly@[k]) < ps@.len(),
    ensures
        r <= poly@.len(),
        r < poly@.len() ==> cross_at(ps@, poly@[prev_pos(poly@.len() as int, r as int)] as int,
            poly@[r as int] as int, poly@[next_pos(poly@.len() as int, r as int)] as int) > 0,
        convex_ccw_quad(ps@, poly@) ==> r == 0,
{
    let ghost quad = convex_ccw_quad(ps@, poly@);
    let n = poly.len();
    let mut i: usize = 0;
    while i < n
        invariant
            n == poly@.len(),
            n >= 3,
            i <= n,
            quad == convex_ccw_quad(ps@, poly@),
            quad ==> i == 0,
            forall|k: int| 0 <= k < poly@.len() ==> (#[trigger] poly@[k]) < ps@.len(),
        decreases n - i,
    {
        let ia = poly[if i == 0 {
            n - 1
        } else {
            i - 1
        }];
        let ib = poly[i];
        let ic = poly[if i + 1 == n {
            0
        } else {
            i + 1
        }];
        let c = cross_idx(ps, ia, ib, ic);
        if c > 0 {
            // strictly convex corner: check that no other polygon vertex
            // lies inside or on the candidate ear
            let a = ps[ia];
            let b = ps[ib];
            let cv = ps[ic];
            let mut blocked = false;
            let mut j: usize = 0;
            while j < n
                invariant
                    n == poly@.len(),
                    j <= n,
                    i < n,
                    quad == convex_ccw_quad(ps@, poly@),
                    quad ==> i == 0,
                    a == ps@[poly@[prev_pos(n as int, i as int)] as int],
                    b == ps@[poly@[i as int] as int],
                    cv == ps@[poly@[next_pos(n as int, i as int)] as int],
                    quad ==> !blocked,
                    forall|k: int| 0 <= k < poly@.len() ==> (#[trigger] poly@[k]) < ps@.len(),
                decreases n - j,
            {
                if j != i {
                    let p = ps[poly[j]];
                    if point_blocks_ear(a, b, cv, p) {
                        proof {
                            if quad {
                                // on a strictly convex quadrilateral the
                                // opposite corner lies strictly right of
                                // the ear's closing edge, and the
                                // neighbours coincide with ear corners
                                if j == 2 {
                                    lemma_cross_rotate(ps@, poly@[1] as int, poly@[2] as int,
                                        poly@[3] as int);
                                    lemma_cross_rotate(ps@, poly@[2] as int, poly@[3] as int,
                                        poly@[1] as int);
                                    lemma_cross_swap_last(ps@, poly@[1] as int,
                                        poly@[3] as int, poly@[2] as int);
                                    assert(cross3(cv, a, p) < 0);
                                    assert(false);
                                } else {
                                    assert(false);
                                }
                            }
                        }
                        blocked = true;
                    }
                }
                j = j + 1;
            }
            if !blocked {
                return i;
            }
        }
        proof {
            if quad {
                assert(false);
            }
        }
        i = i + 1;
    }
    n
}

/// Ear-clips the weakly simple counterclockwise polygon `poly` (indices
/// into `ps`) into triangles appended to `idx`. Returns false when some
/// step finds no ear or the final triangle is collinear.
fn clip_ears(ps: &Vec<Vert>, poly: &mut Vec<usize>, idx: &mut Vec<usize>) -> (ok: bool)
    requires
        forall|k: int| 0 <= k < old(poly)@.len() ==> (#[trigger] old(poly)@[k]) < ps@.len(),
        old(idx)@.len() % 3 == 0,
        forall|k: int| 0 <= k < old(idx)@.len() ==> (#[trigger] old(idx)@[k]) < ps@.len(),
        forall|t: int| 0 <= t < old(idx)@.len() / 3 ==> tri_not_collinear(ps@, old(idx)@, t),
    ensures
        final(idx)@.len() % 3 == 0,
        forall|k: int| 0 <= k < final(idx)@.len() ==> (#[trigger] final(idx)@[k]) < ps@.len(),
        forall|t: int| 0 <= t < final(idx)@.len() / 3 ==> tri_not_collinear(ps@, final(idx)@,
            t),
        ok ==> final(idx)@.len() > old(idx)@.len(),
        old(poly)@.len() == 3 && cross_at(ps@, old(poly)@[0] as int, old(poly)@[1] as int,
            old(poly)@[2] as int) != 0 ==> ok,
        convex_ccw_quad(ps@, old(poly)@) ==> ok,
{
    let ghost base = idx@.len() as int;
    if poly.len() < 3 {
        return false;
    }
    while poly.len() > 3
        invariant_except_break
            old(poly)@.len() == 3 ==> poly@ == old(poly)@,
            convex_ccw_quad(ps@, old(poly)@) ==> (poly@ == old(poly)@
                || poly@ == old(poly)@.subrange(1, 4)),
            poly@.len() >= 3,
            forall|k: int| 0 <= k < poly@.len() ==> (#[trigger] poly@[k]) < ps@.len(),
            idx@.len() % 3 == 0,
            forall|k: int| 0 <= k < idx@.len() ==> (#[trigger] idx@[k]) < ps@.len(),
            forall|t: int| 0 <= t < idx@.len() / 3 ==> tri_not_collinear(ps@, idx@, t),
            idx@.len() >= base,
        ensures
            old(poly)@.len() == 3 ==> poly@ == old(poly)@,
            convex_ccw_quad(ps@, old(poly)@) ==> poly@ == old(poly)@.subrange(1, 4),
            poly@.len() == 3,
            forall|k: int| 0 <= k < poly@.len() ==> (#[trigger] poly@[k]) < ps@.len(),
            idx@.len() % 3 == 0,
            forall|k: int| 0 <= k < idx@.len() ==> (#[trigger] idx@[k]) < ps@.len(),
            forall|t: int| 0 <= t < idx@.len() / 3 ==> tri_not_collinear(ps@, idx@, t),
            idx@.len() >= base,
        decreases poly@.len(),
    {
        let n = poly.len();
        let ear = find_ear(ps, poly);
        if ear == n {
            // no ear: degenerate or self-intersecting polygon
            return false;
        }
        let ia = poly[if ear == 0 {
            n - 1
        } else {
            ear - 1
        }];
        let ib = poly[ear];
        let ic = poly[if ear + 1 == n {
            0
        } else {
            ear + 1
        }];
        let ghost pre = idx@;
        idx.push(ia);
        idx.push(ib);
        idx.push(ic);
        proof {
            let m = idx@.len() as int;
            assert(m == pre.len() + 3);
            assert(idx@[m - 3] == ia && idx@[m - 2] == ib && idx@[m - 1] == ic);
            assert forall|t: int| 0 <= t < m / 3 implies tri_not_collinear(ps@, idx@, t) by {
                if t < m / 3 - 1 {
                    assert(tri_not_collinear(ps@, pre, t));
                    assert(idx@[3 * t] == pre[3 * t] && idx@[3 * t + 1] == pre[3 * t + 1]
                        && idx@[3 * t + 2] == pre[3 * t + 2]);
                } else {
                    assert(3 * t == m - 3);
                }
            }
        }
        let ghost pre_poly = poly@;
        let _ = poly.remove(ear);
        proof {
            if convex_ccw_quad(ps@, old(poly)@) {
                // the quad's first ear is corner zero, so one step leaves
                // its last three corners
                assert(pre_poly == old(poly)@);
                assert(ear == 0);
                assert(poly@ =~= old(poly)@.subrange(1, 4));
            }
        }
    }
    // the last triangle, kept only when not collinear
    proof {
        if convex_ccw_quad(ps@, old(poly)@) {
            assert(poly@[0] == old(poly)@[1] && poly@[1] == old(poly)@[2]
                && poly@[2] == old(poly)@[3]);
            assert(cross_at(ps@, poly@[0] as int, poly@[1] as int, poly@[2] as int) > 0);
        }
    }
    let ia = poly[0];
    let ib = poly[1];
    let ic = poly[2];
    let c = cross_idx(ps, ia, ib, ic);
    if c != 0 {
        let ghost pre = idx@;
        idx.push(ia);
        idx.push(ib);
        idx.push(ic);
        proof {
            let m = idx@.len() as int;
            assert(idx@[m - 3] == ia && idx@[m - 2] == ib && idx@[m - 1] == ic);
            assert forall|t: int| 0 <= t < m / 3 implies tri_not_collinear(ps@, idx@, t) by {
                if t < m / 3 - 1 {
                    assert(tri_not_collinear(ps@, pre, t));
                    assert(idx@[3 * t] == pre[3 * t] && idx@[3 * t + 1] == pre[3 * t + 1]
                        && idx@[3 * t + 2] == pre[3 * t + 2]);
                } else {
                    assert(3 * t == m - 3);
                }
            }
        }
        return true;
    }
    false
}

/// Builds the merged polygon index list for one hole and splices it into
/// `poly` after position `bi`: the hole is walked once around from its
/// vertex `hv`, in the direction given by `reversed`, and the two bridge
/// endpoints are duplicated.
fn splice_hole(
    poly: &Vec<usize>,
    bi: usize,
    off: usize,
    m: usize,
    hv: usize,
    reversed: bool,
    ps_len: usize,
) -> (r: Vec<usize>)
    requires
        forall|k: int| 0 <= k < poly@.len() ==> (#[trigger] poly@[k]) < ps_len,
        bi < poly@.len(),
        hv < m,
        off + m <= ps_len,
    ensures
        forall|k: int| 0 <= k < r@.len() ==> (#[trigger] r@[k]) < ps_len,
        r@.len() == poly@.len() + m + 2,
{
    let n = poly.len();
    let mut r: Vec<usize> = Vec::new();
    let mut i: usize = 0;
    while i < bi + 1
        invariant
            i <= bi + 1,
            bi < n,
            n == poly@.len(),
            forall|k: int| 0 <= k < poly@.len() ==> (#[trigger] poly@[k]) < ps_len,
            r@.len() == i,
            forall|k: int| 0 <= k < r@.len() ==> (#[trigger] r@[k]) < ps_len,
        decreases bi + 1 - i,
    {
        r.push(poly[i]);
        i = i + 1;
    }
    let mut cur: usize = hv;
    let mut j: usize = 0;
    while j < m
        invariant
            j <= m,
            cur < m,
            hv < m,
            off + m <= ps_len,
            r@.len() == bi + 1 + j,
            forall|k: int| 0 <= k < r@.len() ==> (#[trigger] r@[k]) < ps_len,
        decreases m - j,
    {
        r.push(off + cur);
        cur = if reversed {
            if cur == 0 {
                m - 1
            } else {
                cur - 1
            }
        } else {
            if cur + 1 == m {
                0
            } else {
                cur + 1
            }
        };
        j = j + 1;
    }
    r.push(off + hv);
    r.push(poly[bi]);
    let mut i2: usize = bi + 1;
    while i2 < n
        invariant
            bi + 1 <= i2 <= n,
            n == poly@.len(),
            forall|k: int| 0 <= k < poly@.len() ==> (#[trigger] poly@[k]) < ps_len,
            r@.len() == bi + 1 + m + 2 + (i2 - bi - 1),
            forall|k: int| 0 <= k < r@.len() ==> (#[trigger] r@[k]) < ps_len,
        decreases n - i2,
    {
        r.push(poly[i2]);
        i2 = i2 + 1;
    }
    r
}

/// Reverses the polygon index list.
fn reverse_poly(poly: &Vec<usize>, ps_len: usize) -> (r: Vec<usize>)
    requires
        forall|k: int| 0 <= k < poly@.len() ==> (#[trigger] poly@[k]) < ps_len,
    ensures
        forall|k: int| 0 <= k < r@.len() ==> (#[trigger] r@[k]) < ps_len,
        r@.len() == poly@.len(),
        forall|k: int| 0 <= k < r@.len() ==> #[trigger] r@[k] == poly@[poly@.len() - 1 - k],
{
    let mut r: Vec<usize> = Vec::new();
    let mut i: usize = poly.len();
    while i > 0
        invariant
            i <= poly@.len(),
            forall|k: int| 0 <= k < poly@.len() ==> (#[trigger] poly@[k]) < ps_len,
            r@.len() == poly@.len() - i,
            forall|k: int| 0 <= k < r@.len() ==> (#[trigger] r@[k]) < ps_len,
            forall|k: int| 0 <= k < r@.len() ==> #[trigger] r@[k] == poly@[poly@.len() - 1
                - k],
        decreases i,
    {
        i = i - 1;
        r.push(poly[i]);
    }
    r
}

/// Whether the bridge segment from `h` to `b` properly crosses any edge
/// of the polygon `poly` or of any hole.
fn bridge_blocked(ps: &Vec<Vert>, poly: &Vec<usize>, holes: &Vec<Vec<Vert>>, h: Vert, b: Vert)
    -> bool
    requires
        forall|k: int| 0 <= k < poly@.len() ==> (#[trigger] poly@[k]) < ps@.len(),
{
    let n = poly.len();
    let mut e: usize = 0;
    while e < n
        invariant
            n == poly@.len(),
            e <= n,
            forall|k: int| 0 <= k < poly@.len() ==> (#[trigger] poly@[k]) < ps@.len(),
        decreases n - e,
    {
        let p1 = ps[poly[e]];
        let p2 = ps[poly[if e + 1 == n {
            0
        } else {
            e + 1
        }]];
        if segments_cross(h, b, p1, p2) {
            return true;
        }
        e = e + 1;
    }
    let mut hi: usize = 0;
    while hi < holes.len()
        invariant
            hi <= holes@.len(),
        decreases holes@.len() - hi,
    {
        let hole = &holes[hi];
        let m = hole.len();
        let mut e2: usize = 0;
        while e2 < m
            invariant
                e2 <= m,
                m == hole@.len(),
            decreases m - e2,
        {
            let p1 = hole[e2];
            let p2 = hole[if e2 + 1 == m {
                0
            } else {
                e2 + 1
            }];
            if segments_cross(h, b, p1, p2) {
                return true;
            }
            e2 = e2 + 1;
        }
        hi = hi + 1;
    }
    false
}

/// Triangulates the outer boundary `body` with the given holes.
///
/// The produced point list is exactly the outer boundary's points
/// followed by each hole's points appended in sequence; the index list
/// holds whole triangles over it, none of them collinear. A degenerate or
/// self-intersecting input, or an outer boundary of fewer than three
/// points, yields no mesh; a hole-free non-collinear triangle or strictly
/// convex quadrilateral is owed one.
pub fn triangulate_polygon_with_holes(body: &Vec<Vert>, holes: &Vec<Vec<Vert>>)
    -> (r: Option<TriMesh>)
    ensures
        match r {
            Some(m) => m.vertices@ == body@ + holes_flat(holes@) && valid_mesh(m)
                && m.indices@.len() > 0,
            None => true,
        },
        body@.len() < 3 ==> r is None,
        body@.len() == 3 && holes@.len() == 0 && cross_at(body@, 0, 1, 2) != 0
            ==> r is Some,
        body@.len() == 4 && holes@.len() == 0 && strictly_convex_quad_pts(body@)
            ==> r is Some,
{
    if body.len() < 3 {
        return None;
    }
    let mut ps: Vec<Vert> = Vec::new();
    extend_points(&mut ps, body);
    proof {
        assert(ps@ =~= body@);
    }
    let mut poly: Vec<usize> = Vec::new();
    let mut i: usize = 0;
    while i < body.len()
        invariant
            i <= body@.len(),
            ps@ == body@,
            poly@.len() == i,
            forall|k: int| 0 <= k < poly@.len() ==> (#[trigger] poly@[k]) < ps@.len(),
            forall|k: int| 0 <= k < poly@.len() ==> #[trigger] poly@[k] == k,
        decreases body@.len() - i,
    {
        poly.push(i);
        i = i + 1;
    }
    // normalize the outer boundary to counterclockwise winding
    let area = polygon_area2(&ps, &poly);
    let ghost id_poly = poly@;
    proof {
        // a strictly convex quadrilateral's shoelace sum is its two
        // diagonal triangles, so the sign of the area follows the winding
        if body@.len() == 4 && strictly_convex_quad_pts(body@) {
            let ax = ps@[0].x as int;
            let ay = ps@[0].y as int;
            let bx = ps@[1].x as int;
            let by = ps@[1].y as int;
            let cx = ps@[2].x as int;
            let cy = ps@[2].y as int;
            let dx = ps@[3].x as int;
            let dy = ps@[3].y as int;
            // unfold the sum one edge at a time
            assert(area2_upto(ps@, id_poly, 0) == 0);
            assert(area2_upto(ps@, id_poly, 1) == ax * by - bx * ay);
            assert(area2_upto(ps@, id_poly, 2) == area2_upto(ps@, id_poly, 1)
                + (bx * cy - cx * by));
            assert(area2_upto(ps@, id_poly, 3) == area2_upto(ps@, id_poly, 2)
                + (cx * dy - dx * cy));
            assert(area2_upto(ps@, id_poly, 4) == area2_upto(ps@, id_poly, 3)
                + (dx * ay - ax * dy));
            assert((bx - ax) * (cy - ay) - (by - ay) * (cx - ax) == bx * cy - bx * ay
                - ax * cy - cx * by + ax * by + cx * ay) by (nonlinear_arith);
            assert((cx - ax) * (dy - ay) - (cy - ay) * (dx - ax) == cx * dy - cx * ay
                - ax * dy - dx * cy + ax * cy + dx * ay) by (nonlinear_arith);
            assert(cross_at(ps@, 0, 1, 2) == (bx - ax) * (cy - ay) - (by - ay) * (cx - ax));
            assert(cross_at(ps@, 0, 2, 3) == (cx - ax) * (dy - ay) - (cy - ay) * (dx - ax));
            assert(area as int == (ax * by - bx * ay) + (bx * cy - cx * by)
                + (cx * dy - dx * cy) + (dx * ay - ax * dy));
            assert((ax * by - bx * ay) + (bx * cy - cx * by) + (cx * dy - dx * cy)
                + (dx * ay - ax * dy) == (bx * cy - bx * ay - ax * cy - cx * by + ax * by
                + cx * ay) + (cx * dy - cx * ay - ax * dy - dx * cy + ax * cy + dx * ay));
            assert(area as int == cross_at(ps@, 0, 1, 2) + cross_at(ps@, 0, 2, 3));
            lemma_cross_rotate(ps@, 2, 3, 0);
            lemma_cross_rotate(ps@, 3, 0, 2);
            assert(cross_at(ps@, 0, 2, 3) == cross_at(ps@, 2, 3, 0));
            if cross_at(ps@, 0, 1, 2) > 0 {
                assert((area as int) > 0);
                assert(convex_ccw_quad(ps@, id_poly));
            } else {
                assert((area as int) < 0);
            }
        }
    }
    if area < 0 {
        poly = reverse_poly(&poly, ps.len());
    }
    proof {
        // a lone non-collinear triangle survives the normalization with a
        // nonzero signed area either way round
        if body@.len() == 3 && cross_at(body@, 0, 1, 2) != 0 {
            assert(poly@.len() == 3);
            lemma_cross_antisym(ps@, 0, 1, 2);
            assert(cross_at(ps@, poly@[0] as int, poly@[1] as int, poly@[2] as int) != 0);
        }
        // either winding of a strictly convex quadrilateral normalizes to
        // a counterclockwise one
        if body@.len() == 4 && strictly_convex_quad_pts(body@) {
            if (area as int) < 0 {
                assert(poly@.len() == 4);
                assert(poly@[0] == 3 && poly@[1] == 2 && poly@[2] == 1 && poly@[3] == 0);
                assert(cross_at(ps@, 0, 1, 2) < 0);
                lemma_cross_antisym(ps@, 2, 3, 0);
                lemma_cross_antisym(ps@, 1, 2, 3);
                lemma_cross_antisym(ps@, 0, 1, 2);
                lemma_cross_antisym(ps@, 3, 0, 1);
                assert(convex_ccw_quad(ps@, poly@));
            } else {
                assert(poly@ == id_poly);
                assert(convex_ccw_quad(ps@, poly@));
            }
        }
    }
    let ghost init_poly = poly@;
    proof {
        if body@.len() == 4 && strictly_convex_quad_pts(body@) {
            assert(convex_ccw_quad(ps@, init_poly));
        }
    }

    let mut h: usize = 0;
    while h < holes.len()
        invariant
            h <= holes@.len(),
            ps@ == body@ + holes_flat(holes@.subrange(0, h as int)),
            forall|k: int| 0 <= k < poly@.len() ==> (#[trigger] poly@[k]) < ps@.len(),
            holes@.len() == 0 ==> poly@ == init_poly && ps@ == body@,
        decreases holes@.len() - h,
    {
        let hole = &holes[h];
        let m = hole.len();
        let off = ps.len();
        extend_points(&mut ps, hole);
        let total = ps.len();
        proof {
            assert(holes@.subrange(0, h + 1).drop_last() =~= holes@.subrange(0, h as int));
            assert(holes@.subrange(0, h + 1).last() == holes@[h as int]);
            assert(ps@ =~= body@ + holes_flat(holes@.subrange(0, h + 1)));
        }
        if m == 0 {
            h = h + 1;
            continue;
        }
        // the hole's rightmost vertex, first such in order
        let mut hv: usize = 0;
        let mut j: usize = 1;
        while j < m
            invariant
                1 <= j <= m,
                hv < j,
                m == hole@.len(),
            decreases m - j,
        {
            if hole[j].x > hole[hv].x {
                hv = j;
            }
            j = j + 1;
        }
        // the merged polygon needs the hole wound opposite to the outer
        // boundary, which is counterclockwise by now
        let mut hole_poly: Vec<usize> = Vec::new();
        let mut j2: usize = 0;
        while j2 < m
            invariant
                j2 <= m,
                total == ps@.len(),
                off + m <= total,
                hole_poly@.len() == j2,
                forall|k: int| 0 <= k < hole_poly@.len() ==> (#[trigger] hole_poly@[k])
                    < ps@.len(),
            decreases m - j2,
        {
            hole_poly.push(off + j2);
            j2 = j2 + 1;
        }
        let hole_area = polygon_area2(&ps, &hole_poly);
        let reversed = hole_area > 0;
        // the first boundary position visible from the hole's bridge vertex
        let hpt = hole[hv];
        let mut bi: usize = 0;
        let mut found = false;
        let mut p: usize = 0;
        while p < poly.len()
            invariant_except_break
                p <= poly@.len(),
                !found,
                bi == 0,
                forall|k: int| 0 <= k < poly@.len() ==> (#[trigger] poly@[k]) < ps@.len(),
            ensures
                found ==> bi < poly@.len(),
                forall|k: int| 0 <= k < poly@.len() ==> (#[trigger] poly@[k]) < ps@.len(),
            decreases poly@.len() - p,
        {
            let cand = ps[poly[p]];
            if !bridge_blocked(&ps, &poly, holes, hpt, cand) {
                bi = p;
                found = true;
                break;
            }
            p = p + 1;
        }
        if !found {
            return None;
        }
        poly = splice_hole(&poly, bi, off, m, hv, reversed, ps.len());
        h = h + 1;
    }
    proof {
        assert(holes@.subrange(0, holes@.len() as int) =~= holes@);
    }

    proof {
        if body@.len() == 3 && holes@.len() == 0 && cross_at(body@, 0, 1, 2) != 0 {
            assert(poly@ == init_poly);
            assert(cross_at(ps@, poly@[0] as int, poly@[1] as int, poly@[2] as int) != 0);
        }
        if body@.len() == 4 && holes@.len() == 0 && strictly_convex_quad_pts(body@) {
            assert(poly@ == init_poly);
            assert(convex_ccw_quad(ps@, poly@));
        }
    }
    let mut idx: Vec<usize> = Vec::new();
    let ok = clip_ears(&ps, &mut poly, &mut idx);
    if !ok {
        return None;
    }
    if idx.len() == 0 {
        return None;
    }
    Some(TriMesh { vertices: ps, indices: idx })
}

} // verus!
