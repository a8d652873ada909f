//! Geometry entry points of the level model: sector shape tracing, loop
//! point extraction, triangulation and wall panel synthesis, each wired
//! to the shared arrays of the assembled map.

use vstd::prelude::*;
use crate::assembler::MapManager;
use crate::model::{Sector, Vert};
use crate::nester::{loop_vert_refs_ok, spec_loop_area, spec_loop_points};
use crate::tracer::{spec_detect_shapes, valid_indices};
use crate::triangulate::{holes_flat, valid_mesh, TriMesh};
use crate::walls::{dash_name, linedef_refs_ok, panel_ceil, panel_floor, spec_tex_height,
    WallPanel};
use crate::defs::canon;

verus! {

/// Whether every entry of `ls` is a valid linedef index.
fn check_indices(ls: &Vec<i16>, n_lines: usize) -> (r: bool)
    ensures
        r == valid_indices_upto(ls@, n_lines as int),
{
    let mut i: usize = 0;
    while i < ls.len()
        invariant
            i <= ls@.len(),
            forall|k: int| 0 <= k < i ==> 0 <= #[trigger] ls@[k] < n_lines,
        decreases ls@.len() - i,
    {
        if ls[i] < 0 || ls[i] as usize >= n_lines {
            return false;
        }
        i = i + 1;
    }
    true
}

/// Every entry of `ls` lies in `[0, n)`.
pub open spec fn valid_indices_upto(ls: Seq<i16>, n: int) -> bool {
    forall|k: int| 0 <= k < ls.len() ==> 0 <= #[trigger] ls[k] < n
}

/// A sector list the floor pipeline can work on: valid linedef indices,
/// a vertex table every linedef can address, and at least one traced
/// loop, each nonempty and over valid indices.
pub open spec fn traceable_sector(lines: Seq<crate::model::Linedef>, verts: Seq<Vert>,
    ls: Seq<i16>) -> bool {
    &&& valid_indices(lines, ls)
    &&& spec_detect_shapes(lines, ls).len() > 0
    &&& forall|k: int| 0 <= k < spec_detect_shapes(lines, ls).len()
        ==> (#[trigger] spec_detect_shapes(lines, ls)[k]).len() > 0
            && valid_indices(lines, spec_detect_shapes(lines, ls)[k])
            && loop_vert_refs_ok(lines, verts, spec_detect_shapes(lines, ls)[k])
}

/// Whether loop `o` is the one the nester classifies as the outer
/// boundary: the first loop of maximal bounding-box area.
pub open spec fn is_outer_choice(lines: Seq<crate::model::Linedef>, verts: Seq<Vert>,
    shapes: Seq<Seq<i16>>, o: int) -> bool {
    &&& 0 <= o < shapes.len()
    &&& forall|k: int| 0 <= k < shapes.len() ==> #[trigger] spec_loop_area(lines, verts,
        shapes[k]) <= spec_loop_area(lines, verts, shapes[o])
    &&& forall|k: int| 0 <= k < o ==> #[trigger] spec_loop_area(lines, verts, shapes[k])
        < spec_loop_area(lines, verts, shapes[o])
}

/// The concatenated point lists of every loop but the outer one, in trace
/// order.
pub open spec fn hole_points_upto(lines: Seq<crate::model::Linedef>, verts: Seq<Vert>,
    shapes: Seq<Seq<i16>>, o: int, n: int) -> Seq<Vert>
    decreases n,
{
    if n <= 0 {
        Seq::empty()
    } else {
        let prev = hole_points_upto(lines, verts, shapes, o, n - 1);
        if n - 1 == o {
            prev
        } else {
            prev + spec_loop_points(lines, verts, shapes[n - 1])
        }
    }
}

impl MapManager {
    /// Reconstructs the closed vertex loops of a sector's unordered
    /// linedef list by graph traversal; the result is pinned by the
    /// tracer's spec model. A list holding an out-of-range linedef index
    /// yields no loops.
    pub fn detect_shapes(&self, sector: &Sector) -> (r: Vec<Vec<i16>>)
        ensures
            valid_indices(self.map.linedef_vec@, sector.linedefs@)
                ==> r.deep_view() == spec_detect_shapes(self.map.linedef_vec@,
                    sector.linedefs@),
            !valid_indices(self.map.linedef_vec@, sector.linedefs@) ==> r@.len() == 0,
    {
        if !check_indices(&sector.linedefs, self.map.linedef_vec.len()) {
            return Vec::new();
        }
        crate::tracer::detect_shapes_in(&self.map.linedef_vec, &sector.linedefs)
    }

    /// Converts a loop of linedef indices to its deduplicated ordered
    /// point list, by exact coordinate equality. Only the loop's own
    /// linedefs are read: a corrupt linedef elsewhere in the map changes
    /// nothing. A loop holding an out-of-range linedef or vertex index
    /// yields no points.
    pub fn get_linedef_vector_as_vertices(&self, vec: &Vec<i16>) -> (r: Vec<Vert>)
        ensures
            valid_indices(self.map.linedef_vec@, vec@)
                && loop_vert_refs_ok(self.map.linedef_vec@, self.map.vert_vec@, vec@)
                ==> r@ == spec_loop_points(self.map.linedef_vec@, self.map.vert_vec@, vec@)
                    && r@.no_duplicates(),
            !(valid_indices(self.map.linedef_vec@, vec@)
                && loop_vert_refs_ok(self.map.linedef_vec@, self.map.vert_vec@, vec@))
                ==> r@.len() == 0,
    {
        if !check_indices(vec, self.map.linedef_vec.len()) {
            return Vec::new();
        }
        let mut i: usize = 0;
        while i < vec.len()
            invariant
                i <= vec@.len(),
                valid_indices_upto(vec@, self.map.linedef_vec@.len() as int),
                forall|k: int| 0 <= k < i
                    ==> 0 <= (#[trigger] self.map.linedef_vec@[vec@[k] as int]).start_vert
                        < self.map.vert_vec@.len()
                        && 0 <= self.map.linedef_vec@[vec@[k] as int].end_vert
                            < self.map.vert_vec@.len(),
            decreases vec@.len() - i,
        {
            let l = &self.map.linedef_vec[vec[i] as usize];
            if l.start_vert < 0 || l.start_vert as usize >= self.map.vert_vec.len()
                || l.end_vert < 0 || l.end_vert as usize >= self.map.vert_vec.len() {
                return Vec::new();
            }
            i = i + 1;
        }
        crate::nester::loop_points(&self.map.linedef_vec, &self.map.vert_vec, vec)
    }

    /// Triangulates an outer boundary with holes; see the triangulator
    /// for the exact shape of the produced mesh.
    pub fn triangulate_polygon_with_holes(body: &Vec<Vert>, holes: &Vec<Vec<Vert>>)
        -> (r: Option<TriMesh>)
        ensures
            match r {
                Some(m) => m.vertices@ == body@ + holes_flat(holes@) && valid_mesh(m)
                    && m.indices@.len() > 0,
                None => true,
            },
            body@.len() < 3 ==> r is None,
            body@.len() == 3 && holes@.len() == 0 && crate::triangulate::cross_at(body@, 0,
                1, 2) != 0 ==> r is Some,
            body@.len() == 4 && holes@.len() == 0
                && crate::triangulate::strictly_convex_quad_pts(body@) ==> r is Some,
    {
        crate::triangulate::triangulate_polygon_with_holes(body, holes)
    }

    /// Builds one wall panel against this map's composite-texture table;
    /// nothing when the texture name trims to `"-"`.
    pub fn generate_wall(
        &self,
        vert1: Vert,
        vert2: Vert,
        floor_height: i16,
        ceiling_height: i16,
        off_x: i16,
        off_y: i32,
        tex_name: &Vec<u8>,
        backface: bool,
        pegged: i16,
        mid: bool,
    ) -> (r: Option<WallPanel>)
        requires
            -65536 <= off_y <= 65536,
        ensures
            (r is None) <==> canon(tex_name@) == dash_name(),
            match r {
                Some(p) => {
                    &&& p.x1 == vert1.x && p.y1 == vert1.y && p.x2 == vert2.x
                        && p.y2 == vert2.y
                    &&& p.floor as int == panel_floor(mid, pegged, floor_height,
                        ceiling_height, off_y as int, spec_tex_height(
                        self.map.texture_defs@, tex_name@))
                    &&& p.ceil as int == panel_ceil(mid, pegged, floor_height,
                        ceiling_height, off_y as int, spec_tex_height(
                        self.map.texture_defs@, tex_name@))
                    &&& p.off_x == off_x && p.off_y == off_y
                    &&& p.tex@ == tex_name@
                    &&& p.backface == backface && p.pegged == pegged && p.mid == mid
                },
                None => true,
            },
    {
        crate::walls::generate_wall(&self.map.texture_defs, vert1, vert2, floor_height,
            ceiling_height, off_x, off_y, tex_name, backface, pegged, mid)
    }

    /// Builds every wall panel of the linedef at `i`, pinned by the
    /// panel-list model: none when the index or any of the linedef's
    /// references is out of range.
    pub fn wall_panels(&self, i: usize) -> (r: Vec<WallPanel>)
        ensures
            i < self.map.linedef_vec@.len() && linedef_refs_ok(self.map.linedef_vec@[i as int],
                self.map.vert_vec@, self.map.sidefef_vec@, self.map.sector_vec@)
                ==> crate::walls::views_of(r@) == crate::walls::spec_wall_panels(
                    self.map.linedef_vec@[i as int], self.map.vert_vec@,
                    self.map.sidefef_vec@, self.map.sector_vec@, self.map.texture_defs@),
            !(i < self.map.linedef_vec@.len() && linedef_refs_ok(
                self.map.linedef_vec@[i as int], self.map.vert_vec@, self.map.sidefef_vec@,
                self.map.sector_vec@)) ==> r@.len() == 0,
    {
        if i >= self.map.linedef_vec.len() {
            return Vec::new();
        }
        let l = &self.map.linedef_vec[i];
        if l.start_vert < 0 || l.start_vert as usize >= self.map.vert_vec.len()
            || l.end_vert < 0 || l.end_vert as usize >= self.map.vert_vec.len() {
            return Vec::new();
        }
        if l.front_sidedef >= 0 {
            if l.front_sidedef as usize >= self.map.sidefef_vec.len() {
                return Vec::new();
            }
            let s = self.map.sidefef_vec[l.front_sidedef as usize].sector;
            if s < 0 || s as usize >= self.map.sector_vec.len() {
                return Vec::new();
            }
        }
        if l.back_sidedef >= 0 {
            if l.back_sidedef as usize >= self.map.sidefef_vec.len() {
                return Vec::new();
            }
            let s = self.map.sidefef_vec[l.back_sidedef as usize].sector;
            if s < 0 || s as usize >= self.map.sector_vec.len() {
                return Vec::new();
            }
        }
        crate::walls::wall_panels_for(l, &self.map.vert_vec, &self.map.sidefef_vec,
            &self.map.sector_vec, &self.map.texture_defs)
    }

    /// Builds the floor (and ceiling) mesh of one sector: traces its
    /// loops, classifies the loop with the largest bounding-box area as
    /// the outer boundary and the rest as holes, and triangulates.
    /// Nothing when the sector has no usable loops or the polygon is
    /// degenerate; the caller skips that one sector and goes on. On a
    /// traceable sector, a produced mesh's point list is pinned: the
    /// deduplicated points of the first largest-bounding-box loop,
    /// followed by each other loop's points in trace order. A sector
    /// tracing to a single loop whose points form a triangle or a
    /// strictly convex quadrilateral is owed a mesh.
    pub fn sector_floor_mesh(&self, sector: &Sector) -> (r: Option<TriMesh>)
        ensures
            match r {
                Some(m) => valid_mesh(m) && m.indices@.len() > 0,
                None => true,
            },
            traceable_sector(self.map.linedef_vec@, self.map.vert_vec@, sector.linedefs@)
                && spec_detect_shapes(self.map.linedef_vec@, sector.linedefs@).len() == 1
                && ({
                let pts = spec_loop_points(self.map.linedef_vec@, self.map.vert_vec@,
                    spec_detect_shapes(self.map.linedef_vec@, sector.linedefs@)[0]);
                (pts.len() == 3 && crate::triangulate::cross_at(pts, 0, 1, 2) != 0)
                    || (pts.len() == 4 && crate::triangulate::strictly_convex_quad_pts(pts))
            }) ==> r is Some,
            traceable_sector(self.map.linedef_vec@, self.map.vert_vec@, sector.linedefs@)
                && r is Some ==> exists|o: int| #[trigger] is_outer_choice(
                self.map.linedef_vec@, self.map.vert_vec@, spec_detect_shapes(
                self.map.linedef_vec@, sector.linedefs@), o) && r.unwrap().vertices@
                == spec_loop_points(self.map.linedef_vec@, self.map.vert_vec@,
                spec_detect_shapes(self.map.linedef_vec@, sector.linedefs@)[o])
                + hole_points_upto(self.map.linedef_vec@, self.map.vert_vec@,
                spec_detect_shapes(self.map.linedef_vec@, sector.linedefs@), o,
                spec_detect_shapes(self.map.linedef_vec@, sector.linedefs@).len() as int),
    {
        let ghost lines = self.map.linedef_vec@;
        let ghost gverts = self.map.vert_vec@;
        let ghost tr = traceable_sector(lines, gverts, sector.linedefs@);
        let ghost sshapes = spec_detect_shapes(lines, sector.linedefs@);
        let shapes = self.detect_shapes(sector);
        proof {
            if tr {
                assert(shapes.deep_view() == sshapes);
            }
        }
        let mut areas: Vec<i64> = Vec::new();
        let mut points: Vec<Vec<Vert>> = Vec::new();
        let mut s: usize = 0;
        while s < shapes.len()
            invariant
                s <= shapes@.len(),
                areas@.len() == points@.len(),
                lines == self.map.linedef_vec@,
                gverts == self.map.vert_vec@,
                tr == traceable_sector(lines, gverts, sector.linedefs@),
                sshapes == spec_detect_shapes(lines, sector.linedefs@),
                tr ==> shapes.deep_view() == sshapes,
                tr ==> areas@.len() == s,
                tr ==> (forall|k: int| 0 <= k < areas@.len() ==> (#[trigger] areas@[k]) as int
                    == spec_loop_area(lines, gverts, sshapes[k])),
                tr ==> (forall|k: int| 0 <= k < points@.len() ==> (#[trigger] points@[k])@
                    == spec_loop_points(lines, gverts, sshapes[k])),
            decreases shapes@.len() - s,
        {
            let shape = &shapes[s];
            let ghost gs = s as int;
            proof {
                if tr {
                    assert(shape@ == shapes.deep_view()[gs]);
                    assert(shape@ == sshapes[gs]);
                }
            }
            s = s + 1;
            if shape.len() == 0 {
                proof {
                    if tr {
                        assert(sshapes[gs].len() > 0);
                        assert(false);
                    }
                }
                continue;
            }
            if !check_indices(shape, self.map.linedef_vec.len()) {
                proof {
                    if tr {
                        assert(valid_indices(lines, sshapes[gs]));
                        assert(false);
                    }
                }
                continue;
            }
            // the loop's own linedefs must address the vertex table
            let mut ok = true;
            let mut i: usize = 0;
            while i < shape.len()
                invariant
                    valid_indices_upto(shape@, self.map.linedef_vec@.len() as int),
                    lines == self.map.linedef_vec@,
                    gverts == self.map.vert_vec@,
                    tr == traceable_sector(lines, gverts, sector.linedefs@),
                    tr && shape@ == sshapes[gs] && 0 <= gs
                        < spec_detect_shapes(lines, sector.linedefs@).len() ==> ok,
                    sshapes == spec_detect_shapes(lines, sector.linedefs@),
                    ok ==> forall|k: int| 0 <= k < i
                        ==> 0 <= (#[trigger] self.map.linedef_vec@[shape@[k] as int]).start_vert
                            < self.map.vert_vec@.len()
                            && 0 <= self.map.linedef_vec@[shape@[k] as int].end_vert
                                < self.map.vert_vec@.len(),
                decreases shape@.len() - i,
            {
                let l = &self.map.linedef_vec[shape[i] as usize];
                if l.start_vert < 0 || l.start_vert as usize >= self.map.vert_vec.len()
                    || l.end_vert < 0 || l.end_vert as usize >= self.map.vert_vec.len() {
                    proof {
                        if tr && shape@ == sshapes[gs] && 0 <= gs
                            < spec_detect_shapes(lines, sector.linedefs@).len() {
                            assert(loop_vert_refs_ok(lines, gverts, sshapes[gs]));
                            assert(false);
                        }
                    }
                    ok = false;
                }
                i = i + 1;
            }
            if !ok {
                continue;
            }
            proof {
                assert(loop_vert_refs_ok(lines, gverts, shape@));
            }
            let b = crate::nester::loop_bbox(&self.map.linedef_vec, &self.map.vert_vec,
                shape);
            areas.push(crate::nester::bbox_area_i64(&b));
            points.push(crate::nester::loop_points(&self.map.linedef_vec,
                &self.map.vert_vec, shape));
        }
        if areas.len() == 0 {
            return None;
        }
        let outer = crate::nester::classify_outer(&areas);
        let ghost gouter = outer as int;
        proof {
            if tr {
                assert(is_outer_choice(lines, gverts, sshapes, gouter)) by {
                    assert forall|k: int| 0 <= k < sshapes.len()
                        implies #[trigger] spec_loop_area(lines, gverts, sshapes[k])
                            <= spec_loop_area(lines, gverts, sshapes[gouter]) by {
                        assert(areas@[k] <= areas@[gouter]);
                    }
                    assert forall|k: int| 0 <= k < gouter
                        implies #[trigger] spec_loop_area(lines, gverts, sshapes[k])
                            < spec_loop_area(lines, gverts, sshapes[gouter]) by {
                        assert(areas@[k] < areas@[gouter]);
                    }
                }
            }
        }
        let mut body: Vec<Vert> = Vec::new();
        let mut holes: Vec<Vec<Vert>> = Vec::new();
        let mut t: usize = 0;
        while t < points.len()
            invariant
                t <= points@.len(),
                outer < points@.len(),
                lines == self.map.linedef_vec@,
                gverts == self.map.vert_vec@,
                gouter == outer as int,
                tr == traceable_sector(lines, gverts, sector.linedefs@),
                sshapes == spec_detect_shapes(lines, sector.linedefs@),
                tr ==> points@.len() == sshapes.len(),
                tr ==> (forall|k: int| 0 <= k < points@.len() ==> (#[trigger] points@[k])@
                    == spec_loop_points(lines, gverts, sshapes[k])),
                tr && t > outer ==> body@ == spec_loop_points(lines, gverts,
                    sshapes[gouter]),
                tr && sshapes.len() == 1 ==> holes@.len() == 0,
                tr ==> holes_flat(holes@) == hole_points_upto(lines, gverts, sshapes,
                    gouter, t as int),
            decreases points@.len() - t,
        {
            if t == outer {
                body = crate::model::copy_points(&points[t]);
                proof {
                    if tr {
                        assert(hole_points_upto(lines, gverts, sshapes, gouter, t + 1)
                            == hole_points_upto(lines, gverts, sshapes, gouter, t as int));
                    }
                }
            } else {
                let hole = crate::model::copy_points(&points[t]);
                let ghost gh = hole@;
                let ghost pre_holes = holes@;
                holes.push(hole);
                proof {
                    if tr {
                        assert(holes@.drop_last() =~= pre_holes);
                        assert(holes_flat(holes@) == holes_flat(pre_holes) + gh);
                        assert(gh == spec_loop_points(lines, gverts, sshapes[t as int]));
                        assert(hole_points_upto(lines, gverts, sshapes, gouter, t + 1)
                            == hole_points_upto(lines, gverts, sshapes, gouter, t as int)
                            + spec_loop_points(lines, gverts, sshapes[t as int]));
                    }
                }
            }
            t = t + 1;
        }
        let r = Self::triangulate_polygon_with_holes(&body, &holes);
        proof {
            if tr && r is Some {
                assert(r.unwrap().vertices@ == spec_loop_points(lines, gverts,
                    sshapes[gouter]) + hole_points_upto(lines, gverts, sshapes, gouter,
                    sshapes.len() as int));
            }
            if tr && sshapes.len() == 1 {
                assert(gouter == 0);
                assert(body@ == spec_loop_points(lines, gverts, sshapes[0]));
                assert(holes@.len() == 0);
            }
        }
        r
    }
}

} // verus!
