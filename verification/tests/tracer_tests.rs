use wadlevel::model::{Linedef, Vert};
use wadlevel::nester::{bbox_area_i64, classify_outer, loop_bbox, loop_points};
use wadlevel::tracer::detect_shapes_in;

fn line(start: i16, end: i16) -> Linedef {
    Linedef {
        start_vert: start,
        end_vert: end,
        flags: 0,
        special_type: 0,
        sector_tag: 0,
        front_sidedef: 0,
        back_sidedef: -1,
    }
}

fn quad_lines() -> Vec<Linedef> {
    vec![line(0, 1), line(1, 2), line(2, 3), line(3, 0)]
}

#[test]
fn simple_closed_quadrilateral_gives_one_loop() {
    let lines = quad_lines();
    let ls: Vec<i16> = vec![0, 1, 2, 3];
    let shapes = detect_shapes_in(&lines, &ls);
    assert_eq!(shapes.len(), 1);
    let mut sorted = shapes[0].clone();
    sorted.sort();
    assert_eq!(sorted, vec![0, 1, 2, 3]);
}

#[test]
fn quadrilateral_traversal_order_follows_shared_vertices() {
    // scrambled list order still walks vertex to vertex
    let lines = quad_lines();
    let ls: Vec<i16> = vec![2, 0, 3, 1];
    let shapes = detect_shapes_in(&lines, &ls);
    assert_eq!(shapes.len(), 1);
    assert_eq!(shapes[0].len(), 4);
    assert_eq!(shapes[0][0], 2); // the first listed linedef starts the loop
}

#[test]
fn pillar_sector_gives_two_loops_and_outer_classification() {
    // outer rectangle on vertices 0..4, fully disjoint inner rectangle
    // (a pillar) on vertices 4..8
    let mut lines = quad_lines();
    lines.push(line(4, 5));
    lines.push(line(5, 6));
    lines.push(line(6, 7));
    lines.push(line(7, 4));
    let verts: Vec<Vert> = vec![
        Vert { x: 0, y: 0 },
        Vert { x: 10, y: 0 },
        Vert { x: 10, y: 10 },
        Vert { x: 0, y: 10 },
        Vert { x: 4, y: 4 },
        Vert { x: 6, y: 4 },
        Vert { x: 6, y: 6 },
        Vert { x: 4, y: 6 },
    ];
    let ls: Vec<i16> = vec![0, 1, 2, 3, 4, 5, 6, 7];
    let shapes = detect_shapes_in(&lines, &ls);
    assert_eq!(shapes.len(), 2);
    let mut first = shapes[0].clone();
    first.sort();
    assert_eq!(first, vec![0, 1, 2, 3]);
    let mut second = shapes[1].clone();
    second.sort();
    assert_eq!(second, vec![4, 5, 6, 7]);

    // the loop with the strictly larger bounding-box area is the outer one
    let mut areas: Vec<i64> = Vec::new();
    for shape in &shapes {
        let b = loop_bbox(&lines, &verts, shape);
        areas.push(bbox_area_i64(&b));
    }
    assert_eq!(areas, vec![100, 4]);
    assert_eq!(classify_outer(&areas), 0);
}

#[test]
fn interleaved_pillar_lists_still_split_into_two_loops() {
    let mut lines = quad_lines();
    lines.push(line(4, 5));
    lines.push(line(5, 6));
    lines.push(line(6, 7));
    lines.push(line(7, 4));
    // outer and inner linedefs interleaved in the sector list
    let ls: Vec<i16> = vec![0, 4, 1, 5, 2, 6, 3, 7];
    let shapes = detect_shapes_in(&lines, &ls);
    assert_eq!(shapes.len(), 2);
    let mut a = shapes[0].clone();
    a.sort();
    let mut b = shapes[1].clone();
    b.sort();
    assert_eq!(a, vec![0, 1, 2, 3]);
    assert_eq!(b, vec![4, 5, 6, 7]);
}

#[test]
fn unclosed_chain_is_emitted_as_partial_loop() {
    // three segments forming an open chain: tolerated, one partial loop
    let lines = vec![line(0, 1), line(1, 2), line(2, 3)];
    let ls: Vec<i16> = vec![0, 1, 2];
    let shapes = detect_shapes_in(&lines, &ls);
    assert_eq!(shapes.len(), 1);
    assert_eq!(shapes[0], vec![0, 1, 2]);
}

#[test]
fn empty_sector_list_gives_no_loops() {
    let lines = quad_lines();
    let ls: Vec<i16> = Vec::new();
    let shapes = detect_shapes_in(&lines, &ls);
    assert_eq!(shapes.len(), 0);
}

#[test]
fn loop_points_deduplicates_in_traversal_order() {
    let lines = quad_lines();
    let verts: Vec<Vert> = vec![
        Vert { x: 0, y: 0 },
        Vert { x: 10, y: 0 },
        Vert { x: 10, y: 10 },
        Vert { x: 0, y: 10 },
    ];
    let lp: Vec<i16> = vec![0, 1, 2, 3];
    let pts = loop_points(&lines, &verts, &lp);
    assert_eq!(pts.len(), 4);
    assert_eq!(pts[0], Vert { x: 0, y: 0 });
    assert_eq!(pts[1], Vert { x: 10, y: 0 });
    assert_eq!(pts[2], Vert { x: 10, y: 10 });
    assert_eq!(pts[3], Vert { x: 0, y: 10 });
}

#[test]
fn corrupt_unrelated_linedef_leaves_other_loops_usable() {
    // linedef 4 references a vertex that does not exist; the quad's own
    // loop still converts to its full point list
    let mut lines = quad_lines();
    lines.push(line(100, 200));
    let verts: Vec<Vert> = vec![
        Vert { x: 0, y: 0 },
        Vert { x: 10, y: 0 },
        Vert { x: 10, y: 10 },
        Vert { x: 0, y: 10 },
    ];
    let lp: Vec<i16> = vec![0, 1, 2, 3];
    let pts = loop_points(&lines, &verts, &lp);
    assert_eq!(pts.len(), 4);
    let b = loop_bbox(&lines, &verts, &lp);
    assert_eq!(bbox_area_i64(&b), 100);
}

#[test]
fn classify_outer_keeps_the_first_of_equal_areas() {
    let areas: Vec<i64> = vec![50, 50, 10];
    assert_eq!(classify_outer(&areas), 0);
    let areas2: Vec<i64> = vec![10, 50, 50];
    assert_eq!(classify_outer(&areas2), 1);
}
