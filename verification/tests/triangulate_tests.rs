use wadlevel::model::Vert;
use wadlevel::triangulate::triangulate_polygon_with_holes;

fn v(x: i16, y: i16) -> Vert {
    Vert { x, y }
}

fn cross(a: Vert, b: Vert, c: Vert) -> i64 {
    (b.x as i64 - a.x as i64) * (c.y as i64 - a.y as i64)
        - (b.y as i64 - a.y as i64) * (c.x as i64 - a.x as i64)
}

#[test]
fn square_with_concentric_hole_triangulates() {
    let body = vec![v(0, 0), v(10, 0), v(10, 10), v(0, 10)];
    let holes = vec![vec![v(4, 4), v(6, 4), v(6, 6), v(4, 6)]];
    let mesh = triangulate_polygon_with_holes(&body, &holes).expect("mesh");
    // the point list is the boundary followed by the hole: all 8 points
    assert_eq!(mesh.vertices.len(), 8);
    assert_eq!(&mesh.vertices[..4], &body[..]);
    assert_eq!(&mesh.vertices[4..], &holes[0][..]);
    // a non-empty triangle set in whole triples
    assert!(!mesh.indices.is_empty());
    assert_eq!(mesh.indices.len() % 3, 0);
    for &i in &mesh.indices {
        assert!(i < mesh.vertices.len());
    }
    // no triangle has all three vertices collinear
    for t in mesh.indices.chunks(3) {
        let c = cross(mesh.vertices[t[0]], mesh.vertices[t[1]], mesh.vertices[t[2]]);
        assert!(c != 0);
    }
    // every one of the 8 points is used by some triangle
    for p in 0..8 {
        assert!(mesh.indices.contains(&p));
    }
    // the triangle areas sum to the square minus the hole: 2*(100-4)
    let total: i64 = mesh
        .indices
        .chunks(3)
        .map(|t| cross(mesh.vertices[t[0]], mesh.vertices[t[1]], mesh.vertices[t[2]]).abs())
        .sum();
    assert_eq!(total, 192);
}

#[test]
fn plain_square_gives_two_triangles() {
    let body = vec![v(0, 0), v(8, 0), v(8, 8), v(0, 8)];
    let holes: Vec<Vec<Vert>> = Vec::new();
    let mesh = triangulate_polygon_with_holes(&body, &holes).expect("mesh");
    assert_eq!(mesh.vertices.len(), 4);
    assert_eq!(mesh.indices.len(), 6);
    let total: i64 = mesh
        .indices
        .chunks(3)
        .map(|t| cross(mesh.vertices[t[0]], mesh.vertices[t[1]], mesh.vertices[t[2]]).abs())
        .sum();
    assert_eq!(total, 128);
}

#[test]
fn clockwise_boundary_is_normalized() {
    let body = vec![v(0, 8), v(8, 8), v(8, 0), v(0, 0)];
    let holes: Vec<Vec<Vert>> = Vec::new();
    let mesh = triangulate_polygon_with_holes(&body, &holes).expect("mesh");
    assert_eq!(mesh.indices.len(), 6);
}

#[test]
fn concave_boundary_triangulates() {
    // an L shape: 6 vertices, 4 triangles
    let body = vec![v(0, 0), v(10, 0), v(10, 4), v(4, 4), v(4, 10), v(0, 10)];
    let holes: Vec<Vec<Vert>> = Vec::new();
    let mesh = triangulate_polygon_with_holes(&body, &holes).expect("mesh");
    assert_eq!(mesh.indices.len(), 12);
    let total: i64 = mesh
        .indices
        .chunks(3)
        .map(|t| cross(mesh.vertices[t[0]], mesh.vertices[t[1]], mesh.vertices[t[2]]).abs())
        .sum();
    // 2 * (100 - 36)
    assert_eq!(total, 128);
}

#[test]
fn too_few_points_give_no_mesh() {
    let body = vec![v(0, 0), v(10, 0)];
    let holes: Vec<Vec<Vert>> = Vec::new();
    assert!(triangulate_polygon_with_holes(&body, &holes).is_none());
}

#[test]
fn collinear_points_give_no_mesh() {
    let body = vec![v(0, 0), v(5, 0), v(10, 0)];
    let holes: Vec<Vec<Vert>> = Vec::new();
    assert!(triangulate_polygon_with_holes(&body, &holes).is_none());
}
