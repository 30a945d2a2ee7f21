use crackhead_adventures::geometry::Point;
use crackhead_adventures::nav_mesh::{has_tile, EnemyNavMesh};

fn p(x: i64, y: i64) -> Point {
    Point::new(x, y)
}

fn row_of_tiles(n: i64) -> EnemyNavMesh {
    let mut mesh = EnemyNavMesh::new();
    let floor: Vec<(i64, i64)> = (0..n).map(|x| (x, 0)).collect();
    mesh.register_level(&floor, &Vec::new());
    mesh.bake();
    mesh
}

#[test]
fn inserting_same_point_twice_keeps_vertex_count() {
    let mut mesh = EnemyNavMesh::new();
    mesh.insert_triangle(p(0, 0), p(10, 0), p(0, 10));
    assert_eq!(mesh.vertex_count(), 3);
    mesh.insert_triangle(p(0, 0), p(10, 0), p(0, 10));
    assert_eq!(mesh.vertex_count(), 3);
    assert_eq!(mesh.triangle_count(), 2);
    assert_eq!(mesh.triangle(1), (0, 1, 2));
}

#[test]
fn inserting_distinct_points_grows_vertex_count() {
    let mut mesh = EnemyNavMesh::new();
    mesh.insert_triangle(p(0, 0), p(10, 0), p(0, 10));
    mesh.insert_triangle(p(0, 0), p(20, 0), p(0, 20));
    assert_eq!(mesh.vertex_count(), 5);
    assert_eq!(mesh.triangle(1), (0, 3, 4));
}

#[test]
fn insert_rect_splits_along_first_diagonal() {
    let mut mesh = EnemyNavMesh::new();
    mesh.insert_rect(p(0, 0), p(10, 0), p(10, 10), p(0, 10));
    assert_eq!(mesh.vertex_count(), 4);
    assert_eq!(mesh.vertex(0), p(0, 0));
    assert_eq!(mesh.vertex(1), p(10, 0));
    assert_eq!(mesh.vertex(2), p(10, 10));
    assert_eq!(mesh.vertex(3), p(0, 10));
    assert_eq!(mesh.triangle_count(), 2);
    assert_eq!(mesh.triangle(0), (0, 1, 2));
    assert_eq!(mesh.triangle(1), (0, 3, 2));
}

#[test]
fn open_floor_tile_covers_whole_tile() {
    let mut mesh = EnemyNavMesh::new();
    mesh.register_floor_tile(0, 0, false, false, false, false);
    assert_eq!(mesh.vertex(0), p(-25, 25));
    assert_eq!(mesh.vertex(1), p(25, 25));
    assert_eq!(mesh.vertex(2), p(25, -25));
    assert_eq!(mesh.vertex(3), p(-25, -25));
}

#[test]
fn walled_floor_tile_shrinks_to_centre_lines() {
    let mut mesh = EnemyNavMesh::new();
    mesh.register_floor_tile(2, 1, true, false, true, false);
    assert_eq!(mesh.vertex(0), p(100, -50));
    assert_eq!(mesh.vertex(1), p(125, -50));
    assert_eq!(mesh.vertex(2), p(125, -75));
    assert_eq!(mesh.vertex(3), p(100, -75));
}

#[test]
fn register_level_shares_corners_between_tiles() {
    let mut mesh = EnemyNavMesh::new();
    mesh.register_level(&vec![(0, 0), (1, 0)], &vec![(0, -1)]);
    assert_eq!(mesh.vertex_count(), 7);
    assert_eq!(mesh.triangle_count(), 4);
    assert_eq!(mesh.vertex(0), p(-25, 0));
    assert_eq!(mesh.vertex(4), p(25, 25));
}

#[test]
fn has_tile_finds_listed_tiles_only() {
    let tiles = vec![(1, 2), (3, 4)];
    assert!(has_tile(&tiles, 3, 4));
    assert!(!has_tile(&tiles, 4, 3));
}

#[test]
fn bake_marks_mesh_and_clear_resets() {
    let mut mesh = row_of_tiles(2);
    assert!(mesh.is_baked());
    mesh.clear();
    assert!(!mesh.is_baked());
    assert_eq!(mesh.vertex_count(), 0);
    assert_eq!(mesh.triangle_count(), 0);
}

#[test]
fn find_path_runs_between_endpoints() {
    let mesh = row_of_tiles(3);
    let path = mesh.find_path(p(0, 0), p(100, 0)).expect("route along the row");
    assert!(path.len() >= 2);
    assert_eq!(path[0], p(0, 0));
    assert_eq!(*path.last().unwrap(), p(100, 0));
}

#[test]
fn find_path_is_deterministic() {
    let mesh = row_of_tiles(5);
    let first = mesh.find_path(p(-10, 10), p(210, -10));
    let second = mesh.find_path(p(-10, 10), p(210, -10));
    assert!(first.is_some());
    assert_eq!(first, second);
}

#[test]
fn find_path_to_far_point_is_none() {
    let mesh = row_of_tiles(3);
    assert_eq!(mesh.find_path(p(0, 0), p(1_000_000_000, 1_000_000_000)), None);
}

#[test]
fn find_path_between_islands_is_none() {
    let mut mesh = EnemyNavMesh::new();
    mesh.register_level(&vec![(0, 0), (10, 0)], &Vec::new());
    mesh.bake();
    assert_eq!(mesh.find_path(p(0, 0), p(500, 0)), None);
}

#[test]
fn find_path_to_same_point_is_none() {
    let mesh = row_of_tiles(2);
    assert_eq!(mesh.find_path(p(10, 0), p(10, 0)), None);
}

#[test]
fn repeated_rect_adds_triangles_but_no_vertices() {
    let mut mesh = EnemyNavMesh::new();
    mesh.insert_rect(p(0, 0), p(10, 0), p(10, 10), p(0, 10));
    mesh.insert_rect(p(0, 0), p(10, 0), p(10, 10), p(0, 10));
    assert_eq!(mesh.vertex_count(), 4);
    assert_eq!(mesh.triangle_count(), 4);
    assert_eq!(mesh.triangle(3), (0, 3, 2));
}
