//! The navigation mesh of a level: a deduplicated vertex list and triangles
//! built from floor tiles, baked once into a path-finding structure of the
//! `navmesh` crate.
use vstd::prelude::*;
use crate::geometry::{Point, in_world, TILE_SIZE};

verus! {

/// The baked mesh of the `navmesh` crate (`navmesh::NavMesh`), carried
/// whole: nothing inside it is read here.
#[verifier::external_type_specification]
#[verifier::external_body]
pub struct ExNavMesh(navmesh::NavMesh);

/// The error of `navmesh::NavMesh::new` (`navmesh::Error`), only told apart
/// from success.
#[verifier::external_type_specification]
#[verifier::external_body]
pub struct ExNavError(navmesh::Error);

/// A triangle of the mesh, as three indices into the vertex list.
pub type Triangle = (u32, u32, u32);

/// What `navmesh::NavMesh::find_path` returns on a baked mesh object between
/// two points, with closest-point queries and the accurate path mode, each
/// waypoint rounded toward zero to whole world units. The search reads
/// nothing but the mesh object and the two points, so the same object and
/// points give the same route.
pub uninterp spec fn route_on(mesh: navmesh::NavMesh, from: Point, to: Point) -> Option<Seq<Point>>;

/// What `navmesh::NavMesh::vertices` returns for a mesh object: its vertex
/// list, each vertex rounded toward zero to whole world units (its height
/// left out).
pub uninterp spec fn mesh_vertices(mesh: navmesh::NavMesh) -> Seq<Point>;

/// What `navmesh::NavMesh::triangles` returns for a mesh object: its
/// triangles, as triples of vertex indices.
pub uninterp spec fn mesh_triangles(mesh: navmesh::NavMesh) -> Seq<Triangle>;

/// The contents of an optional path, as a sequence.
pub open spec fn path_view(p: Option<Vec<Point>>) -> Option<Seq<Point>> {
    match p {
        Some(v) => Some(v@),
        None => None,
    }
}

/// Every index of every triangle names a vertex of a list of `n` vertices.
pub open spec fn triangles_in_bounds(tris: Seq<Triangle>, n: nat) -> bool {
    forall|i: int|
        0 <= i < tris.len() ==> (#[trigger] tris[i]).0 < n && tris[i].1 < n && tris[i].2 < n
}

/// Relies on `navmesh::NavMesh::new`: it fails exactly when a triangle names
/// a vertex index past the end of the vertex list, and the mesh it builds
/// keeps both lists as given, which `NavMesh::vertices` and
/// `NavMesh::triangles` return (a world point converts to the crate's
/// scalar and back exactly).
#[verifier::external_body]
fn build_nav_mesh(vertices: &Vec<Point>, triangles: &Vec<Triangle>) -> (r: Result<
    navmesh::NavMesh,
    navmesh::Error,
>)
    requires
        vertices.len() <= u32::MAX,
        forall|i: int| 0 <= i < vertices@.len() ==> in_world(#[trigger] vertices@[i]),
    ensures
        r is Ok <==> triangles_in_bounds(triangles@, vertices.len() as nat),
        r matches Ok(m) ==> mesh_vertices(m) == vertices@ && mesh_triangles(m) == triangles@,
{
    let v = vertices.iter().map(
        |p| navmesh::NavVec3::new(p.x as navmesh::Scalar, p.y as navmesh::Scalar, 0 as navmesh::Scalar),
    ).collect();
    let t = triangles.iter().map(|t| navmesh::NavTriangle::from(*t)).collect();
    navmesh::NavMesh::new(v, t)
}

/// Relies on `navmesh::NavMesh::find_path` (closest-point queries, accurate
/// path mode): its result depends on the mesh object and the two points
/// alone, it is `None` when the two points coincide, and a path it finds
/// holds at least one point.
#[verifier::external_body]
fn query_path(mesh: &navmesh::NavMesh, from: Point, to: Point) -> (r: Option<Vec<Point>>)
    requires
        in_world(from),
        in_world(to),
    ensures
        path_view(r) == route_on(*mesh, from, to),
        from == to ==> r is None,
        r matches Some(p) ==> p.len() >= 1,
{
    let path = mesh.find_path(
        navmesh::NavVec3::new(from.x as navmesh::Scalar, from.y as navmesh::Scalar, 0 as navmesh::Scalar),
        navmesh::NavVec3::new(to.x as navmesh::Scalar, to.y as navmesh::Scalar, 0 as navmesh::Scalar),
        navmesh::NavQuery::Closest,
        navmesh::NavPathMode::Accuracy,
    );
    path.map(|p| p.iter().map(|v| Point { x: v.x as i64, y: v.y as i64 }).collect())
}

/// The vertex list after inserting `v`: unchanged when `v` is already there,
/// else `v` appended.
pub open spec fn add_vertex(s: Seq<Point>, v: Point) -> Seq<Point> {
    if s.contains(v) { s } else { s.push(v) }
}

/// The vertex list after inserting the points of `ps` in order.
pub open spec fn add_vertices(s: Seq<Point>, ps: Seq<Point>) -> Seq<Point>
    decreases ps.len(),
{
    if ps.len() == 0 {
        s
    } else {
        add_vertices(add_vertex(s, ps[0]), ps.drop_first())
    }
}

/// The first position of `v` in `s` (meaningful when `s` contains `v`).
pub open spec fn index_of(s: Seq<Point>, v: Point) -> int {
    choose|i: int| 0 <= i < s.len() && s[i] == v && forall|j: int| 0 <= j < i ==> s[j] != v
}

/// No point appears twice.
pub open spec fn no_duplicates(s: Seq<Point>) -> bool {
    forall|i: int, j: int| 0 <= i < j < s.len() ==> s[i] != s[j]
}

/// The largest absolute tile coordinate that a level may use.
pub const TILE_LIMIT: i64 = 300_000;

/// The four corners of the walkable rectangle of the floor tile at `(x, y)`
/// (tile rows grow downward, world `y` grows upward). Each side reaches half
/// a tile out from the tile's centre toward an open neighbour, and stops at
/// the centre line where the neighbour is a wall.
pub open spec fn tile_corners(
    x: int,
    y: int,
    wall_above: bool,
    wall_below: bool,
    wall_left: bool,
    wall_right: bool,
) -> Seq<Point> {
    let half = TILE_SIZE / 2;
    let top = y * TILE_SIZE - if wall_above { 0 } else { half };
    let bottom = y * TILE_SIZE + if wall_below { 0 } else { half };
    let left = x * TILE_SIZE - if wall_left { 0 } else { half };
    let right = x * TILE_SIZE + if wall_right { 0 } else { half };
    seq![
        Point { x: left as i64, y: (-top) as i64 },
        Point { x: right as i64, y: (-top) as i64 },
        Point { x: right as i64, y: (-bottom) as i64 },
        Point { x: left as i64, y: (-bottom) as i64 },
    ]
}

/// The vertex and triangle lists after inserting the quadrilateral with
/// corners `c[0] c[1] c[2] c[3]` as the triangles `c[0] c[1] c[2]` and
/// `c[0] c[3] c[2]`.
pub open spec fn with_rect(vs: Seq<Point>, ts: Seq<Triangle>, c: Seq<Point>) -> (Seq<Point>, Seq<Triangle>) {
    let v = add_vertices(vs, c);
    (
        v,
        ts.push((index_of(v, c[0]) as u32, index_of(v, c[1]) as u32, index_of(v, c[2]) as u32)).push(
            (index_of(v, c[0]) as u32, index_of(v, c[3]) as u32, index_of(v, c[2]) as u32),
        ),
    )
}

/// Whether the tile `(x, y)` is listed in `tiles`.
pub open spec fn has_tile_at(tiles: Seq<(i64, i64)>, x: int, y: int) -> bool {
    exists|i: int| 0 <= i < tiles.len() && tiles[i].0 == x && tiles[i].1 == y
}

/// The walkable rectangle of the floor tile `(x, y)` among the wall tiles
/// `walls`.
pub open spec fn floor_corners(walls: Seq<(i64, i64)>, x: int, y: int) -> Seq<Point> {
    tile_corners(
        x,
        y,
        has_tile_at(walls, x, y - 1),
        has_tile_at(walls, x, y + 1),
        has_tile_at(walls, x - 1, y),
        has_tile_at(walls, x + 1, y),
    )
}

/// The vertex and triangle lists after registering the floor tiles `floor`
/// in order, among the wall tiles `walls`.
pub open spec fn level_mesh(
    vs: Seq<Point>,
    ts: Seq<Triangle>,
    floor: Seq<(i64, i64)>,
    walls: Seq<(i64, i64)>,
) -> (Seq<Point>, Seq<Triangle>)
    decreases floor.len(),
{
    if floor.len() == 0 {
        (vs, ts)
    } else {
        let prev = level_mesh(vs, ts, floor.drop_last(), walls);
        with_rect(prev.0, prev.1, floor_corners(walls, floor.last().0 as int, floor.last().1 as int))
    }
}

/// Whether the tile `(x, y)` is listed in `tiles`.
pub fn has_tile(tiles: &Vec<(i64, i64)>, x: i64, y: i64) -> (r: bool)
    ensures
        r == has_tile_at(tiles@, x as int, y as int),
{
    let mut i: usize = 0;
    while i < tiles.len()
        invariant
            i <= tiles@.len(),
            forall|j: int| 0 <= j < i ==> !((#[trigger] tiles@[j]).0 == x && tiles@[j].1 == y),
        decreases tiles@.len() - i,
    {
        if tiles[i].0 == x && tiles[i].1 == y {
            return true;
        }
        i += 1;
    }
    false
}

/// Inserting points grows a vertex list by at most their number.
proof fn lemma_add_vertices_len(s: Seq<Point>, ps: Seq<Point>)
    ensures
        s.len() <= add_vertices(s, ps).len() <= s.len() + ps.len(),
    decreases ps.len(),
{
    if ps.len() > 0 {
        lemma_add_vertices_len(add_vertex(s, ps[0]), ps.drop_first());
    }
}

/// The walkable surface of a level, built tile by tile and then baked.
pub struct EnemyNavMesh {
    vertices: Vec<Point>,
    triangles: Vec<Triangle>,
    nav_mesh: Option<navmesh::NavMesh>,
}

impl EnemyNavMesh {
    /// The vertices inserted so far, in order of first insertion.
    pub closed spec fn spec_vertices(&self) -> Seq<Point> {
        self.vertices@
    }

    /// The triangles inserted so far.
    pub closed spec fn spec_triangles(&self) -> Seq<Triangle> {
        self.triangles@
    }

    /// The baked mesh, once `bake` has run.
    pub closed spec fn spec_baked(&self) -> Option<navmesh::NavMesh> {
        self.nav_mesh
    }

    /// Vertices are unique and inside the world, triangles name existing
    /// vertices, and every index fits in a `u32`.
    pub open spec fn wf(&self) -> bool {
        &&& no_duplicates(self.spec_vertices())
        &&& forall|i: int|
            0 <= i < self.spec_vertices().len() ==> in_world(#[trigger] self.spec_vertices()[i])
        &&& triangles_in_bounds(self.spec_triangles(), self.spec_vertices().len())
        &&& self.spec_vertices().len() <= u32::MAX
    }

    /// An empty, unbaked mesh.
    pub fn new() -> (r: EnemyNavMesh)
        ensures
            r.wf(),
            r.spec_vertices() == Seq::<Point>::empty(),
            r.spec_triangles() == Seq::<Triangle>::empty(),
            r.spec_baked() is None,
    {
        EnemyNavMesh { vertices: Vec::new(), triangles: Vec::new(), nav_mesh: None }
    }

    /// Number of distinct vertices inserted so far.
    pub fn vertex_count(&self) -> (r: usize)
        ensures
            r == self.spec_vertices().len(),
    {
        self.vertices.len()
    }

    /// The vertex at `i`.
    pub fn vertex(&self, i: usize) -> (r: Point)
        requires
            i < self.spec_vertices().len(),
        ensures
            r == self.spec_vertices()[i as int],
    {
        self.vertices[i]
    }

    /// Number of triangles inserted so far.
    pub fn triangle_count(&self) -> (r: usize)
        ensures
            r == self.spec_triangles().len(),
    {
        self.triangles.len()
    }

    /// The triangle at `i`.
    pub fn triangle(&self, i: usize) -> (r: Triangle)
        requires
            i < self.spec_triangles().len(),
        ensures
            r == self.spec_triangles()[i as int],
    {
        self.triangles[i]
    }

    /// Whether `bake` has run since the mesh was created or cleared.
    pub fn is_baked(&self) -> (r: bool)
        ensures
            r == self.spec_baked() is Some,
    {
        self.nav_mesh.is_some()
    }

    /// The index of `vertex`, inserting it at the end when it is new.
    fn vertex_index(&mut self, vertex: Point) -> (r: u32)
        requires
            old(self).wf(),
            old(self).spec_vertices().len() < u32::MAX,
            in_world(vertex),
        ensures
            final(self).wf(),
            final(self).spec_vertices() == add_vertex(old(self).spec_vertices(), vertex),
            final(self).spec_triangles() == old(self).spec_triangles(),
            final(self).spec_baked() == old(self).spec_baked(),
            r == index_of(final(self).spec_vertices(), vertex),
            r < final(self).spec_vertices().len(),
            final(self).spec_vertices()[r as int] == vertex,
    {
        let mut i: usize = 0;
        while i < self.vertices.len()
            invariant
                i <= self.vertices.len(),
                forall|j: int| 0 <= j < i ==> self.vertices[j] != vertex,
                *self == *old(self),
                self.wf(),
                self.vertices.len() < u32::MAX,
            decreases self.vertices.len() - i,
        {
            if self.vertices[i] == vertex {
                proof {
                    lemma_index_of(self.vertices@, vertex, i as int);
                }
                return i as u32;
            }
            i += 1;
        }
        self.vertices.push(vertex);
        proof {
            assert(!old(self).vertices@.contains(vertex));
            assert(self.vertices@[i as int] == vertex);
            lemma_index_of(self.vertices@, vertex, i as int);
            assert(triangles_in_bounds(self.triangles@, self.vertices@.len()));
        }
        i as u32
    }

    /// Registers the triangle `p1 p2 p3`.
    pub fn insert_triangle(&mut self, p1: Point, p2: Point, p3: Point)
        requires
            old(self).wf(),
            old(self).spec_vertices().len() + 3 <= u32::MAX,
            in_world(p1),
            in_world(p2),
            in_world(p3),
        ensures
            final(self).wf(),
            final(self).spec_vertices() == add_vertices(old(self).spec_vertices(), seq![p1, p2, p3]),
            final(self).spec_triangles() == old(self).spec_triangles().push(
                (
                    index_of(final(self).spec_vertices(), p1) as u32,
                    index_of(final(self).spec_vertices(), p2) as u32,
                    index_of(final(self).spec_vertices(), p3) as u32,
                ),
            ),
            final(self).spec_baked() == old(self).spec_baked(),
    {
        let ghost s0 = self.vertices@;
        let i1 = self.vertex_index(p1);
        let i2 = self.vertex_index(p2);
        let i3 = self.vertex_index(p3);
        proof {
            lemma_add_keeps_index(add_vertex(s0, p1), p2, p1);
            lemma_add_keeps_index(add_vertex(add_vertex(s0, p1), p2), p3, p1);
            lemma_add_keeps_index(add_vertex(add_vertex(s0, p1), p2), p3, p2);
            lemma_add_vertices_3(s0, p1, p2, p3);
        }
        self.triangles.push((i1, i2, i3));
    }

    /// Registers the quadrilateral `p1 p2 p3 p4` as the two triangles
    /// `p1 p2 p3` and `p1 p4 p3`, which share the diagonal `p1 p3`.
    pub fn insert_rect(&mut self, p1: Point, p2: Point, p3: Point, p4: Point)
        requires
            old(self).wf(),
            old(self).spec_vertices().len() + 4 <= u32::MAX,
            in_world(p1),
            in_world(p2),
            in_world(p3),
            in_world(p4),
        ensures
            final(self).wf(),
            final(self).spec_vertices() == add_vertices(
                old(self).spec_vertices(),
                seq![p1, p2, p3, p4],
            ),
            final(self).spec_triangles() == old(self).spec_triangles().push(
                (
                    index_of(final(self).spec_vertices(), p1) as u32,
                    index_of(final(self).spec_vertices(), p2) as u32,
                    index_of(final(self).spec_vertices(), p3) as u32,
                ),
            ).push(
                (
                    index_of(final(self).spec_vertices(), p1) as u32,
                    index_of(final(self).spec_vertices(), p4) as u32,
                    index_of(final(self).spec_vertices(), p3) as u32,
                ),
            ),
            final(self).spec_baked() == old(self).spec_baked(),
    {
        let ghost s0 = self.vertices@;
        let i1 = self.vertex_index(p1);
        let i2 = self.vertex_index(p2);
        let i3 = self.vertex_index(p3);
        let i4 = self.vertex_index(p4);
        proof {
            let s1 = add_vertex(s0, p1);
            let s2 = add_vertex(s1, p2);
            let s3 = add_vertex(s2, p3);
            lemma_add_keeps_index(s1, p2, p1);
            lemma_add_keeps_index(s2, p3, p1);
            lemma_add_keeps_index(s2, p3, p2);
            lemma_add_keeps_index(s3, p4, p1);
            lemma_add_keeps_index(s3, p4, p2);
            lemma_add_keeps_index(s3, p4, p3);
            lemma_add_vertices_4(s0, p1, p2, p3, p4);
        }
        self.triangles.push((i1, i2, i3));
        self.triangles.push((i1, i4, i3));
    }

    /// Registers the floor tile at tile coordinates `(x, y)`, given which of
    /// its four neighbours are walls: its walkable rectangle is inserted with
    /// `insert_rect`, corners in the order of `tile_corners`.
    pub fn register_floor_tile(
        &mut self,
        x: i64,
        y: i64,
        wall_above: bool,
        wall_below: bool,
        wall_left: bool,
        wall_right: bool,
    )
        requires
            old(self).wf(),
            old(self).spec_vertices().len() + 4 <= u32::MAX,
            -TILE_LIMIT <= x <= TILE_LIMIT,
            -TILE_LIMIT <= y <= TILE_LIMIT,
        ensures
            ({
                let c = tile_corners(x as int, y as int, wall_above, wall_below, wall_left, wall_right);
                &&& final(self).wf()
                &&& final(self).spec_vertices() == add_vertices(old(self).spec_vertices(), c)
                &&& final(self).spec_triangles() == old(self).spec_triangles().push(
                    (
                        index_of(final(self).spec_vertices(), c[0]) as u32,
                        index_of(final(self).spec_vertices(), c[1]) as u32,
                        index_of(final(self).spec_vertices(), c[2]) as u32,
                    ),
                ).push(
                    (
                        index_of(final(self).spec_vertices(), c[0]) as u32,
                        index_of(final(self).spec_vertices(), c[3]) as u32,
                        index_of(final(self).spec_vertices(), c[2]) as u32,
                    ),
                )
                &&& final(self).spec_baked() == old(self).spec_baked()
                &&& (final(self).spec_vertices(), final(self).spec_triangles()) == with_rect(
                    old(self).spec_vertices(),
                    old(self).spec_triangles(),
                    c,
                )
            }),
    {
        let half = TILE_SIZE / 2;
        let top = y * TILE_SIZE - if wall_above { 0 } else { half };
        let bottom = y * TILE_SIZE + if wall_below { 0 } else { half };
        let left = x * TILE_SIZE - if wall_left { 0 } else { half };
        let right = x * TILE_SIZE + if wall_right { 0 } else { half };
        let p1 = Point { x: left, y: -top };
        let p2 = Point { x: right, y: -top };
        let p3 = Point { x: right, y: -bottom };
        let p4 = Point { x: left, y: -bottom };
        assert(seq![p1, p2, p3, p4] == tile_corners(
            x as int,
            y as int,
            wall_above,
            wall_below,
            wall_left,
            wall_right,
        ));
        self.insert_rect(p1, p2, p3, p4);
    }

    /// Registers every floor tile of `floor`, in order, with the walls of
    /// `walls` deciding how far each tile's rectangle reaches.
    pub fn register_level(&mut self, floor: &Vec<(i64, i64)>, walls: &Vec<(i64, i64)>)
        requires
            old(self).wf(),
            old(self).spec_vertices().len() + 4 * floor@.len() <= u32::MAX,
            forall|i: int|
                0 <= i < floor@.len() ==> -TILE_LIMIT < (#[trigger] floor@[i]).0 < TILE_LIMIT
                    && -TILE_LIMIT < floor@[i].1 < TILE_LIMIT,
        ensures
            final(self).wf(),
            (final(self).spec_vertices(), final(self).spec_triangles()) == level_mesh(
                old(self).spec_vertices(),
                old(self).spec_triangles(),
                floor@,
                walls@,
            ),
            final(self).spec_baked() == old(self).spec_baked(),
    {
        let ghost vs0 = self.spec_vertices();
        let ghost ts0 = self.spec_triangles();
        let mut i: usize = 0;
        while i < floor.len()
            invariant
                i <= floor@.len(),
                self.wf(),
                self.spec_vertices().len() <= vs0.len() + 4 * i,
                vs0.len() + 4 * floor@.len() <= u32::MAX,
                (self.spec_vertices(), self.spec_triangles()) == level_mesh(
                    vs0,
                    ts0,
                    floor@.take(i as int),
                    walls@,
                ),
                self.spec_baked() == old(self).spec_baked(),
                forall|k: int|
                    0 <= k < floor@.len() ==> -TILE_LIMIT < (#[trigger] floor@[k]).0 < TILE_LIMIT
                        && -TILE_LIMIT < floor@[k].1 < TILE_LIMIT,
            decreases floor@.len() - i,
        {
            let (x, y) = floor[i];
            let above = has_tile(walls, x, y - 1);
            let below = has_tile(walls, x, y + 1);
            let left = has_tile(walls, x - 1, y);
            let right = has_tile(walls, x + 1, y);
            let ghost before = self.spec_vertices();
            self.register_floor_tile(x, y, above, below, left, right);
            proof {
                lemma_add_vertices_len(
                    before,
                    tile_corners(x as int, y as int, above, below, left, right),
                );
                let next = floor@.take(i + 1);
                assert(next.drop_last() == floor@.take(i as int));
                assert(next.last() == floor@[i as int]);
            }
            i += 1;
        }
        proof {
            assert(floor@.take(floor@.len() as int) == floor@);
        }
    }

    /// Builds the path-finding structure from the vertices and triangles
    /// inserted so far.
    pub fn bake(&mut self)
        requires
            old(self).wf(),
        ensures
            final(self).wf(),
            final(self).spec_vertices() == old(self).spec_vertices(),
            final(self).spec_triangles() == old(self).spec_triangles(),
            final(self).spec_baked() matches Some(m) && mesh_vertices(m) == old(self).spec_vertices()
                && mesh_triangles(m) == old(self).spec_triangles(),
    {
        match build_nav_mesh(&self.vertices, &self.triangles) {
            Ok(mesh) => {
                self.nav_mesh = Some(mesh);
            },
            Err(_) => {
                assert(false);
            },
        }
    }

    /// Forgets every vertex, triangle and the baked structure.
    pub fn clear(&mut self)
        ensures
            final(self).wf(),
            final(self).spec_vertices() == Seq::<Point>::empty(),
            final(self).spec_triangles() == Seq::<Triangle>::empty(),
            final(self).spec_baked() is None,
    {
        self.vertices.clear();
        self.triangles.clear();
        self.nav_mesh = None;
    }

    /// The shortest route from `start` to `goal` over the baked mesh; `None`
    /// when no route exists, when the two points coincide, or when either
    /// point or a waypoint of the route lies outside the world. Querying an
    /// unbaked mesh is a programming error, ruled out by `requires`.
    pub fn find_path(&self, start: Point, goal: Point) -> (r: Option<Vec<Point>>)
        requires
            self.spec_baked() is Some,
        ensures
            path_view(r) == self.route(start, goal),
            start == goal ==> r is None,
            r matches Some(p) ==> 1 <= p@.len() <= usize::MAX,
    {
        if !start.is_in_world() || !goal.is_in_world() {
            return None;
        }
        match &self.nav_mesh {
            Some(mesh) => {
                let path = query_path(mesh, start, goal);
                match path {
                    Some(p) => {
                        let mut i: usize = 0;
                        while i < p.len()
                            invariant
                                i <= p.len(),
                                forall|j: int| 0 <= j < i ==> in_world(#[trigger] p@[j]),
                                in_world(start),
                                in_world(goal),
                                route_on(self.spec_baked()->0, start, goal) == Some(p@),
                            decreases p.len() - i,
                        {
                            if !p[i].is_in_world() {
                                return None;
                            }
                            i += 1;
                        }
                        Some(p)
                    },
                    None => None,
                }
            },
            None => None,
        }
    }

    /// What `find_path` returns, as a sequence.
    pub open spec fn route(&self, start: Point, goal: Point) -> Option<Seq<Point>> {
        if !in_world(start) || !in_world(goal) {
            None
        } else {
            match route_on(self.spec_baked()->0, start, goal) {
                Some(p) => if forall|j: int| 0 <= j < p.len() ==> in_world(#[trigger] p[j]) {
                    Some(p)
                } else {
                    None
                },
                None => None,
            }
        }
    }
}

/// Inserting a point that is already present leaves the vertex list as it
/// is, so inserting the same point twice grows the list at most once;
/// inserting a point that is not present adds exactly that point, so two
/// distinct new points always grow it by two.
pub proof fn lemma_vertex_dedup(s: Seq<Point>, v: Point, w: Point)
    ensures
        add_vertex(add_vertex(s, v), v) == add_vertex(s, v),
        s.contains(v) ==> add_vertex(s, v) == s,
        !s.contains(v) ==> add_vertex(s, v).len() == s.len() + 1,
        v != w && !s.contains(v) && !s.contains(w) ==> add_vertex(add_vertex(s, v), w).len()
            == s.len() + 2,
{
    let t = add_vertex(s, v);
    if !s.contains(v) {
        assert(t[s.len() as int] == v);
    }
    assert(t.contains(v));
    if v != w && !s.contains(v) && !s.contains(w) {
        assert forall|i: int| 0 <= i < t.len() implies t[i] != w by {
            if i < s.len() {
                assert(s[i] == t[i]);
            }
        }
    }
}

/// Splitting a quadrilateral: when its four corners are distinct and new to
/// a duplicate-free vertex list, `insert_rect` appends the four corners once
/// each, in order, and the two triangles it adds are `(n, n+1, n+2)` and
/// `(n, n+3, n+2)` for the old length `n`: both hold the diagonal from the
/// first corner to the third.
pub proof fn lemma_rect_split(s: Seq<Point>, p1: Point, p2: Point, p3: Point, p4: Point)
    requires
        no_duplicates(s),
        !s.contains(p1),
        !s.contains(p2),
        !s.contains(p3),
        !s.contains(p4),
        p1 != p2 && p1 != p3 && p1 != p4 && p2 != p3 && p2 != p4 && p3 != p4,
    ensures
        ({
            let t = add_vertices(s, seq![p1, p2, p3, p4]);
            &&& t == s + seq![p1, p2, p3, p4]
            &&& no_duplicates(t)
            &&& index_of(t, p1) == s.len()
            &&& index_of(t, p2) == s.len() + 1
            &&& index_of(t, p3) == s.len() + 2
            &&& index_of(t, p4) == s.len() + 3
        }),
{
    lemma_add_vertices_4(s, p1, p2, p3, p4);
    let n = s.len() as int;
    let s1 = s.push(p1);
    let s2 = s1.push(p2);
    let s3 = s2.push(p3);
    let t = s3.push(p4);
    assert(!s1.contains(p2)) by {
        assert forall|i: int| 0 <= i < s1.len() implies s1[i] != p2 by {
            if i < n {
                assert(s1[i] == s[i]);
            }
        }
    }
    assert(!s2.contains(p3)) by {
        assert forall|i: int| 0 <= i < s2.len() implies s2[i] != p3 by {
            if i < n {
                assert(s2[i] == s[i]);
            }
        }
    }
    assert(!s3.contains(p4)) by {
        assert forall|i: int| 0 <= i < s3.len() implies s3[i] != p4 by {
            if i < n {
                assert(s3[i] == s[i]);
            }
        }
    }
    assert(add_vertices(s, seq![p1, p2, p3, p4]) == t);
    assert(t =~= s + seq![p1, p2, p3, p4]);
    assert forall|i: int, j: int| 0 <= i < j < t.len() implies t[i] != t[j] by {
        if j < n {
            assert(t[i] == s[i] && t[j] == s[j]);
        } else if i < n {
            assert(t[i] == s[i]);
        }
    }
    assert forall|j: int| 0 <= j < n implies t[j] != p1 && t[j] != p2 && t[j] != p3 && t[j]
        != p4 by {
        assert(t[j] == s[j]);
    }
    lemma_index_of(t, p1, n);
    lemma_index_of(t, p2, n + 1);
    lemma_index_of(t, p3, n + 2);
    lemma_index_of(t, p4, n + 3);
}

/// Inserting points into a duplicate-free vertex list keeps it free of
/// duplicates, keeps what was there, and leaves every inserted point in it.
pub proof fn lemma_add_vertices_contains(s: Seq<Point>, ps: Seq<Point>)
    requires
        no_duplicates(s),
    ensures
        no_duplicates(add_vertices(s, ps)),
        forall|k: int| 0 <= k < ps.len() ==> add_vertices(s, ps).contains(#[trigger] ps[k]),
        forall|v: Point| s.contains(v) ==> add_vertices(s, ps).contains(v),
    decreases ps.len(),
{
    if ps.len() > 0 {
        let s1 = add_vertex(s, ps[0]);
        if !s.contains(ps[0]) {
            assert(s1[s.len() as int] == ps[0]);
            assert forall|i: int, j: int| 0 <= i < j < s1.len() implies s1[i] != s1[j] by {
                if j == s.len() {
                    assert(s1[i] == s[i]);
                }
            }
            assert forall|v: Point| s.contains(v) implies s1.contains(v) by {
                let i = choose|i: int| 0 <= i < s.len() && s[i] == v;
                assert(s1[i] == v);
            }
        }
        assert(s1.contains(ps[0]));
        lemma_add_vertices_contains(s1, ps.drop_first());
        assert forall|k: int| 0 <= k < ps.len() implies add_vertices(s, ps).contains(#[trigger] ps[k]) by {
            if k > 0 {
                assert(ps[k] == ps.drop_first()[k - 1]);
            }
        }
    }
}

/// Inserting points that are all present already leaves the vertex list as
/// it is: registering the same rectangle or triangle again adds no vertex.
pub proof fn lemma_add_vertices_present(s: Seq<Point>, ps: Seq<Point>)
    requires
        forall|k: int| 0 <= k < ps.len() ==> s.contains(#[trigger] ps[k]),
    ensures
        add_vertices(s, ps) == s,
    decreases ps.len(),
{
    if ps.len() > 0 {
        assert(s.contains(ps[0]));
        assert forall|k: int| 0 <= k < ps.drop_first().len() implies s.contains(#[trigger] ps.drop_first()[k]) by {
            assert(ps.drop_first()[k] == ps[k + 1]);
        }
        lemma_add_vertices_present(s, ps.drop_first());
    }
}

/// Splitting a quadrilateral into any duplicate-free vertex list: when the
/// four corners are distinct, each of them stands in the list after
/// `insert_rect` exactly once, at four distinct indices, so the two
/// triangles `(i1, i2, i3)` and `(i1, i4, i3)` that it adds have exactly the
/// diagonal `i1 i3` in common.
pub proof fn lemma_rect_split_anywhere(s: Seq<Point>, p1: Point, p2: Point, p3: Point, p4: Point)
    requires
        no_duplicates(s),
        p1 != p2 && p1 != p3 && p1 != p4 && p2 != p3 && p2 != p4 && p3 != p4,
    ensures
        ({
            let t = add_vertices(s, seq![p1, p2, p3, p4]);
            let (i1, i2, i3, i4) = (index_of(t, p1), index_of(t, p2), index_of(t, p3), index_of(t, p4));
            &&& no_duplicates(t)
            &&& 0 <= i1 < t.len() && t[i1] == p1
            &&& 0 <= i2 < t.len() && t[i2] == p2
            &&& 0 <= i3 < t.len() && t[i3] == p3
            &&& 0 <= i4 < t.len() && t[i4] == p4
            &&& forall|j: int| 0 <= j < t.len() && t[j] == p1 ==> j == i1
            &&& forall|j: int| 0 <= j < t.len() && t[j] == p3 ==> j == i3
            &&& i1 != i2 && i1 != i3 && i1 != i4 && i2 != i3 && i2 != i4 && i3 != i4
        }),
{
    let ps = seq![p1, p2, p3, p4];
    lemma_add_vertices_contains(s, ps);
    let t = add_vertices(s, ps);
    assert(t.contains(ps[0]) && t.contains(ps[1]) && t.contains(ps[2]) && t.contains(ps[3]));
    lemma_index_present(t, p1);
    lemma_index_present(t, p2);
    lemma_index_present(t, p3);
    lemma_index_present(t, p4);
}

proof fn lemma_index_present(s: Seq<Point>, v: Point)
    requires
        s.contains(v),
        no_duplicates(s),
    ensures
        0 <= index_of(s, v) < s.len(),
        s[index_of(s, v)] == v,
        forall|j: int| 0 <= j < s.len() && s[j] == v ==> j == index_of(s, v),
{
    let i = choose|i: int| 0 <= i < s.len() && s[i] == v;
    assert forall|j: int| 0 <= j < i implies s[j] != v by {}
    lemma_index_of(s, v, i);
}

/// Path queries on a baked mesh are deterministic: two results of
/// `find_path` on the same mesh between the same points hold the same
/// waypoints.
pub proof fn lemma_find_path_deterministic(
    mesh: EnemyNavMesh,
    start: Point,
    goal: Point,
    first: Option<Vec<Point>>,
    second: Option<Vec<Point>>,
)
    requires
        mesh.spec_baked() is Some,
        path_view(first) == mesh.route(start, goal),
        path_view(second) == mesh.route(start, goal),
    ensures
        path_view(first) == path_view(second),
        first is Some <==> second is Some,
{
}

proof fn lemma_index_of(s: Seq<Point>, v: Point, i: int)
    requires
        0 <= i < s.len(),
        s[i] == v,
        forall|j: int| 0 <= j < i ==> s[j] != v,
    ensures
        index_of(s, v) == i,
{
    let k = index_of(s, v);
    assert(0 <= k < s.len() && s[k] == v && forall|j: int| 0 <= j < k ==> s[j] != v);
    if k < i {
        assert(s[k] != v);
    }
    if i < k {
        assert(s[i] != v);
    }
}

/// Inserting `v` keeps the first position of a point already present.
proof fn lemma_add_keeps_index(s: Seq<Point>, v: Point, w: Point)
    requires
        s.contains(w),
    ensures
        add_vertex(s, v).contains(w),
        index_of(add_vertex(s, v), w) == index_of(s, w),
{
    let i = choose|i: int| 0 <= i < s.len() && s[i] == w;
    lemma_first_occurrence(s, w, i);
    let k = choose|k: int| 0 <= k <= i && s[k] == w && forall|j: int| 0 <= j < k ==> s[j] != w;
    lemma_index_of(s, w, k);
    let t = add_vertex(s, v);
    assert(t[k] == w);
    assert(t.contains(w));
    lemma_index_of(t, w, k);
}

proof fn lemma_first_occurrence(s: Seq<Point>, w: Point, i: int)
    requires
        0 <= i < s.len(),
        s[i] == w,
    ensures
        exists|k: int| 0 <= k <= i && s[k] == w && forall|j: int| 0 <= j < k ==> s[j] != w,
    decreases i,
{
    if exists|j: int| 0 <= j < i && s[j] == w {
        let j = choose|j: int| 0 <= j < i && s[j] == w;
        lemma_first_occurrence(s, w, j);
    } else {
        assert(forall|j: int| 0 <= j < i ==> s[j] != w);
    }
}

proof fn lemma_add_vertices_3(s: Seq<Point>, p1: Point, p2: Point, p3: Point)
    ensures
        add_vertices(s, seq![p1, p2, p3]) == add_vertex(add_vertex(add_vertex(s, p1), p2), p3),
{
    let ps = seq![p1, p2, p3];
    assert(ps.drop_first() == seq![p2, p3]);
    assert(seq![p2, p3].drop_first() == seq![p3]);
    assert(seq![p3].drop_first() == Seq::<Point>::empty());
    reveal_with_fuel(add_vertices, 4);
}

proof fn lemma_add_vertices_4(s: Seq<Point>, p1: Point, p2: Point, p3: Point, p4: Point)
    ensures
        add_vertices(s, seq![p1, p2, p3, p4]) == add_vertex(
            add_vertex(add_vertex(add_vertex(s, p1), p2), p3),
            p4,
        ),
{
    let ps = seq![p1, p2, p3, p4];
    assert(ps.drop_first() == seq![p2, p3, p4]);
    assert(seq![p2, p3, p4].drop_first() == seq![p3, p4]);
    assert(seq![p3, p4].drop_first() == seq![p4]);
    assert(seq![p4].drop_first() == Seq::<Point>::empty());
    reveal_with_fuel(add_vertices, 5);
}

} // verus!
