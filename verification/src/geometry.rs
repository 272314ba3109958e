//! Vertices, triangles and meshes.
use vstd::prelude::*;
use crate::scalar::{Scalar, ONE_BITS};

verus! {

/// A position in space.
#[derive(Clone, Copy, Debug, PartialEq, Eq, Structural)]
pub struct Point3 {
    pub x: Scalar,
    pub y: Scalar,
    pub z: Scalar,
}

/// A direction in space.
#[derive(Clone, Copy, Debug, PartialEq, Eq, Structural)]
pub struct Vector3 {
    pub x: Scalar,
    pub y: Scalar,
    pub z: Scalar,
}

impl Point3 {
    /// All three coordinates are finite numbers.
    pub open spec fn finite(self) -> bool {
        self.x.finite() && self.y.finite() && self.z.finite()
    }

    pub fn new(x: Scalar, y: Scalar, z: Scalar) -> (r: Point3)
        ensures
            r == (Point3 { x, y, z }),
    {
        Point3 { x, y, z }
    }

    pub fn is_finite(self) -> (r: bool)
        ensures
            r == self.finite(),
    {
        self.x.is_finite() && self.y.is_finite() && self.z.is_finite()
    }
}

impl Vector3 {
    /// All three coordinates are finite numbers.
    pub open spec fn finite(self) -> bool {
        self.x.finite() && self.y.finite() && self.z.finite()
    }

    pub open spec fn zero() -> Vector3 {
        Vector3 { x: Scalar::zero(), y: Scalar::zero(), z: Scalar::zero() }
    }

    pub fn new(x: Scalar, y: Scalar, z: Scalar) -> (r: Vector3)
        ensures
            r == (Vector3 { x, y, z }),
    {
        Vector3 { x, y, z }
    }

    pub fn is_finite(self) -> (r: bool)
        ensures
            r == self.finite(),
    {
        self.x.is_finite() && self.y.is_finite() && self.z.is_finite()
    }

    /// The vector itself where it is finite, and the zero vector else: what
    /// stands for the normal of a triangle without area, whose normal has
    /// no length to be scaled to one.
    pub fn or_zero(self) -> (r: Vector3)
        ensures
            r == if self.finite() {
                self
            } else {
                Vector3::zero()
            },
            r.finite(),
    {
        if self.is_finite() {
            self
        } else {
            let zero = Scalar { bits: 0 };
            Vector3 { x: zero, y: zero, z: zero }
        }
    }
}

/// A corner of a triangle: where it is and which way the surface faces there.
#[derive(Clone, Copy, Debug, PartialEq, Eq, Structural)]
pub struct Vertex {
    pub position: Point3,
    pub normal: Vector3,
}

impl Vertex {
    pub open spec fn at(x: Scalar, y: Scalar, z: Scalar, nx: Scalar, ny: Scalar, nz: Scalar)
        -> Vertex {
        Vertex { position: Point3 { x, y, z }, normal: Vector3 { x: nx, y: ny, z: nz } }
    }

    pub fn new(x: Scalar, y: Scalar, z: Scalar, nx: Scalar, ny: Scalar, nz: Scalar) -> (r: Vertex)
        ensures
            r == Vertex::at(x, y, z, nx, ny, nz),
    {
        Vertex { position: Point3 { x, y, z }, normal: Vector3 { x: nx, y: ny, z: nz } }
    }
}

/// Three corners in winding order.
#[derive(Clone, Copy, Debug, PartialEq, Eq)]
pub struct Triangle {
    pub vertices: [Vertex; 3],
}

impl Triangle {
    /// The triangle with these corners, in this order.
    pub open spec fn of(v0: Vertex, v1: Vertex, v2: Vertex) -> Triangle {
        Triangle { vertices: [v0, v1, v2] }
    }

    /// The flat facet with these corners, in this order: every corner
    /// carries the one normal of the facet.
    pub open spec fn facet(normal: Vector3, a: Point3, b: Point3, c: Point3) -> Triangle {
        Triangle::of(
            Vertex { position: a, normal },
            Vertex { position: b, normal },
            Vertex { position: c, normal },
        )
    }

    /// The three corners carry one normal.
    pub open spec fn flat(self) -> bool {
        self.vertices[1].normal == self.vertices[0].normal && self.vertices[2].normal
            == self.vertices[0].normal
    }

    /// Both triangles have the same three corners in the same order, and
    /// the same normal at the first of them.
    pub open spec fn same_numbers(self, other: Triangle) -> bool {
        &&& self.vertices[0].normal == other.vertices[0].normal
        &&& self.vertices[0].position == other.vertices[0].position
        &&& self.vertices[1].position == other.vertices[1].position
        &&& self.vertices[2].position == other.vertices[2].position
    }

    /// Every corner lies at a finite position.
    pub open spec fn finite(self) -> bool {
        &&& self.vertices[0].position.finite()
        &&& self.vertices[1].position.finite()
        &&& self.vertices[2].position.finite()
    }

    pub fn new(v0: Vertex, v1: Vertex, v2: Vertex) -> (r: Triangle)
        ensures
            r == Triangle::of(v0, v1, v2),
            r.vertices[0] == v0,
            r.vertices[1] == v1,
            r.vertices[2] == v2,
    {
        Triangle { vertices: [v0, v1, v2] }
    }

    pub fn is_finite(&self) -> (r: bool)
        ensures
            r == self.finite(),
    {
        self.vertices[0].position.is_finite() && self.vertices[1].position.is_finite()
            && self.vertices[2].position.is_finite()
    }
}

/// Triangles in the order in which they were added.
#[derive(Debug, PartialEq, Eq)]
pub struct Mesh {
    pub triangles: Vec<Triangle>,
}

impl View for Mesh {
    type V = Seq<Triangle>;

    open spec fn view(&self) -> Seq<Triangle> {
        self.triangles@
    }
}

impl Mesh {
    /// Every corner of every triangle lies at a finite position.
    pub open spec fn finite(&self) -> bool {
        forall|i: int| 0 <= i < self@.len() ==> (#[trigger] self@[i]).finite()
    }

    pub fn new() -> (r: Mesh)
        ensures
            r@ == Seq::<Triangle>::empty(),
    {
        Mesh { triangles: Vec::new() }
    }

    /// An empty mesh with room for `capacity` triangles.
    pub fn with_capacity(capacity: usize) -> (r: Mesh)
        ensures
            r@ == Seq::<Triangle>::empty(),
    {
        Mesh { triangles: Vec::with_capacity(capacity) }
    }

    pub fn add_triangle(&mut self, triangle: Triangle)
        ensures
            final(self)@ == old(self)@.push(triangle),
    {
        self.triangles.push(triangle);
    }

    pub fn len(&self) -> (r: usize)
        ensures
            r == self@.len(),
    {
        self.triangles.len()
    }

    /// The number of the first triangle with a corner that is not finite.
    pub fn first_non_finite_index(&self) -> (r: Option<usize>)
        ensures
            match r {
                Some(i) => first_non_finite(self@, 0) == Some(i as int),
                None => first_non_finite(self@, 0).is_none(),
            },
    {
        let mut i: usize = 0;
        while i < self.triangles.len()
            invariant
                i <= self@.len(),
                first_non_finite(self@, 0) == first_non_finite(self@, i as int),
            decreases self@.len() - i,
        {
            if !self.triangles[i].is_finite() {
                return Some(i);
            }
            i += 1;
        }
        None
    }

    /// The two triangles that cover the quad `c0 c1 c2 c3`, split along the
    /// diagonal from `c0` to `c2`; every corner carries `normal`.
    pub open spec fn quad(normal: Vector3, c0: Point3, c1: Point3, c2: Point3, c3: Point3) -> Seq<
        Triangle,
    > {
        seq![
            Triangle::of(
                Vertex { position: c0, normal },
                Vertex { position: c1, normal },
                Vertex { position: c2, normal },
            ),
            Triangle::of(
                Vertex { position: c0, normal },
                Vertex { position: c2, normal },
                Vertex { position: c3, normal },
            ),
        ]
    }

    /// The corner of the cube of half edge `h` about the origin that lies on
    /// the positive side of the x, y and z axis where `right`, `up` and
    /// `front` say so.
    pub open spec fn corner(h: Scalar, right: bool, up: bool, front: bool) -> Point3 {
        Point3 {
            x: if right { h } else { h.negated() },
            y: if up { h } else { h.negated() },
            z: if front { h } else { h.negated() },
        }
    }

    /// The unit vector along an axis: its one coordinate that is not zero is
    /// `1.0`, or `-1.0` where `positive` is false.
    pub open spec fn axis(axis: int, positive: bool) -> Vector3 {
        let unit = if positive { Scalar::one() } else { Scalar::one().negated() };
        Vector3 {
            x: if axis == 0 { unit } else { Scalar::zero() },
            y: if axis == 1 { unit } else { Scalar::zero() },
            z: if axis == 2 { unit } else { Scalar::zero() },
        }
    }

    /// The surface of the cube of half edge `h` about the origin: front,
    /// back, top, bottom, right and left face, two triangles each, every
    /// face wound counter-clockwise as seen from outside.
    pub open spec fn cube_surface(h: Scalar) -> Seq<Triangle> {
        let c = |right: bool, up: bool, front: bool| Mesh::corner(h, right, up, front);
        Mesh::quad(
            Mesh::axis(2, true),
            c(false, false, true),
            c(true, false, true),
            c(true, true, true),
            c(false, true, true),
        ) + Mesh::quad(
            Mesh::axis(2, false),
            c(false, false, false),
            c(false, true, false),
            c(true, true, false),
            c(true, false, false),
        ) + Mesh::quad(
            Mesh::axis(1, true),
            c(false, true, false),
            c(false, true, true),
            c(true, true, true),
            c(true, true, false),
        ) + Mesh::quad(
            Mesh::axis(1, false),
            c(false, false, false),
            c(true, false, false),
            c(true, false, true),
            c(false, false, true),
        ) + Mesh::quad(
            Mesh::axis(0, true),
            c(true, false, false),
            c(true, true, false),
            c(true, true, true),
            c(true, false, true),
        ) + Mesh::quad(
            Mesh::axis(0, false),
            c(false, false, false),
            c(false, false, true),
            c(false, true, true),
            c(false, true, false),
        )
    }

    fn add_quad(&mut self, normal: Vector3, c0: Point3, c1: Point3, c2: Point3, c3: Point3)
        ensures
            final(self)@ == old(self)@ + Mesh::quad(normal, c0, c1, c2, c3),
    {
        let v0 = Vertex { position: c0, normal };
        let v2 = Vertex { position: c2, normal };
        self.add_triangle(Triangle::new(v0, Vertex { position: c1, normal }, v2));
        self.add_triangle(Triangle::new(v0, v2, Vertex { position: c3, normal }));
        assert(self@ =~= old(self)@ + Mesh::quad(normal, c0, c1, c2, c3));
    }

    /// An axis-aligned cube of edge `size` about the origin.
    pub fn cube(size: Scalar) -> (r: Mesh)
        ensures
            r@ == Mesh::cube_surface(size.halved()),
            r@.len() == 12,
    {
        let h = size.half();
        let l = h.neg();
        let zero = Scalar { bits: 0 };
        let plus = Scalar { bits: ONE_BITS };
        let minus = plus.neg();
        let mut mesh = Mesh::new();
        mesh.add_quad(
            Vector3::new(zero, zero, plus),
            Point3::new(l, l, h),
            Point3::new(h, l, h),
            Point3::new(h, h, h),
            Point3::new(l, h, h),
        );
        mesh.add_quad(
            Vector3::new(zero, zero, minus),
            Point3::new(l, l, l),
            Point3::new(l, h, l),
            Point3::new(h, h, l),
            Point3::new(h, l, l),
        );
        mesh.add_quad(
            Vector3::new(zero, plus, zero),
            Point3::new(l, h, l),
            Point3::new(l, h, h),
            Point3::new(h, h, h),
            Point3::new(h, h, l),
        );
        mesh.add_quad(
            Vector3::new(zero, minus, zero),
            Point3::new(l, l, l),
            Point3::new(h, l, l),
            Point3::new(h, l, h),
            Point3::new(l, l, h),
        );
        mesh.add_quad(
            Vector3::new(plus, zero, zero),
            Point3::new(h, l, l),
            Point3::new(h, h, l),
            Point3::new(h, h, h),
            Point3::new(h, l, h),
        );
        mesh.add_quad(
            Vector3::new(minus, zero, zero),
            Point3::new(l, l, l),
            Point3::new(l, l, h),
            Point3::new(l, h, h),
            Point3::new(l, h, l),
        );
        assert(mesh@ =~= Mesh::cube_surface(h));
        mesh
    }
}

/// The first triangle from `from` on with a corner that is not finite.
pub open spec fn first_non_finite(triangles: Seq<Triangle>, from: int) -> Option<int>
    decreases triangles.len() - from,
{
    if from < 0 || from >= triangles.len() {
        None
    } else if !triangles[from].finite() {
        Some(from)
    } else {
        first_non_finite(triangles, from + 1)
    }
}

/// `first_non_finite` finds nothing exactly where every triangle from
/// `from` on is finite, and what it finds is the first that is not.
pub proof fn lemma_first_non_finite(triangles: Seq<Triangle>, from: int)
    requires
        0 <= from <= triangles.len(),
    ensures
        match first_non_finite(triangles, from) {
            None => forall|i: int| from <= i < triangles.len() ==> (#[trigger] triangles[i]).finite(),
            Some(k) => {
                &&& from <= k < triangles.len()
                &&& !triangles[k].finite()
                &&& forall|i: int| from <= i < k ==> (#[trigger] triangles[i]).finite()
            },
        },
    decreases triangles.len() - from,
{
    if from < triangles.len() && triangles[from].finite() {
        lemma_first_non_finite(triangles, from + 1);
    }
}

/// A decoder's result with the mesh replaced by the triangles that it holds.
pub open spec fn outcome<E>(r: Result<Mesh, E>) -> Result<Seq<Triangle>, E> {
    match r {
        Ok(mesh) => Ok(mesh@),
        Err(e) => Err(e),
    }
}

impl Clone for Mesh {
    fn clone(&self) -> (r: Mesh)
        ensures
            r@ == self@,
    {
        let mut triangles: Vec<Triangle> = Vec::with_capacity(self.triangles.len());
        let mut i: usize = 0;
        while i < self.triangles.len()
            invariant
                i <= self@.len(),
                triangles@ == self@.take(i as int),
            decreases self@.len() - i,
        {
            triangles.push(self.triangles[i]);
            i += 1;
            assert(triangles@ =~= self@.take(i as int));
        }
        assert(self@.take(i as int) =~= self@);
        Mesh { triangles }
    }
}

impl Default for Mesh {
    fn default() -> (r: Mesh)
        ensures
            r@ == Seq::<Triangle>::empty(),
    {
        Mesh::new()
    }
}

} // verus!
