//! The mesh store: attribute arrays and the per-corner index arrays of faces.
use vstd::prelude::*;

verus! {

/// Why a set of mesh arrays cannot form a mesh.
#[derive(Debug, Clone, Copy, PartialEq, Eq, Structural)]
pub enum MeshError {
    /// The three face index arrays differ in length.
    CornerCountMismatch,
    /// The position index of this corner is 0 or past the position array.
    VertexIndex(usize),
    /// The texture-coordinate index of this corner is past the array.
    UvIndex(usize),
    /// The normal index of this corner is past the array.
    NormalIndex(usize),
}

/// The contents of a mesh. Corner `c` of face `f` is entry `3 * f + c` of each
/// index array; an index is 1-based into its attribute array, and 0 in the uv
/// and normal arrays means the corner has no such attribute.
pub struct MeshView<P, T, N> {
    pub vertices: Seq<P>,
    pub uvs: Seq<T>,
    pub normals: Seq<N>,
    pub face_vert: Seq<i32>,
    pub face_uv: Seq<i32>,
    pub face_normal: Seq<i32>,
}

/// The first fault of a corner at position `i` with the given indices, in
/// arrays of `nv` positions, `nt` texture coordinates and `nn` normals.
pub open spec fn corner_fault(fv: i32, ft: i32, fnn: i32, nv: int, nt: int, nn: int, i: usize) -> Option<MeshError> {
    if !(1 <= fv <= nv) {
        Some(MeshError::VertexIndex(i))
    } else if !(0 <= ft <= nt) {
        Some(MeshError::UvIndex(i))
    } else if !(0 <= fnn <= nn) {
        Some(MeshError::NormalIndex(i))
    } else {
        None
    }
}

/// The first fault of corner `i`, if it has one.
pub open spec fn corner_error<P, T, N>(v: MeshView<P, T, N>, i: int) -> Option<MeshError> {
    corner_fault(
        v.face_vert[i],
        v.face_uv[i],
        v.face_normal[i],
        v.vertices.len() as int,
        v.uvs.len() as int,
        v.normals.len() as int,
        i as usize,
    )
}

fn check_corner(fv: i32, ft: i32, fnn: i32, nv: usize, nt: usize, nn: usize, i: usize) -> (r: Option<MeshError>)
    ensures
        r == corner_fault(fv, ft, fnn, nv as int, nt as int, nn as int, i),
{
    if fv < 1 || fv as usize > nv {
        Some(MeshError::VertexIndex(i))
    } else if ft < 0 || ft as usize > nt {
        Some(MeshError::UvIndex(i))
    } else if fnn < 0 || fnn as usize > nn {
        Some(MeshError::NormalIndex(i))
    } else {
        None
    }
}

/// The mesh that these arrays make up.
pub open spec fn mesh_of<P, T, N>(
    vertices: Seq<P>,
    uvs: Seq<T>,
    normals: Seq<N>,
    face_vert: Seq<i32>,
    face_uv: Seq<i32>,
    face_normal: Seq<i32>,
) -> MeshView<P, T, N> {
    MeshView { vertices, uvs, normals, face_vert, face_uv, face_normal }
}

/// `e` is the fault of the first faulty corner of `v`.
pub open spec fn first_fault<P, T, N>(v: MeshView<P, T, N>, e: MeshError) -> bool {
    exists|i: int|
        0 <= i < v.face_vert.len() && corner_error(v, i) == Some(e) && forall|j: int|
            0 <= j < i ==> #[trigger] corner_error(v, j) is None
}

impl<P, T, N> MeshView<P, T, N> {
    pub open spec fn same_corner_count(self) -> bool {
        self.face_uv.len() == self.face_vert.len() && self.face_normal.len() == self.face_vert.len()
    }

    /// Every index resolves inside its array.
    pub open spec fn wf(self) -> bool {
        &&& self.same_corner_count()
        &&& forall|i: int| 0 <= i < self.face_vert.len() ==> #[trigger] corner_error(self, i) is None
    }

    pub open spec fn face_count(self) -> nat {
        self.face_vert.len() / 3
    }
}

/// A triangle mesh, generic over the types of its positions (`P`), texture
/// coordinates (`T`) and normals (`N`).
#[derive(Debug)]
pub struct Model<P, T, N> {
    vertex_buffer: Vec<P>,
    normal_buffer: Vec<N>,
    uv_buffer: Vec<T>,
    face_vert: Vec<i32>,
    face_uv: Vec<i32>,
    face_normal: Vec<i32>,
}

impl<P, T, N> View for Model<P, T, N> {
    type V = MeshView<P, T, N>;

    closed spec fn view(&self) -> MeshView<P, T, N> {
        MeshView {
            vertices: self.vertex_buffer@,
            uvs: self.uv_buffer@,
            normals: self.normal_buffer@,
            face_vert: self.face_vert@,
            face_uv: self.face_uv@,
            face_normal: self.face_normal@,
        }
    }
}

/// Resolves an index as a mesh file writes it: a negative index counts back
/// from the end of an array of `count` entries, so -1 is its last entry.
pub fn resolve_index(num: i32, count: usize) -> (r: i32)
    requires
        count < i32::MAX,
    ensures
        r == if num < 0 { num + count + 1 } else { num as int },
{
    if num < 0 {
        num + (count as i32) + 1
    } else {
        num
    }
}

proof fn lemma_corner_in_range(iface: int, nthvert: int, len: int)
    requires
        0 <= iface < len / 3,
        0 <= nthvert < 3,
    ensures
        iface * 3 + nthvert < len,
{
    assert(iface * 3 + nthvert < len) by (nonlinear_arith)
        requires
            0 <= iface < len / 3,
            0 <= nthvert < 3,
    ;
}

impl<P, T, N> Model<P, T, N> {
    /// A mesh with no faces.
    pub fn new() -> (m: Model<P, T, N>)
        ensures
            m@.wf(),
            m@.vertices.len() == 0,
            m@.uvs.len() == 0,
            m@.normals.len() == 0,
            m@.face_vert.len() == 0,
    {
        Model {
            vertex_buffer: Vec::new(),
            normal_buffer: Vec::new(),
            uv_buffer: Vec::new(),
            face_vert: Vec::new(),
            face_uv: Vec::new(),
            face_normal: Vec::new(),
        }
    }

    /// Builds a mesh from its arrays, checking that every index resolves.
    pub fn from_parts(
        vertices: Vec<P>,
        uvs: Vec<T>,
        normals: Vec<N>,
        face_vert: Vec<i32>,
        face_uv: Vec<i32>,
        face_normal: Vec<i32>,
    ) -> (r: Result<Model<P, T, N>, MeshError>)
        ensures
            r is Ok <==> mesh_of(vertices@, uvs@, normals@, face_vert@, face_uv@, face_normal@).wf(),
            r is Ok ==> r->Ok_0@ == mesh_of(vertices@, uvs@, normals@, face_vert@, face_uv@, face_normal@),
            (r == Err::<Model<P, T, N>, MeshError>(MeshError::CornerCountMismatch)) <==> !mesh_of(
                vertices@,
                uvs@,
                normals@,
                face_vert@,
                face_uv@,
                face_normal@,
            ).same_corner_count(),
            forall|e: MeshError|
                r == Err::<Model<P, T, N>, MeshError>(e) && e != MeshError::CornerCountMismatch
                    ==> #[trigger] first_fault(
                    mesh_of(vertices@, uvs@, normals@, face_vert@, face_uv@, face_normal@),
                    e,
                ),
    {
        let ghost v = mesh_of(vertices@, uvs@, normals@, face_vert@, face_uv@, face_normal@);
        if face_uv.len() != face_vert.len() || face_normal.len() != face_vert.len() {
            return Err(MeshError::CornerCountMismatch);
        }
        let nv = vertices.len();
        let nt = uvs.len();
        let nn = normals.len();
        let mut i: usize = 0;
        while i < face_vert.len()
            invariant
                i <= face_vert.len(),
                v == mesh_of(vertices@, uvs@, normals@, face_vert@, face_uv@, face_normal@),
                v.same_corner_count(),
                nv == v.vertices.len(),
                nt == v.uvs.len(),
                nn == v.normals.len(),
                v.face_vert == face_vert@,
                v.face_uv == face_uv@,
                v.face_normal == face_normal@,
                forall|j: int| 0 <= j < i ==> #[trigger] corner_error(v, j) is None,
            decreases face_vert.len() - i,
        {
            match check_corner(face_vert[i], face_uv[i], face_normal[i], nv, nt, nn, i) {
                Some(e) => {
                    assert(corner_error(v, i as int) == Some(e));
                    assert(first_fault(v, e));
                    return Err(e);
                },
                None => {},
            }
            i = i + 1;
        }
        Ok(
            Model {
                vertex_buffer: vertices,
                normal_buffer: normals,
                uv_buffer: uvs,
                face_vert,
                face_uv,
                face_normal,
            },
        )
    }

    /// The number of complete faces.
    pub fn nfaces(&self) -> (n: usize)
        ensures
            n == self@.face_count(),
    {
        self.face_vert.len() / 3
    }

    /// The texture coordinate of corner `nthvert` of face `iface`, if it has one.
    pub fn uv(&self, iface: usize, nthvert: usize) -> (r: Option<&T>)
        requires
            self@.wf(),
            iface < self@.face_count(),
            nthvert < 3,
        ensures
            ({
                let k = self@.face_uv[3 * iface + nthvert];
                match r {
                    None => k == 0,
                    Some(t) => k != 0 && *t == self@.uvs[k - 1],
                }
            }),
    {
        let n = self.face_vert.len();
        proof {
            lemma_corner_in_range(iface as int, nthvert as int, n as int);
        }
        let idx = iface * 3 + nthvert;
        assert(corner_error(self@, idx as int) is None);
        let k = self.face_uv[idx];
        if k == 0 {
            None
        } else {
            Some(&self.uv_buffer[(k - 1) as usize])
        }
    }

    /// The normal of corner `nthvert` of face `iface`, if it has one.
    pub fn normal(&self, iface: usize, nthvert: usize) -> (r: Option<&N>)
        requires
            self@.wf(),
            iface < self@.face_count(),
            nthvert < 3,
        ensures
            ({
                let k = self@.face_normal[3 * iface + nthvert];
                match r {
                    None => k == 0,
                    Some(n) => k != 0 && *n == self@.normals[k - 1],
                }
            }),
    {
        let n = self.face_vert.len();
        proof {
            lemma_corner_in_range(iface as int, nthvert as int, n as int);
        }
        let idx = iface * 3 + nthvert;
        assert(corner_error(self@, idx as int) is None);
        let k = self.face_normal[idx];
        if k == 0 {
            None
        } else {
            Some(&self.normal_buffer[(k - 1) as usize])
        }
    }

    /// The position of corner `nthvert` of face `iface`.
    pub fn vert(&self, iface: usize, nthvert: usize) -> (r: &P)
        requires
            self@.wf(),
            iface < self@.face_count(),
            nthvert < 3,
        ensures
            *r == self@.vertices[self@.face_vert[3 * iface + nthvert] - 1],
    {
        let n = self.face_vert.len();
        proof {
            lemma_corner_in_range(iface as int, nthvert as int, n as int);
        }
        let idx = iface * 3 + nthvert;
        assert(corner_error(self@, idx as int) is None);
        let k = self.face_vert[idx];
        &self.vertex_buffer[(k - 1) as usize]
    }
}

} // verus!
