use vstd::prelude::*;
use crate::layout::VertexLayout;
use crate::sub_mesh::{SubMeshOffsets, sub_mesh_items};

verus! {

/// The failures that mesh validation reports.
#[derive(Debug, Clone, Copy, PartialEq, Eq, Structural)]
pub enum Error {
    /// A buffer or a sub-mesh offset lies beyond what the parameters declare.
    OutOfBounds,
}

/// The setup parameters of a mesh object. `B` is the bounding volume, which
/// is only stored here.
#[derive(Debug)]
pub struct MeshParams<B> {
    /// Usage hints.
    pub hint: MeshHint,
    /// How a single vertex structure looks like.
    pub layout: VertexLayout,
    /// Index format
    pub index_format: IndexFormat,
    /// How the input vertex data is used to assemble primitives.
    pub primitive: MeshPrimitive,
    /// The number of vertices in this mesh.
    pub num_verts: usize,
    /// The number of indices in this mesh.
    pub num_idxes: usize,
    /// The start indices of sub-meshes.
    pub sub_mesh_offsets: SubMeshOffsets,
    /// Trivial bounding box of vertices.
    pub aabb: B,
}

/// Continuous data of vertices and its indices.
#[derive(Debug)]
pub struct MeshData {
    /// The bytes of vertices.
    pub vptr: Box<[u8]>,
    /// The bytes of indices.
    pub iptr: Box<[u8]>,
}

impl<B: Default> Default for MeshParams<B> {
    /// Parameters of an empty triangle mesh with 16-bit indices.
    fn default() -> (r: Self)
        ensures
            r.hint == MeshHint::Immutable,
            r.layout.wf(),
            r.layout.elements().len() == 0,
            r.layout.spec_stride() == 0,
            r.index_format == IndexFormat::U16,
            r.primitive == MeshPrimitive::Triangles,
            r.num_verts == 0,
            r.num_idxes == 0,
            sub_mesh_items(r.sub_mesh_offsets).len() == 0,
    {
        MeshParams {
            hint: MeshHint::Immutable,
            layout: VertexLayout::default(),
            index_format: IndexFormat::U16,
            primitive: MeshPrimitive::Triangles,
            num_verts: 0,
            num_idxes: 0,
            sub_mesh_offsets: SubMeshOffsets::new(),
            aabb: B::default(),
        }
    }
}

impl<B> MeshParams<B> {
    /// Bytes that the vertices of this mesh take.
    pub open spec fn spec_vertex_buffer_len(&self) -> int {
        self.num_verts * self.layout.spec_stride()
    }

    /// Bytes that the indices of this mesh take.
    pub open spec fn spec_index_buffer_len(&self) -> int {
        self.num_idxes * self.index_format.spec_stride()
    }

    /// The data exceeds the buffer sizes that the parameters declare.
    pub open spec fn data_out_of_bounds(&self, data: Option<&MeshData>) -> bool {
        match data {
            Some(d) => d.vptr@.len() > self.spec_vertex_buffer_len() || d.iptr@.len()
                > self.spec_index_buffer_len(),
            None => false,
        }
    }

    /// Some sub-mesh starts at or beyond the number of indices.
    pub open spec fn sub_mesh_out_of_bounds(&self) -> bool {
        exists|i: int|
            0 <= i < sub_mesh_items(self.sub_mesh_offsets).len() && #[trigger] sub_mesh_items(
                self.sub_mesh_offsets,
            )[i] >= self.num_idxes
    }

    /// Checks the optional data and the sub-mesh offsets against the declared
    /// sizes: the vertex bytes, then the index bytes, then every offset.
    pub fn validate(&self, data: Option<&MeshData>) -> (r: Result<(), Error>)
        ensures
            r is Err <==> (self.data_out_of_bounds(data) || self.sub_mesh_out_of_bounds()),
            r is Err ==> r == Err::<(), Error>(Error::OutOfBounds),
    {
        if let Some(v) = data {
            if exceeds(v.vptr.len(), self.num_verts, self.layout.stride() as usize) {
                return Err(Error::OutOfBounds);
            }
            if exceeds(v.iptr.len(), self.num_idxes, self.index_format.stride()) {
                return Err(Error::OutOfBounds);
            }
        }
        let offsets = self.sub_mesh_offsets.as_slice();
        let mut i: usize = 0;
        while i < offsets.len()
            invariant
                offsets@ == sub_mesh_items(self.sub_mesh_offsets),
                i <= offsets@.len(),
                forall|j: int| 0 <= j < i ==> offsets@[j] < self.num_idxes,
            decreases offsets.len() - i,
        {
            if offsets[i] >= self.num_idxes {
                return Err(Error::OutOfBounds);
            }
            i += 1;
        }
        Ok(())
    }

    /// Bytes that the vertices of this mesh take.
    pub fn vertex_buffer_len(&self) -> (r: usize)
        requires
            self.spec_vertex_buffer_len() <= usize::MAX,
        ensures
            r == self.spec_vertex_buffer_len(),
    {
        let stride = self.layout.stride() as usize;
        proof {
            vstd::arithmetic::mul::lemma_mul_nonnegative(self.num_verts as int, stride as int);
        }
        self.num_verts * stride
    }

    /// Bytes that the indices of this mesh take.
    pub fn index_buffer_len(&self) -> (r: usize)
        requires
            self.spec_index_buffer_len() <= usize::MAX,
        ensures
            r == self.spec_index_buffer_len(),
    {
        self.num_idxes * self.index_format.stride()
    }
}

/// Whether `len` exceeds `count * stride`, computed without overflow.
fn exceeds(len: usize, count: usize, stride: usize) -> (r: bool)
    ensures
        r == (len > count * stride),
{
    match count.checked_mul(stride) {
        Some(total) => len > total,
        None => {
            proof {
                vstd::arithmetic::mul::lemma_mul_nonnegative(count as int, stride as int);
            }
            false
        },
    }
}

/// Mesh index.
#[derive(Debug, PartialEq, Eq, Structural, Clone, Copy)]
pub enum MeshIndex {
    SubMesh(usize),
    Ptr(usize, usize),
    All,
}

/// Hint about the intended update strategy of the data.
#[derive(Debug, PartialEq, Eq, Structural, Clone, Copy)]
pub enum MeshHint {
    /// The resource is initialized with data and cannot be changed later, this
    /// is the most common and most efficient usage.
    Immutable,
    /// The resource is initialized without data, but will be updated by the
    /// CPU in each frame.
    Stream,
    /// The resource is initialized without data and will be written by the CPU
    /// before use, updates will be infrequent.
    Dynamic,
}

/// Defines how the input vertex data is used to assemble primitives.
#[derive(Debug, PartialEq, Eq, Structural, Clone, Copy)]
pub enum MeshPrimitive {
    /// Separate points.
    Points,
    /// Separate lines.
    Lines,
    /// Line strips.
    LineStrip,
    /// Separate triangles.
    Triangles,
    /// Triangle strips.
    TriangleStrip,
}

/// `a - b`, or 0 where `b` exceeds `a`.
pub open spec fn saturating_diff(a: int, b: int) -> int {
    if a >= b {
        a - b
    } else {
        0
    }
}

/// Number of primitives that `indices` indices assemble into. A strip of
/// fewer indices than its first primitive needs holds no primitive.
pub open spec fn primitive_count(p: MeshPrimitive, indices: int) -> int {
    match p {
        MeshPrimitive::Points => indices,
        MeshPrimitive::Lines => indices / 2,
        MeshPrimitive::LineStrip => saturating_diff(indices, 1),
        MeshPrimitive::Triangles => indices / 3,
        MeshPrimitive::TriangleStrip => saturating_diff(indices, 2),
    }
}

/// Number of triangles that `indices` indices assemble into; 0 for points and
/// lines.
pub open spec fn triangle_count(p: MeshPrimitive, indices: int) -> int {
    match p {
        MeshPrimitive::Points | MeshPrimitive::Lines | MeshPrimitive::LineStrip => 0,
        MeshPrimitive::Triangles => indices / 3,
        MeshPrimitive::TriangleStrip => saturating_diff(indices, 2),
    }
}

impl MeshPrimitive {
    /// The number of primitives assembled from `indices` indices.
    pub fn assemble(self, indices: u32) -> (r: u32)
        ensures
            r == primitive_count(self, indices as int),
    {
        match self {
            MeshPrimitive::Points => indices,
            MeshPrimitive::Lines => indices / 2,
            MeshPrimitive::LineStrip => indices.saturating_sub(1),
            MeshPrimitive::Triangles => indices / 3,
            MeshPrimitive::TriangleStrip => indices.saturating_sub(2),
        }
    }

    /// The number of triangles assembled from `indices` indices.
    pub fn assemble_triangles(self, indices: u32) -> (r: u32)
        ensures
            r == triangle_count(self, indices as int),
    {
        match self {
            MeshPrimitive::Points | MeshPrimitive::Lines | MeshPrimitive::LineStrip => 0,
            MeshPrimitive::Triangles => indices / 3,
            MeshPrimitive::TriangleStrip => indices.saturating_sub(2),
        }
    }
}

/// Vertex indices can be either 16- or 32-bit.
#[derive(Debug, PartialEq, Eq, Structural, Clone, Copy)]
pub enum IndexFormat {
    U16,
    U32,
}

impl IndexFormat {
    /// Bytes taken by one index.
    pub open spec fn spec_stride(self) -> nat {
        match self {
            IndexFormat::U16 => 2,
            IndexFormat::U32 => 4,
        }
    }

    /// Bytes taken by one index.
    pub fn stride(self) -> (r: usize)
        ensures
            r == self.spec_stride(),
    {
        match self {
            IndexFormat::U16 => 2,
            IndexFormat::U32 => 4,
        }
    }
}

} // verus!
