//! Vertex layouts and mesh parameters: how the bytes of a vertex buffer are
//! structured, and the checks a mesh payload must pass before it is used.

pub mod attribute;
pub mod layout;
pub mod mesh;
pub mod sub_mesh;
pub mod encode;
pub mod record;

pub use attribute::{Attribute, MAX_VERTEX_ATTRIBUTES};
pub use layout::{
    VertexFormat, VertexAttribute, VertexLayout, VertexLayoutBuilder, CustomVertexLayoutBuilder,
    size_of_vertex,
};
pub use mesh::{Error, MeshParams, MeshData, MeshIndex, MeshHint, MeshPrimitive, IndexFormat};
pub use sub_mesh::SubMeshOffsets;
pub use record::{VertexField, record_layout};
