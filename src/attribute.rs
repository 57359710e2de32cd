use vstd::prelude::*;

verus! {

/// The largest number of attributes that a single vertex layout can hold.
pub const MAX_VERTEX_ATTRIBUTES: usize = 12;

/// Semantic names of vertex attributes.
#[derive(Debug, Clone, Copy, PartialEq, Eq, Structural, Hash)]
pub enum Attribute {
    Position,
    Normal,
    Tangent,
    Bitangent,
    Color0,
    Color1,
    Indices,
    Weight,
    Texcoord0,
    Texcoord1,
    Texcoord2,
    Texcoord3,
}

} // verus!
