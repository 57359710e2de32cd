use crayon_mesh::{
    Attribute, Error, IndexFormat, MeshData, MeshHint, MeshParams, MeshPrimitive,
    SubMeshOffsets, VertexFormat, VertexLayout,
};

fn params(num_verts: usize, num_idxes: usize, offsets: &[usize]) -> MeshParams<()> {
    let layout = VertexLayout::build()
        .with(Attribute::Position, VertexFormat::Float, 3, true)
        .with(Attribute::Texcoord0, VertexFormat::Float, 2, true)
        .finish();
    MeshParams {
        hint: MeshHint::Immutable,
        layout,
        index_format: IndexFormat::U16,
        primitive: MeshPrimitive::Triangles,
        num_verts,
        num_idxes,
        sub_mesh_offsets: SubMeshOffsets::from_slice(offsets),
        aabb: (),
    }
}

fn data(vlen: usize, ilen: usize) -> MeshData {
    MeshData {
        vptr: vec![0u8; vlen].into_boxed_slice(),
        iptr: vec![0u8; ilen].into_boxed_slice(),
    }
}

#[test]
fn assemble_counts() {
    assert_eq!(MeshPrimitive::Triangles.assemble(9), 3);
    assert_eq!(MeshPrimitive::Lines.assemble(10), 5);
    assert_eq!(MeshPrimitive::TriangleStrip.assemble(5), 3);
    assert_eq!(MeshPrimitive::LineStrip.assemble(4), 3);
    assert_eq!(MeshPrimitive::Points.assemble(7), 7);
}

#[test]
fn assemble_short_strips_saturate() {
    assert_eq!(MeshPrimitive::LineStrip.assemble(0), 0);
    assert_eq!(MeshPrimitive::TriangleStrip.assemble(1), 0);
    assert_eq!(MeshPrimitive::TriangleStrip.assemble_triangles(0), 0);
}

#[test]
fn assemble_triangle_counts() {
    assert_eq!(MeshPrimitive::Points.assemble_triangles(9), 0);
    assert_eq!(MeshPrimitive::Lines.assemble_triangles(9), 0);
    assert_eq!(MeshPrimitive::LineStrip.assemble_triangles(9), 0);
    assert_eq!(MeshPrimitive::Triangles.assemble_triangles(9), 3);
    assert_eq!(MeshPrimitive::TriangleStrip.assemble_triangles(5), 3);
}

#[test]
fn index_strides() {
    assert_eq!(IndexFormat::U16.stride(), 2);
    assert_eq!(IndexFormat::U32.stride(), 4);
}

#[test]
fn validate_vertex_bytes() {
    let p = params(10, 6, &[]);
    assert_eq!(p.vertex_buffer_len(), 200);
    assert_eq!(p.index_buffer_len(), 12);
    assert_eq!(p.validate(Some(&data(300, 12))), Err(Error::OutOfBounds));
    assert_eq!(p.validate(Some(&data(150, 12))), Ok(()));
    assert_eq!(p.validate(Some(&data(200, 12))), Ok(()));
    assert_eq!(p.validate(None), Ok(()));
}

#[test]
fn validate_index_bytes() {
    let p = params(10, 6, &[]);
    assert_eq!(p.validate(Some(&data(200, 13))), Err(Error::OutOfBounds));
    assert_eq!(p.validate(Some(&data(0, 0))), Ok(()));
}

#[test]
fn validate_sub_mesh_offsets() {
    assert_eq!(params(10, 6, &[0, 3, 5]).validate(None), Ok(()));
    assert_eq!(params(10, 6, &[0, 3, 6]).validate(None), Err(Error::OutOfBounds));
    assert_eq!(params(10, 6, &[7, 0]).validate(Some(&data(0, 0))), Err(Error::OutOfBounds));
    assert_eq!(params(10, 0, &[0]).validate(None), Err(Error::OutOfBounds));
}

#[test]
fn validate_many_sub_meshes() {
    let offsets: Vec<usize> = (0..20).collect();
    assert_eq!(params(10, 20, &offsets).validate(None), Ok(()));
    assert_eq!(params(10, 19, &offsets).validate(None), Err(Error::OutOfBounds));
}

#[test]
fn encode_u16_round_trip() {
    let values: Vec<u16> = vec![0, 1, 0x1234, 0xffff, 513];
    let bytes = IndexFormat::encode_u16(&values);
    let expected: Vec<u8> = values.iter().flat_map(|v| v.to_ne_bytes()).collect();
    assert_eq!(bytes, expected);
    assert_eq!(IndexFormat::decode_u16(&bytes), Some(values));
    assert_eq!(IndexFormat::decode_u16(&[1, 2, 3]), None);
    assert_eq!(IndexFormat::encode_u16(&[]), Vec::<u8>::new());
}

#[test]
fn encode_u32_round_trip() {
    let values: Vec<u32> = vec![0, 1, 0x12345678, 0xffff_ffff, 70000];
    let bytes = IndexFormat::encode_u32(&values);
    let expected: Vec<u8> = values.iter().flat_map(|v| v.to_ne_bytes()).collect();
    assert_eq!(bytes, expected);
    assert_eq!(IndexFormat::decode_u32(&bytes), Some(values));
    assert_eq!(IndexFormat::decode_u32(&[1, 2, 3, 4, 5]), None);
}
