use crayon_mesh::{
    record_layout, size_of_vertex, Attribute, CustomVertexLayoutBuilder, VertexField,
    VertexFormat, VertexLayout,
};

#[test]
fn basic() {
    let layout = VertexLayout::build()
        .with(Attribute::Position, VertexFormat::Float, 3, true)
        .with(Attribute::Texcoord0, VertexFormat::Float, 2, true)
        .finish();

    assert_eq!(layout.stride(), 20);
    assert_eq!(layout.offset(Attribute::Position), Some(0));
    assert_eq!(layout.offset(Attribute::Texcoord0), Some(12));
    assert_eq!(layout.offset(Attribute::Normal), None);

    let element = layout.element(Attribute::Position).unwrap();
    assert_eq!(element.format, VertexFormat::Float);
    assert_eq!(element.size, 3);
    assert_eq!(element.normalized, true);
    assert_eq!(layout.element(Attribute::Normal), None);
}

#[test]
fn rewrite() {
    let layout = VertexLayout::build()
        .with(Attribute::Position, VertexFormat::Byte, 1, false)
        .with(Attribute::Texcoord0, VertexFormat::Float, 2, true)
        .with(Attribute::Position, VertexFormat::Float, 3, true)
        .finish();

    assert_eq!(layout.stride(), 20);
    assert_eq!(layout.offset(Attribute::Position), Some(0));
    assert_eq!(layout.offset(Attribute::Texcoord0), Some(12));
    assert_eq!(layout.offset(Attribute::Normal), None);

    let element = layout.element(Attribute::Position).unwrap();
    assert_eq!(element.format, VertexFormat::Float);
    assert_eq!(element.size, 3);
    assert_eq!(element.normalized, true);
    assert_eq!(layout.element(Attribute::Normal), None);
}

#[allow(dead_code)]
struct Vertex {
    position: [f32; 3],
    texcoord: [f32; 2],
}

#[allow(dead_code)]
struct Vertex2 {
    position: [f32; 2],
    color: [u8; 4],
    texcoord: [i8; 2],
}

fn vertex_fields() -> Vec<VertexField> {
    vec![
        VertexField { name: Attribute::Position, format: VertexFormat::Float, size: 3, normalized: false },
        VertexField { name: Attribute::Texcoord0, format: VertexFormat::Float, size: 2, normalized: false },
    ]
}

fn vertex2_fields() -> Vec<VertexField> {
    vec![
        VertexField { name: Attribute::Position, format: VertexFormat::Float, size: 2, normalized: false },
        VertexField { name: Attribute::Color0, format: VertexFormat::UByte, size: 4, normalized: true },
        VertexField { name: Attribute::Texcoord0, format: VertexFormat::Byte, size: 2, normalized: false },
    ]
}

#[test]
fn mesh_basic() {
    let layout = record_layout(&vertex_fields());
    assert_eq!(layout.stride(), 20);
    assert_eq!(layout.offset(Attribute::Position), Some(0));
    assert_eq!(layout.offset(Attribute::Texcoord0), Some(12));
    assert_eq!(layout.offset(Attribute::Normal), None);

    let floats: [f32; 5] = [1.0, 1.0, 1.0, 0.0, 0.0];
    let bits: Vec<u32> = floats.iter().map(|f| f.to_bits()).collect();
    let expected: Vec<u8> = floats.iter().flat_map(|f| f.to_ne_bytes()).collect();
    assert_eq!(expected, crayon_mesh::IndexFormat::encode_u32(&bits));

    let floats: [f32; 10] = [1.0, 1.0, 1.0, 0.0, 0.0, 2.0, 2.0, 2.0, 3.0, 3.0];
    let bits: Vec<u32> = floats.iter().map(|f| f.to_bits()).collect();
    let expected: Vec<u8> = floats.iter().flat_map(|f| f.to_ne_bytes()).collect();
    assert_eq!(expected, crayon_mesh::IndexFormat::encode_u32(&bits));
}

#[test]
fn representation() {
    let layout = record_layout(&vertex_fields());
    assert_eq!(layout.stride() as usize, std::mem::size_of::<Vertex>());

    let layout = record_layout(&vertex2_fields());
    assert_eq!(layout.stride() as usize, std::mem::size_of::<Vertex2>());
    assert_eq!(layout.offset(Attribute::Position), Some(0));
    assert_eq!(layout.offset(Attribute::Color0), Some(8));
    assert_eq!(layout.offset(Attribute::Texcoord0), Some(12));
}

#[test]
fn record_padding_rounds_to_widest_component() {
    let fields = vec![
        VertexField { name: Attribute::Color0, format: VertexFormat::UByte, size: 1, normalized: true },
        VertexField { name: Attribute::Position, format: VertexFormat::Float, size: 1, normalized: false },
        VertexField { name: Attribute::Normal, format: VertexFormat::Short, size: 3, normalized: false },
    ];
    let layout = record_layout(&fields);
    assert_eq!(layout.offset(Attribute::Color0), Some(0));
    assert_eq!(layout.offset(Attribute::Position), Some(4));
    assert_eq!(layout.offset(Attribute::Normal), Some(8));
    assert_eq!(layout.stride(), 16);
    assert_eq!(layout.len(), 3);
}

#[test]
fn packed_stride_is_sum_of_attribute_sizes() {
    let layout = VertexLayout::build()
        .with(Attribute::Position, VertexFormat::Short, 3, false)
        .with(Attribute::Color0, VertexFormat::UByte, 4, true)
        .with(Attribute::Normal, VertexFormat::Byte, 3, true)
        .with(Attribute::Texcoord0, VertexFormat::UShort, 2, false)
        .finish();
    assert_eq!(layout.offset(Attribute::Position), Some(0));
    assert_eq!(layout.offset(Attribute::Color0), Some(6));
    assert_eq!(layout.offset(Attribute::Normal), Some(10));
    assert_eq!(layout.offset(Attribute::Texcoord0), Some(13));
    assert_eq!(layout.stride(), 17);
    assert_eq!(layout.len(), 4);
    assert!(!layout.is_empty());
}

#[test]
fn empty_layout() {
    let layout = VertexLayout::build().finish();
    assert_eq!(layout.stride(), 0);
    assert_eq!(layout.len(), 0);
    assert!(layout.is_empty());
    assert_eq!(layout.offset(Attribute::Position), None);
    assert_eq!(layout.element(Attribute::Position), None);
}

#[test]
fn full_layout_largest_stride() {
    let names = [
        Attribute::Position,
        Attribute::Normal,
        Attribute::Tangent,
        Attribute::Bitangent,
        Attribute::Color0,
        Attribute::Color1,
        Attribute::Indices,
        Attribute::Weight,
        Attribute::Texcoord0,
        Attribute::Texcoord1,
        Attribute::Texcoord2,
        Attribute::Texcoord3,
    ];
    let mut builder = VertexLayout::build();
    for name in names.iter() {
        builder = builder.with(*name, VertexFormat::Float, 4, false);
    }
    let layout = builder.finish();
    assert_eq!(layout.len() as usize, crayon_mesh::MAX_VERTEX_ATTRIBUTES);
    assert_eq!(layout.stride(), 192);
    assert_eq!(layout.offset(Attribute::Texcoord3), Some(176));
}

#[test]
fn custom_builder_keeps_given_offsets() {
    let mut builder = CustomVertexLayoutBuilder::new();
    builder
        .with(Attribute::Position, VertexFormat::Float, 3, false, 4)
        .with(Attribute::Color0, VertexFormat::UByte, 4, true, 0);
    builder.with(Attribute::Position, VertexFormat::Float, 2, false, 20);
    let layout = builder.finish(16);
    assert_eq!(layout.stride(), 16);
    assert_eq!(layout.offset(Attribute::Position), Some(4));
    assert_eq!(layout.offset(Attribute::Color0), Some(0));
    assert_eq!(layout.element(Attribute::Position).unwrap().size, 2);
    assert_eq!(layout.len(), 2);
}

#[test]
fn component_widths() {
    assert_eq!(size_of_vertex(VertexFormat::Byte), 1);
    assert_eq!(size_of_vertex(VertexFormat::UByte), 1);
    assert_eq!(size_of_vertex(VertexFormat::Short), 2);
    assert_eq!(size_of_vertex(VertexFormat::UShort), 2);
    assert_eq!(size_of_vertex(VertexFormat::Float), 4);
}
