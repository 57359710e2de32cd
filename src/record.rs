use vstd::prelude::*;
use crate::attribute::{Attribute, MAX_VERTEX_ATTRIBUTES};
use crate::layout::{
    VertexFormat, VertexAttribute, VertexLayout, CustomVertexLayoutBuilder, size_of_vertex,
    format_width, attribute_bytes, valid_size, has_name,
};

verus! {

/// One field of a vertex record: an attribute stored as `size` components of
/// `format`, aligned to the width of one component.
#[derive(Debug, Clone, Copy, PartialEq, Eq, Structural)]
pub struct VertexField {
    pub name: Attribute,
    pub format: VertexFormat,
    pub size: u8,
    pub normalized: bool,
}

/// The attribute that a record field describes.
pub open spec fn field_attribute(f: VertexField) -> VertexAttribute {
    VertexAttribute { name: f.name, format: f.format, size: f.size, normalized: f.normalized }
}

/// The least multiple of `a` that is at least `n`.
pub open spec fn align_up(n: nat, a: nat) -> nat {
    if a == 0 || n % a == 0 {
        n
    } else {
        (n + (a - n % a)) as nat
    }
}

/// Where the first `i` fields of a record end, each field placed at the
/// first offset after the fields before it that is aligned to its component
/// width.
pub open spec fn fields_end(fields: Seq<VertexField>, i: int) -> nat
    decreases i,
{
    if i <= 0 {
        0
    } else {
        align_up(fields_end(fields, i - 1), format_width(fields[i - 1].format)) + attribute_bytes(
            field_attribute(fields[i - 1]),
        )
    }
}

/// Offset of field `i` of a record.
pub open spec fn field_offset(fields: Seq<VertexField>, i: int) -> nat {
    align_up(fields_end(fields, i), format_width(fields[i].format))
}

/// The alignment of a record of the first `i` fields: the widest component.
pub open spec fn record_align(fields: Seq<VertexField>, i: int) -> nat
    decreases i,
{
    if i <= 0 {
        1
    } else {
        let w = format_width(fields[i - 1].format);
        let a = record_align(fields, i - 1);
        if w > a {
            w
        } else {
            a
        }
    }
}

/// The byte size of a record made of `fields` in order: where the last field
/// ends, rounded up to the record's alignment.
pub open spec fn record_size(fields: Seq<VertexField>) -> nat {
    align_up(fields_end(fields, fields.len() as int), record_align(fields, fields.len() as int))
}

/// Fields that a record layout can be built from.
pub open spec fn valid_fields(fields: Seq<VertexField>) -> bool {
    &&& fields.len() <= MAX_VERTEX_ATTRIBUTES
    &&& forall|i: int| 0 <= i < fields.len() ==> valid_size(#[trigger] fields[i].size)
    &&& forall|i: int, j: int|
        0 <= i < fields.len() && 0 <= j < fields.len() && i != j ==> fields[i].name
            != fields[j].name
}

fn align_up_exec(n: u32, a: u32) -> (r: u32)
    requires
        1 <= a <= 4,
        n <= 1000,
    ensures
        r == align_up(n as nat, a as nat),
        n <= r <= n + 3,
{
    if n % a == 0 {
        n
    } else {
        n + (a - n % a)
    }
}

proof fn lemma_fields_end_bound(fields: Seq<VertexField>, i: int)
    requires
        0 <= i <= fields.len(),
        forall|k: int| 0 <= k < fields.len() ==> valid_size(#[trigger] fields[k].size),
    ensures
        fields_end(fields, i) <= 19 * i,
    decreases i,
{
    if i > 0 {
        lemma_fields_end_bound(fields, i - 1);
        assert(valid_size(fields[i - 1].size));
        let a = field_attribute(fields[i - 1]);
        assert(attribute_bytes(a) <= 16) by (nonlinear_arith)
            requires
                1 <= a.size <= 4,
                format_width(a.format) <= 4,
                attribute_bytes(a) == a.size as nat * format_width(a.format),
        ;
    }
}

proof fn lemma_record_align_bound(fields: Seq<VertexField>, i: int)
    ensures
        1 <= record_align(fields, i) <= 4,
    decreases i,
{
    if i > 0 {
        lemma_record_align_bound(fields, i - 1);
    }
}

/// The layout of a vertex record made of `fields` in order: each attribute at
/// the offset its field has in the record, and the record's byte size as the
/// stride.
pub fn record_layout(fields: &[VertexField]) -> (r: VertexLayout)
    requires
        valid_fields(fields@),
    ensures
        r.wf(),
        r.elements().len() == fields@.len(),
        r.offsets().len() == fields@.len(),
        forall|i: int|
            0 <= i < fields@.len() ==> #[trigger] r.elements()[i] == field_attribute(fields@[i]),
        forall|i: int|
            0 <= i < fields@.len() ==> #[trigger] r.offsets()[i] as nat == field_offset(fields@, i),
        r.spec_stride() == record_size(fields@),
{
    let mut builder = CustomVertexLayoutBuilder::new();
    let mut end: u32 = 0;
    let mut align: u32 = 1;
    let mut i: usize = 0;
    while i < fields.len()
        invariant
            valid_fields(fields@),
            i <= fields@.len(),
            builder.layout().wf(),
            builder.layout().elements().len() == i,
            builder.layout().offsets().len() == i,
            forall|j: int|
                0 <= j < i ==> #[trigger] builder.layout().elements()[j] == field_attribute(
                    fields@[j],
                ),
            forall|j: int|
                0 <= j < i ==> #[trigger] builder.layout().offsets()[j] as nat == field_offset(fields@, j),
            end as nat == fields_end(fields@, i as int),
            align as nat == record_align(fields@, i as int),
        decreases fields.len() - i,
    {
        let f = fields[i];
        proof {
            lemma_fields_end_bound(fields@, i as int);
            assert(valid_size(fields@[i as int].size));
        }
        let w = size_of_vertex(f.format) as u32;
        let off = align_up_exec(end, w);
        let ghost prev = builder.layout();
        proof {
            assert(!has_name(prev.elements(), f.name)) by {
                if has_name(prev.elements(), f.name) {
                    let k = choose|k: int| 0 <= k < prev.elements().len() && prev.elements()[k].name == f.name;
                    assert(prev.elements()[k] == field_attribute(fields@[k]));
                }
            }
        }
        builder.with(f.name, f.format, f.size, f.normalized, off as u8);
        end = off + f.size as u32 * w;
        if w > align {
            align = w;
        }
        proof {
            let d = VertexAttribute { name: f.name, format: f.format, size: f.size, normalized: f.normalized };
            assert(builder.layout().elements() == prev.elements().push(d));
            assert(builder.layout().offsets() == prev.offsets().push(off as u8));
        }
        i += 1;
    }
    proof {
        lemma_fields_end_bound(fields@, i as int);
        lemma_record_align_bound(fields@, i as int);
    }
    let size = align_up_exec(end, align);
    builder.finish(size as u8)
}

} // verus!
