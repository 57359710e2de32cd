use vstd::prelude::*;
use crate::attribute::{Attribute, MAX_VERTEX_ATTRIBUTES};

verus! {

/// The data type of each component of a vertex attribute.
#[derive(Debug, PartialEq, Eq, Structural, Clone, Copy)]
pub enum VertexFormat {
    Byte,
    UByte,
    Short,
    UShort,
    Float,
}

/// Byte width of one component in the given format.
pub open spec fn format_width(format: VertexFormat) -> nat {
    match format {
        VertexFormat::Byte | VertexFormat::UByte => 1,
        VertexFormat::Short | VertexFormat::UShort => 2,
        VertexFormat::Float => 4,
    }
}

/// Returns the byte width of one component in `format`.
pub fn size_of_vertex(format: VertexFormat) -> (r: u8)
    ensures
        r as nat == format_width(format),
{
    match format {
        VertexFormat::Byte | VertexFormat::UByte => 1,
        VertexFormat::Short | VertexFormat::UShort => 2,
        VertexFormat::Float => 4,
    }
}

/// The details of a vertex attribute.
#[derive(Debug, PartialEq, Eq, Structural, Clone, Copy)]
pub struct VertexAttribute {
    /// The name of this description.
    pub name: Attribute,
    /// The data type of each component of this element.
    pub format: VertexFormat,
    /// The number of components per generic vertex element.
    pub size: u8,
    /// Whether fixed-point data values should be normalized.
    pub normalized: bool,
}

impl Default for VertexAttribute {
    fn default() -> (r: Self)
        ensures
            r.name == Attribute::Position,
            r.format == VertexFormat::Byte,
            r.size == 0,
            !r.normalized,
    {
        VertexAttribute {
            name: Attribute::Position,
            format: VertexFormat::Byte,
            size: 0,
            normalized: false,
        }
    }
}

/// Bytes taken by one attribute inside a vertex.
pub open spec fn attribute_bytes(a: VertexAttribute) -> nat {
    a.size as nat * format_width(a.format)
}

/// Offset of the `i`-th attribute when the attributes are packed one after the
/// other in order; `packed_offset(e, e.len())` is the packed stride.
pub open spec fn packed_offset(elements: Seq<VertexAttribute>, i: int) -> nat
    decreases i,
{
    if i <= 0 {
        0
    } else {
        packed_offset(elements, i - 1) + attribute_bytes(elements[i - 1])
    }
}

/// A component count that a vertex attribute may have.
pub open spec fn valid_size(size: u8) -> bool {
    1 <= size <= 4
}

/// No two attributes share a name.
pub open spec fn names_unique(elements: Seq<VertexAttribute>) -> bool {
    forall|i: int, j: int|
        0 <= i < elements.len() && 0 <= j < elements.len() && i != j ==> elements[i].name
            != elements[j].name
}

/// What every layout holds: at most the maximum number of attributes, each
/// with a valid component count, with distinct names.
pub open spec fn valid_elements(elements: Seq<VertexAttribute>) -> bool {
    &&& elements.len() <= MAX_VERTEX_ATTRIBUTES
    &&& names_unique(elements)
    &&& forall|i: int| 0 <= i < elements.len() ==> valid_size(#[trigger] elements[i].size)
}

pub open spec fn has_name(elements: Seq<VertexAttribute>, name: Attribute) -> bool {
    exists|i: int| 0 <= i < elements.len() && elements[i].name == name
}

/// The slot that holds `name` (meaningful where `has_name` holds).
pub open spec fn index_of_name(elements: Seq<VertexAttribute>, name: Attribute) -> int {
    choose|i: int| 0 <= i < elements.len() && elements[i].name == name
}

/// The attribute list after inserting `d`: an attribute of the same name is
/// overwritten in its slot, otherwise `d` is appended.
pub open spec fn with_attribute(elements: Seq<VertexAttribute>, d: VertexAttribute) -> Seq<
    VertexAttribute,
> {
    if has_name(elements, d.name) {
        elements.update(index_of_name(elements, d.name), d)
    } else {
        elements.push(d)
    }
}

/// The offsets list after inserting `d` at `offset`: an attribute of the same
/// name keeps its offset, otherwise `offset` is appended.
pub open spec fn with_offset(
    elements: Seq<VertexAttribute>,
    offsets: Seq<u8>,
    d: VertexAttribute,
    offset: u8,
) -> Seq<u8> {
    if has_name(elements, d.name) {
        offsets
    } else {
        offsets.push(offset)
    }
}

/// Each packed offset and the packed stride fit in a byte.
pub proof fn lemma_packed_offset_bound(elements: Seq<VertexAttribute>, i: int)
    requires
        0 <= i <= elements.len(),
        forall|k: int| 0 <= k < elements.len() ==> valid_size(#[trigger] elements[k].size),
    ensures
        packed_offset(elements, i) <= 16 * i,
    decreases i,
{
    if i > 0 {
        lemma_packed_offset_bound(elements, i - 1);
        let a = elements[i - 1];
        assert(valid_size(a.size));
        assert(attribute_bytes(a) <= 16) by (nonlinear_arith)
            requires
                1 <= a.size <= 4,
                format_width(a.format) <= 4,
                attribute_bytes(a) == a.size as nat * format_width(a.format),
        ;
    }
}

/// The index that holds a name is the one that the name was found at.
proof fn lemma_index_of_unique(elements: Seq<VertexAttribute>, name: Attribute, i: int)
    requires
        names_unique(elements),
        0 <= i < elements.len(),
        elements[i].name == name,
    ensures
        has_name(elements, name),
        index_of_name(elements, name) == i,
{
    assert(has_name(elements, name));
    let k = index_of_name(elements, name);
    assert(elements[k].name == name);
}

/// Inserting an attribute whose name the list already holds overwrites it in
/// its own slot: the order of the names stays, only that slot changes, and the
/// packed offsets of the slots before it stay as they were.
pub proof fn lemma_rewrite_keeps_slot(elements: Seq<VertexAttribute>, d: VertexAttribute)
    requires
        valid_elements(elements),
        valid_size(d.size),
        has_name(elements, d.name),
    ensures
        with_attribute(elements, d) == elements.update(index_of_name(elements, d.name), d),
        with_attribute(elements, d).len() == elements.len(),
        valid_elements(with_attribute(elements, d)),
        forall|i: int|
            0 <= i < elements.len() ==> (#[trigger] with_attribute(elements, d)[i]).name
                == elements[i].name,
        forall|i: int|
            0 <= i <= index_of_name(elements, d.name) ==> #[trigger] packed_offset(
                with_attribute(elements, d),
                i,
            ) == packed_offset(elements, i),
{
    let k = index_of_name(elements, d.name);
    let u = with_attribute(elements, d);
    assert forall|a: int, b: int|
        0 <= a < u.len() && 0 <= b < u.len() && a != b implies u[a].name != u[b].name by {
        assert(elements[a].name != elements[b].name);
    }
    assert forall|i: int| 0 <= i < u.len() implies valid_size(#[trigger] u[i].size) by {
        if i != k {
            assert(valid_size(elements[i].size));
        }
    }
    assert forall|i: int| 0 <= i <= k implies #[trigger] packed_offset(u, i) == packed_offset(
        elements,
        i,
    ) by {
        lemma_packed_prefix(u, elements, i, k);
    }
}

proof fn lemma_packed_prefix(a: Seq<VertexAttribute>, b: Seq<VertexAttribute>, i: int, k: int)
    requires
        0 <= i <= k,
        k <= a.len(),
        k <= b.len(),
        forall|j: int| 0 <= j < k ==> a[j] == b[j],
    ensures
        packed_offset(a, i) == packed_offset(b, i),
    decreases i,
{
    if i > 0 {
        lemma_packed_prefix(a, b, i - 1, k);
    }
}

/// Inserting `first`, then `other`, then `again` (which has the name of
/// `first`) gives the same attributes as inserting `again`, then `other`: a
/// rewrite keeps the first slot of its name.
pub proof fn lemma_rewrite_as_first_insert(
    elements: Seq<VertexAttribute>,
    first: VertexAttribute,
    other: VertexAttribute,
    again: VertexAttribute,
)
    requires
        names_unique(elements),
        first.name == again.name,
        first.name != other.name,
        !has_name(elements, first.name),
        !has_name(elements, other.name),
    ensures
        with_attribute(with_attribute(with_attribute(elements, first), other), again)
            == with_attribute(with_attribute(elements, again), other),
{
    let s1 = with_attribute(elements, first);
    assert(s1 == elements.push(first));
    assert(!has_name(s1, other.name)) by {
        if has_name(s1, other.name) {
            let i = choose|i: int| 0 <= i < s1.len() && s1[i].name == other.name;
            assert(i < elements.len());
        }
    }
    let s2 = with_attribute(s1, other);
    assert(s2 == s1.push(other));
    let n = elements.len() as int;
    assert(s2[n].name == again.name);
    assert(names_unique(s2)) by {
        assert forall|a: int, b: int|
            0 <= a < s2.len() && 0 <= b < s2.len() && a != b implies s2[a].name
            != s2[b].name by {
            if a < n && b < n {
                assert(elements[a].name != elements[b].name);
            } else if a < n {
                assert(elements[a].name != s2[b].name);
            } else if b < n {
                assert(elements[b].name != s2[a].name);
            }
        }
    }
    lemma_index_of_unique(s2, again.name, n);
    let t1 = with_attribute(elements, again);
    assert(t1 == elements.push(again));
    assert(!has_name(t1, other.name)) by {
        if has_name(t1, other.name) {
            let i = choose|i: int| 0 <= i < t1.len() && t1[i].name == other.name;
            assert(i < elements.len());
        }
    }
    assert(with_attribute(t1, other) == t1.push(other));
    assert(s2.update(n, again) =~= t1.push(other));
}

/// `VertexLayout` defines how a single vertex structure looks: a collection of
/// attributes, each with its byte offset, and the stride of the whole vertex.
#[derive(Debug, Clone, Copy, PartialEq, Eq)]
pub struct VertexLayout {
    stride: u8,
    len: u8,
    offset: [u8; MAX_VERTEX_ATTRIBUTES],
    elements: [VertexAttribute; MAX_VERTEX_ATTRIBUTES],
}

impl VertexLayout {
    /// The stride of a single vertex, in bytes.
    pub closed spec fn spec_stride(&self) -> nat {
        self.stride as nat
    }

    /// The attributes, in insertion order.
    pub closed spec fn elements(&self) -> Seq<VertexAttribute> {
        self.elements@.subrange(0, self.len as int)
    }

    /// The byte offset of each attribute, parallel to `elements`.
    pub closed spec fn offsets(&self) -> Seq<u8> {
        self.offset@.subrange(0, self.len as int)
    }

    /// Well-formedness of a layout.
    pub closed spec fn wf(&self) -> bool {
        &&& self.len as int <= MAX_VERTEX_ATTRIBUTES
        &&& valid_elements(self.elements())
    }

    fn empty() -> (r: Self)
        ensures
            r.wf(),
            r.elements().len() == 0,
            r.offsets().len() == 0,
            r.spec_stride() == 0,
    {
        VertexLayout {
            stride: 0,
            len: 0,
            offset: [0u8; 12],
            elements: [VertexAttribute::default(); 12],
        }
    }

    /// Creates a new, empty `VertexLayoutBuilder`.
    pub fn build() -> (r: VertexLayoutBuilder)
        ensures
            r.wf(),
            r.elements().len() == 0,
    {
        VertexLayoutBuilder::new()
    }

    /// Stride of a single vertex structure.
    pub fn stride(&self) -> (r: u8)
        ensures
            r as nat == self.spec_stride(),
    {
        self.stride
    }

    /// Returns the number of elements in the layout.
    pub fn len(&self) -> (r: u8)
        requires
            self.wf(),
        ensures
            r as nat == self.elements().len(),
    {
        self.len
    }

    /// Checks if the vertex layout is empty.
    pub fn is_empty(&self) -> (r: bool)
        requires
            self.wf(),
        ensures
            r == (self.elements().len() == 0),
    {
        self.len == 0
    }

    /// Relative byte offset of the attribute `name`, if the layout has it.
    pub fn offset(&self, name: Attribute) -> (r: Option<u8>)
        requires
            self.wf(),
        ensures
            r == (if has_name(self.elements(), name) {
                Some(self.offsets()[index_of_name(self.elements(), name)])
            } else {
                None::<u8>
            }),
    {
        let mut i: usize = 0;
        while i < self.len as usize
            invariant
                self.wf(),
                i <= self.len,
                forall|j: int| 0 <= j < i ==> self.elements()[j].name != name,
            decreases self.len - i,
        {
            if self.elements[i].name == name {
                proof {
                    assert(self.elements()[i as int] == self.elements@[i as int]);
                    lemma_index_of_unique(self.elements(), name, i as int);
                }
                return Some(self.offset[i]);
            }
            i += 1;
        }
        None
    }

    /// The attribute named `name`, if the layout has it.
    pub fn element(&self, name: Attribute) -> (r: Option<VertexAttribute>)
        requires
            self.wf(),
        ensures
            r == (if has_name(self.elements(), name) {
                Some(self.elements()[index_of_name(self.elements(), name)])
            } else {
                None::<VertexAttribute>
            }),
    {
        let mut i: usize = 0;
        while i < self.len as usize
            invariant
                self.wf(),
                i <= self.len,
                forall|j: int| 0 <= j < i ==> self.elements()[j].name != name,
            decreases self.len - i,
        {
            if self.elements[i].name == name {
                proof {
                    assert(self.elements()[i as int] == self.elements@[i as int]);
                    lemma_index_of_unique(self.elements(), name, i as int);
                }
                return Some(self.elements[i]);
            }
            i += 1;
        }
        None
    }
}

impl Default for VertexLayout {
    /// A layout with no attributes and a zero stride.
    fn default() -> (r: Self)
        ensures
            r.wf(),
            r.elements().len() == 0,
            r.spec_stride() == 0,
    {
        VertexLayout::empty()
    }
}

/// Builds a vertex layout whose attributes are packed one after the other.
pub struct VertexLayoutBuilder(VertexLayout);

impl Default for VertexLayoutBuilder {
    fn default() -> (r: Self)
        ensures
            r.wf(),
            r.elements().len() == 0,
    {
        VertexLayoutBuilder::new()
    }
}

impl VertexLayoutBuilder {
    /// The attributes inserted so far, in insertion order.
    pub closed spec fn elements(&self) -> Seq<VertexAttribute> {
        self.0.elements()
    }

    pub closed spec fn wf(&self) -> bool {
        self.0.wf()
    }

    pub fn new() -> (r: Self)
        ensures
            r.wf(),
            r.elements().len() == 0,
    {
        VertexLayoutBuilder(VertexLayout::empty())
    }

    /// Inserts an attribute, or overwrites in its slot the one of the same name.
    pub fn with(self, name: Attribute, format: VertexFormat, size: u8, normalized: bool) -> (r:
        Self)
        requires
            self.wf(),
            valid_size(size),
            has_name(self.elements(), name) || self.elements().len() < MAX_VERTEX_ATTRIBUTES,
        ensures
            r.wf(),
            r.elements() == with_attribute(
                self.elements(),
                VertexAttribute { name, format, size, normalized },
            ),
    {
        VertexLayoutBuilder(self.0.insert(name, format, size, normalized, 0))
    }

    /// Assigns each attribute the offset it has when all are packed in
    /// insertion order, and the layout the total as its stride.
    pub fn finish(self) -> (r: VertexLayout)
        requires
            self.wf(),
        ensures
            r.wf(),
            r.elements() == self.elements(),
            r.offsets().len() == r.elements().len(),
            forall|i: int|
                0 <= i < r.elements().len() ==> #[trigger] r.offsets()[i] as nat == packed_offset(
                    r.elements(),
                    i,
                ),
            r.spec_stride() == packed_offset(r.elements(), r.elements().len() as int),
    {
        let mut layout = self.0;
        let ghost elems = self.0.elements();
        layout.stride = 0;
        let mut i: usize = 0;
        while i < layout.len as usize
            invariant
                layout.len == self.0.len,
                layout.elements == self.0.elements,
                self.0.wf(),
                elems == self.0.elements(),
                i <= layout.len,
                layout.stride as nat == packed_offset(elems, i as int),
                forall|j: int| 0 <= j < i ==> layout.offset@[j] as nat == packed_offset(elems, j),
            decreases layout.len - i,
        {
            proof {
                lemma_packed_offset_bound(elems, i as int + 1);
                assert(elems[i as int] == layout.elements@[i as int]);
            }
            let e = layout.elements[i];
            let len = e.size * size_of_vertex(e.format);
            layout.offset[i] = layout.stride;
            layout.stride = layout.stride + len;
            i += 1;
        }
        proof {
            assert(layout.elements() == self.0.elements());
        }
        layout
    }
}

impl VertexLayout {
    /// Inserts an attribute with the offset `offset`, or overwrites in its
    /// slot the attribute of the same name, which keeps its offset.
    fn insert(self, name: Attribute, format: VertexFormat, size: u8, normalized: bool, offset: u8) -> (r: Self)
        requires
            self.wf(),
            valid_size(size),
            has_name(self.elements(), name) || self.elements().len() < MAX_VERTEX_ATTRIBUTES,
        ensures
            r.wf(),
            r.spec_stride() == self.spec_stride(),
            r.elements() == with_attribute(
                self.elements(),
                VertexAttribute { name, format, size, normalized },
            ),
            r.offsets() == with_offset(
                self.elements(),
                self.offsets(),
                VertexAttribute { name, format, size, normalized },
                offset,
            ),
    {
        let mut layout = self;
        let desc = VertexAttribute { name, format, size, normalized };
        let mut i: usize = 0;
        while i < layout.len as usize
            invariant
                layout == self,
                desc == (VertexAttribute { name, format, size, normalized }),
                valid_size(size),
                self.wf(),
                i <= layout.len,
                forall|j: int| 0 <= j < i ==> self.elements()[j].name != name,
            decreases layout.len - i,
        {
            if layout.elements[i].name == name {
                proof {
                    assert(self.elements()[i as int] == self.elements@[i as int]);
                    lemma_index_of_unique(self.elements(), name, i as int);
                }
                layout.elements[i] = desc;
                proof {
                    let e = self.elements();
                    let u = e.update(i as int, desc);
                    assert(layout.elements() =~= u);
                    assert(layout.offsets() =~= self.offsets());
                    assert(with_attribute(e, desc) == u);
                    assert forall|a: int, b: int|
                        0 <= a < u.len() && 0 <= b < u.len() && a != b implies u[a].name
                        != u[b].name by {
                        assert(e[a].name != e[b].name);
                    }
                    assert forall|k: int| 0 <= k < u.len() implies valid_size(#[trigger] u[k].size) by {
                        if k != i {
                            assert(valid_size(e[k].size));
                        }
                    }
                }
                return layout;
            }
            i += 1;
        }
        let n = layout.len as usize;
        layout.elements[n] = desc;
        layout.offset[n] = offset;
        layout.len = layout.len + 1;
        proof {
            let e = self.elements();
            let u = e.push(desc);
            assert(layout.elements() =~= u);
            assert(layout.offsets() =~= self.offsets().push(offset));
            assert forall|k: int| 0 <= k < u.len() implies valid_size(#[trigger] u[k].size) by {
                if k < e.len() {
                    assert(valid_size(e[k].size));
                }
            }
            assert forall|a: int, b: int|
                0 <= a < u.len() && 0 <= b < u.len() && a != b implies u[a].name != u[b].name by {
                if a < e.len() && b < e.len() {
                    assert(e[a].name != e[b].name);
                } else if a < e.len() {
                    assert(e[a].name != name);
                } else if b < e.len() {
                    assert(e[b].name != name);
                }
            }
        }
        layout
    }
}

/// Builds a vertex layout whose offsets and stride are given by the caller,
/// as fixed by the shape of a record that a vertex mirrors.
pub struct CustomVertexLayoutBuilder(VertexLayout);

impl Default for CustomVertexLayoutBuilder {
    fn default() -> (r: Self)
        ensures
            r.layout().wf(),
            r.layout().elements().len() == 0,
            r.layout().offsets().len() == 0,
    {
        CustomVertexLayoutBuilder::new()
    }
}

impl CustomVertexLayoutBuilder {
    /// The layout built so far.
    pub closed spec fn layout(&self) -> VertexLayout {
        self.0
    }

    pub fn new() -> (r: Self)
        ensures
            r.layout().wf(),
            r.layout().elements().len() == 0,
            r.layout().offsets().len() == 0,
    {
        CustomVertexLayoutBuilder(VertexLayout::empty())
    }

    /// Inserts an attribute at the byte offset `offset_of_field`, or
    /// overwrites in its slot the attribute of the same name, whose offset is
    /// then kept.
    pub fn with(
        &mut self,
        name: Attribute,
        format: VertexFormat,
        size: u8,
        normalized: bool,
        offset_of_field: u8,
    ) -> (r: &mut Self)
        requires
            old(self).layout().wf(),
            valid_size(size),
            has_name(old(self).layout().elements(), name) || old(self).layout().elements().len()
                < MAX_VERTEX_ATTRIBUTES,
        ensures
            r.layout().wf(),
            r.layout().spec_stride() == old(self).layout().spec_stride(),
            r.layout().elements() == with_attribute(
                old(self).layout().elements(),
                VertexAttribute { name, format, size, normalized },
            ),
            r.layout().offsets() == with_offset(
                old(self).layout().elements(),
                old(self).layout().offsets(),
                VertexAttribute { name, format, size, normalized },
                offset_of_field,
            ),
            *final(self) == *final(r),
    {
        self.0 = self.0.insert(name, format, size, normalized, offset_of_field);
        self
    }

    /// Ends the layout with the record's own byte size as its stride.
    pub fn finish(&mut self, stride: u8) -> (r: VertexLayout)
        requires
            old(self).layout().wf(),
        ensures
            r.wf(),
            r.elements() == old(self).layout().elements(),
            r.offsets() == old(self).layout().offsets(),
            r.spec_stride() == stride as nat,
            final(self).layout() == r,
    {
        self.0.stride = stride;
        proof {
            assert(self.0.elements() == old(self).0.elements());
        }
        self.0
    }
}

} // verus!
