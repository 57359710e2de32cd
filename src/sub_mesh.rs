use vstd::prelude::*;
use smallvec::SmallVec;

verus! {

/// The start indices of the sub-meshes of a mesh, kept inline for small
/// counts.
#[verifier::external_body]
#[derive(Debug)]
pub struct SubMeshOffsets {
    inner: SmallVec<[usize; 8]>,
}

/// The offsets that a `SubMeshOffsets` holds, in order.
pub uninterp spec fn sub_mesh_items(v: SubMeshOffsets) -> Seq<usize>;

impl SubMeshOffsets {
    /// Relies on `SmallVec::new`: a vector with no items.
    #[verifier::external_body]
    fn empty() -> (r: Self)
        ensures
            sub_mesh_items(r).len() == 0,
    {
        SubMeshOffsets { inner: SmallVec::new() }
    }

    /// Relies on `SmallVec::push`: the item is appended after the others.
    #[verifier::external_body]
    fn append(&mut self, offset: usize)
        requires
            sub_mesh_items(*old(self)).len() < usize::MAX,
        ensures
            sub_mesh_items(*final(self)) == sub_mesh_items(*old(self)).push(offset),
    {
        self.inner.push(offset)
    }

    /// Relies on `SmallVec::as_slice`: a slice of the items, in order.
    #[verifier::external_body]
    pub(crate) fn as_slice(&self) -> (r: &[usize])
        ensures
            r@ == sub_mesh_items(*self),
    {
        self.inner.as_slice()
    }

    /// No sub-mesh offsets.
    pub fn new() -> (r: Self)
        ensures
            sub_mesh_items(r) == Seq::<usize>::empty(),
    {
        let r = Self::empty();
        proof {
            assert(sub_mesh_items(r) =~= Seq::<usize>::empty());
        }
        r
    }

    /// The offsets of `offsets`, in the same order.
    pub fn from_slice(offsets: &[usize]) -> (r: Self)
        ensures
            sub_mesh_items(r) == offsets@,
    {
        let mut r = Self::new();
        let mut i: usize = 0;
        while i < offsets.len()
            invariant
                i <= offsets@.len(),
                sub_mesh_items(r) == offsets@.subrange(0, i as int),
            decreases offsets.len() - i,
        {
            r.append(offsets[i]);
            proof {
                assert(offsets@.subrange(0, i + 1) =~= offsets@.subrange(0, i as int).push(
                    offsets@[i as int],
                ));
            }
            i += 1;
        }
        proof {
            assert(offsets@.subrange(0, i as int) =~= offsets@);
        }
        r
    }
}

} // verus!
