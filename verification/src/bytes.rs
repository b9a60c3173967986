use std::sync::Arc;
use vstd::prelude::*;

verus! {

/// The bit of the tag that marks bytes held in a vector.
pub const KIND_MASK: usize = 0b1;

/// Clones a shared byte slice through `Arc::clone`: the contract states that the new handle
/// points to the same bytes.
#[verifier::external_body]
fn clone_shared(data: &Arc<[u8]>) -> (r: Arc<[u8]>)
    ensures
        r == *data,
{
    Arc::clone(data)
}

enum Storage {
    Vec(Vec<u8>),
    Arc(Arc<[u8]>),
}

/// Bytes held either in a vector or in a shared slice, with the kind recorded in the low bit of
/// a tag word.
pub struct Bytes {
    tag: usize,
    storage: Storage,
}

impl Bytes {
    /// The bytes are held in a vector.
    pub closed spec fn held_in_vec(&self) -> bool {
        self.storage is Vec
    }

    /// The bytes.
    pub closed spec fn contents(&self) -> Seq<u8> {
        match self.storage {
            Storage::Vec(v) => v@,
            Storage::Arc(a) => (*a)@,
        }
    }

    /// The tag records the kind of storage.
    pub closed spec fn well_formed(&self) -> bool {
        &&& self.storage is Vec ==> self.tag & KIND_MASK == 1
        &&& self.storage is Arc ==> self.tag & KIND_MASK == 0
    }

    /// Bytes held in `data`.
    pub fn new_vec(data: Vec<u8>) -> (b: Self)
        ensures
            b.well_formed(),
            b.held_in_vec(),
            b.contents() == data@,
    {
        let tag: usize = 0x1;
        assert(tag & KIND_MASK == 1) by (bit_vector)
            requires
                tag == 1,
        ;
        Bytes { tag, storage: Storage::Vec(data) }
    }

    /// Bytes held in the shared slice `data`.
    pub fn new_arc(data: Arc<[u8]>) -> (b: Self)
        ensures
            b.well_formed(),
            !b.held_in_vec(),
            b.contents() == (*data)@,
    {
        let tag: usize = 0;
        assert(tag & KIND_MASK == 0) by (bit_vector)
            requires
                tag == 0,
        ;
        Bytes { tag, storage: Storage::Arc(data) }
    }

    /// The tag marks a vector.
    pub fn is_vec(&self) -> (r: bool)
        requires
            self.well_formed(),
        ensures
            r == self.held_in_vec(),
    {
        self.tag & KIND_MASK == 1
    }

    /// The tag marks a shared slice.
    pub fn is_arc(&self) -> (r: bool)
        requires
            self.well_formed(),
        ensures
            r == !self.held_in_vec(),
    {
        self.tag & KIND_MASK == 0
    }

    /// A vector with the bytes; the bytes must be held in a vector.
    pub fn as_vec(&self) -> (r: Vec<u8>)
        requires
            self.well_formed(),
            self.held_in_vec(),
        ensures
            r@ == self.contents(),
    {
        match &self.storage {
            Storage::Vec(v) => v.clone(),
            Storage::Arc(_) => vstd::pervasive::unreached(),
        }
    }

    /// A shared handle to the bytes; the bytes must be held in a shared slice.
    pub fn as_arc(&self) -> (r: Arc<[u8]>)
        requires
            self.well_formed(),
            !self.held_in_vec(),
        ensures
            (*r)@ == self.contents(),
    {
        match &self.storage {
            Storage::Arc(a) => clone_shared(a),
            Storage::Vec(_) => vstd::pervasive::unreached(),
        }
    }
}

} // verus!
