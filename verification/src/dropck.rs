use vstd::prelude::*;

verus! {

/// An owned heap value.
pub struct MyBox<T> {
    name: Box<T>,
}

impl<T> MyBox<T> {
    /// Moves `init` to the heap.
    pub fn new(init: T) -> (b: Self)
        ensures
            b.value() == init,
    {
        Self { name: Box::new(init) }
    }

    /// The value in the box.
    pub closed spec fn value(&self) -> T {
        *self.name
    }
}

} // verus!
