use std::fmt::Debug;
use vstd::prelude::*;
use crate::gat::Container;

verus! {

/// The items of `s` at the positions where `keep` holds, in order.
pub open spec fn kept<T>(s: Seq<T>, keep: Seq<bool>) -> Seq<T>
    decreases s.len(),
{
    if s.len() == 0 {
        Seq::empty()
    } else {
        kept(s.drop_last(), keep.drop_last()) + if keep.last() {
            seq![s.last()]
        } else {
            Seq::empty()
        }
    }
}

/// Keeping the value of an option only where a one-shot predicate of type `F` holds of it.
pub trait OptionFilter<T, F>: Container<Item = T> {
    /// Keeps the value only where `f` holds of it: the answer of `f` on the value decides.
    fn filter1(self, f: F) -> (r: Option<T>) where F: for<'a> FnOnce(&'a T) -> bool
        requires
            forall|i: int| 0 <= i < self.items().len() ==> f.requires((&#[trigger] self.items()[i],)),
        ensures
            exists|keep: Seq<bool>|
                #![trigger kept(self.items(), keep)]
                keep.len() == self.items().len() && (forall|i: int|
                    0 <= i < self.items().len() ==> f.ensures((&self.items()[i],), #[trigger] keep[i]))
                    && r.items() == kept(self.items(), keep),
    ;
}

impl<T, F> OptionFilter<T, F> for Option<T> {
    fn filter1(self, f: F) -> (r: Option<T>) where F: for<'a> FnOnce(&'a T) -> bool {
        if let Some(x) = self {
            assert(self.items()[0] == x);
            let b = f(&x);
            let ghost keep = seq![b];
            proof {
                reveal_with_fuel(kept, 2);
                assert(keep[0] == b);
                assert(self.items().drop_last() =~= Seq::<T>::empty());
            }
            if b {
                let r = Some(x);
                assert(r.items() =~= kept(self.items(), keep));
                return r;
            }
            assert(None::<T>.items() =~= kept(self.items(), keep));
            return None;
        }
        proof {
            let keep = Seq::<bool>::empty();
            assert(None::<T>.items() =~= kept(self.items(), keep));
        }
        None
    }
}

/// Keeping the items of a container on which a predicate of type `F` holds.
pub trait Filter<F>: Container {
    type Output: Container<Item = Self::Item>;

    /// Keeps the items on which `f` holds: the answers of `f` on the items, one per item, select
    /// the items kept, in order.
    fn filter(self, f: F) -> (r: Self::Output) where F: for<'a> Fn(&'a Self::Item) -> bool
        requires
            forall|i: int| 0 <= i < self.items().len() ==> f.requires((&#[trigger] self.items()[i],)),
        ensures
            exists|keep: Seq<bool>|
                #![trigger kept(self.items(), keep)]
                keep.len() == self.items().len() && (forall|i: int|
                    0 <= i < self.items().len() ==> f.ensures((&self.items()[i],), #[trigger] keep[i]))
                    && r.items() == kept(self.items(), keep),
    ;
}

impl<T, F> Filter<F> for Vec<T> {
    type Output = Vec<T>;

    fn filter(self, f: F) -> (r: Vec<T>) where F: for<'a> Fn(&'a T) -> bool {
        let ghost items = self@;
        let ghost mut keep: Seq<bool> = Seq::empty();
        assert forall|i: int| 0 <= i < items.len() implies f.requires((&#[trigger] items[i],)) by {
            assert(self.items()[i] == items[i]);
        }
        let mut out: Vec<T> = Vec::new();
        for x in iter: self.into_iter()
            invariant
                forall|i: int| 0 <= i < items.len() ==> f.requires((&#[trigger] items[i],)),
                iter.seq() == items,
                keep.len() == iter.index(),
                forall|i: int| 0 <= i < keep.len() ==> f.ensures((&items[i],), #[trigger] keep[i]),
                out@ == kept(items.take(iter.index() as int), keep),
        {
            let ghost i = iter.index() as int;
            let b = f(&x);
            proof {
                assert(items.take(i + 1).drop_last() =~= items.take(i));
                assert(keep.push(b).drop_last() =~= keep);
                keep = keep.push(b);
            }
            if b {
                out.push(x);
            }
        }
        proof {
            assert(items.take(items.len() as int) =~= items);
            assert(out.items() == kept(self.items(), keep));
        }
        out
    }
}

impl<T: Debug, F> Filter<F> for Option<T> {
    type Output = Option<T>;

    fn filter(self, f: F) -> (r: Option<T>) where F: for<'a> Fn(&'a T) -> bool {
        if let Some(x) = self {
            assert(self.items()[0] == x);
            let b = f(&x);
            let ghost keep = seq![b];
            proof {
                reveal_with_fuel(kept, 2);
                assert(keep[0] == b);
                assert(self.items().drop_last() =~= Seq::<T>::empty());
            }
            if b {
                let r = Some(x);
                assert(r.items() =~= kept(self.items(), keep));
                return r;
            }
            assert(None::<T>.items() =~= kept(self.items(), keep));
            return None;
        }
        proof {
            let keep = Seq::<bool>::empty();
            assert(None::<T>.items() =~= kept(self.items(), keep));
        }
        None
    }
}

/// A closure stored beside the data it reads.
pub struct Closure<F> {
    pub data: (u8, u16),
    pub func: F,
}

impl<F> Closure<F> where F: for<'a> Fn(&'a (u8, u16)) -> &'a u8 {
    /// Applies the stored closure to the stored data.
    pub fn call(&self) -> (r: &u8)
        requires
            self.func.requires((&self.data,)),
        ensures
            self.func.ensures((&self.data,), r),
    {
        (self.func)(&self.data)
    }
}

/// The first component of a pair.
pub fn do_it(data: &(u8, u16)) -> (r: &u8)
    ensures
        *r == data.0,
{
    &data.0
}

} // verus!
