use std::collections::HashMap;
use std::hash::Hash;
use vstd::prelude::*;
use vstd::std_specs::hash::obeys_key_model;

verus! {

broadcast use vstd::std_specs::hash::group_hash_axioms;

/// `f` accepts every argument.
pub open spec fn fn_total<A, B, F: Fn(A) -> B>(f: F) -> bool {
    forall|a: A| #[trigger] f.requires((a,))
}

/// `f` gives at most one result for each argument.
pub open spec fn fn_deterministic<A, B, F: Fn(A) -> B>(f: F) -> bool {
    forall|a: A, b1: B, b2: B|
        #![trigger f.ensures((a,), b1), f.ensures((a,), b2)]
        f.ensures((a,), b1) && f.ensures((a,), b2) ==> b1 == b2
}

/// The result of applying `f` to `a`.
pub open spec fn fn_value<A, B, F: Fn(A) -> B>(f: F, a: A) -> B {
    choose|b: B| f.ensures((a,), b)
}

/// A result that a deterministic `f` gave on `a` is its value on `a`.
pub proof fn lemma_fn_value_is_result<A, B, F: Fn(A) -> B>(f: F, a: A, b: B)
    requires
        fn_deterministic(f),
        f.ensures((a,), b),
    ensures
        fn_value(f, a) == b,
{
}

/// An answer that a deterministic predicate `p` gave on `a` is its value on `a`.
pub proof fn lemma_pred_value_is_result<A, P: Fn(&A) -> bool>(p: P, a: A, b: bool)
    requires
        pred_deterministic(p),
        p.ensures((&a,), b),
    ensures
        pred_value(p, a) == b,
{
}

/// `f`, as a mathematical function.
pub open spec fn fn_as_spec<A, B, F: Fn(A) -> B>(f: F) -> spec_fn(A) -> B {
    |a: A| fn_value(f, a)
}

/// The predicate `p` accepts every argument.
pub open spec fn pred_total<A, P: Fn(&A) -> bool>(p: P) -> bool {
    forall|a: A| #[trigger] p.requires((&a,))
}

/// The predicate `p` gives at most one answer for each argument.
pub open spec fn pred_deterministic<A, P: Fn(&A) -> bool>(p: P) -> bool {
    forall|a: A, b1: bool, b2: bool|
        #![trigger p.ensures((&a,), b1), p.ensures((&a,), b2)]
        p.ensures((&a,), b1) && p.ensures((&a,), b2) ==> b1 == b2
}

/// The answer of the predicate `p` on `a`.
pub open spec fn pred_value<A, P: Fn(&A) -> bool>(p: P, a: A) -> bool {
    choose|b: bool| p.ensures((&a,), b)
}

/// `p`, as a mathematical predicate.
pub open spec fn pred_as_spec<A, P: Fn(&A) -> bool>(p: P) -> spec_fn(A) -> bool {
    |a: A| pred_value(p, a)
}

/// Cloning a `T` gives back an equal value.
pub open spec fn clone_is_copy<T: Clone>() -> bool {
    forall|a: T, b: T| #[trigger] call_ensures(T::clone, (&a,), b) ==> a == b
}

/// The map that inserting the pairs of `pairs` in order into an empty map builds.
pub open spec fn pairs_to_map<K, V>(pairs: Seq<(K, V)>) -> vstd::map::Map<K, V>
    decreases pairs.len(),
{
    if pairs.len() == 0 {
        vstd::map::Map::empty()
    } else {
        let last = pairs.last();
        pairs_to_map(pairs.drop_last()).insert(last.0, last.1)
    }
}

/// A source of items, yielded one at a time.
pub trait Iterator {
    type Item;

    /// The items still to be yielded, in the order they come.
    spec fn rest(&self) -> Seq<Self::Item>;

    /// The iterator is in a state from which `next` works.
    spec fn inv(&self) -> bool;

    /// Yields the next item, or `None` once every item has been yielded.
    fn next(&mut self) -> (r: Option<Self::Item>)
        requires
            old(self).inv(),
        ensures
            final(self).inv(),
            old(self).rest().len() == 0 ==> r is None && final(self).rest() == old(self).rest(),
            old(self).rest().len() > 0 ==> r == Some(old(self).rest()[0]) && final(self).rest()
                == old(self).rest().drop_first(),
    ;
}

/// The adapters and the collecting that every iterator offers.
pub trait IterOps: Iterator + Sized {
    /// An iterator that yields `f` applied to each remaining item.
    fn map<B, F>(self, f: F) -> (m: MapIter<Self, F>) where F: Fn(Self::Item) -> B
        requires
            self.inv(),
            fn_total(f),
            fn_deterministic(f),
        ensures
            m.inv(),
            m.rest() == self.rest().map_values(fn_as_spec(f)),
    ;

    /// An iterator that yields the remaining items on which `predicate` holds.
    fn filter<P>(self, predicate: P) -> (m: Filter<Self, P>) where
        P: Fn(&Self::Item) -> bool,

        requires
            self.inv(),
            pred_total(predicate),
            pred_deterministic(predicate),
        ensures
            m.inv(),
            m.rest() == self.rest().filter(pred_as_spec(predicate)),
    ;

    /// Gathers the remaining items into a collection.
    fn collect<B>(self) -> (b: B) where B: FromIterator<Self::Item>
        requires
            self.inv(),
        ensures
            B::collected(self.rest(), b),
    ;
}

impl<I: Iterator> IterOps for I {
    fn map<B, F>(self, f: F) -> (m: MapIter<Self, F>) where F: Fn(I::Item) -> B {
        MapIter::new(self, f)
    }

    fn filter<P>(self, predicate: P) -> (m: Filter<Self, P>) where P: Fn(&I::Item) -> bool {
        Filter::new(self, predicate)
    }

    fn collect<B>(self) -> (b: B) where B: FromIterator<I::Item> {
        B::my_from_iter(self)
    }
}

/// A collection that can be built from the items of an iterator.
pub trait FromIterator<T>: Sized {
    /// `result` is what collecting `items`, in order, builds.
    spec fn collected(items: Seq<T>, result: Self) -> bool;

    /// Builds the collection from every remaining item of `iter`.
    fn my_from_iter<I>(iter: I) -> (r: Self) where I: Iterator<Item = T>
        requires
            iter.inv(),
        ensures
            Self::collected(iter.rest(), r),
    ;
}

impl<T> FromIterator<T> for Vec<T> {
    open spec fn collected(items: Seq<T>, result: Self) -> bool {
        result@ == items
    }

    fn my_from_iter<I>(iter: I) -> (r: Self) where I: Iterator<Item = T> {
        let mut iter = iter;
        let ghost items = iter.rest();
        let mut vec = Vec::new();
        loop
            invariant
                iter.inv(),
                vec@ + iter.rest() == items,
            ensures
                vec@ == items,
            decreases iter.rest().len(),
        {
            let ghost before = iter.rest();
            match iter.next() {
                Some(x) => {
                    vec.push(x);
                    assert(vec@ + iter.rest() =~= items) by {
                        assert(before =~= seq![x] + iter.rest());
                    }
                },
                None => {
                    assert(vec@ =~= items);
                    break ;
                },
            }
        }
        vec
    }
}

impl<K, V> FromIterator<(K, V)> for HashMap<K, V> where K: Eq + Hash {
    open spec fn collected(items: Seq<(K, V)>, result: Self) -> bool {
        obeys_key_model::<K>() ==> result@ == pairs_to_map(items)
    }

    fn my_from_iter<I>(iter: I) -> (r: Self) where I: Iterator<Item = (K, V)> {
        let mut iter = iter;
        let ghost items = iter.rest();
        let ghost mut done: Seq<(K, V)> = Seq::empty();
        let mut map = HashMap::new();
        loop
            invariant
                iter.inv(),
                done + iter.rest() == items,
                obeys_key_model::<K>() ==> map@ == pairs_to_map(done),
            ensures
                obeys_key_model::<K>() ==> map@ == pairs_to_map(items),
            decreases iter.rest().len(),
        {
            let ghost before = iter.rest();
            match iter.next() {
                Some(x) => {
                    let (k, v) = x;
                    map.insert(k, v);
                    proof {
                        assert(before =~= seq![x] + iter.rest());
                        assert(done.push(x).drop_last() =~= done);
                        done = done.push(x);
                        assert(done + iter.rest() =~= items);
                    }
                },
                None => {
                    assert(done =~= items);
                    break ;
                },
            }
        }
        map
    }
}

/// Applies a function to each item of an inner iterator.
pub struct MapIter<I, F> {
    iter: I,
    f: F,
}

impl<I, F> MapIter<I, F> {
    /// Wraps `iter` so that each item goes through `f`.
    pub fn new<B>(iter: I, f: F) -> (m: Self) where I: Iterator, F: Fn(I::Item) -> B
        requires
            iter.inv(),
            fn_total(f),
            fn_deterministic(f),
        ensures
            m.inv(),
            m.rest() == iter.rest().map_values(fn_as_spec(f)),
    {
        MapIter { iter, f }
    }
}

impl<B, I, F> Iterator for MapIter<I, F> where I: Iterator, F: Fn(I::Item) -> B {
    type Item = B;

    closed spec fn rest(&self) -> Seq<B> {
        self.iter.rest().map_values(fn_as_spec(self.f))
    }

    closed spec fn inv(&self) -> bool {
        &&& self.iter.inv()
        &&& fn_total(self.f)
        &&& fn_deterministic(self.f)
    }

    fn next(&mut self) -> (r: Option<B>) {
        let ghost before = self.iter.rest();
        match self.iter.next() {
            Some(x) => {
                let y = (self.f)(x);
                assert(self.rest() =~= old(self).rest().drop_first());
                Some(y)
            },
            None => None,
        }
    }
}

/// Yields only the items of an inner iterator on which a predicate holds.
pub struct Filter<I, P> {
    iter: I,
    p: P,
}

impl<I, P> Filter<I, P> {
    /// Wraps `iter` so that only the items on which `p` holds come out.
    pub fn new(iter: I, p: P) -> (m: Self) where I: Iterator, P: Fn(&I::Item) -> bool
        requires
            iter.inv(),
            pred_total(p),
            pred_deterministic(p),
        ensures
            m.inv(),
            m.rest() == iter.rest().filter(pred_as_spec(p)),
    {
        Filter { iter, p }
    }
}

impl<I, P> Iterator for Filter<I, P> where I: Iterator, P: Fn(&I::Item) -> bool {
    type Item = I::Item;

    closed spec fn rest(&self) -> Seq<I::Item> {
        self.iter.rest().filter(pred_as_spec(self.p))
    }

    closed spec fn inv(&self) -> bool {
        &&& self.iter.inv()
        &&& pred_total(self.p)
        &&& pred_deterministic(self.p)
    }

    fn next(&mut self) -> (r: Option<I::Item>) {
        loop
            invariant
                self.inv(),
                self.p == old(self).p,
                self.rest() == old(self).rest(),
            decreases self.iter.rest().len(),
        {
            let ghost before = self.iter.rest();
            match self.iter.next() {
                Some(x) => {
                    let keep = (self.p)(&x);
                    proof {
                        assert(before =~= seq![x] + self.iter.rest());
                        self.iter.rest().lemma_filter_prepend(x, pred_as_spec(self.p));
                    }
                    if keep {
                        return Some(x);
                    }
                },
                None => {
                    proof {
                        reveal(Seq::filter);
                    }
                    return None;
                },
            }
        }
    }
}

/// Yields clones of the elements of a slice, in order.
pub struct SliceIterator<'a, T> {
    data: &'a [T],
    pos: usize,
}

impl<'a, T> SliceIterator<'a, T> {
    /// An iterator over the whole of `data`.
    pub fn new(data: &'a [T]) -> (it: Self)
        ensures
            it.well_formed(),
            it@ == data@,
    {
        let it = SliceIterator { data, pos: 0 };
        assert(it@ =~= data@);
        it
    }

    /// The position lies within the slice.
    pub closed spec fn well_formed(&self) -> bool {
        self.pos <= self.data@.len()
    }
}

impl<'a, T> View for SliceIterator<'a, T> {
    type V = Seq<T>;

    /// The elements not yet yielded.
    closed spec fn view(&self) -> Seq<T> {
        self.data@.subrange(self.pos as int, self.data@.len() as int)
    }
}

impl<'a, T: Clone> Iterator for SliceIterator<'a, T> {
    type Item = T;

    open spec fn rest(&self) -> Seq<T> {
        self@
    }

    open spec fn inv(&self) -> bool {
        &&& self.well_formed()
        &&& clone_is_copy::<T>()
    }

    fn next(&mut self) -> (r: Option<T>) {
        if self.pos >= self.data.len() {
            None
        } else {
            let result = self.data[self.pos].clone();
            self.pos += 1;
            assert(self.rest() =~= old(self).rest().drop_first());
            Some(result)
        }
    }
}

/// Filtering keeps only items on which the predicate holds, keeps each of them, and never
/// yields more items than it was given; mapping yields one item per item, in order.
pub proof fn lemma_adapter_outputs<A, B>(s: Seq<A>, p: spec_fn(A) -> bool, f: spec_fn(A) -> B)
    ensures
        forall|i: int| 0 <= i < s.filter(p).len() ==> p(#[trigger] s.filter(p)[i]),
        forall|i: int| 0 <= i < s.filter(p).len() ==> s.contains(#[trigger] s.filter(p)[i]),
        forall|i: int| 0 <= i < s.len() && p(s[i]) ==> #[trigger] s.filter(p).contains(s[i]),
        s.filter(p).len() <= s.len(),
        s.map_values(f).len() == s.len(),
        forall|i: int| 0 <= i < s.len() ==> #[trigger] s.map_values(f)[i] == f(s[i]),
{
    broadcast use vstd::seq_lib::group_filter_ensures;
    assert forall|i: int| 0 <= i < s.filter(p).len() implies s.contains(#[trigger] s.filter(p)[i]) by {
        assert(s.filter(p).contains(s.filter(p)[i]));
        s.lemma_filter_contains_rev(p, s.filter(p)[i]);
    }
}

} // verus!
