use std::collections::HashSet;
use std::hash::Hash;
use vstd::prelude::*;
use vstd::std_specs::hash::obeys_key_model;
use vstd::std_specs::iter::IteratorSpec;
use crate::iter::clone_is_copy;

verus! {

broadcast use vstd::std_specs::hash::group_hash_axioms;

/// The items of `s` that are neither in `seen` nor equal to an earlier item of `s`, in order.
pub open spec fn dedup<A>(s: Seq<A>, seen: Set<A>) -> Seq<A>
    decreases s.len(),
{
    if s.len() == 0 {
        Seq::empty()
    } else if seen.contains(s[0]) {
        dedup(s.drop_first(), seen)
    } else {
        seq![s[0]] + dedup(s.drop_first(), seen.insert(s[0]))
    }
}

/// Removing repeated items from any iterator.
pub trait UniqueIterator: Iterator + Sized {
    /// An iterator over the items of `self`, each yielded only the first time it comes.
    fn unique(self) -> (u: Unique<Self>) where Self::Item: Clone + Eq + Hash
        ensures
            u.inner() == self,
            u.seen() == Set::<Self::Item>::empty(),
    {
        Unique { iter: self, seen: HashSet::new() }
    }
}

impl<T> UniqueIterator for T where T: Iterator, T::Item: Clone {

}

/// Yields the items of an inner iterator that it has not yielded before.
pub struct Unique<I> where I: Iterator {
    iter: I,
    seen: HashSet<I::Item>,
}

impl<I> Unique<I> where I: Iterator, I::Item: Clone + Eq + Hash {
    /// The inner iterator.
    pub closed spec fn inner(&self) -> I {
        self.iter
    }

    /// The items already yielded.
    pub closed spec fn seen(&self) -> Set<I::Item> {
        self.seen@
    }

    /// Yields the next item not yielded before, or `None` once the inner iterator is exhausted.
    pub fn next(&mut self) -> (r: Option<I::Item>)
        requires
            old(self).inner().obeys_prophetic_iter_laws(),
            old(self).inner().decrease() is Some,
            obeys_key_model::<I::Item>(),
            clone_is_copy::<I::Item>(),
        ensures
            final(self).inner().obeys_prophetic_iter_laws(),
            final(self).inner().decrease() is Some,
            ({
                let before = dedup(old(self).inner().remaining(), old(self).seen());
                let after = dedup(final(self).inner().remaining(), final(self).seen());
                &&& before.len() == 0 ==> r is None && after == before
                &&& before.len() > 0 ==> r == Some(before[0]) && after == before.drop_first()
            }),
    {
        loop
            invariant
                self.iter.obeys_prophetic_iter_laws(),
                self.iter.decrease() is Some,
                obeys_key_model::<I::Item>(),
                clone_is_copy::<I::Item>(),
                dedup(self.iter.remaining(), self.seen@) == dedup(
                    old(self).iter.remaining(),
                    old(self).seen@,
                ),
            decreases self.iter.decrease()->0,
        {
            let ghost before = self.iter.remaining();
            let ghost seen_before = self.seen@;
            match self.iter.next() {
                None => {
                    return None;
                },
                Some(item) => {
                    let copy = item.clone();
                    let fresh = self.seen.insert(copy);
                    proof {
                        assert(before.drop_first() == self.iter.remaining());
                        assert(before[0] == item);
                    }
                    if fresh {
                        return Some(item);
                    }
                    assert(self.seen@ =~= seen_before);
                },
            }
        }
    }
}

/// Removing repeats yields no item twice, and yields exactly those items of `s` that are not in
/// `seen`; from a fresh start (nothing seen), every distinct item of `s` comes out once.
pub proof fn lemma_dedup_items<A>(s: Seq<A>, seen: Set<A>)
    ensures
        dedup(s, seen).no_duplicates(),
        forall|x: A| #[trigger] dedup(s, seen).contains(x) <==> (s.contains(x) && !seen.contains(x)),
        dedup(s, seen).len() <= s.len(),
    decreases s.len(),
{
    if s.len() == 0 {
    } else {
        let rest = s.drop_first();
        assert forall|x: A| x != s[0] implies (#[trigger] s.contains(x) <==> rest.contains(x)) by {
            if s.contains(x) {
                let i = choose|i: int| 0 <= i < s.len() && s[i] == x;
                assert(rest[i - 1] == x);
            }
            if rest.contains(x) {
                let i = choose|i: int| 0 <= i < rest.len() && rest[i] == x;
                assert(s[i + 1] == x);
            }
        }
        assert(s.contains(s[0])) by {
            assert(s[0] == s[0]);
        }
        if seen.contains(s[0]) {
            lemma_dedup_items(rest, seen);
        } else {
            let seen2 = seen.insert(s[0]);
            lemma_dedup_items(rest, seen2);
            let tail = dedup(rest, seen2);
            let d = seq![s[0]] + tail;
            assert(dedup(s, seen) == d);
            assert(!tail.contains(s[0]));
            assert forall|i: int, j: int| 0 <= i < d.len() && 0 <= j < d.len() && i != j implies d[i]
                != d[j] by {
                if i == 0 && j > 0 {
                    assert(tail[j - 1] == d[j]);
                    assert(tail.contains(d[j]));
                } else if j == 0 && i > 0 {
                    assert(tail[i - 1] == d[i]);
                    assert(tail.contains(d[i]));
                } else if i > 0 && j > 0 {
                    assert(d[i] == tail[i - 1] && d[j] == tail[j - 1]);
                }
            }
            assert forall|x: A| #[trigger] d.contains(x) <==> (s.contains(x) && !seen.contains(x)) by {
                if x == s[0] {
                    assert(d[0] == x);
                } else {
                    if d.contains(x) {
                        let i = choose|i: int| 0 <= i < d.len() && d[i] == x;
                        assert(tail[i - 1] == x);
                    }
                    if tail.contains(x) {
                        let i = choose|i: int| 0 <= i < tail.len() && tail[i] == x;
                        assert(d[i + 1] == x);
                    }
                }
            }
        }
    }
}

} // verus!
