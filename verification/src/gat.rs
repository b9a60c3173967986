use std::ops::Deref;
use std::rc::Rc;
use std::sync::Arc;
use vstd::prelude::*;
use vstd::std_specs::iter::IteratorSpec;
use vstd::string::StringSliceAdditionalSpecFns;
use vstd::utf8::is_char_boundary;

verus! {

/// A family of smart pointers: each member points to a value of type `T`.
pub trait PointerFamily<T> {
    type Pointer: Deref<Target = T>;

    /// Puts `value` behind a new pointer of the family.
    fn new(value: T) -> Self::Pointer;
}

/// The atomically reference-counted pointers.
pub struct ArcFamily;

/// The reference-counted pointers.
pub struct RcFamily;

impl<T> PointerFamily<T> for ArcFamily {
    type Pointer = Arc<T>;

    fn new(value: T) -> (p: Arc<T>)
        ensures
            *p == value,
    {
        Arc::new(value)
    }
}

impl<T> PointerFamily<T> for RcFamily {
    type Pointer = Rc<T>;

    fn new(value: T) -> (p: Rc<T>)
        ensures
            *p == value,
    {
        Rc::new(value)
    }
}

/// Successive non-overlapping mutable windows of a slice.
pub struct WindowsMut<'t, T> {
    slice: &'t mut [T],
    start: usize,
    window_size: usize,
}

impl<'t, T> WindowsMut<'t, T> {
    /// Windows of `window_size` elements of `slice`, starting at `start`.
    pub fn new(slice: &'t mut [T], start: usize, window_size: usize) -> (w: Self)
        ensures
            w.elements() == old(slice)@,
            w.start() == start,
            w.window_size() == window_size,
    {
        Self { slice, start, window_size }
    }

    /// The elements of the slice.
    pub closed spec fn elements(&self) -> Seq<T> {
        self.slice@
    }

    /// Where the next window begins.
    pub closed spec fn start(&self) -> nat {
        self.start as nat
    }

    /// How many elements each window holds.
    pub closed spec fn window_size(&self) -> nat {
        self.window_size as nat
    }
}

impl<'t, T> WindowsMut<'t, T> {
    /// The next window does not start past the end of the slice.
    pub open spec fn inv(&self) -> bool {
        self.start() <= self.elements().len()
    }

    /// Whether `next` can be called: the next window does not start past the end.
    pub fn can_advance(&self) -> (r: bool)
        ensures
            r == self.inv(),
    {
        self.start <= self.slice.len()
    }

    /// Yields the next window, or `None` when fewer than `window_size` elements are left.
    pub fn next<'a>(&'a mut self) -> (r: Option<&'a mut [T]>)
        requires
            old(self).inv(),
        ensures
            ({
                let (s, w, n) = (old(self).start(), old(self).window_size(), old(self).elements());
                if s + w <= n.len() {
                    &&& r is Some
                    &&& r.unwrap()@ == n.subrange(s as int, s + w as int)
                    &&& final(self).start() == s + w
                    &&& final(self).window_size() == w
                    &&& final(self).elements() == n.subrange(0, s as int) + final(r.unwrap())@
                        + n.subrange(s + w as int, n.len() as int)
                } else {
                    &&& r is None
                    &&& final(self).start() == s
                    &&& final(self).window_size() == w
                    &&& final(self).elements() == n
                }
            }),
    {
        let start = self.start;
        let window_size = self.window_size;
        if self.slice.len() - start < window_size {
            return None;
        }
        let (_, rest) = self.slice.split_at_mut(start);
        let (window, _) = rest.split_at_mut(window_size);
        self.start = start + window_size;
        Some(window)
    }
}

/// Extension that groups the items of any iterator into windows.
pub trait IteratorExt: Iterator {
    /// Groups the items into vectors of `count` items (the last one may be shorter).
    fn window_count(self, count: u32) -> (w: Windows<Self>) where Self: Sized
        ensures
            w.inner() == self,
            w.count() == count,
    ;
}

impl<T: Iterator> IteratorExt for T {
    fn window_count(self, count: u32) -> (w: Windows<Self>) {
        Windows { iter: self, count }
    }
}

/// Groups the items of an inner iterator into vectors of a fixed count.
pub struct Windows<I> {
    pub(crate) iter: I,
    count: u32,
}

/// The windows that `s` is cut into, `count` items each and in order; the last one may hold
/// fewer. Nothing is cut when `count` is zero.
pub open spec fn windows_of<A>(s: Seq<A>, count: nat) -> Seq<Seq<A>>
    decreases s.len(),
{
    if count == 0 || s.len() == 0 {
        Seq::empty()
    } else if s.len() <= count {
        seq![s]
    } else {
        seq![s.take(count as int)] + windows_of(s.skip(count as int), count)
    }
}

/// The first window is the first `k` items, and the rest are the windows of what follows them.
proof fn lemma_windows_step<A>(s: Seq<A>, count: nat, k: int)
    requires
        k == (if count <= s.len() { count as int } else { s.len() as int }),
    ensures
        k == 0 <==> windows_of(s, count).len() == 0,
        k > 0 ==> windows_of(s, count)[0] == s.take(k),
        k > 0 ==> windows_of(s.skip(k), count) == windows_of(s, count).drop_first(),
{
    if k > 0 {
        if s.len() <= count {
            assert(s.take(k) =~= s);
            assert(s.skip(k).len() == 0);
            assert(windows_of(s, count).drop_first() =~= Seq::<Seq<A>>::empty());
        } else {
            assert(windows_of(s, count).drop_first() =~= windows_of(s.skip(k), count));
        }
    }
}

/// Cutting items into windows loses and reorders nothing: joined, the windows give the items
/// back; every window but the last holds `count` items, and the last holds from one to `count`.
pub proof fn lemma_windows_join<A>(s: Seq<A>, count: nat)
    requires
        count > 0,
    ensures
        windows_of(s, count).flatten() == s,
        forall|i: int|
            0 <= i < windows_of(s, count).len() - 1 ==> (#[trigger] windows_of(s, count)[i]).len()
                == count,
        windows_of(s, count).len() > 0 ==> 0 < windows_of(s, count).last().len() <= count,
    decreases s.len(),
{
    let w = windows_of(s, count);
    if s.len() == 0 {
        assert(w.flatten() =~= s);
    } else if s.len() <= count {
        assert(w == seq![s]);
        assert(w.drop_first() =~= Seq::<Seq<A>>::empty());
        assert(w.drop_first().flatten() =~= Seq::<A>::empty());
        assert(w.flatten() == w.first() + w.drop_first().flatten());
        assert(w.flatten() =~= s);
    } else {
        let rest = s.skip(count as int);
        lemma_windows_join(rest, count);
        let wr = windows_of(rest, count);
        assert(w == seq![s.take(count as int)] + wr);
        assert(w.drop_first() =~= wr);
        assert(w.first() == s.take(count as int));
        assert(w.flatten() == s.take(count as int) + wr.flatten());
        assert(s =~= s.take(count as int) + rest);
        assert forall|i: int| 0 <= i < w.len() - 1 implies (#[trigger] w[i]).len() == count by {
            if i > 0 {
                assert(w[i] == wr[i - 1]);
            }
        }
        if wr.len() > 0 {
            assert(w.last() == wr.last());
        }
    }
}

impl<I: Iterator> Windows<I> {
    /// The inner iterator.
    pub closed spec fn inner(&self) -> I {
        self.iter
    }

    /// How many items each window takes.
    pub closed spec fn count(&self) -> u32 {
        self.count
    }

    /// Yields the next `count` items (or the fewer that are left), or `None` when none is left.
    pub fn next(&mut self) -> (r: Option<Vec<I::Item>>)
        requires
            old(self).inner().obeys_prophetic_iter_laws(),
        ensures
            ({
                let items = old(self).inner().remaining();
                let k = if old(self).count() <= items.len() {
                    old(self).count() as int
                } else {
                    items.len() as int
                };
                &&& k == 0 ==> r is None
                &&& k > 0 ==> r is Some && r.unwrap()@ == items.take(k)
                &&& final(self).inner().remaining() == items.skip(k)
                &&& final(self).inner().obeys_prophetic_iter_laws()
                &&& final(self).count() == old(self).count()
                &&& r is None <==> windows_of(items, old(self).count() as nat).len() == 0
                &&& r is Some ==> r.unwrap()@ == windows_of(items, old(self).count() as nat)[0]
                &&& r is Some ==> windows_of(final(self).inner().remaining(), old(self).count() as nat)
                    == windows_of(items, old(self).count() as nat).drop_first()
            }),
    {
        let ghost items = self.iter.remaining();
        let mut data: Vec<I::Item> = Vec::new();
        let mut i: u32 = 0;
        while i < self.count
            invariant
                i <= self.count,
                self.count == old(self).count,
                self.iter.obeys_prophetic_iter_laws(),
                data@.len() <= i,
                data@.len() <= items.len(),
                data@ == items.take(data@.len() as int),
                self.iter.remaining() == items.skip(data@.len() as int),
                data@.len() < i ==> data@.len() == items.len(),
            decreases self.count - i,
        {
            let ghost before = self.iter.remaining();
            match self.iter.next() {
                Some(x) => {
                    assert(items.take(data@.len() as int + 1) =~= items.take(data@.len() as int).push(x));
                    assert(items.skip(data@.len() as int + 1) =~= before.drop_first());
                    data.push(x);
                },
                None => {},
            }
            i += 1;
        }
        proof {
            let k = if self.count as nat <= items.len() {
                self.count as int
            } else {
                items.len() as int
            };
            lemma_windows_step(items, self.count as nat, k);
        }
        if data.len() == 0 {
            None
        } else {
            Some(data)
        }
    }
}

/// Yields references to the bytes of a slice, one at a time.
pub struct ByteIter<'a> {
    pub data: &'a [u8],
}

impl<'a> ByteIter<'a> {
    /// Yields a reference to the next byte, or `None` at the end. The reference outlives the
    /// borrow of the iterator.
    pub fn next<'b>(&'b mut self) -> (r: Option<&'a u8>)
        ensures
            old(self).data@.len() == 0 ==> r is None && final(self).data@ == old(self).data@,
            old(self).data@.len() > 0 ==> r == Some(&old(self).data@[0]) && final(self).data@
                == old(self).data@.drop_first(),
    {
        if self.data.len() == 0 {
            None
        } else {
            let data: &'a [u8] = self.data;
            let byte = &data[0];
            self.data = vstd::slice::slice_subrange(data, 1, data.len());
            assert(self.data@ =~= old(self).data@.drop_first());
            Some(byte)
        }
    }
}

/// Yields the ever longer byte prefixes of a text: its first byte, its first two bytes, and so on.
pub struct StrRefHolder<'a> {
    strings: &'a str,
    i: usize,
}

impl<'a> StrRefHolder<'a> {
    /// Prefixes of `s`, starting with the one-byte prefix.
    pub fn new(s: &'a str) -> (h: StrRefHolder<'a>)
        ensures
            h.text() == s.spec_bytes(),
            h.position() == 0,
    {
        Self { strings: s, i: 0 }
    }

    /// The bytes of the text.
    pub closed spec fn text(&self) -> Seq<u8> {
        self.strings.spec_bytes()
    }

    /// The length of the last prefix yielded.
    pub closed spec fn position(&self) -> nat {
        self.i as nat
    }
}

impl<'s> StrRefHolder<'s> {
    /// The text's length fits in a `usize` (as the length of every text in memory does), and
    /// where a prefix is still to come, it ends on a character boundary.
    pub open spec fn inv(&self) -> bool {
        &&& self.text().len() <= usize::MAX
        &&& self.position() < self.text().len() ==> is_char_boundary(
            self.text(),
            self.position() as int + 1,
        )
    }

    /// Whether `next` can be called: the prefix it would yield ends on a character boundary.
    pub fn can_advance(&self) -> (r: bool)
        ensures
            r == self.inv(),
    {
        let n = self.strings.as_bytes().len();
        if self.i < n {
            self.strings.is_char_boundary(self.i + 1)
        } else {
            true
        }
    }

    /// Yields the next prefix, one byte longer than the last, or `None` after the whole text.
    pub fn next(&mut self) -> (r: Option<&str>)
        requires
            old(self).inv(),
        ensures
            old(self).position() >= old(self).text().len() ==> r is None && *final(self)
                == *old(self),
            old(self).position() < old(self).text().len() ==> r is Some,
            old(self).position() < old(self).text().len() ==> r.unwrap().spec_bytes() == old(
                self,
            ).text().take(old(self).position() as int + 1),
            old(self).position() < old(self).text().len() ==> final(self).position()
                == old(self).position() + 1,
            final(self).text() == old(self).text(),
    {
        if self.i >= self.strings.len() {
            None
        } else {
            self.i += 1;
            let (prefix, _) = self.strings.split_at(self.i);
            assert(prefix.spec_bytes() =~= old(self).text().take(self.i as int));
            Some(prefix)
        }
    }
}

} // verus!

verus! {

/// A container of items.
pub trait Container: Sized {
    type Item;

    /// The items that `self` holds, in order.
    spec fn items(self) -> Seq<Self::Item>;
}

impl<T> Container for Option<T> {
    type Item = T;

    open spec fn items(self) -> Seq<T> {
        match self {
            None => Seq::empty(),
            Some(x) => seq![x],
        }
    }
}

impl<T, E> Container for Result<T, E> {
    type Item = T;

    open spec fn items(self) -> Seq<T> {
        match self {
            Err(_) => Seq::empty(),
            Ok(x) => seq![x],
        }
    }
}

impl<T> Container for Vec<T> {
    type Item = T;

    open spec fn items(self) -> Seq<T> {
        self@
    }
}

/// A container whose items can all be transformed at once by a function of type `F`.
pub trait Mapper<U, F>: Container {
    type Result: Container<Item = U>;

    /// `r` has the shape of `self`: the same kind of container, with whatever does not take part
    /// in the mapping (an error) carried over.
    spec fn same_shape(self, r: Self::Result) -> bool;

    /// The container shaped as `self`, with `f` applied to each item, in order.
    fn map(self, f: F) -> (r: Self::Result) where F: FnMut(Self::Item) -> U
        requires
            forall|i: int| 0 <= i < self.items().len() ==> f.requires((#[trigger] self.items()[i],)),
        ensures
            <Self as Mapper<U, F>>::same_shape(self, r),
            r.items().len() == self.items().len(),
            forall|i: int|
                0 <= i < self.items().len() ==> f.ensures((self.items()[i],), #[trigger] r.items()[i]),
    ;
}

impl<T, U, F> Mapper<U, F> for Option<T> {
    type Result = Option<U>;

    open spec fn same_shape(self, r: Option<U>) -> bool {
        self is Some <==> r is Some
    }

    fn map(self, mut f: F) -> (r: Option<U>) where F: FnMut(T) -> U {
        match self {
            Some(x) => {
                assert(self.items()[0] == x);
                let y = f(x);
                let r = Some(y);
                assert(r.items()[0] == y);
                r
            },
            None => None,
        }
    }
}

impl<T, E, U, F> Mapper<U, F> for Result<T, E> {
    type Result = Result<U, E>;

    open spec fn same_shape(self, r: Result<U, E>) -> bool {
        match self {
            Err(e) => r == Err::<U, E>(e),
            Ok(_) => r is Ok,
        }
    }

    fn map(self, mut f: F) -> (r: Result<U, E>) where F: FnMut(T) -> U {
        match self {
            Ok(x) => {
                assert(self.items()[0] == x);
                let y = f(x);
                let r = Ok(y);
                assert(r.items()[0] == y);
                r
            },
            Err(e) => Err(e),
        }
    }
}

impl<T, U, F> Mapper<U, F> for Vec<T> {
    type Result = Vec<U>;

    open spec fn same_shape(self, r: Vec<U>) -> bool {
        true
    }

    fn map(self, mut f: F) -> (r: Vec<U>) where F: FnMut(T) -> U {
        let ghost items = self@;
        let ghost f0 = f;
        assert forall|i: int| 0 <= i < items.len() implies f.requires((#[trigger] items[i],)) by {
            assert(self.items()[i] == items[i]);
        }
        let mut out: Vec<U> = Vec::new();
        for x in iter: self.into_iter()
            invariant
                f == f0,
                forall|i: int| 0 <= i < items.len() ==> f.requires((#[trigger] items[i],)),
                iter.seq() == items,
                out@.len() == iter.index(),
                forall|i: int| 0 <= i < out@.len() ==> f.ensures((items[i],), #[trigger] out@[i]),
        {
            let y = f(x);
            out.push(y);
        }
        assert(out@.len() == items.len());
        out
    }
}

} // verus!
