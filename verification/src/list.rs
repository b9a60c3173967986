use vstd::prelude::*;

verus! {

/// A singly linked stack: `push` and `pop` work at the head.
pub struct List<T> {
    head: Option<Box<Node<T>>>,
}

/// A cell of a list: an element and the rest of the list.
pub struct Node<T> {
    elem: T,
    next: Option<Box<Node<T>>>,
}

impl<T> Node<T> {
    /// The element of this cell followed by those of the cells after it.
    pub closed spec fn elements(self) -> Seq<T> {
        seq![self.elem] + link_view(self.next)
    }
}

/// The elements reachable from a link, head first.
spec fn link_view<T>(link: Option<Box<Node<T>>>) -> Seq<T>
    decreases link,
{
    match link {
        None => Seq::empty(),
        Some(node) => seq![node.elem] + link_view(node.next),
    }
}

impl<T> View for List<T> {
    type V = Seq<T>;

    closed spec fn view(&self) -> Seq<T> {
        link_view(self.head)
    }
}

impl<T> List<T> {
    /// Constructs a new, empty list.
    pub fn new() -> (list: Self)
        ensures
            list@ == Seq::<T>::empty(),
    {
        List { head: None }
    }

    /// Inserts an element at the front of the list.
    pub fn push(&mut self, elem: T)
        ensures
            final(self)@ == seq![elem] + old(self)@,
    {
        let next = self.head.take();
        self.head = Some(Box::new(Node { elem, next }));
    }

    /// Removes the first element and returns it, or `None` if the list is empty.
    pub fn pop(&mut self) -> (r: Option<T>)
        ensures
            old(self)@.len() == 0 ==> r is None && final(self)@ == old(self)@,
            old(self)@.len() > 0 ==> r == Some(old(self)@[0]) && final(self)@ == old(self)@.drop_first(),
    {
        match self.head.take() {
            None => None,
            Some(node) => {
                let node = *node;
                self.head = node.next;
                assert(old(self)@.drop_first() =~= link_view(self.head));
                Some(node.elem)
            }
        }
    }

    /// Returns a reference to the first element.
    pub fn peek(&self) -> (r: Option<&T>)
        ensures
            self@.len() == 0 ==> r is None,
            self@.len() > 0 ==> r == Some(&self@[0]),
    {
        match &self.head {
            None => None,
            Some(node) => Some(&node.elem),
        }
    }

    /// Returns a mutable reference to the first element.
    pub fn peek_mut(&mut self) -> (r: Option<&mut T>)
        ensures
            old(self)@.len() == 0 ==> r is None && final(self)@ == old(self)@,
            old(self)@.len() > 0 ==> r is Some && *r.unwrap() == old(self)@[0]
                && final(self)@ == old(self)@.update(0, *final(r.unwrap())),
    {
        match &mut self.head {
            None => None,
            Some(node) => Some(&mut node.elem),
        }
    }

    /// Turns the list into an iterator that moves each element out, head first.
    pub fn into_iter(self) -> (it: IntoIter<T>)
        ensures
            it@ == self@,
    {
        IntoIter(self)
    }

    /// Returns an iterator over references to the elements, head first.
    pub fn iter(&self) -> (it: Iter<'_, T>)
        ensures
            it@ == self@,
    {
        Iter { next: as_node_ref(&self.head) }
    }

    /// Returns an iterator over mutable references to the elements, head first.
    pub fn iter_mut(&mut self) -> (it: IterMut<'_, T>)
        ensures
            it@ == old(self)@,
            it.cursor() is None <==> it@.len() == 0,
            it.cursor() is None ==> final(self)@ == Seq::<T>::empty(),
            it.cursor() is Some ==> final(self)@ == (*final(it.cursor().unwrap())).elements(),
    {
        IterMut { next: as_node_mut(&mut self.head) }
    }
}

fn as_node_ref<T>(link: &Option<Box<Node<T>>>) -> (r: Option<&Node<T>>)
    ensures
        ref_view(r) == link_view(*link),
{
    match link {
        None => None,
        Some(node) => Some(&**node),
    }
}

fn as_node_mut<T>(link: &mut Option<Box<Node<T>>>) -> (r: Option<&mut Node<T>>)
    ensures
        mut_view(r) == link_view(*old(link)),
        r is None ==> *final(link) is None,
        r is Some ==> *final(link) == Some(Box::new(*final(r.unwrap()))),
{
    match link {
        None => None,
        Some(node) => Some(&mut **node),
    }
}

/// The elements reachable from a borrowed node, head first.
spec fn ref_view<T>(r: Option<&Node<T>>) -> Seq<T> {
    match r {
        None => Seq::empty(),
        Some(node) => seq![node.elem] + link_view(node.next),
    }
}

/// The current elements reachable from a mutably borrowed node, head first.
spec fn mut_view<T>(r: Option<&mut Node<T>>) -> Seq<T> {
    match r {
        None => Seq::empty(),
        Some(node) => seq![node.elem] + link_view(node.next),
    }
}

/// Moves the elements out of a list, head first.
pub struct IntoIter<T>(List<T>);

impl<T> View for IntoIter<T> {
    type V = Seq<T>;

    closed spec fn view(&self) -> Seq<T> {
        self.0@
    }
}

impl<T> IntoIter<T> {
    /// Yields the next element, or `None` once the list is exhausted.
    pub fn next(&mut self) -> (r: Option<T>)
        ensures
            old(self)@.len() == 0 ==> r is None && final(self)@ == old(self)@,
            old(self)@.len() > 0 ==> r == Some(old(self)@[0]) && final(self)@ == old(self)@.drop_first(),
            (r, final(self)@) == step(old(self)@),
    {
        self.0.pop()
    }
}

/// Borrows the elements of a list, head first.
pub struct Iter<'a, T> {
    next: Option<&'a Node<T>>,
}

impl<'a, T> View for Iter<'a, T> {
    type V = Seq<T>;

    closed spec fn view(&self) -> Seq<T> {
        ref_view(self.next)
    }
}

impl<'a, T> Iter<'a, T> {
    /// Yields a reference to the next element, or `None` at the end.
    pub fn next(&mut self) -> (r: Option<&'a T>)
        ensures
            old(self)@.len() == 0 ==> r is None && final(self)@ == old(self)@,
            old(self)@.len() > 0 ==> r == Some(&old(self)@[0]) && final(self)@ == old(self)@.drop_first(),
            (match r {
                Some(x) => Some(*x),
                None => None,
            }, final(self)@) == step(old(self)@),
    {
        match self.next {
            None => None,
            Some(node) => {
                self.next = as_node_ref(&node.next);
                assert(old(self)@.drop_first() =~= self@);
                Some(&node.elem)
            }
        }
    }
}

/// Mutably borrows the elements of a list, head first.
pub struct IterMut<'a, T> {
    next: Option<&'a mut Node<T>>,
}

impl<'a, T> View for IterMut<'a, T> {
    type V = Seq<T>;

    closed spec fn view(&self) -> Seq<T> {
        mut_view(self.next)
    }
}

impl<'a, T> IterMut<'a, T> {
    /// The cell of the next element, where there is one.
    pub closed spec fn cursor(&self) -> Option<&'a mut Node<T>> {
        self.next
    }

    /// Yields a mutable reference to the next element, or `None` at the end.
    pub fn next(&mut self) -> (r: Option<&'a mut T>)
        ensures
            old(self)@.len() == 0 ==> r is None && final(self)@ == old(self)@,
            old(self)@.len() > 0 ==> r is Some && *r.unwrap() == old(self)@[0]
                && final(self)@ == old(self)@.drop_first(),
            final(self).cursor() is None <==> final(self)@.len() == 0,
            old(self).cursor() is Some ==> (*final(old(self).cursor().unwrap())).elements() == seq![
                *final(r.unwrap()),
            ] + (if final(self).cursor() is Some {
                (*final(final(self).cursor().unwrap())).elements()
            } else {
                Seq::<T>::empty()
            }),
    {
        match self.next.take() {
            None => None,
            Some(node) => {
                self.next = as_node_mut(&mut node.next);
                Some(&mut node.elem)
            }
        }
    }
}

/// Popping right after pushing `x` onto a list with the elements `s` gives back `x` and leaves
/// the list as it was; peeking at that moment shows `x` too.
pub proof fn lemma_pop_after_push<T>(s: Seq<T>, x: T)
    ensures
        (seq![x] + s).len() > 0,
        (seq![x] + s)[0] == x,
        (seq![x] + s).drop_first() == s,
{
    assert((seq![x] + s).drop_first() =~= s);
}

/// Pushing `a` then `b` and popping twice gives `b` first, then `a`, and the list as it was.
pub proof fn lemma_last_in_first_out<T>(s: Seq<T>, a: T, b: T)
    ensures
        (seq![b] + (seq![a] + s))[0] == b,
        (seq![b] + (seq![a] + s)).drop_first()[0] == a,
        (seq![b] + (seq![a] + s)).drop_first().drop_first() == s,
{
    lemma_pop_after_push(s, a);
    lemma_pop_after_push(seq![a] + s, b);
}

/// One call of `next` on an iterator whose remaining elements are `s`: the head and the rest,
/// or nothing and `s` unchanged once `s` is empty.
pub open spec fn step<A>(s: Seq<A>) -> (Option<A>, Seq<A>) {
    if s.len() == 0 {
        (None, s)
    } else {
        (Some(s[0]), s.drop_first())
    }
}

/// What `calls` successive calls of `next` yield from the remaining elements `s`.
pub open spec fn run<A>(s: Seq<A>, calls: nat) -> Seq<Option<A>>
    decreases calls,
{
    if calls == 0 {
        Seq::empty()
    } else {
        seq![step(s).0] + run(step(s).1, (calls - 1) as nat)
    }
}

proof fn lemma_run_in_order<A>(s: Seq<A>, calls: nat)
    ensures
        run(s, calls).len() == calls,
        forall|j: int|
            0 <= j < calls ==> #[trigger] run(s, calls)[j] == if j < s.len() {
                Some(s[j])
            } else {
                None
            },
    decreases calls,
{
    if calls > 0 {
        let rest = step(s).1;
        lemma_run_in_order(rest, (calls - 1) as nat);
        let r = run(s, calls);
        assert forall|j: int| 0 <= j < calls implies #[trigger] r[j] == if j < s.len() {
            Some(s[j])
        } else {
            None
        } by {
            if j > 0 {
                assert(r[j] == run(rest, (calls - 1) as nat)[j - 1]);
                if s.len() > 0 && j < s.len() {
                    assert(rest[j - 1] == s[j]);
                }
            }
        }
    }
}

/// Successive calls of `next` on the iterator that `into_iter` makes of a list with the
/// elements `s` move out `s[0]`, `s[1]`, ..., `s[s.len() - 1]`, head first, each exactly once,
/// and then yield `None` on every later call.
pub proof fn lemma_into_iter_yields_in_order<T>(s: Seq<T>, calls: nat)
    ensures
        run(s, calls).len() == calls,
        forall|j: int|
            0 <= j < calls ==> #[trigger] run(s, calls)[j] == if j < s.len() {
                Some(s[j])
            } else {
                None
            },
{
    lemma_run_in_order(s, calls);
}

/// Successive calls of `next` on the iterator that `iter` makes of a list with the elements `s`
/// yield references to `s[0]`, `s[1]`, ..., `s[s.len() - 1]`, head first, and then `None` on every
/// later call; the list itself is only borrowed and keeps its elements.
pub proof fn lemma_iter_yields_in_order<T>(s: Seq<T>, calls: nat)
    ensures
        run(s, calls).len() == calls,
        forall|j: int|
            0 <= j < calls ==> #[trigger] run(s, calls)[j] == if j < s.len() {
                Some(s[j])
            } else {
                None
            },
{
    lemma_run_in_order(s, calls);
}

} // verus!
