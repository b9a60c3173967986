use vstd::prelude::*;

verus! {

/// `k` is the position of the first `c` in `s`.
pub open spec fn is_first_index(s: Seq<char>, c: char, k: int) -> bool {
    &&& 0 <= k < s.len()
    &&& s[k] == c
    &&& forall|j: int| 0 <= j < k ==> s[j] != c
}

/// `s` holds no `c`.
pub open spec fn lacks(s: Seq<char>, c: char) -> bool {
    forall|j: int| 0 <= j < s.len() ==> s[j] != c
}

/// The position of the first `c` in `s`, where there is one.
pub open spec fn first_index(s: Seq<char>, c: char) -> int {
    choose|k: int| is_first_index(s, c, k)
}

/// The pieces that splitting `s` at every `c` gives, in order.
pub open spec fn split_all(s: Seq<char>, c: char) -> Seq<Seq<char>>
    decreases s.len(),
{
    if exists|k: int| is_first_index(s, c, k) {
        let k = first_index(s, c);
        seq![s.take(k)] + split_all(s.skip(k + 1), c)
    } else {
        seq![s]
    }
}

proof fn lemma_first_index_unique(s: Seq<char>, c: char, k: int)
    requires
        is_first_index(s, c, k),
    ensures
        first_index(s, c) == k,
{
    let k2 = first_index(s, c);
    assert(is_first_index(s, c, k2));
    if k2 < k {
        assert(s[k2] != c);
    } else if k < k2 {
        assert(s[k] != c);
    }
}

/// Finds the first `delimiter` in `s`: returns its position, or `None` where there is none.
fn find_char(s: &str, delimiter: char) -> (r: Option<usize>)
    ensures
        match r {
            Some(k) => is_first_index(s@, delimiter, k as int),
            None => lacks(s@, delimiter),
        },
{
    let n = s.unicode_len();
    let mut i: usize = 0;
    while i < n
        invariant
            n == s@.len(),
            i <= n,
            forall|j: int| 0 <= j < i ==> s@[j] != delimiter,
        decreases n - i,
    {
        if s.get_char(i) == delimiter {
            return Some(i);
        }
        i += 1;
    }
    None
}

/// Splits off the text before the first `delimiter`: returns it, and leaves in `s` the text
/// after that delimiter. Where `s` holds no delimiter, returns all of `s` and leaves it empty.
pub fn strtok<'a>(s: &mut &'a str, delimiter: char) -> (r: &'a str)
    ensures
        lacks(old(s)@, delimiter) ==> r@ == old(s)@ && final(s)@ == Seq::<char>::empty(),
        forall|k: int|
            is_first_index(old(s)@, delimiter, k) ==> r@ == old(s)@.take(k) && final(s)@ == old(
                s,
            )@.skip(k + 1),
{
    let t: &'a str = *s;
    let n = t.unicode_len();
    match find_char(t, delimiter) {
        Some(i) => {
            let prefix = t.substring_char(0, i);
            let suffix = t.substring_char(i + 1, n);
            *s = suffix;
            assert forall|k: int| is_first_index(old(s)@, delimiter, k) implies k == i by {
                lemma_first_index_unique(old(s)@, delimiter, k);
                lemma_first_index_unique(old(s)@, delimiter, i as int);
            }
            assert(prefix@ =~= old(s)@.take(i as int));
            assert(suffix@ =~= old(s)@.skip(i + 1));
            prefix
        },
        None => {
            let empty = t.substring_char(n, n);
            *s = empty;
            assert(empty@ =~= Seq::<char>::empty());
            t
        },
    }
}

/// Splits a text at every occurrence of a delimiter, yielding the pieces in order.
pub struct StrSplit<'r> {
    remainder: Option<&'r str>,
    delimiter: char,
}

impl<'r> View for StrSplit<'r> {
    type V = Seq<Seq<char>>;

    /// The pieces still to be yielded.
    closed spec fn view(&self) -> Seq<Seq<char>> {
        match self.remainder {
            None => Seq::empty(),
            Some(r) => split_all(r@, self.delimiter),
        }
    }
}

impl<'r> StrSplit<'r> {
    /// Splits `remainder` at every `delimiter`.
    pub fn new(remainder: &'r str, delimiter: char) -> (it: Self)
        ensures
            it@ == split_all(remainder@, delimiter),
    {
        Self { remainder: Some(remainder), delimiter }
    }

    /// Yields the next piece, or `None` once every piece has been yielded.
    pub fn next(&mut self) -> (r: Option<&'r str>)
        ensures
            old(self)@.len() == 0 ==> r is None && final(self)@ == old(self)@,
            old(self)@.len() > 0 ==> r is Some && r.unwrap()@ == old(self)@[0] && final(self)@
                == old(self)@.drop_first(),
    {
        match self.remainder {
            None => None,
            Some(remainder) => {
                let n = remainder.unicode_len();
                match find_char(remainder, self.delimiter) {
                    Some(i) => {
                        let until_delimiter = remainder.substring_char(0, i);
                        let rest = remainder.substring_char(i + 1, n);
                        self.remainder = Some(rest);
                        proof {
                            lemma_first_index_unique(remainder@, self.delimiter, i as int);
                            assert(until_delimiter@ =~= remainder@.take(i as int));
                            assert(rest@ =~= remainder@.skip(i + 1));
                            let pieces = split_all(remainder@, self.delimiter);
                            assert(pieces == seq![remainder@.take(i as int)] + split_all(
                                remainder@.skip(i + 1),
                                self.delimiter,
                            ));
                            assert(pieces.drop_first() =~= self@);
                        }
                        Some(until_delimiter)
                    },
                    None => {
                        self.remainder = None;
                        proof {
                            assert(!exists|k: int| is_first_index(remainder@, self.delimiter, k));
                            assert(old(self)@ == seq![remainder@]);
                            assert(old(self)@.drop_first() =~= self@);
                        }
                        Some(remainder)
                    },
                }
            },
        }
    }
}

/// Holds a borrowed text.
pub struct Manager<'a> {
    pub text: &'a str,
}

/// A list that owns a manager.
pub struct List<'a> {
    pub manager: Manager<'a>,
}

/// Gives mutable access to the manager of a list, for as long as it lives.
pub struct Interface<'a, 'b: 'a> {
    pub manager: &'a mut Manager<'b>,
}

impl<'a> List<'a> {
    /// Borrows the list's manager mutably through an interface.
    pub fn get_interface<'b>(&'b mut self) -> (it: Interface<'b, 'a>) where 'a: 'b
        ensures
            *it.manager == old(self).manager,
            final(self).manager == *final(it.manager),
    {
        Interface { manager: &mut self.manager }
    }
}

/// The pieces of `pieces`, joined with `c` between each two.
pub open spec fn join(pieces: Seq<Seq<char>>, c: char) -> Seq<char>
    decreases pieces.len(),
{
    if pieces.len() == 0 {
        Seq::empty()
    } else if pieces.len() == 1 {
        pieces[0]
    } else {
        pieces[0] + seq![c] + join(pieces.drop_first(), c)
    }
}

/// What `strtok` returns, the delimiter, and what it leaves, put together, give back the text.
pub proof fn lemma_strtok_reassembles(s: Seq<char>, c: char, k: int)
    requires
        is_first_index(s, c, k),
    ensures
        s.take(k) + seq![c] + s.skip(k + 1) == s,
        lacks(s.take(k), c),
{
    assert(s.take(k) + seq![c] + s.skip(k + 1) =~= s);
}

/// The predicate "is `c`".
pub open spec fn is_char(c: char) -> spec_fn(char) -> bool {
    |x: char| x == c
}

proof fn lemma_some_first_index(s: Seq<char>, c: char, j: int)
    requires
        0 <= j < s.len(),
        s[j] == c,
    ensures
        exists|k: int| is_first_index(s, c, k),
    decreases j,
{
    if exists|m: int| 0 <= m < j && s[m] == c {
        let m = choose|m: int| 0 <= m < j && s[m] == c;
        lemma_some_first_index(s, c, m);
    } else {
        assert(is_first_index(s, c, j));
    }
}

proof fn lemma_lacks_filter_empty(s: Seq<char>, c: char)
    requires
        lacks(s, c),
    ensures
        s.filter(is_char(c)).len() == 0,
{
    broadcast use vstd::seq_lib::group_filter_ensures;
    if s.filter(is_char(c)).len() > 0 {
        let x = s.filter(is_char(c))[0];
        assert(is_char(c)(x));
        assert(s.filter(is_char(c)).contains(x));
        s.lemma_filter_contains_rev(is_char(c), x);
    }
}

/// Splitting a text at every `c` and joining the pieces with `c` gives back the text; no piece
/// holds a `c`; and there is one piece more than there are `c`s.
pub proof fn lemma_split_join(s: Seq<char>, c: char)
    ensures
        join(split_all(s, c), c) == s,
        forall|i: int| 0 <= i < split_all(s, c).len() ==> lacks(#[trigger] split_all(s, c)[i], c),
        split_all(s, c).len() == s.filter(is_char(c)).len() + 1,
    decreases s.len(),
{
    if exists|k: int| is_first_index(s, c, k) {
        let k = first_index(s, c);
        let rest = s.skip(k + 1);
        lemma_split_join(rest, c);
        let pieces = split_all(s, c);
        assert(pieces == seq![s.take(k)] + split_all(rest, c));
        assert(pieces.drop_first() =~= split_all(rest, c));
        lemma_strtok_reassembles(s, c, k);
        assert(join(pieces, c) =~= s.take(k) + seq![c] + join(split_all(rest, c), c)) by {
            if split_all(rest, c).len() == 0 {
                assert(false);
            }
        }
        assert forall|i: int| 0 <= i < pieces.len() implies lacks(#[trigger] pieces[i], c) by {
            if i > 0 {
                assert(pieces[i] == split_all(rest, c)[i - 1]);
            }
        }
        assert(s =~= s.take(k) + (seq![c] + rest));
        Seq::filter_distributes_over_add(s.take(k), seq![c] + rest, is_char(c));
        rest.lemma_filter_prepend(c, is_char(c));
        lemma_lacks_filter_empty(s.take(k), c);
    } else {
        assert(lacks(s, c)) by {
            assert forall|j: int| 0 <= j < s.len() implies s[j] != c by {
                if s[j] == c {
                    lemma_some_first_index(s, c, j);
                }
            }
        }
        lemma_lacks_filter_empty(s, c);
    }
}

/// What `calls` successive calls of `next` yield from a splitter whose remaining pieces are
/// `pieces`.
pub open spec fn split_results(pieces: Seq<Seq<char>>, calls: nat) -> Seq<Option<Seq<char>>>
    decreases calls,
{
    if calls == 0 {
        Seq::empty()
    } else if pieces.len() == 0 {
        seq![None] + split_results(pieces, (calls - 1) as nat)
    } else {
        seq![Some(pieces[0])] + split_results(pieces.drop_first(), (calls - 1) as nat)
    }
}

proof fn lemma_split_results(pieces: Seq<Seq<char>>, calls: nat)
    ensures
        split_results(pieces, calls).len() == calls,
        forall|j: int|
            0 <= j < calls ==> #[trigger] split_results(pieces, calls)[j] == if j < pieces.len() {
                Some(pieces[j])
            } else {
                None
            },
    decreases calls,
{
    if calls > 0 {
        let results = split_results(pieces, calls);
        if pieces.len() == 0 {
            lemma_split_results(pieces, (calls - 1) as nat);
            assert forall|j: int| 0 <= j < calls implies #[trigger] results[j] == None::<Seq<char>> by {
                if j > 0 {
                    assert(results[j] == split_results(pieces, (calls - 1) as nat)[j - 1]);
                }
            }
        } else {
            let rest = pieces.drop_first();
            lemma_split_results(rest, (calls - 1) as nat);
            assert forall|j: int| 0 <= j < calls implies #[trigger] results[j] == if j < pieces.len() {
                Some(pieces[j])
            } else {
                None
            } by {
                if j > 0 {
                    assert(results[j] == split_results(rest, (calls - 1) as nat)[j - 1]);
                    if j < pieces.len() {
                        assert(rest[j - 1] == pieces[j]);
                    }
                }
            }
        }
    }
}

/// Successive calls of `next` on `StrSplit::new(s, c)` yield the pieces of `s` between the
/// occurrences of `c`, in order (at least one piece; empty pieces are kept, so the empty text
/// gives one empty piece), and after the first `None` every later call yields `None`.
pub proof fn lemma_str_split_yields(s: Seq<char>, c: char, calls: nat)
    ensures
        split_all(s, c).len() >= 1,
        s.len() == 0 ==> split_all(s, c) == seq![Seq::<char>::empty()],
        split_results(split_all(s, c), calls).len() == calls,
        forall|j: int|
            0 <= j < calls ==> #[trigger] split_results(split_all(s, c), calls)[j] == if j < split_all(
                s,
                c,
            ).len() {
                Some(split_all(s, c)[j])
            } else {
                None
            },
        forall|j: int, k: int|
            #![trigger split_results(split_all(s, c), calls)[j], split_results(split_all(s, c), calls)[k]]
            0 <= j <= k < calls && split_results(split_all(s, c), calls)[j] is None
                ==> split_results(split_all(s, c), calls)[k] is None,
{
    lemma_split_join(s, c);
    lemma_split_results(split_all(s, c), calls);
    if s.len() == 0 {
        assert(!exists|k: int| is_first_index(s, c, k));
        assert(split_all(s, c) == seq![s]);
        assert(s =~= Seq::<char>::empty());
    }
    assert forall|j: int, k: int|
        #![trigger split_results(split_all(s, c), calls)[j], split_results(split_all(s, c), calls)[k]]
        0 <= j <= k < calls && split_results(split_all(s, c), calls)[j] is None
            implies split_results(split_all(s, c), calls)[k] is None by {
        assert(split_results(split_all(s, c), calls)[j] == if j < split_all(s, c).len() {
            Some(split_all(s, c)[j])
        } else {
            None
        });
    }
}

} // verus!
