use idioms::list::List;

#[test]
fn basics_should_work() {
    let mut list = List::new();

    assert_eq!(list.pop(), None);

    list.push(1);
    list.push(2);
    list.push(3);

    assert_eq!(list.pop(), Some(3));
    assert_eq!(list.pop(), Some(2));

    list.push(4);
    list.push(5);

    assert_eq!(list.pop(), Some(5));
    assert_eq!(list.pop(), Some(4));

    assert_eq!(list.pop(), Some(1));
    assert_eq!(list.pop(), None);
}

#[test]
fn peek_should_work() {
    let mut list = List::new();
    assert_eq!(list.peek(), None);
    assert_eq!(list.peek_mut(), None);
    list.push(1);
    list.push(2);
    list.push(3);

    assert_eq!(list.peek(), Some(&3));
    assert_eq!(list.peek_mut(), Some(&mut 3));

    list.peek_mut().map(|value| *value = 42);

    assert_eq!(list.peek(), Some(&42));
    assert_eq!(list.pop(), Some(42));
}

#[test]
fn into_iter_should_work() {
    let mut list = List::new();
    list.push(1);
    list.push(2);
    list.push(3);

    let mut iter = list.into_iter();
    assert_eq!(iter.next(), Some(3));
    assert_eq!(iter.next(), Some(2));
    assert_eq!(iter.next(), Some(1));
    assert_eq!(iter.next(), None);
}

#[test]
fn iter_should_work() {
    let mut list = List::new();
    list.push(1);
    list.push(2);
    list.push(3);

    let mut iter = list.iter();
    assert_eq!(iter.next(), Some(&3));
    assert_eq!(iter.next(), Some(&2));
    assert_eq!(iter.next(), Some(&1));
}

#[test]
fn iter_mut_should_work() {
    let mut list = List::new();
    list.push(1);
    list.push(2);
    list.push(3);

    let mut iter = list.iter_mut();
    assert_eq!(iter.next(), Some(&mut 3));
    assert_eq!(iter.next(), Some(&mut 2));
    assert_eq!(iter.next(), Some(&mut 1));
}

#[test]
fn iter_mut_writes_reach_the_list() {
    let mut list = List::new();
    list.push(1);
    list.push(2);
    {
        let mut iter = list.iter_mut();
        while let Some(x) = iter.next() {
            *x *= 10;
        }
    }
    assert_eq!(list.pop(), Some(20));
    assert_eq!(list.pop(), Some(10));
    assert_eq!(list.pop(), None);
}

#[test]
fn push_then_pop_gives_back_the_element() {
    let mut list = List::new();
    list.push("a");
    list.push("b");
    assert_eq!(list.pop(), Some("b"));
    assert_eq!(list.peek(), Some(&"a"));
}

#[test]
fn iterators_yield_head_first_then_none_forever() {
    let mut list = List::new();
    list.push(1);
    list.push(2);
    list.push(3);
    {
        let mut iter = list.iter();
        assert_eq!(Some(&3), iter.next());
        assert_eq!(Some(&2), iter.next());
        assert_eq!(Some(&1), iter.next());
        assert_eq!(None, iter.next());
        assert_eq!(None, iter.next());
    }
    assert_eq!(Some(&3), list.peek());
    let mut iter = list.into_iter();
    assert_eq!(Some(3), iter.next());
    assert_eq!(Some(2), iter.next());
    assert_eq!(Some(1), iter.next());
    assert_eq!(None, iter.next());
    assert_eq!(None, iter.next());
}
