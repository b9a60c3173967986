use idioms::gat::{ArcFamily, ByteIter, IteratorExt, Mapper, PointerFamily, RcFamily, StrRefHolder, WindowsMut};

fn uni_map<T, U, M, F>(mapper: M, f: F) -> M::Result
where
    M: Mapper<U, F, Item = T>,
    F: FnMut(T) -> U,
{
    mapper.map(f)
}

struct MyStruct<P: PointerFamily<String>> {
    #[allow(dead_code)]
    pointer: P::Pointer,
}

#[test]
fn byte_iter_should_work() {
    let mut byte_iter = ByteIter { data: b"112233" };
    let b1 = byte_iter.next();
    let b2 = byte_iter.next();
    assert!(b1 == b2);
}

#[test]
fn map_option() {
    let v = Some(1);

    let v1 = uni_map(v, |x| x + 1);
    assert_eq!(Some(2), v1)
}

#[test]
fn map_vec() {
    let v = vec![1, 2, 3];

    let v1 = uni_map(v, |x| x + 1);
    assert_eq!(vec![2, 3, 4], v1)
}

#[test]
fn map_result() {
    let v: Result<i32, &str> = Ok(1);

    let v1 = uni_map(v, |x| x + 1);
    assert_eq!(Ok(2), v1)
}

#[test]
fn map_result_keeps_the_error() {
    let v: Result<i32, &str> = Err("bad");

    let v1 = uni_map(v, |x| x + 1);
    assert_eq!(Err("bad"), v1)
}

#[test]
fn test_family() {
    fn is_send<T: Send>(_: T) {}
    let s: MyStruct<RcFamily> = MyStruct {
        pointer: RcFamily::new("aa".to_string()),
    };
    assert_eq!(*s.pointer, "aa");

    let s: MyStruct<ArcFamily> = MyStruct {
        pointer: ArcFamily::new("aa".to_string()),
    };
    is_send(s);
}

#[test]
fn test_lending_trait() {
    let mut data = [1, 2, 3, 4, 5, 6];
    let mut win = WindowsMut::new(&mut data, 0, 3);
    loop {
        match win.next() {
            Some(data) => println!("{:?}", data),
            None => break,
        }
    }
}

#[test]
fn windows_mut_writes_through() {
    let mut data = [1, 2, 3, 4, 5, 6, 7];
    {
        let mut win = WindowsMut::new(&mut data, 0, 3);
        while let Some(w) = win.next() {
            w[0] = 0;
        }
    }
    assert_eq!([0, 2, 3, 0, 5, 6, 7], data);
}

#[test]
fn window_count_groups_items() {
    let mut windows = vec![1, 2, 3, 4, 5].into_iter().window_count(2);
    assert_eq!(Some(vec![1, 2]), windows.next());
    assert_eq!(Some(vec![3, 4]), windows.next());
    assert_eq!(Some(vec![5]), windows.next());
    assert_eq!(None, windows.next());
}

#[test]
fn window_count_of_zero_yields_nothing() {
    let mut windows = vec![1, 2, 3].into_iter().window_count(0);
    assert_eq!(None, windows.next());
}

#[test]
fn joined_windows_give_the_items_back() {
    let items: Vec<u32> = (1..=10).collect();
    let mut windows = items.clone().into_iter().window_count(3);
    let mut joined = Vec::new();
    let mut sizes = Vec::new();
    while let Some(w) = windows.next() {
        sizes.push(w.len());
        joined.extend(w);
    }
    assert_eq!(items, joined);
    assert_eq!(vec![3, 3, 3, 1], sizes);
}

#[test]
fn str_ref_holder_yields_growing_prefixes() {
    let mut h = StrRefHolder::new("abc");
    assert_eq!(Some("a"), h.next());
    assert_eq!(Some("ab"), h.next());
    assert_eq!(Some("abc"), h.next());
    assert_eq!(None, h.next());
}
