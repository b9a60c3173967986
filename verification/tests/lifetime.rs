use idioms::lifetime::{strtok, List, Manager, StrSplit};

fn return_first<'a>(a: &'a mut [u8], _b: &'_ mut [u8]) -> &'a mut [u8] {
    a
}

#[test]
fn test_mut_lifetime() {
    let mut a1 = [1, 2, 3];
    let mut a2 = [4, 5, 6];
    let r = return_first(&mut a1, &mut a2);
    a2[0] = 100;
    r[0] = 100;
}

#[test]
fn borrow_should_work() {
    let mut list = List {
        manager: Manager { text: "hello" },
    };

    let interface = list.get_interface();
    assert_eq!(interface.manager.text, "hello");

    println!("Interface should be dropped here and the borrow released");

    println!("{}", list.manager.text);
}

#[test]
fn strtok_should_work() {
    let s = "hello world".to_owned();
    let mut s1 = s.as_str();
    let prefix = strtok(&mut s1, ' ');
    assert_eq!("hello", prefix);
    assert_eq!("world", s1);
    assert_eq!("hello world", s.as_str());
}

#[test]
fn strtok_without_delimiter_takes_everything() {
    let mut s1 = "hello";
    let prefix = strtok(&mut s1, ' ');
    assert_eq!("hello", prefix);
    assert_eq!("", s1);
}

#[test]
fn strtok_with_multibyte_text() {
    let mut s1 = "añb👿c";
    let prefix = strtok(&mut s1, '👿');
    assert_eq!("añb", prefix);
    assert_eq!("c", s1);
}

fn split_all(input: &str, delimiter: char) -> Vec<&str> {
    let mut parts = Vec::new();
    let mut split = StrSplit::new(input, delimiter);
    while let Some(part) = split.next() {
        parts.push(part);
    }
    parts
}

#[test]
fn str_split_should_work() {
    struct Testcase {
        input: &'static str,
        output: Vec<&'static str>,
    }

    let testcases = vec![
        Testcase {
            input: "a b c d",
            output: vec!["a", "b", "c", "d"],
        },
        Testcase {
            input: "a",
            output: vec!["a"],
        },
        Testcase {
            input: "a b ",
            output: vec!["a", "b", ""],
        },
        Testcase {
            input: "👿",
            output: vec!["👿"],
        },
    ];

    testcases.into_iter().for_each(|testcase| {
        let parts: Vec<_> = split_all(testcase.input, ' ');
        assert_eq!(testcase.output, parts);
    })
}

#[test]
fn str_split_pieces_join_back() {
    let input = "x,,y,";
    let parts = split_all(input, ',');
    assert_eq!(vec!["x", "", "y", ""], parts);
    assert_eq!(input, parts.join(","));
}

#[test]
fn copy_test() {
    let a = Some(Box::new(4));
    let b = a.as_ref();
    let c = &b;
    let c1 = &b;
    let d = (*c).unwrap();
    println!("{:?}", b);
    println!("{:p}", c);
    println!("{:p}", c1);
    println!("{:?}", d);

    let point = Point { x: 1, y: 2 };
    is_copy(point);
}

fn is_copy<T: Copy>(_: T) {}

#[derive(Clone, Copy)]
struct Point {
    x: i32,
    y: i32,
}

#[test]
fn str_split_then_none_forever() {
    let mut split = StrSplit::new("", ',');
    assert_eq!(Some(""), split.next());
    assert_eq!(None, split.next());
    assert_eq!(None, split.next());
    let mut split = StrSplit::new("a,,b", ',');
    assert_eq!(Some("a"), split.next());
    assert_eq!(Some(""), split.next());
    assert_eq!(Some("b"), split.next());
    assert_eq!(None, split.next());
    assert_eq!(None, split.next());
}
