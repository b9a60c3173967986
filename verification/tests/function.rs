use std::mem::size_of_val;

fn foo(_: i32) -> i32 {
    0
}

fn bar(_: i32) -> i32 {
    1
}

#[test]
fn test_function_item() {
    #[allow(unused_mut)]
    let mut x = foo;
    assert_eq!(0, size_of_val(&x));
}

#[test]
fn test_function_pointer() {
    let mut x: fn(i32) -> i32 = foo;
    assert_eq!(8, size_of_val(&x));
    x = bar;
    assert_eq!(8, size_of_val(&x));
}

#[test]
fn test_cast() {
    let ptr = foo as fn(i32) -> i32;
    let ptr_addr = ptr as usize;

    println!("{}", ptr_addr);

    let back: fn(i32) -> i32 = ptr;
    assert_eq!(0, back(1));
}
