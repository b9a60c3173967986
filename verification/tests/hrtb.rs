use idioms::hrtb::{do_it, Closure, Filter, OptionFilter};
use idioms::peculiar::{convert, ArgCallback, Value};

#[test]
fn vec_filter_should_work() {
    let v = vec![1, 2, 3, 4];
    let r = v.filter(|x: &i32| x % 2 == 0);
    assert_eq!(vec![2, 4], r);
}

#[test]
fn closure_should_work() {
    let clo = Closure {
        data: (0, 1),
        func: do_it,
    };
    println!("{}", clo.call());
    assert_eq!(&0, clo.call());
}

#[test]
fn option_filter_works() {
    let v = Some(1);
    assert_eq!(Some(1), <Option<i32> as Filter<_>>::filter(v, |x: &i32| *x > 0));
    assert_eq!(None, <Option<i32> as Filter<_>>::filter(v, |x: &i32| *x < 0));
}

#[test]
fn option_filter1_works() {
    assert_eq!(Some(3), Some(3).filter1(|x: &i32| *x == 3));
    assert_eq!(None, Some(3).filter1(|x: &i32| *x == 4));
    assert_eq!(None, None.filter1(|_: &i32| true));
}

#[test]
fn test_callback() {
    let to_upper = ArgCallback::new(|x: &str| -> Value { Value::String(x.to_uppercase()) });
    let v = to_upper.invoke(&Value::String("cae".to_string()));
    assert_eq!(v, Value::String("CAE".into()));

    let plus_1 = ArgCallback::new(|x: i64| Value::Number(x + 1));
    let v = plus_1.invoke(&Value::Number(1));
    assert_eq!(v, Value::Number(2));
}

#[test]
fn value_texts() {
    let s = Value::String("abc".to_string());
    let n = Value::Number(-42);
    assert_eq!(Some("abc"), s.as_str());
    assert_eq!(None, n.as_str());
    assert_eq!("abc", s.to_string());
    assert_eq!("-42", n.to_string());
    assert_eq!("-42", n.to_str());
    assert!(matches!(s.to_str(), std::borrow::Cow::Borrowed("abc")));
    assert_eq!(Some(-42), convert::<i64>(&n));
    assert_eq!(None, convert::<i64>(&s));
    assert_eq!(Some("-42".to_string()), convert::<String>(&n));
    assert_eq!(Some("abc"), convert::<&str>(&s));
    assert_eq!(None, convert::<&str>(&n));
}

#[test]
fn numbers_print_in_decimal() {
    assert_eq!("0", Value::Number(0).to_string());
    assert_eq!("7", Value::Number(7).to_string());
    assert_eq!("1000", Value::Number(1000).to_string());
    assert_eq!("9223372036854775807", Value::Number(i64::MAX).to_string());
    assert_eq!("-9223372036854775808", Value::Number(i64::MIN).to_string());
    assert_eq!("-1", Value::Number(-1).to_str());
}
