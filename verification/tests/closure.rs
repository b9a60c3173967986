use idioms::closure::{call, call_mut, call_once, execute, execute_with, BashExecutor};

#[test]
fn closure_works() {
    let v = vec![0u8; 1];
    let v1 = vec![0u8; 2];

    let c = |x: u64| v.len() as u64 * x;

    let c1 = move |x: u64| v1.len() as u64 * x;

    println!("direct call: {}", c(2));
    println!("direct call: {}", c1(2));

    println!("call fn: {}", call(2, c));
    println!("call fn: {}", call(2, &c1));

    println!("call fn_mut: {}", call_mut(2, c));
    println!("call fn_mut: {}", call_mut(2, &c1));

    println!("call fn_once: {}", call_once(2, c));
    println!("call fn_once: {}", call_once(2, c1));

    let name = String::from("cae");
    let vec = vec!["a", "b", "c"];
    let v = &vec[..];
    let data = (1, 2, 3, 4);

    let c = move || {
        println!("data: {:?}", data);
        println!("v: {:?}, name: {:?}", v, name.clone());
    };
    c();
}

#[test]
fn call_helpers_pass_the_argument() {
    assert_eq!(6, call(2, |x| x * 3));
    let mut total = 0;
    assert_eq!(5, call_mut(2, |x| {
        total += x;
        x + 3
    }));
    assert_eq!(2, total);
    assert_eq!(9, call_once(3, |x| x * x));
}

#[test]
fn closure_impl_trait() {
    let env = "PATH=/usr/bin".to_string();

    let cmd = "ls";
    let r1 = execute(cmd, BashExecutor { env: env.clone() });
    println!("{:?}", r1);
    assert_eq!(Ok("noop struct execute: env: PATH=/usr/bin, cmd: ls".to_string()), r1);

    let r2 = execute(cmd, |cmd: &str| {
        Ok(format!("noop closure execute: env: {}, cmd: {}", env, cmd))
    });
    println!("{:?}", r2);
    assert_eq!(Ok("noop closure execute: env: PATH=/usr/bin, cmd: ls".to_string()), r2);
}

#[test]
fn execute_with_a_function() {
    let r = execute_with("ls", |cmd: &str| Ok(format!("ran {cmd}")));
    assert_eq!(Ok("ran ls".to_string()), r);
}
