use idioms::axum_params::{on, on1, on2, FromRequest, Param1, Param2, Request};

fn handler1(Param1(param1): Param1) {
    println!("param1: {param1}");
}

fn handler2(Param1(param1): Param1, Param2(param2): Param2) {
    println!("param1: {param1}, param2: {param2}");
}

#[test]
fn test_axum_like_params() {
    let req = Request;
    on(req.clone(), handler1);
    on(req.clone(), handler2);
}

#[test]
fn params_are_extracted() {
    let req = Request;
    assert_eq!(1, Param1::from_request(&req).0);
    assert_eq!("s", Param2::from_request(&req).0);
    let mut seen = 0;
    on(req, |Param1(a): Param1, Param1(b): Param1, Param2(c): Param2| {
        seen = a + b + c.len();
    });
    assert_eq!(3, seen);
}

#[test]
fn functions_with_their_own_contract_receive_the_parameters() {
    let seen = std::cell::Cell::new(0usize);
    on1(Request, |p: Param1| seen.set(seen.get() + p.0));
    on2(Request, |p: Param1, q: Param2| {
        assert_eq!("s", q.0);
        seen.set(seen.get() + p.0)
    });
    assert_eq!(2, seen.get());
}
