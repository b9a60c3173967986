use idioms::dropck::MyBox;

#[test]
fn dropck_works() {
    let _a;
    let _s = "hello".to_owned();
    _a = MyBox::new(_s);
}

#[test]
fn dropck_with_ref_works() {
    let _a;
    let _s = "hello".to_owned();
    _a = MyBox::new(&_s);
}
