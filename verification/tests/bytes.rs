use idioms::bytes::Bytes;
use std::sync::Arc;

#[test]
fn test_bytes() {
    let vec_data = vec![1, 2, 3, 4, 5];
    let arc_data: Arc<[u8]> = Arc::from([6, 7, 8, 9, 10]);

    let bytes_vec = Bytes::new_vec(vec_data);
    let bytes_arc = Bytes::new_arc(arc_data);

    if bytes_vec.is_vec() {
        assert_eq!(vec![1, 2, 3, 4, 5], bytes_vec.as_vec());
    }

    if bytes_arc.is_arc() {
        assert_eq!(Arc::from(vec![6, 7, 8, 9, 10]), bytes_arc.as_arc());
    }
}

#[test]
fn kinds_are_exclusive() {
    let v = Bytes::new_vec(vec![1]);
    let a = Bytes::new_arc(Arc::from(vec![2u8]));
    assert!(v.is_vec() && !v.is_arc());
    assert!(a.is_arc() && !a.is_vec());
}
