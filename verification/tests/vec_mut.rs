use recsys_prep::vec_mut::VecMut;

#[test]
fn vec_mut_appends_writes() {
    let mut buf = VecMut::new();
    assert_eq!(buf.len(), 0);
    assert_eq!(buf.write(b"abc"), 3);
    assert_eq!(buf.write(b""), 0);
    assert_eq!(buf.write(b"de"), 2);
    buf.flush();
    assert_eq!(buf.len(), 5);
    assert_eq!(buf.as_slice(), b"abcde");
}
