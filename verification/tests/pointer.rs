use risp::ptr::P;

#[test]
fn pointer_owns_its_value() {
    let p = P(41);
    assert_eq!(*p.deref(), 41);
    assert_eq!(p.into_inner(), 41);
}

#[test]
fn pointer_map_applies_the_function() {
    let p = P(String::from("ab")).map(|s| s + "c");
    assert_eq!(p.into_inner(), "abc");
}

#[test]
fn pointer_clone_copies_the_value() {
    let p = P(vec![1, 2]);
    let q = p.clone();
    assert_eq!(q.into_inner(), vec![1, 2]);
    assert_eq!(p.into_inner(), vec![1, 2]);
}
