use apps::add;

#[test]
fn adds_one_and_one() {
    assert_eq!(add(1, 1), 2);
}

#[test]
fn adds_negative_and_positive() {
    assert_eq!(add(-1, 2), 1);
}
