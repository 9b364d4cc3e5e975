use jlrs::data::managed::named_tuple::{
    extend, extend_iter, filter, filter_extend, filter_extend_iter,
};

#[test]
fn extend_overrides_old_values() {
    let mut r = extend(&[1, 2], &[10, 20], &[2, 3, 3], &[99, 30, 31]);
    r.sort();
    assert_eq!(r, vec![(1, 10), (2, 99), (3, 31)]);
}

#[test]
fn extend_iter_keeps_untouched_fields() {
    let mut r = extend_iter(&[(5, 50), (6, 60)], &[(7, 70)]);
    r.sort();
    assert_eq!(r, vec![(5, 50), (6, 60), (7, 70)]);
    let mut e = extend_iter(&[], &[]);
    e.sort();
    assert_eq!(e, vec![]);
}

#[test]
fn filter_removes_named_fields_in_order() {
    let r = filter(&[(3, 30), (1, 10), (2, 20)], &[1, 9]);
    assert_eq!(r, vec![(3, 30), (2, 20)]);
    assert_eq!(filter(&[(1, 10)], &[]), vec![(1, 10)]);
    assert_eq!(filter(&[(1, 10)], &[1]), vec![]);
    // More names to remove than there are fields.
    assert_eq!(filter(&[(1, 10)], &[7, 8, 9]), vec![(1, 10)]);
    assert_eq!(filter(&[(1, 10)], &[2, 1]), vec![]);
}

#[test]
fn filter_extend_removes_then_overrides() {
    let mut r = filter_extend(&[1, 2, 3], &[10, 20, 30], &[1, 2], &[2, 4], &[22, 40]);
    r.sort();
    assert_eq!(r, vec![(2, 22), (3, 30), (4, 40)]);
}

#[test]
fn filter_extend_iter_later_pairs_win() {
    let mut r = filter_extend_iter(&[(1, 10), (2, 20)], &[2], &[(5, 50), (5, 51), (1, 11)]);
    r.sort();
    assert_eq!(r, vec![(1, 11), (5, 51)]);
}
