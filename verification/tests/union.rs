use jlrs::data::managed::union::{
    collect, find_union_component, nth_union_component, Union, UnionValue,
};

// Union(Union(1, 2), Union(3, Union(4, 2)))
fn sample() -> UnionValue {
    UnionValue::Union(Union::new(
        UnionValue::Union(Union::new(UnionValue::Other(1), UnionValue::Other(2))),
        UnionValue::Union(Union::new(
            UnionValue::Other(3),
            UnionValue::Union(Union::new(UnionValue::Other(4), UnionValue::Other(2))),
        )),
    ))
}

#[test]
fn collect_in_order() {
    let mut comps = vec![9];
    collect(&sample(), &mut comps);
    assert_eq!(comps, vec![9, 1, 2, 3, 4, 2]);
}

#[test]
fn variants_of_union() {
    match sample() {
        UnionValue::Union(u) => {
            assert_eq!(u.variants(), vec![1, 2, 3, 4, 2]);
            match u.a() {
                UnionValue::Union(inner) => assert_eq!(inner.variants(), vec![1, 2]),
                UnionValue::Other(_) => panic!("expected a union"),
            }
            assert!(matches!(u.b(), UnionValue::Union(_)));
        }
        UnionValue::Other(_) => panic!("expected a union"),
    }
}

#[test]
fn nth_component() {
    let v = sample();
    for (k, expected) in [1usize, 2, 3, 4, 2].iter().enumerate() {
        let mut pi = k as i32;
        assert_eq!(nth_union_component(&v, &mut pi), Some(*expected));
        assert_eq!(pi, 0);
    }
}

#[test]
fn nth_component_out_of_range() {
    let v = sample();
    let mut pi = 5;
    assert_eq!(nth_union_component(&v, &mut pi), None);
    assert_eq!(pi, 1);
    let mut neg = -2;
    assert_eq!(nth_union_component(&v, &mut neg), None);
    assert_eq!(neg, -6);
    let mut single = 0;
    assert_eq!(nth_union_component(&UnionValue::Other(8), &mut single), Some(8));
}

#[test]
fn find_component() {
    let v = sample();
    let mut nth = 0;
    assert!(find_union_component(&v, 2, &mut nth));
    assert_eq!(nth, 1);
    let mut nth = 0;
    assert!(find_union_component(&v, 4, &mut nth));
    assert_eq!(nth, 3);
    let mut nth = 10;
    assert!(!find_union_component(&v, 7, &mut nth));
    assert_eq!(nth, 15);
}

#[test]
fn find_then_nth_gives_back_the_type() {
    let v = sample();
    for t in [1usize, 2, 3, 4] {
        let mut nth = 0;
        assert!(find_union_component(&v, t, &mut nth));
        let mut pi = nth as i32;
        assert_eq!(nth_union_component(&v, &mut pi), Some(t));
    }
}
