use functor_derive::functor::{Functor, Functor0, Functor1, FunctorValues};
use functor_derive::impl_alloc::{FunctorBTreeSet, FunctorOrdKeys};
use std::collections::{BTreeMap, BTreeSet, HashMap, VecDeque};
use std::ops::ControlFlow;

fn widen(value: usize) -> u64 {
    value as u64
}

fn parse_digits(s: String) -> Result<usize, std::num::ParseIntError> {
    s.parse::<usize>()
}

#[test]
fn box_fmap() {
    let x = Box::new(21usize);
    assert_eq!(x.fmap(widen), Box::new(21u64));
}

#[test]
fn box_try_fmap() {
    let ok = Box::new("7".to_string()).try_fmap(parse_digits);
    assert_eq!(ok, Ok(Box::new(7usize)));
    let bad = Box::new("seven".to_string()).try_fmap(parse_digits);
    assert!(bad.is_err());
}

#[test]
fn vecdeque_fmap() {
    let x = VecDeque::from(vec![42usize, 13usize, 14usize, 15usize]);
    let expected = VecDeque::from(vec![42u64, 13u64, 14u64, 15u64]);
    assert_eq!(x.fmap(widen), expected);
}

#[test]
fn vecdeque_try_fmap_fails() {
    let x = VecDeque::from(vec!["1".to_string(), "two".to_string()]);
    assert!(x.try_fmap(parse_digits).is_err());
}

#[test]
fn vec_try_fmap_ok() {
    let x = vec!["1".to_string(), "3".to_string()];
    assert_eq!(x.try_fmap(parse_digits), Ok(vec![1usize, 3usize]));
}

#[test]
fn option_try_fmap() {
    let x = Some("42".to_string());
    assert_eq!(x.try_fmap(parse_digits), Ok(Some(42usize)));
    let y = Some("x".to_string());
    assert!(y.try_fmap(parse_digits).is_err());
    let z = None::<String>;
    assert_eq!(z.try_fmap(parse_digits), Ok(None));
}

#[test]
fn result_err_side_via_position_one() {
    let x = Result::<u8, usize>::Err(13usize);
    assert_eq!(x.__fmap_1_ref(widen), Result::<u8, u64>::Err(13u64));
    let y = Result::<u8, usize>::Ok(5u8);
    assert_eq!(y.__fmap_1_ref(widen), Result::<u8, u64>::Ok(5u8));
}

#[test]
fn result_position_zero() {
    let x = Result::<usize, u8>::Ok(42usize);
    assert_eq!(x.__fmap_0_ref(widen), Result::<u64, u8>::Ok(42u64));
}

#[test]
fn controlflow_break_side() {
    let x = ControlFlow::<usize, i32>::Break(42usize);
    assert_eq!(x.fmap(widen), ControlFlow::<u64, i32>::Break(42u64));
    let y = ControlFlow::<usize, i32>::Continue(-1);
    assert_eq!(y.fmap(widen), ControlFlow::<u64, i32>::Continue(-1));
}

#[test]
fn controlflow_continue_side() {
    let x = ControlFlow::<i32, usize>::Continue(42usize);
    assert_eq!(x.__fmap_1_ref(widen), ControlFlow::<i32, u64>::Continue(42u64));
    let y = ControlFlow::<i32, usize>::Break(-1);
    assert_eq!(y.__fmap_1_ref(widen), ControlFlow::<i32, u64>::Break(-1));
}

#[test]
fn btreemap_values() {
    let x = BTreeMap::from([(42usize, 13usize), (255usize, 13usize)]);
    assert_eq!(
        x.fmap_values(widen),
        BTreeMap::from([(42usize, 13u64), (255usize, 13u64)])
    );
}

#[test]
fn btreemap_keys() {
    let x = BTreeMap::from([(42usize, 13usize)]);
    assert_eq!(x.fmap_keys(widen), BTreeMap::from([(42u64, 13usize)]));
}

#[test]
fn btreeset_fmap() {
    let x = BTreeSet::from([42usize, 13usize]);
    assert_eq!(x.fmap(widen), BTreeSet::from([42u64, 13u64]));
}

#[test]
fn btreeset_try_fmap_fails() {
    let x = BTreeSet::from(["1".to_string(), "two".to_string()]);
    assert!(x.try_fmap(parse_digits).is_err());
}

#[test]
fn map_value_position_capability() {
    // The delegation a generated routine addresses for a map-valued field.
    let x = HashMap::from([(1usize, 10usize), (2usize, 20usize)]);
    assert_eq!(
        x.__fmap_1_ref(widen),
        HashMap::from([(1usize, 10u64), (2usize, 20u64)])
    );
    let y = BTreeMap::from([(1usize, 10usize)]);
    assert_eq!(y.__fmap_1_ref(widen), BTreeMap::from([(1usize, 10u64)]));
    let bad: Result<HashMap<usize, u64>, ()> =
        HashMap::from([(1usize, 10usize)]).__try_fmap_1_ref(|_v: usize| Err(()));
    assert!(bad.is_err());
}
