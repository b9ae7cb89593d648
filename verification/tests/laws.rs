use functor_derive::functor::{Functor, Functor1, FunctorValues};
use std::collections::HashMap;

fn widen(value: usize) -> u64 {
    value as u64
}

#[test]
fn identity_reproduces_vec() {
    let x = vec![1usize, 2, 3];
    assert_eq!(x.clone().fmap(|v: usize| v), x);
}

#[test]
fn identity_reproduces_option_and_map() {
    let x = Some(7usize);
    assert_eq!(x.fmap(|v: usize| v), x);
    let m = HashMap::from([(1usize, 10usize), (2usize, 20usize)]);
    assert_eq!(m.clone().fmap_values(|v: usize| v), m);
}

#[test]
fn composition_is_one_pass() {
    let x = vec![1usize, 2, 3];
    let two_passes = x.clone().fmap(widen).fmap(|v: u64| v + 1);
    let one_pass = x.fmap(|v: usize| (v as u64) + 1);
    assert_eq!(two_passes, one_pass);
}

#[test]
fn unmapped_positions_are_untouched() {
    // The error side of a result does not involve the mapped parameter.
    let y = Result::<usize, String>::Err("kept".to_string());
    assert_eq!(y.fmap(widen), Err("kept".to_string()));
    // Keys do not involve the value parameter.
    let m = HashMap::from([(5usize, 1usize)]);
    let mapped = m.fmap_values(widen);
    assert!(mapped.contains_key(&5usize));
}

#[test]
fn two_parameters_map_independently() {
    let ok = Result::<usize, usize>::Ok(1);
    let err = Result::<usize, usize>::Err(2);
    // Mapping the first parameter leaves the second untouched.
    assert_eq!(ok.fmap(widen), Ok(1u64));
    assert_eq!(err.fmap(widen), Err(2usize));
    // Mapping the second parameter leaves the first untouched.
    assert_eq!(ok.__fmap_1_ref(widen), Ok(1usize));
    assert_eq!(err.__fmap_1_ref(widen), Err(2u64));
}

#[test]
fn first_failure_wins() {
    // The user function fails exactly on the middle element: the result is
    // that failure, and nothing after it is reached.
    let x = vec![1usize, 2, 3];
    let r: Result<Vec<u64>, String> = x.try_fmap(|v: usize| {
        if v == 2 {
            Err(format!("bad {}", v))
        } else {
            Ok(v as u64)
        }
    });
    assert_eq!(r, Err("bad 2".to_string()));
}

#[test]
fn failure_on_every_element_returns_the_leftmost() {
    let x = vec![10usize, 20];
    let r: Result<Vec<u64>, usize> = x.try_fmap(|v: usize| Err(v));
    assert_eq!(r, Err(10));
}

#[test]
fn all_elements_succeeding_maps_them_all() {
    let x = vec![1usize, 3];
    let r: Result<Vec<(usize, usize)>, ()> = x.try_fmap(|v: usize| Ok((v, v * 2)));
    assert_eq!(r, Ok(vec![(1, 2), (3, 6)]));
}

#[test]
fn record_like_mapping_keeps_untouched_field() {
    // A two-field record, one mappable field and one plain field, modeled
    // with the pair container: the mapped position is widened, the tag is
    // bit for bit unchanged.
    let record = vec![(42usize, true)];
    let mapped = record.fmap(|(v, tag): (usize, bool)| (v as u64, tag));
    assert_eq!(mapped, vec![(42u64, true)]);
}

#[test]
fn nested_containers_map_to_depth() {
    let x = vec![vec![40usize, 41], vec![42, 43]];
    let r = x.fmap(|inner: Vec<usize>| inner.fmap(widen));
    assert_eq!(r, vec![vec![40u64, 41], vec![42, 43]]);
}

#[test]
fn empty_containers_stay_empty() {
    let x: Vec<usize> = vec![];
    assert_eq!(x.fmap(widen), Vec::<u64>::new());
    let m: HashMap<usize, usize> = HashMap::new();
    assert_eq!(m.fmap_values(widen), HashMap::<usize, u64>::new());
    let r: Result<Vec<u64>, ()> = Vec::<usize>::new().try_fmap(|v: usize| Ok(v as u64));
    assert_eq!(r, Ok(vec![]));
}
