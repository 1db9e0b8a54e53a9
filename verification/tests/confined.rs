use std::collections::{BTreeMap, BTreeSet, HashMap, HashSet, VecDeque};

use lib::confined::{ONE, U8, ZERO};
use lib::{Collection, KeyedCollection};
use lib::{
    Confined, Error, MediumVec, NonEmptyVec, SmallVec, TinyHashMap, TinyOrdMap, TinyOrdSet,
    TinyString, TinyVec,
};

#[test]
fn try_from_accepts_within_bounds() {
    let c = Confined::<Vec<u8>, 1, 3>::try_from(vec![1, 2]).unwrap();
    assert_eq!(c.len(), 2);
    assert_eq!(c.unbox(), vec![1, 2]);
}

#[test]
fn try_from_accepts_both_bounds() {
    assert!(Confined::<Vec<u8>, 2, 3>::try_from(vec![1, 2]).is_ok());
    assert!(Confined::<Vec<u8>, 2, 3>::try_from(vec![1, 2, 3]).is_ok());
}

#[test]
fn try_from_refuses_undersize() {
    let r = Confined::<Vec<u8>, 2, 3>::try_from(vec![1]);
    assert_eq!(r.unwrap_err(), Error::Undersize { len: 1, min_len: 2 });
}

#[test]
fn try_from_refuses_oversize() {
    let r = Confined::<Vec<u8>, 0, 3>::try_from(vec![1, 2, 3, 4]);
    assert_eq!(r.unwrap_err(), Error::Oversize { len: 4, max_len: 3 });
}

#[test]
fn try_from_iter_builds_in_order() {
    let c = Confined::<Vec<u8>, 0, 5>::try_from_iter(vec![3, 1, 2]).unwrap();
    assert_eq!(c.unbox(), vec![3, 1, 2]);
}

#[test]
fn try_from_iter_refuses_by_final_length() {
    let r = Confined::<Vec<u8>, 0, 2>::try_from_iter(vec![3, 1, 2]);
    assert_eq!(r.unwrap_err(), Error::Oversize { len: 3, max_len: 2 });
    let r = Confined::<Vec<u8>, 4, 5>::try_from_iter(vec![3, 1, 2]);
    assert_eq!(r.unwrap_err(), Error::Undersize { len: 3, min_len: 4 });
}

#[test]
fn try_from_iter_counts_distinct_set_items() {
    let c = Confined::<HashSet<u8>, 0, 2>::try_from_iter(vec![7, 7, 8]).unwrap();
    assert_eq!(c.len(), 2);
}

#[test]
fn push_fills_up_to_the_maximum() {
    let mut c = Confined::<Vec<u8>, 0, 2>::new();
    assert_eq!(c.push(1), Ok(()));
    assert_eq!(c.push(2), Ok(()));
    assert_eq!(c.len(), 2);
    assert_eq!(c.push(3), Err(Error::Oversize { len: 2, max_len: 2 }));
    assert_eq!(c.unbox(), vec![1, 2]);
}

#[test]
fn tiny_vec_holds_255_items() {
    let mut c = TinyVec::<u8>::new();
    for i in 0..255u32 {
        assert_eq!(c.push(i as u8), Ok(()));
    }
    assert_eq!(c.len_u8(), 255);
    assert_eq!(c.push(0), Err(Error::Oversize { len: 255, max_len: U8 }));
}

#[test]
fn extend_stops_at_the_first_refused_item() {
    let mut c = Confined::<Vec<u8>, 0, 3>::try_from(vec![1]).unwrap();
    assert_eq!(c.extend(vec![2, 3, 4, 5]), Err(Error::Oversize { len: 3, max_len: 3 }));
    assert_eq!(c.unbox(), vec![1, 2, 3]);
}

#[test]
fn extend_empty_is_ok_even_when_full() {
    let mut c = Confined::<Vec<u8>, 0, 1>::try_from(vec![1]).unwrap();
    assert_eq!(c.extend(vec![]), Ok(()));
    assert_eq!(c.unbox(), vec![1]);
}

#[test]
fn extend_within_bounds() {
    let mut c = Confined::<Vec<u8>, 0, 5>::new();
    assert_eq!(c.extend(vec![4, 5]), Ok(()));
    assert_eq!(c.extend(vec![6]), Ok(()));
    assert_eq!(c.unbox(), vec![4, 5, 6]);
}

#[test]
fn new_default_and_with_capacity_are_empty() {
    let a = Confined::<Vec<u8>, ZERO, 3>::new();
    let b: Confined<Vec<u8>, ZERO, 3> = Default::default();
    let c = Confined::<Vec<u8>, ZERO, 3>::with_capacity(10);
    assert!(a.is_empty() && b.is_empty() && c.is_empty());
}

#[test]
fn clear_empties() {
    let mut c = Confined::<Vec<u8>, 0, 3>::try_from(vec![1, 2]).unwrap();
    c.clear();
    assert!(c.is_empty());
}

#[test]
fn with_makes_a_single_element() {
    let c = NonEmptyVec::<u8>::with(9);
    assert_eq!(c.unbox(), vec![9]);
}

#[test]
fn non_empty_vec_requires_one_element() {
    let r = NonEmptyVec::<u8>::try_from(vec![]);
    assert_eq!(r.unwrap_err(), Error::Undersize { len: 0, min_len: ONE });
}

#[test]
fn non_empty_vec_refuses_removing_the_last_element() {
    let mut c = NonEmptyVec::<u8>::with(9);
    assert_eq!(c.remove(0), Err(Error::Undersize { len: 1, min_len: 1 }));
    assert_eq!(c.unbox(), vec![9]);
}

#[test]
fn vec_remove_returns_the_element() {
    let mut c = Confined::<Vec<u8>, 0, 5>::try_from(vec![1, 2, 3]).unwrap();
    assert_eq!(c.remove(1), Ok(2));
    assert_eq!(c.unbox(), vec![1, 3]);
}

#[test]
fn vec_remove_last_element_of_unconstrained() {
    let mut c = TinyVec::<u8>::try_from(vec![1]).unwrap();
    assert_eq!(c.remove(0), Ok(1));
    assert!(c.is_empty());
}

#[test]
fn vec_remove_out_of_boundary() {
    let mut c = Confined::<Vec<u8>, 0, 5>::try_from(vec![1, 2, 3]).unwrap();
    assert_eq!(c.remove(3), Err(Error::OutOfBoundary { index: 3, len: 3 }));
    assert_eq!(c.unbox(), vec![1, 2, 3]);
}

#[test]
fn vec_remove_from_empty_is_undersize() {
    let mut c = TinyVec::<u8>::new();
    assert_eq!(c.remove(0), Err(Error::Undersize { len: 0, min_len: 0 }));
}

#[test]
fn vec_remove_undoes_push() {
    let mut c = Confined::<Vec<u8>, 0, 5>::try_from(vec![1, 2]).unwrap();
    c.push(7).unwrap();
    assert_eq!(c.remove(2), Ok(7));
    assert_eq!(c.unbox(), vec![1, 2]);
}

#[test]
fn deque_remove() {
    let d: VecDeque<u8> = vec![1, 2, 3].into_iter().collect();
    let mut c = Confined::<VecDeque<u8>, 1, 5>::try_from(d).unwrap();
    assert_eq!(c.remove(0), Ok(1));
    assert_eq!(c.remove(5), Err(Error::OutOfBoundary { index: 5, len: 2 }));
    assert_eq!(c.remove(1), Ok(3));
    assert_eq!(c.remove(0), Err(Error::Undersize { len: 1, min_len: 1 }));
    c.push(4).unwrap();
    assert_eq!(c.unbox().into_iter().collect::<Vec<_>>(), vec![2, 4]);
}

#[test]
fn string_push_and_remove() {
    let mut s = TinyString::new();
    s.push('a').unwrap();
    s.push('b').unwrap();
    assert_eq!(s.len(), 2);
    assert_eq!(s.remove(0), Ok('a'));
    assert_eq!(s.unbox(), "b");
}

#[test]
fn string_remove_at_a_byte_position() {
    let mut s = Confined::<String, 0, 20>::try_from("añb".to_string()).unwrap();
    assert_eq!(s.len(), 4);
    assert_eq!(s.remove(3), Ok('b'));
    assert_eq!(s.remove(1), Ok('ñ'));
    assert_eq!(s.unbox(), "a");
}

#[test]
fn string_remove_errors() {
    let mut s = Confined::<String, 1, 20>::try_from("ab".to_string()).unwrap();
    assert_eq!(s.remove(2), Err(Error::OutOfBoundary { index: 2, len: 2 }));
    assert_eq!(s.remove(0), Ok('a'));
    assert_eq!(s.remove(0), Err(Error::Undersize { len: 1, min_len: 1 }));
}

#[test]
fn string_counts_bytes() {
    let r = Confined::<String, 0, 2>::try_from("ñb".to_string());
    assert_eq!(r.unwrap_err(), Error::Oversize { len: 3, max_len: 2 });
}

#[test]
fn hash_set_remove_and_take() {
    let mut s = Confined::<HashSet<u8>, 1, 5>::try_from_iter(vec![1, 2, 3]).unwrap();
    assert_eq!(s.remove(&9), Ok(false));
    assert_eq!(s.remove(&1), Ok(true));
    assert_eq!(s.take(&2), Ok(Some(2)));
    assert_eq!(s.take(&2), Ok(None));
    assert_eq!(s.take(&3), Err(Error::Undersize { len: 1, min_len: 1 }));
    assert_eq!(s.remove(&3), Err(Error::Undersize { len: 1, min_len: 1 }));
    assert_eq!(s.len(), 1);
}

#[test]
fn hash_set_push_when_full_is_refused_even_if_present() {
    let mut s = Confined::<HashSet<u8>, 0, 1>::try_from_iter(vec![1]).unwrap();
    assert_eq!(s.push(1), Err(Error::Oversize { len: 1, max_len: 1 }));
}

#[test]
fn ord_set_remove_and_take() {
    let mut s = TinyOrdSet::<u8>::try_from_iter(vec![5, 6]).unwrap();
    assert_eq!(s.remove(&5), Ok(true));
    assert_eq!(s.remove(&5), Ok(false));
    assert_eq!(s.take(&6), Ok(Some(6)));
    assert!(s.is_empty());
    let b: BTreeSet<u8> = s.unbox();
    assert!(b.is_empty());
}

#[test]
fn hash_map_insert_and_remove() {
    let mut m = TinyHashMap::<u8, &str>::new();
    assert_eq!(m.insert(1, "a"), Ok(None));
    assert_eq!(m.insert(1, "b"), Ok(Some("a")));
    assert_eq!(m.get(&1), Some(&"b"));
    assert_eq!(m.remove(&2), Ok(None));
    assert_eq!(m.remove(&1), Ok(Some("b")));
    assert!(m.is_empty());
}

#[test]
fn hash_map_read_after_write() {
    let mut m = Confined::<HashMap<u8, u8>, 0, 4>::new();
    m.insert(3, 30).unwrap();
    assert_eq!(m.get(&3), Some(&30));
    assert_eq!(m.remove(&3), Ok(Some(30)));
    assert_eq!(m.get(&3), None);
}

#[test]
fn hash_map_insert_refused_when_full() {
    let mut m = Confined::<HashMap<u8, u8>, 0, 1>::new();
    m.insert(1, 1).unwrap();
    assert_eq!(m.insert(2, 2), Err(Error::Oversize { len: 1, max_len: 1 }));
    assert_eq!(m.insert(1, 5), Err(Error::Oversize { len: 1, max_len: 1 }));
    assert_eq!(m.get(&1), Some(&1));
}

#[test]
fn hash_map_remove_undersize() {
    let mut m = Confined::<HashMap<u8, u8>, 1, 3>::with_key_value(1, 10);
    assert_eq!(m.remove(&1), Err(Error::Undersize { len: 1, min_len: 1 }));
    assert_eq!(m.remove(&2), Ok(None));
}

#[test]
fn ord_map_insert_and_remove() {
    let mut m = TinyOrdMap::<u8, u8>::new();
    assert_eq!(m.insert(2, 20), Ok(None));
    assert_eq!(m.insert(1, 10), Ok(None));
    assert_eq!(m.remove(&2), Ok(Some(20)));
    let inner: BTreeMap<u8, u8> = m.unbox();
    assert_eq!(inner.into_iter().collect::<Vec<_>>(), vec![(1, 10)]);
}

#[test]
fn ord_map_with_key_value() {
    let m = Confined::<BTreeMap<u8, u8>, 1, 2>::with_key_value(4, 40);
    assert_eq!(m.get(&4), Some(&40));
    assert_eq!(m.len(), 1);
}

#[test]
fn push_pairs_into_a_map() {
    let mut m = Confined::<BTreeMap<u8, u8>, 0, 2>::new();
    m.push((1, 1)).unwrap();
    m.push((1, 2)).unwrap();
    assert_eq!(m.len(), 1);
    assert_eq!(m.get(&1), Some(&2));
}

#[test]
fn length_conversions() {
    let c = SmallVec::<u8>::try_from(vec![0; 300]).unwrap();
    assert_eq!(c.len_u16(), 300);
    let c = MediumVec::<u8>::try_from(vec![0; 70000]).unwrap();
    assert_eq!(c.len_u24().to_u32(), 70000);
    let c = Confined::<Vec<u8>, 0, { lib::confined::U32 }>::try_from(vec![0; 5]).unwrap();
    assert_eq!(c.len_u32(), 5);
    let c = TinyVec::<u8>::try_from(vec![0; 3]).unwrap();
    assert_eq!(c.len_u8(), 3);
}

#[test]
fn medium_vec_bound_is_u24_max() {
    let r = MediumVec::<u8>::try_from(vec![0; 16777216]);
    assert_eq!(r.unwrap_err(), Error::Oversize { len: 16777216, max_len: 16777215 });
}

#[test]
fn refused_operations_leave_value_unchanged() {
    let mut c = Confined::<Vec<u8>, 2, 2>::try_from(vec![1, 2]).unwrap();
    assert!(c.push(3).is_err());
    assert!(c.remove(0).is_err());
    assert!(c.extend(vec![9]).is_err());
    assert_eq!(c.unbox(), vec![1, 2]);
}

#[test]
fn error_messages() {
    assert_eq!(
        Error::Undersize { len: 1, min_len: 2 }.message(),
        "operation results in collection size 1 less than lower boundary of 2, which is prohibited"
    );
    assert_eq!(
        Error::Oversize { len: 256, max_len: 255 }.message(),
        "operation results in collection size 256 exceeding 255, which is prohibited"
    );
    assert_eq!(
        Error::OutOfBoundary { index: 10, len: 0 }.message(),
        "attempt to access the element at 10 which is outside of the collection length boundary 0"
    );
}

#[test]
fn u24_conversion() {
    assert_eq!(lib::u24::try_from(16777215).map(|v| v.to_u32()), Some(16777215));
    assert!(lib::u24::try_from(16777216).is_none());
}

#[test]
fn string_push_refuses_a_character_that_does_not_fit() {
    let mut s = Confined::<String, 0, 2>::new();
    assert_eq!(s.push('a'), Ok(()));
    assert_eq!(s.push('ñ'), Err(Error::Oversize { len: 1, max_len: 2 }));
    assert_eq!(s.push('b'), Ok(()));
    assert_eq!(s.unbox(), "ab");
}

#[test]
fn string_extend_stops_at_a_character_that_does_not_fit() {
    let mut s = Confined::<String, 0, 4>::new();
    assert_eq!(s.extend(vec!['a', 'b', '€', 'c']), Err(Error::Oversize { len: 2, max_len: 4 }));
    assert_eq!(s.unbox(), "ab");
}

#[test]
fn string_remove_refuses_to_drop_below_the_minimum() {
    let mut s = Confined::<String, 1, 10>::try_from("€".to_string()).unwrap();
    assert_eq!(s.remove(0), Err(Error::Undersize { len: 3, min_len: 1 }));
    assert_eq!(s.unbox(), "€");
}

#[test]
fn string_remove_of_a_wide_character_counts_its_bytes() {
    let mut s = Confined::<String, 2, 10>::try_from("añ".to_string()).unwrap();
    assert_eq!(s.remove(1), Err(Error::Undersize { len: 3, min_len: 2 }));
    let mut s = Confined::<String, 2, 10>::try_from("añb".to_string()).unwrap();
    assert_eq!(s.remove(1), Ok('ñ'));
    assert_eq!(s.len(), 2);
}

#[test]
fn with_on_a_string_counts_its_bytes() {
    let s = Confined::<String, 1, 4>::with('ñ');
    assert_eq!(s.len(), 2);
    assert_eq!(s.unbox(), "ñ");
}

#[test]
fn deref_gives_the_collection() {
    let c = TinyVec::<u8>::try_from(vec![4, 5]).unwrap();
    let inner: &Vec<u8> = &c;
    assert_eq!(inner, &vec![4, 5]);
    assert_eq!(c[1], 5);
}

#[test]
fn collection_trait_on_std_types() {
    let mut s = <String as Collection>::with_capacity(4);
    Collection::push(&mut s, 'ñ');
    assert_eq!(Collection::len(&s), 2);
    assert!(!Collection::is_empty(&s));
    Collection::clear(&mut s);
    assert!(Collection::is_empty(&s));

    let mut h = <HashSet<u8> as Collection>::with_capacity(2);
    Collection::push(&mut h, 1);
    Collection::push(&mut h, 1);
    assert_eq!(Collection::len(&h), 1);

    let mut d = <VecDeque<u8> as Collection>::with_capacity(2);
    Collection::push(&mut d, 1);
    Collection::push(&mut d, 2);
    assert_eq!(d.back(), Some(&2));

    let mut m = <HashMap<u8, u8> as Collection>::with_capacity(2);
    assert_eq!(KeyedCollection::insert(&mut m, 1, 10), None);
    assert_eq!(KeyedCollection::insert(&mut m, 1, 11), Some(10));
    assert_eq!(KeyedCollection::remove(&mut m, &1), Some(11));
    assert_eq!(KeyedCollection::remove(&mut m, &1), None);

    let mut b = <BTreeMap<u8, u8> as Collection>::with_capacity(2);
    Collection::push(&mut b, (2, 20));
    assert_eq!(KeyedCollection::remove(&mut b, &2), Some(20));
    let mut t = <BTreeSet<u8> as Collection>::with_capacity(2);
    Collection::push(&mut t, 3);
    assert_eq!(Collection::len(&t), 1);
}
