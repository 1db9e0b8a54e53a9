//! Properties that relate the operations of a confinement to each other.
use std::collections::{BTreeMap, BTreeSet, HashMap, HashSet, VecDeque};
use std::hash::Hash;

use vstd::laws_cmp::obeys_cmp;
use vstd::prelude::*;
use vstd::std_specs::hash::obeys_key_model;

use crate::collection::{default_is_empty, pushed_all, Collection, KeyedCollection};
use crate::confined::Confined;
use crate::error::Error;

verus! {

/// A collection is accepted by `try_from` exactly when its length lies within
/// the bounds; one that is too short is refused as undersized, one that is too
/// long as oversized.
pub proof fn lemma_accepts_exactly_the_bounds<C: Collection, const MIN_LEN: usize, const MAX_LEN: usize>(
    len: usize,
)
    ensures
        Confined::<C, MIN_LEN, MAX_LEN>::bounds_error(len) is None <==> MIN_LEN <= len <= MAX_LEN,
        Confined::<C, MIN_LEN, MAX_LEN>::bounds_error(len) == Some(Error::Undersize { len, min_len: MIN_LEN })
            <==> len < MIN_LEN,
        Confined::<C, MIN_LEN, MAX_LEN>::bounds_error(len) == Some(Error::Oversize { len, max_len: MAX_LEN })
            <==> MIN_LEN <= len && MAX_LEN < len,
{
}

/// Extending by a single item is pushing it: it is refused, with the current
/// length, exactly when the item does not fit.
pub proof fn lemma_extend_one_is_push<C: Collection, const MIN_LEN: usize, const MAX_LEN: usize>(
    v: C::V,
    item: C::Item,
)
    ensures
        Confined::<C, MIN_LEN, MAX_LEN>::extend_outcome(v, seq![item]) == if C::view_len(v) + C::item_weight(item)
            > MAX_LEN {
            (v, Some(C::view_len(v) as usize))
        } else {
            (C::pushed_view(v, item), None::<usize>)
        },
{
    if C::view_len(v) + C::item_weight(item) <= MAX_LEN {
        assert(seq![item].drop_first() =~= Seq::<C::Item>::empty());
        assert(Confined::<C, MIN_LEN, MAX_LEN>::extend_outcome(C::pushed_view(v, item), Seq::empty())
            == (C::pushed_view(v, item), None::<usize>));
    }
}

/// Extending by `a` and then by `b` is extending by `a + b`: a refusal while
/// extending by `a` ends the whole extension there.
pub proof fn lemma_extend_concat<C: Collection, const MIN_LEN: usize, const MAX_LEN: usize>(
    v: C::V,
    a: Seq<C::Item>,
    b: Seq<C::Item>,
)
    ensures
        ({
            let (v1, stopped) = Confined::<C, MIN_LEN, MAX_LEN>::extend_outcome(v, a);
            Confined::<C, MIN_LEN, MAX_LEN>::extend_outcome(v, a + b) == match stopped {
                None => Confined::<C, MIN_LEN, MAX_LEN>::extend_outcome(v1, b),
                Some(len) => (v1, Some(len)),
            }
        }),
    decreases a.len(),
{
    if a.len() == 0 {
        assert(a + b =~= b);
    } else if C::view_len(v) + C::item_weight(a[0]) > MAX_LEN {
        assert((a + b)[0] == a[0]);
    } else {
        assert((a + b).drop_first() =~= a.drop_first() + b);
        assert((a + b)[0] == a[0]);
        lemma_extend_concat::<C, MIN_LEN, MAX_LEN>(C::pushed_view(v, a[0]), a.drop_first(), b);
    }
}

/// Pushing `a` and then `b` is pushing `a + b`.
pub proof fn lemma_pushed_all_concat<C: Collection>(v: C::V, a: Seq<C::Item>, b: Seq<C::Item>)
    ensures
        pushed_all::<C>(v, a + b) == pushed_all::<C>(pushed_all::<C>(v, a), b),
    decreases b.len(),
{
    if b.len() == 0 {
        assert(a + b =~= a);
    } else {
        assert((a + b).drop_last() =~= a + b.drop_last());
        assert((a + b).last() == b.last());
        lemma_pushed_all_concat::<C>(v, a, b.drop_last());
    }
}

/// An extension that is not refused leaves the collection that pushing every
/// item gives, the collection `try_from_iter` builds from the same items.
pub proof fn lemma_extend_pushes_all<C: Collection, const MIN_LEN: usize, const MAX_LEN: usize>(
    v: C::V,
    items: Seq<C::Item>,
)
    ensures
        Confined::<C, MIN_LEN, MAX_LEN>::extend_outcome(v, items).1 is None
            ==> Confined::<C, MIN_LEN, MAX_LEN>::extend_outcome(v, items).0 == pushed_all::<C>(v, items),
    decreases items.len(),
{
    if items.len() == 0 {
    } else if C::view_len(v) + C::item_weight(items[0]) > MAX_LEN {
    } else {
        let rest = items.drop_first();
        lemma_extend_pushes_all::<C, MIN_LEN, MAX_LEN>(C::pushed_view(v, items[0]), rest);
        lemma_pushed_all_concat::<C>(v, seq![items[0]], rest);
        assert(seq![items[0]] + rest =~= items);
        assert(seq![items[0]].drop_last() =~= Seq::<C::Item>::empty());
        assert(pushed_all::<C>(v, Seq::<C::Item>::empty()) == v);
        assert(pushed_all::<C>(v, seq![items[0]]) == C::pushed_view(v, items[0]));
    }
}

/// For a vector, removing at the old length what was just pushed gives back
/// the pushed element and the vector as it was.
pub proof fn lemma_vec_remove_undoes_push<T>(v: Seq<T>, elem: T)
    ensures
        <Vec<T> as Collection>::pushed_view(v, elem)[v.len() as int] == elem,
        <Vec<T> as Collection>::pushed_view(v, elem).remove(v.len() as int) == v,
{
    assert(v.push(elem).remove(v.len() as int) =~= v);
}

/// For a hash map, a lookup after an insert gives the inserted value, and
/// removing the key afterwards gives the map with the key removed.
pub proof fn lemma_hash_map_read_after_write<K: Eq + Hash, V>(m: Map<K, V>, key: K, value: V)
    ensures
        <HashMap<K, V> as KeyedCollection>::lookup(
            <HashMap<K, V> as KeyedCollection>::inserted_view(m, key, value),
            key,
        ) == Some(value),
        <HashMap<K, V> as KeyedCollection>::removed_view(
            <HashMap<K, V> as KeyedCollection>::inserted_view(m, key, value),
            key,
        ) == <HashMap<K, V> as KeyedCollection>::removed_view(m, key),
{
    assert(m.insert(key, value).remove(key) =~= m.remove(key));
}

/// For an ordered map, a lookup after an insert gives the inserted value, and
/// removing the key afterwards gives the map with the key removed.
pub proof fn lemma_btree_map_read_after_write<K: Ord + Hash, V>(m: Map<K, V>, key: K, value: V)
    ensures
        <BTreeMap<K, V> as KeyedCollection>::lookup(
            <BTreeMap<K, V> as KeyedCollection>::inserted_view(m, key, value),
            key,
        ) == Some(value),
        <BTreeMap<K, V> as KeyedCollection>::removed_view(
            <BTreeMap<K, V> as KeyedCollection>::inserted_view(m, key, value),
            key,
        ) == <BTreeMap<K, V> as KeyedCollection>::removed_view(m, key),
{
    assert(m.insert(key, value).remove(key) =~= m.remove(key));
}

/// For a hash set, an element just pushed is present, and removing it
/// afterwards gives the set with that element removed.
pub proof fn lemma_hash_set_remove_after_push<T: Eq + Hash>(s: Set<T>, elem: T)
    ensures
        <HashSet<T> as Collection>::pushed_view(s, elem).contains(elem),
        <HashSet<T> as Collection>::pushed_view(s, elem).remove(elem) == s.remove(elem),
{
    assert(s.insert(elem).remove(elem) =~= s.remove(elem));
}

/// The standard collections' defaults are empty, so for them `new`,
/// `default`, `with` and `with_key_value` start from an empty collection.
pub proof fn lemma_std_defaults_are_empty<T: Ord + Hash, K: Ord + Hash, V>()
    ensures
        default_is_empty::<String>(),
        default_is_empty::<Vec<T>>(),
        default_is_empty::<VecDeque<T>>(),
        default_is_empty::<HashSet<T>>(),
        default_is_empty::<BTreeSet<T>>(),
        default_is_empty::<HashMap<K, V>>(),
        default_is_empty::<BTreeMap<K, V>>(),
{
    assert forall|d: String| #[trigger] call_ensures(String::default, (), d) implies d@
        == <String as Collection>::empty_view() by {}
    assert forall|d: Vec<T>| #[trigger] call_ensures(Vec::<T>::default, (), d) implies d@
        == <Vec<T> as Collection>::empty_view() by {}
    assert forall|d: VecDeque<T>| #[trigger] call_ensures(VecDeque::<T>::default, (), d) implies d@
        == <VecDeque<T> as Collection>::empty_view() by {}
    assert forall|d: HashSet<T>| #[trigger] call_ensures(HashSet::<T>::default, (), d) implies d@
        == <HashSet<T> as Collection>::empty_view() by {}
    assert forall|d: BTreeSet<T>| #[trigger] call_ensures(BTreeSet::<T>::default, (), d) implies d@
        == <BTreeSet<T> as Collection>::empty_view() by {}
    assert forall|d: HashMap<K, V>| #[trigger] call_ensures(HashMap::<K, V>::default, (), d) implies d@
        == <HashMap<K, V> as Collection>::empty_view() by {}
    assert forall|d: BTreeMap<K, V>| #[trigger] call_ensures(BTreeMap::<K, V>::default, (), d) implies d@
        == <BTreeMap<K, V> as Collection>::empty_view() by {}
}

/// For a vector, pushing appends the element at the end and keeps every
/// element before it.
pub proof fn lemma_vec_push_appends<T>(v: Seq<T>, elem: T)
    ensures
        <Vec<T> as Collection>::pushed_view(v, elem).len() == v.len() + 1,
        <Vec<T> as Collection>::pushed_view(v, elem).last() == elem,
        <Vec<T> as Collection>::pushed_view(v, elem).drop_last() == v,
        <Vec<T> as Collection>::view_len(<Vec<T> as Collection>::pushed_view(v, elem))
            == <Vec<T> as Collection>::view_len(v) + 1,
        <Vec<T> as Collection>::view_len(v) == v.len(),
        <Vec<T> as Collection>::empty_view().len() == 0,
{
    assert(v.push(elem).drop_last() =~= v);
}

/// For a deque, pushing appends the element at the back and keeps every
/// element before it; removing at the old length undoes the push.
pub proof fn lemma_vec_deque_push_appends<T>(v: Seq<T>, elem: T)
    ensures
        <VecDeque<T> as Collection>::pushed_view(v, elem).len() == v.len() + 1,
        <VecDeque<T> as Collection>::pushed_view(v, elem)[v.len() as int] == elem,
        <VecDeque<T> as Collection>::pushed_view(v, elem).drop_last() == v,
        <VecDeque<T> as Collection>::pushed_view(v, elem).remove(v.len() as int) == v,
        <VecDeque<T> as Collection>::view_len(v) == v.len(),
        <VecDeque<T> as Collection>::empty_view().len() == 0,
{
    assert(v.push(elem).drop_last() =~= v);
    assert(v.push(elem).remove(v.len() as int) =~= v);
}

/// For a string, pushing a character appends it after every character
/// before; the length is the number of bytes of the UTF-8 encoding, and it
/// grows by the bytes of that character alone.
pub proof fn lemma_string_push_appends(v: Seq<char>, c: char)
    ensures
        <String as Collection>::pushed_view(v, c).len() == v.len() + 1,
        <String as Collection>::pushed_view(v, c).last() == c,
        <String as Collection>::pushed_view(v, c).drop_last() == v,
        <String as Collection>::view_len(<String as Collection>::pushed_view(v, c))
            == <String as Collection>::view_len(v) + <String as Collection>::item_weight(c),
        <String as Collection>::item_weight(c) == <String as Collection>::view_len(seq![c]),
        1 <= <String as Collection>::item_weight(c) <= 4,
        (c as u32) < 0x80 ==> <String as Collection>::item_weight(c) == 1,
        <String as Collection>::empty_view().len() == 0,
        <String as Collection>::view_len(<String as Collection>::empty_view()) == 0,
        <String as Collection>::view_len(v) == vstd::utf8::encode_utf8(v).len(),
{
    assert(v.push(c).drop_last() =~= v);
    crate::utf8::lemma_encode_utf8_push(v, c);
    crate::utf8::lemma_encode_utf8_single(c);
    <String as Collection>::lemma_empty_view();
}

/// For a hash set, pushing an element inserts it: the set afterwards holds
/// exactly the elements before and the pushed one.
pub proof fn lemma_hash_set_push_inserts<T: Eq + Hash>(s: Set<T>, elem: T)
    ensures
        forall|x: T|
            #[trigger] <HashSet<T> as Collection>::pushed_view(s, elem).contains(x) <==> (s.contains(x)
                || x == elem),
        s.finite() ==> <HashSet<T> as Collection>::view_len(
            <HashSet<T> as Collection>::pushed_view(s, elem),
        ) == s.len() + if s.contains(elem) { 0int } else { 1int },
        forall|x: T| !(#[trigger] <HashSet<T> as Collection>::empty_view().contains(x)),
{
}

/// For an ordered set, pushing an element inserts it: the set afterwards
/// holds exactly the elements before and the pushed one, and removing it
/// again gives the set with that element removed.
pub proof fn lemma_btree_set_push_inserts<T: Ord>(s: Set<T>, elem: T)
    ensures
        forall|x: T|
            #[trigger] <BTreeSet<T> as Collection>::pushed_view(s, elem).contains(x) <==> (s.contains(x)
                || x == elem),
        <BTreeSet<T> as Collection>::pushed_view(s, elem).remove(elem) == s.remove(elem),
        s.finite() ==> <BTreeSet<T> as Collection>::view_len(
            <BTreeSet<T> as Collection>::pushed_view(s, elem),
        ) == s.len() + if s.contains(elem) { 0int } else { 1int },
        forall|x: T| !(#[trigger] <BTreeSet<T> as Collection>::empty_view().contains(x)),
{
    assert(s.insert(elem).remove(elem) =~= s.remove(elem));
}

/// For a hash map: a lookup finds what the map holds under the key; an
/// insert sets the written key and leaves every other key as it was; a
/// remove clears the key and leaves every other key; a push of a pair is an
/// insert.
pub proof fn lemma_hash_map_keys_are_independent<K: Eq + Hash, V>(m: Map<K, V>, key: K, value: V)
    ensures
        forall|k: K|
            #[trigger] <HashMap<K, V> as KeyedCollection>::lookup(m, k) == if m.contains_key(k) {
                Some(m[k])
            } else {
                None
            },
        forall|k: K|
            k != key ==> #[trigger] <HashMap<K, V> as KeyedCollection>::lookup(
                <HashMap<K, V> as KeyedCollection>::inserted_view(m, key, value),
                k,
            ) == <HashMap<K, V> as KeyedCollection>::lookup(m, k),
        <HashMap<K, V> as KeyedCollection>::inserted_view(m, key, value).contains_key(key),
        <HashMap<K, V> as KeyedCollection>::inserted_view(m, key, value)[key] == value,
        <HashMap<K, V> as KeyedCollection>::inserted_view(m, key, value).dom() == m.dom().insert(key),
        forall|k: K|
            k != key ==> #[trigger] <HashMap<K, V> as KeyedCollection>::lookup(
                <HashMap<K, V> as KeyedCollection>::removed_view(m, key),
                k,
            ) == <HashMap<K, V> as KeyedCollection>::lookup(m, k),
        !<HashMap<K, V> as KeyedCollection>::removed_view(m, key).contains_key(key),
        <HashMap<K, V> as KeyedCollection>::removed_view(m, key).dom() == m.dom().remove(key),
        <HashMap<K, V> as Collection>::pushed_view(m, (key, value))
            == <HashMap<K, V> as KeyedCollection>::inserted_view(m, key, value),
        <HashMap<K, V> as Collection>::empty_view().dom().is_empty(),
{
    let ins = <HashMap<K, V> as KeyedCollection>::inserted_view(m, key, value);
    let rem = <HashMap<K, V> as KeyedCollection>::removed_view(m, key);
    assert(ins.dom() =~= m.dom().insert(key));
    assert(rem.dom() =~= m.dom().remove(key));
    assert forall|k: K| k != key implies #[trigger] <HashMap<K, V> as KeyedCollection>::lookup(ins, k)
        == <HashMap<K, V> as KeyedCollection>::lookup(m, k) by {
        assert(ins.contains_key(k) == m.contains_key(k));
    }
    assert forall|k: K| k != key implies #[trigger] <HashMap<K, V> as KeyedCollection>::lookup(rem, k)
        == <HashMap<K, V> as KeyedCollection>::lookup(m, k) by {
        assert(rem.contains_key(k) == m.contains_key(k));
    }
    assert(<HashMap<K, V> as Collection>::empty_view().dom() =~= Set::<K>::empty());
}

/// For an ordered map: a lookup finds what the map holds under the key; an
/// insert sets the written key and leaves every other key as it was; a
/// remove clears the key and leaves every other key; a push of a pair is an
/// insert.
pub proof fn lemma_btree_map_keys_are_independent<K: Ord + Hash, V>(m: Map<K, V>, key: K, value: V)
    ensures
        forall|k: K|
            #[trigger] <BTreeMap<K, V> as KeyedCollection>::lookup(m, k) == if m.contains_key(k) {
                Some(m[k])
            } else {
                None
            },
        forall|k: K|
            k != key ==> #[trigger] <BTreeMap<K, V> as KeyedCollection>::lookup(
                <BTreeMap<K, V> as KeyedCollection>::inserted_view(m, key, value),
                k,
            ) == <BTreeMap<K, V> as KeyedCollection>::lookup(m, k),
        <BTreeMap<K, V> as KeyedCollection>::inserted_view(m, key, value).contains_key(key),
        <BTreeMap<K, V> as KeyedCollection>::inserted_view(m, key, value)[key] == value,
        <BTreeMap<K, V> as KeyedCollection>::inserted_view(m, key, value).dom() == m.dom().insert(key),
        forall|k: K|
            k != key ==> #[trigger] <BTreeMap<K, V> as KeyedCollection>::lookup(
                <BTreeMap<K, V> as KeyedCollection>::removed_view(m, key),
                k,
            ) == <BTreeMap<K, V> as KeyedCollection>::lookup(m, k),
        !<BTreeMap<K, V> as KeyedCollection>::removed_view(m, key).contains_key(key),
        <BTreeMap<K, V> as KeyedCollection>::removed_view(m, key).dom() == m.dom().remove(key),
        <BTreeMap<K, V> as Collection>::pushed_view(m, (key, value))
            == <BTreeMap<K, V> as KeyedCollection>::inserted_view(m, key, value),
        <BTreeMap<K, V> as Collection>::empty_view().dom().is_empty(),
{
    let ins = <BTreeMap<K, V> as KeyedCollection>::inserted_view(m, key, value);
    let rem = <BTreeMap<K, V> as KeyedCollection>::removed_view(m, key);
    assert(ins.dom() =~= m.dom().insert(key));
    assert(rem.dom() =~= m.dom().remove(key));
    assert forall|k: K| k != key implies #[trigger] <BTreeMap<K, V> as KeyedCollection>::lookup(ins, k)
        == <BTreeMap<K, V> as KeyedCollection>::lookup(m, k) by {
        assert(ins.contains_key(k) == m.contains_key(k));
    }
    assert forall|k: K| k != key implies #[trigger] <BTreeMap<K, V> as KeyedCollection>::lookup(rem, k)
        == <BTreeMap<K, V> as KeyedCollection>::lookup(m, k) by {
        assert(rem.contains_key(k) == m.contains_key(k));
    }
    assert(<BTreeMap<K, V> as Collection>::empty_view().dom() =~= Set::<K>::empty());
}

/// The standard collections follow their model unconditionally where it
/// holds of every item type (sequences and strings), and otherwise exactly
/// when vstd's hash-key or ordering model holds of the key type. Every view
/// of a sequence is a possible one, and a set or map view is one when it is
/// finite. Every item other than a string's character adds at most one to
/// the length, which is the number of elements, entries or keys.
pub proof fn lemma_std_models<T: Ord + Hash, K: Ord + Hash, V>()
    ensures
        <Vec<T> as Collection>::obeys_model(),
        <VecDeque<T> as Collection>::obeys_model(),
        <String as Collection>::obeys_model(),
        <HashSet<T> as Collection>::obeys_model() == obeys_key_model::<T>(),
        <HashMap<K, V> as Collection>::obeys_model() == obeys_key_model::<K>(),
        forall|v: Seq<T>| #[trigger] <Vec<T> as Collection>::view_wf(v),
        forall|v: Seq<T>| #[trigger] <VecDeque<T> as Collection>::view_wf(v),
        forall|v: Seq<char>| #[trigger] <String as Collection>::view_wf(v),
        forall|v: Set<T>| #[trigger] <HashSet<T> as Collection>::view_wf(v) <==> v.finite(),
        forall|v: Set<T>| #[trigger] <BTreeSet<T> as Collection>::view_wf(v) <==> v.finite(),
        forall|v: Map<K, V>| #[trigger] <HashMap<K, V> as Collection>::view_wf(v) <==> v.dom().finite(),
        forall|v: Map<K, V>| #[trigger] <BTreeMap<K, V> as Collection>::view_wf(v) <==> v.dom().finite(),
        forall|e: T| #[trigger] <Vec<T> as Collection>::item_weight(e) == 1,
        forall|e: T| #[trigger] <VecDeque<T> as Collection>::item_weight(e) == 1,
        forall|e: T| #[trigger] <HashSet<T> as Collection>::item_weight(e) == 1,
        forall|e: T| #[trigger] <BTreeSet<T> as Collection>::item_weight(e) == 1,
        forall|e: (K, V)| #[trigger] <HashMap<K, V> as Collection>::item_weight(e) == 1,
        forall|e: (K, V)| #[trigger] <BTreeMap<K, V> as Collection>::item_weight(e) == 1,
        forall|v: Set<T>| #[trigger] <HashSet<T> as Collection>::view_len(v) == v.len(),
        forall|v: Set<T>| #[trigger] <BTreeSet<T> as Collection>::view_len(v) == v.len(),
        forall|v: Map<K, V>| #[trigger] <HashMap<K, V> as Collection>::view_len(v) == v.len(),
        forall|v: Map<K, V>| #[trigger] <BTreeMap<K, V> as Collection>::view_len(v) == v.len(),
{
}

/// The ordered collections follow their model exactly when vstd's ordering
/// laws hold of the element or key type.
pub proof fn lemma_ordered_models<T: Ord, K: Ord + Hash, V>()
    ensures
        BTreeSet::<T>::obeys_model() == obeys_cmp::<T>(),
        BTreeMap::<K, V>::obeys_model() == obeys_cmp::<K>(),
{
}

} // verus!
