//! The collection traits that a confinement works over, and their
//! implementations for the standard collections.
use std::collections::{BTreeMap, BTreeSet, HashMap, HashSet, VecDeque};
use std::hash::Hash;

use vstd::prelude::*;
use vstd::std_specs::btree::*;
use vstd::std_specs::hash::*;
use vstd::utf8::{encode_scalar, encode_utf8};

use crate::std_bridge;
use crate::utf8::lemma_encode_utf8_push;

verus! {

broadcast use {vstd::std_specs::hash::group_hash_axioms, vstd::std_specs::btree::group_btree_axioms};

/// Trait implemented by a collection types which need to support collection confinement.
///
/// A collection is described by its view (`@`): what `len` reports is a
/// function of the view, and `push`, `clear` and `with_capacity` act on the
/// view as `pushed_view` and `empty_view` say.  Where the standard library's
/// behaviour depends on the item type (hashing, ordering), the description
/// holds when `obeys_model` does.
pub trait Collection: Sized + View {
    /// Item type contained within the collection.
    type Item;

    /// Holds when the collection's operations behave as the spec functions below describe.
    spec fn obeys_model() -> bool;

    /// The most that pushing `elem` adds to the length.
    spec fn item_weight(elem: Self::Item) -> nat;

    /// Holds of every view that a collection value can have.
    spec fn view_wf(v: Self::V) -> bool;

    /// The length `len` reports for a collection with view `v`.
    spec fn view_len(v: Self::V) -> nat;

    /// The view of an empty collection.
    spec fn empty_view() -> Self::V;

    /// The view after pushing `elem` into a collection with view `v`.
    spec fn pushed_view(v: Self::V, elem: Self::Item) -> Self::V;

    /// What `len` returns.
    spec fn spec_len(&self) -> usize;

    /// Under the model, `len` is the length of the view, where that fits in `usize`.
    proof fn lemma_len_of_view(&self)
        requires
            Self::obeys_model(),
            Self::view_len(self@) <= usize::MAX,
        ensures
            self.spec_len() == Self::view_len(self@),
    ;

    /// An empty collection has length zero.
    proof fn lemma_empty_view()
        ensures
            Self::view_wf(Self::empty_view()),
            Self::view_len(Self::empty_view()) == 0,
    ;

    /// Pushing keeps a view well formed and grows its length by at most the
    /// item's weight, to at least one.
    proof fn lemma_pushed_view(v: Self::V, elem: Self::Item)
        requires
            Self::view_wf(v),
        ensures
            Self::view_wf(Self::pushed_view(v, elem)),
            Self::view_len(v) <= Self::view_len(Self::pushed_view(v, elem)) <= Self::view_len(v)
                + Self::item_weight(elem),
            1 <= Self::view_len(Self::pushed_view(v, elem)),
    ;

    /// Returns the most that pushing `elem` adds to the length.
    fn weight(elem: &Self::Item) -> (r: usize)
        ensures
            r == Self::item_weight(*elem),
    ;

    /// Creates new collection with certain capacity.
    fn with_capacity(capacity: usize) -> (r: Self)
        ensures
            r@ == Self::empty_view(),
    ;

    /// Returns the length of a collection.
    fn len(&self) -> (r: usize)
        ensures
            r == self.spec_len(),
            Self::obeys_model() ==> r == Self::view_len(self@),
    ;

    /// Detects whether collection is empty.
    fn is_empty(&self) -> (r: bool)
        ensures
            r == (self.spec_len() == 0),
    {
        self.len() == 0
    }

    /// Pushes or inserts an element to the collection.
    fn push(&mut self, elem: Self::Item)
        ensures
            Self::obeys_model() ==> final(self)@ == Self::pushed_view(old(self)@, elem),
    ;

    /// Removes all elements from the collection.
    fn clear(&mut self)
        ensures
            final(self)@ == Self::empty_view(),
    ;
}

/// Trait implemented by key-value maps which need to support collection confinement.
pub trait KeyedCollection: Collection<Item = (<Self as KeyedCollection>::Key, <Self as KeyedCollection>::Value)> {
    /// Key type for the collection.
    type Key: Eq + Hash;

    /// Value type for the collection.
    type Value;

    /// The value stored under `key` in a collection with view `v`, if any.
    spec fn lookup(v: Self::V, key: Self::Key) -> Option<Self::Value>;

    /// The view after inserting `value` under `key`.
    spec fn inserted_view(v: Self::V, key: Self::Key, value: Self::Value) -> Self::V;

    /// The view after removing `key`.
    spec fn removed_view(v: Self::V, key: Self::Key) -> Self::V;

    /// Inserting keeps a view well formed and grows its length by at most one, to at least one.
    proof fn lemma_inserted_view(v: Self::V, key: Self::Key, value: Self::Value)
        requires
            Self::view_wf(v),
        ensures
            Self::view_wf(Self::inserted_view(v, key, value)),
            Self::view_len(v) <= Self::view_len(Self::inserted_view(v, key, value)) <= Self::view_len(v) + 1,
            1 <= Self::view_len(Self::inserted_view(v, key, value)),
    ;

    /// Inserts a new value under a key. Returns previous value if a value under the key was already
    /// present in the collection.
    fn insert(&mut self, key: Self::Key, value: Self::Value) -> (r: Option<Self::Value>)
        ensures
            Self::obeys_model() ==> final(self)@ == Self::inserted_view(old(self)@, key, value),
            Self::obeys_model() ==> r == Self::lookup(old(self)@, key),
    ;

    /// Removes a value stored under a given key, returning the owned value, if it was in the
    /// collection.
    fn remove(&mut self, key: &Self::Key) -> (r: Option<Self::Value>)
        ensures
            Self::obeys_model() ==> final(self)@ == Self::removed_view(old(self)@, *key),
            Self::obeys_model() ==> r == Self::lookup(old(self)@, *key),
    ;
}

/// The number of bytes of the UTF-8 encoding of `chars`, as `str::len` reports it.
pub open spec fn utf8_len(chars: Seq<char>) -> usize {
    encode_utf8(chars).len() as usize
}

impl Collection for String {
    type Item = char;

    open spec fn obeys_model() -> bool {
        true
    }

    /// A character takes as many bytes as its UTF-8 encoding.
    open spec fn item_weight(elem: char) -> nat {
        encode_scalar(elem as u32).len()
    }

    open spec fn view_wf(v: Seq<char>) -> bool {
        true
    }

    open spec fn view_len(v: Seq<char>) -> nat {
        encode_utf8(v).len()
    }

    open spec fn empty_view() -> Seq<char> {
        Seq::empty()
    }

    open spec fn pushed_view(v: Seq<char>, elem: char) -> Seq<char> {
        v.push(elem)
    }

    open spec fn spec_len(&self) -> usize {
        utf8_len(self@)
    }

    proof fn lemma_len_of_view(&self) {
    }

    proof fn lemma_empty_view() {
        assert(encode_utf8(Seq::<char>::empty()) =~= Seq::<u8>::empty());
    }

    proof fn lemma_pushed_view(v: Seq<char>, elem: char) {
        lemma_encode_utf8_push(v, elem);
    }

    fn with_capacity(capacity: usize) -> (r: Self) {
        std_bridge::string_with_capacity(capacity)
    }

    fn weight(elem: &char) -> (r: usize) {
        crate::utf8::char_width(*elem)
    }

    fn len(&self) -> (r: usize) {
        let bytes = self.as_str().as_bytes();
        let r = bytes.len();
        assert(r == bytes@.len());
        assert(r == Self::view_len(self@));
        r
    }

    fn push(&mut self, elem: char) {
        std_bridge::string_push(self, elem)
    }

    fn clear(&mut self) {
        std_bridge::string_clear(self)
    }
}

impl<T> Collection for Vec<T> {
    type Item = T;

    open spec fn obeys_model() -> bool {
        true
    }

    open spec fn item_weight(elem: Self::Item) -> nat {
        1
    }

    open spec fn view_wf(v: Seq<T>) -> bool {
        true
    }

    open spec fn view_len(v: Seq<T>) -> nat {
        v.len()
    }

    open spec fn empty_view() -> Seq<T> {
        Seq::empty()
    }

    open spec fn pushed_view(v: Seq<T>, elem: T) -> Seq<T> {
        v.push(elem)
    }

    open spec fn spec_len(&self) -> usize {
        vstd::std_specs::vec::spec_vec_len(self)
    }

    proof fn lemma_len_of_view(&self) {
    }

    proof fn lemma_empty_view() {
    }

    proof fn lemma_pushed_view(v: Seq<T>, elem: T) {
    }

    fn with_capacity(capacity: usize) -> (r: Self) {
        Vec::with_capacity(capacity)
    }

    fn weight(elem: &T) -> (r: usize) {
        1
    }

    fn len(&self) -> (r: usize) {
        let r = Vec::len(self);
        assert(r == self@.len());
        assert(r == Self::view_len(self@));
        r
    }

    fn push(&mut self, elem: T) {
        Vec::push(self, elem)
    }

    fn clear(&mut self) {
        Vec::clear(self)
    }
}

impl<T> Collection for VecDeque<T> {
    type Item = T;

    open spec fn obeys_model() -> bool {
        true
    }

    open spec fn item_weight(elem: Self::Item) -> nat {
        1
    }

    open spec fn view_wf(v: Seq<T>) -> bool {
        true
    }

    open spec fn view_len(v: Seq<T>) -> nat {
        v.len()
    }

    open spec fn empty_view() -> Seq<T> {
        Seq::empty()
    }

    open spec fn pushed_view(v: Seq<T>, elem: T) -> Seq<T> {
        v.push(elem)
    }

    open spec fn spec_len(&self) -> usize {
        vstd::std_specs::vecdeque::spec_vec_dequeue_len(self)
    }

    proof fn lemma_len_of_view(&self) {
    }

    proof fn lemma_empty_view() {
    }

    proof fn lemma_pushed_view(v: Seq<T>, elem: T) {
    }

    fn with_capacity(capacity: usize) -> (r: Self) {
        VecDeque::with_capacity(capacity)
    }

    fn weight(elem: &T) -> (r: usize) {
        1
    }

    fn len(&self) -> (r: usize) {
        let r = VecDeque::len(self);
        assert(r == self@.len());
        assert(r == Self::view_len(self@));
        r
    }

    fn push(&mut self, elem: T) {
        self.push_back(elem)
    }

    fn clear(&mut self) {
        VecDeque::clear(self)
    }
}

impl<T: Eq + Hash> Collection for HashSet<T> {
    type Item = T;

    open spec fn obeys_model() -> bool {
        obeys_key_model::<T>()
    }

    open spec fn item_weight(elem: Self::Item) -> nat {
        1
    }

    open spec fn view_wf(v: Set<T>) -> bool {
        v.finite()
    }

    open spec fn view_len(v: Set<T>) -> nat {
        v.len()
    }

    open spec fn empty_view() -> Set<T> {
        Set::empty()
    }

    open spec fn pushed_view(v: Set<T>, elem: T) -> Set<T> {
        v.insert(elem)
    }

    open spec fn spec_len(&self) -> usize {
        spec_hash_set_len(self)
    }

    proof fn lemma_len_of_view(&self) {
    }

    proof fn lemma_empty_view() {
    }

    proof fn lemma_pushed_view(v: Set<T>, elem: T) {
    }

    fn with_capacity(capacity: usize) -> (r: Self) {
        HashSet::with_capacity(capacity)
    }

    fn weight(elem: &T) -> (r: usize) {
        1
    }

    fn len(&self) -> (r: usize) {
        let r = HashSet::len(self);
        assert(Self::obeys_model() ==> r == Self::view_len(self@));
        r
    }

    fn push(&mut self, elem: T) {
        self.insert(elem);
    }

    fn clear(&mut self) {
        HashSet::clear(self)
    }
}

impl<T: Ord> Collection for BTreeSet<T> {
    type Item = T;

    open spec fn obeys_model() -> bool {
        vstd::laws_cmp::obeys_cmp::<T>()
    }

    open spec fn item_weight(elem: Self::Item) -> nat {
        1
    }

    open spec fn view_wf(v: Set<T>) -> bool {
        v.finite()
    }

    open spec fn view_len(v: Set<T>) -> nat {
        v.len()
    }

    open spec fn empty_view() -> Set<T> {
        Set::empty()
    }

    open spec fn pushed_view(v: Set<T>, elem: T) -> Set<T> {
        v.insert(elem)
    }

    open spec fn spec_len(&self) -> usize {
        spec_btree_set_len(self)
    }

    proof fn lemma_len_of_view(&self) {
    }

    proof fn lemma_empty_view() {
    }

    proof fn lemma_pushed_view(v: Set<T>, elem: T) {
    }

    /// A B-tree set allocates per node; the capacity is not used.
    fn with_capacity(_capacity: usize) -> (r: Self) {
        BTreeSet::new()
    }

    fn weight(elem: &T) -> (r: usize) {
        1
    }

    fn len(&self) -> (r: usize) {
        let r = BTreeSet::len(self);
        assert(Self::obeys_model() ==> r == Self::view_len(self@));
        r
    }

    fn push(&mut self, elem: T) {
        self.insert(elem);
    }

    fn clear(&mut self) {
        BTreeSet::clear(self)
    }
}

impl<K: Eq + Hash, V> Collection for HashMap<K, V> {
    type Item = (K, V);

    open spec fn obeys_model() -> bool {
        obeys_key_model::<K>()
    }

    open spec fn item_weight(elem: Self::Item) -> nat {
        1
    }

    open spec fn view_wf(v: Map<K, V>) -> bool {
        v.dom().finite()
    }

    open spec fn view_len(v: Map<K, V>) -> nat {
        v.len()
    }

    open spec fn empty_view() -> Map<K, V> {
        Map::empty()
    }

    open spec fn pushed_view(v: Map<K, V>, elem: (K, V)) -> Map<K, V> {
        v.insert(elem.0, elem.1)
    }

    open spec fn spec_len(&self) -> usize {
        spec_hash_map_len(self)
    }

    proof fn lemma_len_of_view(&self) {
    }

    proof fn lemma_empty_view() {
    }

    proof fn lemma_pushed_view(v: Map<K, V>, elem: (K, V)) {
    }

    fn with_capacity(capacity: usize) -> (r: Self) {
        HashMap::with_capacity(capacity)
    }

    fn weight(elem: &(K, V)) -> (r: usize) {
        1
    }

    fn len(&self) -> (r: usize) {
        let r = HashMap::len(self);
        assert(Self::obeys_model() ==> r == Self::view_len(self@));
        r
    }

    fn push(&mut self, elem: (K, V)) {
        HashMap::insert(self, elem.0, elem.1);
    }

    fn clear(&mut self) {
        HashMap::clear(self)
    }
}

impl<K: Eq + Hash, V> KeyedCollection for HashMap<K, V> {
    type Key = K;
    type Value = V;

    open spec fn lookup(v: Map<K, V>, key: K) -> Option<V> {
        if v.contains_key(key) { Some(v[key]) } else { None }
    }

    open spec fn inserted_view(v: Map<K, V>, key: K, value: V) -> Map<K, V> {
        v.insert(key, value)
    }

    open spec fn removed_view(v: Map<K, V>, key: K) -> Map<K, V> {
        v.remove(key)
    }

    proof fn lemma_inserted_view(v: Map<K, V>, key: K, value: V) {
    }

    fn insert(&mut self, key: K, value: V) -> (r: Option<V>) {
        HashMap::insert(self, key, value)
    }

    fn remove(&mut self, key: &K) -> (r: Option<V>) {
        HashMap::remove(self, key)
    }
}

impl<K: Ord + Hash, V> Collection for BTreeMap<K, V> {
    type Item = (K, V);

    open spec fn obeys_model() -> bool {
        vstd::laws_cmp::obeys_cmp::<K>()
    }

    open spec fn item_weight(elem: Self::Item) -> nat {
        1
    }

    open spec fn view_wf(v: Map<K, V>) -> bool {
        v.dom().finite()
    }

    open spec fn view_len(v: Map<K, V>) -> nat {
        v.len()
    }

    open spec fn empty_view() -> Map<K, V> {
        Map::empty()
    }

    open spec fn pushed_view(v: Map<K, V>, elem: (K, V)) -> Map<K, V> {
        v.insert(elem.0, elem.1)
    }

    open spec fn spec_len(&self) -> usize {
        spec_btree_map_len(self)
    }

    proof fn lemma_len_of_view(&self) {
    }

    proof fn lemma_empty_view() {
    }

    proof fn lemma_pushed_view(v: Map<K, V>, elem: (K, V)) {
    }

    /// A B-tree map allocates per node; the capacity is not used.
    fn with_capacity(_capacity: usize) -> (r: Self) {
        BTreeMap::new()
    }

    fn weight(elem: &(K, V)) -> (r: usize) {
        1
    }

    fn len(&self) -> (r: usize) {
        let r = BTreeMap::len(self);
        assert(Self::obeys_model() ==> r == Self::view_len(self@));
        r
    }

    fn push(&mut self, elem: (K, V)) {
        BTreeMap::insert(self, elem.0, elem.1);
    }

    fn clear(&mut self) {
        BTreeMap::clear(self)
    }
}

impl<K: Ord + Hash, V> KeyedCollection for BTreeMap<K, V> {
    type Key = K;
    type Value = V;

    open spec fn lookup(v: Map<K, V>, key: K) -> Option<V> {
        if v.contains_key(key) { Some(v[key]) } else { None }
    }

    open spec fn inserted_view(v: Map<K, V>, key: K, value: V) -> Map<K, V> {
        v.insert(key, value)
    }

    open spec fn removed_view(v: Map<K, V>, key: K) -> Map<K, V> {
        v.remove(key)
    }

    proof fn lemma_inserted_view(v: Map<K, V>, key: K, value: V) {
    }

    fn insert(&mut self, key: K, value: V) -> (r: Option<V>) {
        BTreeMap::insert(self, key, value)
    }

    fn remove(&mut self, key: &K) -> (r: Option<V>) {
        BTreeMap::remove(self, key)
    }
}

} // verus!

verus! {

/// Every value that `C::default` returns is an empty collection.
pub open spec fn default_is_empty<C: Collection + Default>() -> bool {
    forall|d: C| #[trigger] call_ensures(C::default, (), d) ==> d@ == C::empty_view()
}

/// The view after pushing each of `items`, first to last, into a collection with view `v`.
pub open spec fn pushed_all<C: Collection>(v: C::V, items: Seq<C::Item>) -> C::V
    decreases items.len(),
{
    if items.len() == 0 {
        v
    } else {
        C::pushed_view(pushed_all::<C>(v, items.drop_last()), items.last())
    }
}

} // verus!
