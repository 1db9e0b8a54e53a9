//! The confined collection: a collection whose number of elements stays
//! within the bounds `MIN_LEN..=MAX_LEN` given by its type.
use std::collections::{BTreeMap, BTreeSet, HashMap, HashSet, VecDeque};
use std::hash::Hash;
use std::ops::Deref;

use vstd::prelude::*;
use vstd::std_specs::hash::obeys_key_model;
use vstd::utf8::{encode_utf8, is_char_boundary};

use crate::collection::{default_is_empty, pushed_all, Collection, KeyedCollection};
use crate::error::Error;
use crate::num::u24;
use crate::std_bridge;

verus! {

broadcast use {vstd::std_specs::hash::group_hash_axioms, vstd::std_specs::btree::group_btree_axioms};

// Confinement params

/// No lower bound.
pub const ZERO: usize = 0;
/// At least one element.
pub const ONE: usize = 1;
/// Upper bound of a length that fits in `u8`.
pub const U8: usize = 255;
/// Upper bound of a length that fits in `u16`.
pub const U16: usize = 65535;
/// Upper bound of a length that fits in `u24`.
pub const U24: usize = 16777215;
/// Upper bound of a length that fits in `u32`.
pub const U32: usize = 4294967295;
/// No upper bound beyond the machine's.
pub const USIZE: usize = usize::MAX;

/// The confinement for the collection.
///
/// A value is confined (`wf`) when its length lies in `MIN_LEN..=MAX_LEN`.
/// Every constructor returns a confined value (`with`, when its element fits
/// within `MAX_LEN`), and every operation keeps it confined, for collections
/// that obey their model (see `Collection`); a
/// refused operation leaves the value unchanged. A string's length counts the
/// bytes of its UTF-8 encoding, and `push` and `remove` on a string account
/// for the width of the character they add or remove.
#[derive(Clone, Hash, Debug)]
pub struct Confined<C: Collection, const MIN_LEN: usize, const MAX_LEN: usize>(C);

impl<C: Collection, const MIN_LEN: usize, const MAX_LEN: usize> Confined<C, MIN_LEN, MAX_LEN> {
    /// The underlying collection.
    pub closed spec fn inner(&self) -> C {
        self.0
    }

    /// The length of the underlying collection, as `len` reports it.
    pub open spec fn spec_len(&self) -> usize {
        self.inner().spec_len()
    }

    /// The length lies within the confinement bounds.
    pub open spec fn wf(&self) -> bool {
        MIN_LEN <= self.spec_len() <= MAX_LEN
    }

    /// The underlying collection follows its model, and its view is one a collection can have.
    pub open spec fn modeled(&self) -> bool {
        C::obeys_model() && C::view_wf(self.inner()@)
    }

    /// The error that a collection of length `len` is refused with, if any.
    pub open spec fn bounds_error(len: usize) -> Option<Error> {
        if len < MIN_LEN {
            Some(Error::Undersize { len, min_len: MIN_LEN })
        } else if len > MAX_LEN {
            Some(Error::Oversize { len, max_len: MAX_LEN })
        } else {
            None
        }
    }

    /// Pushing `items` one by one into a collection with view `v`, stopping at
    /// the first that does not fit: the final view, and the length at which it
    /// stopped, if it did.
    pub open spec fn extend_outcome(v: C::V, items: Seq<C::Item>) -> (C::V, Option<usize>)
        decreases items.len(),
    {
        if items.len() == 0 {
            (v, None)
        } else if C::view_len(v) + C::item_weight(items[0]) > MAX_LEN {
            (v, Some(C::view_len(v) as usize))
        } else {
            Self::extend_outcome(C::pushed_view(v, items[0]), items.drop_first())
        }
    }

    /// Tries to construct a confinement over a collection. Fails if the number of items in the
    /// collection exceeds one of the confinement bounds.
    pub fn try_from(col: C) -> (r: Result<Self, Error>)
        ensures
            match Self::bounds_error(col.spec_len()) {
                Some(e) => r == Err::<Self, Error>(e),
                None => r matches Ok(c) && c.inner() == col,
            },
            r matches Ok(c) ==> c.wf(),
            C::obeys_model() ==> col.spec_len() == C::view_len(col@),
    {
        let len = col.len();
        if len < MIN_LEN {
            return Err(Error::Undersize { len, min_len: MIN_LEN });
        }
        if len > MAX_LEN {
            return Err(Error::Oversize { len, max_len: MAX_LEN });
        }
        Ok(Self(col))
    }

    /// Tries to construct a confinement with a collection of elements taken from an iterator.
    /// Fails if the number of items in the collection exceeds one of the confinement bounds.
    pub fn try_from_iter(items: Vec<C::Item>) -> (r: Result<Self, Error>)
        ensures
            r matches Ok(c) ==> c.wf(),
            C::obeys_model() ==> {
                let v = pushed_all::<C>(C::empty_view(), items@);
                match Self::bounds_error(C::view_len(v) as usize) {
                    Some(e) => r == Err::<Self, Error>(e),
                    None => r matches Ok(c) && c.inner()@ == v && c.modeled(),
                }
            },
    {
        let mut col = C::with_capacity(MIN_LEN);
        let ghost all = items@;
        proof {
            C::lemma_empty_view();
            assert(all.take(0) =~= Seq::<C::Item>::empty());
        }
        for item in it: items.into_iter()
            invariant
                it.seq() == all,
                C::obeys_model() ==> col@ == pushed_all::<C>(C::empty_view(), all.take(it.index() as int)),
                C::view_wf(col@) || !C::obeys_model(),
        {
            let ghost before = col@;
            let ghost i = it.index();
            col.push(item);
            proof {
                assert(all.take(i + 1).drop_last() =~= all.take(i as int));
                if C::obeys_model() {
                    C::lemma_pushed_view(before, item);
                }
            }
        }
        proof {
            assert(all.take(all.len() as int) =~= all);
        }
        Self::try_from(col)
    }

    /// Attempts to add a single element to the confined collection. Fails if the number of elements
    /// in the collection already maximal, or, for a string, if the character's bytes do not fit
    /// within the maximum.
    pub fn push(&mut self, elem: C::Item) -> (r: Result<(), Error>)
        ensures
            old(self).spec_len() + C::item_weight(elem) > MAX_LEN ==> r == Err::<(), Error>(
                Error::Oversize { len: old(self).spec_len(), max_len: MAX_LEN },
            ) && *final(self) == *old(self),
            old(self).spec_len() + C::item_weight(elem) <= MAX_LEN ==> r == Ok::<(), Error>(()),
            old(self).spec_len() + C::item_weight(elem) <= MAX_LEN && C::obeys_model() 
                ==> final(self).inner()@ == C::pushed_view(old(self).inner()@, elem),
            C::obeys_model() ==> old(self).spec_len() == C::view_len(old(self).inner()@),
            old(self).modeled() ==> final(self).modeled(),
            old(self).wf() && old(self).modeled() ==> final(self).wf(),
    {
        let len = self.0.len();
        let weight = C::weight(&elem);
        if len > MAX_LEN || weight > MAX_LEN - len {
            return Err(Error::Oversize { len, max_len: MAX_LEN });
        }
        let ghost before = self.0;
        self.0.push(elem);
        proof {
            if C::obeys_model() && C::view_wf(before@) {
                C::lemma_pushed_view(before@, elem);
                if C::view_len(self.0@) <= MAX_LEN {
                    self.0.lemma_len_of_view();
                }
            }
        }
        Ok(())
    }

    /// Attempts to add all elements from an iterator to the confined collection. Fails if the
    /// number of elements in the collection already maximal, leaving the elements pushed before.
    pub fn extend(&mut self, items: Vec<C::Item>) -> (r: Result<(), Error>)
        ensures
            items@.len() == 0 ==> r == Ok::<(), Error>(()) && *final(self) == *old(self),
            items@.len() > 0 && old(self).spec_len() + C::item_weight(items@[0]) > MAX_LEN ==> r
                == Err::<(), Error>(
                Error::Oversize { len: old(self).spec_len(), max_len: MAX_LEN },
            ) && *final(self) == *old(self),
            old(self).modeled() ==> ({
                let (v, stopped) = Self::extend_outcome(old(self).inner()@, items@);
                &&& final(self).inner()@ == v
                &&& r == match stopped {
                    None => Ok::<(), Error>(()),
                    Some(len) => Err(Error::Oversize { len, max_len: MAX_LEN }),
                }
            }),
            old(self).modeled() ==> final(self).modeled(),
            old(self).wf() && old(self).modeled() ==> final(self).wf(),
    {
        let ghost start = *self;
        let ghost all = items@;
        proof {
            assert(all.skip(0) =~= all);
        }
        for item in it: items.into_iter()
            invariant
                it.seq() == all,
                all == items@,
                start == *old(self),
                it.index() == 0 ==> *self == start,
                it.index() != 0 ==> start.spec_len() + C::item_weight(all[0]) <= MAX_LEN,
                start.modeled() ==> self.modeled() && Self::extend_outcome(start.0@, all)
                    == Self::extend_outcome(self.0@, all.skip(it.index() as int)),
                start.wf() && start.modeled() ==> self.wf(),
        {
            let ghost i = it.index();
            proof {
                if start.modeled() {
                    assert(all.skip(i as int).len() > 0);
                    assert(all.skip(i as int)[0] == item);
                    assert(all.skip(i as int).drop_first() =~= all.skip(i + 1));
                }
            }
            match self.push(item) {
                Ok(()) => {},
                Err(e) => {
                    return Err(e);
                },
            }
        }
        proof {
            assert(all.skip(all.len() as int) =~= Seq::<C::Item>::empty());
        }
        Ok(())
    }

    /// Removes confinement and returns the underlying collection.
    pub fn unbox(self) -> (r: C)
        ensures
            r == self.inner(),
    {
        self.0
    }
}

impl<C: Collection, const MIN_LEN: usize, const MAX_LEN: usize> Deref for Confined<C, MIN_LEN, MAX_LEN> {
    type Target = C;

    fn deref(&self) -> (r: &C)
        ensures
            *r == self.inner(),
    {
        &self.0
    }
}

impl<C: Collection, const MAX_LEN: usize> Confined<C, ZERO, MAX_LEN> where C: Default {
    /// Constructs a new confinement containing no elements.
    pub fn new() -> (r: Self)
        ensures
            call_ensures(C::default, (), r.inner()),
            default_is_empty::<C>() ==> r.inner()@ == C::empty_view(),
            default_is_empty::<C>() && C::obeys_model() ==> r.spec_len() == 0 && r.wf() && r.modeled(),
    {
        Self::default()
    }

    /// Constructs a new confinement containing no elements, but with a pre-allocated storage for
    /// the `capacity` of elements.
    pub fn with_capacity(capacity: usize) -> (r: Self)
        ensures
            r.inner()@ == C::empty_view(),
            C::obeys_model() ==> r.spec_len() == 0 && r.wf() && r.modeled(),
    {
        let r = Self(C::with_capacity(capacity));
        proof {
            C::lemma_empty_view();
            if C::obeys_model() {
                r.0.lemma_len_of_view();
            }
        }
        r
    }

    /// Removes all elements from the confined collection.
    pub fn clear(&mut self)
        ensures
            final(self).inner()@ == C::empty_view(),
            C::obeys_model() ==> final(self).spec_len() == 0 && final(self).wf() && final(self).modeled(),
    {
        self.0.clear();
        proof {
            C::lemma_empty_view();
            if C::obeys_model() {
                self.0.lemma_len_of_view();
            }
        }
    }
}

impl<C: Collection, const MAX_LEN: usize> Default for Confined<C, ZERO, MAX_LEN> where C: Default {
    /// A confinement over the collection's default, which for the standard
    /// collections is empty.
    fn default() -> (r: Self)
        ensures
            call_ensures(C::default, (), r.inner()),
            default_is_empty::<C>() ==> r.inner()@ == C::empty_view(),
            default_is_empty::<C>() && C::obeys_model() ==> r.spec_len() == 0 && r.wf() && r.modeled(),
    {
        let r = Self(C::default());
        proof {
            C::lemma_empty_view();
            if default_is_empty::<C>() && C::obeys_model() {
                r.0.lemma_len_of_view();
            }
        }
        r
    }
}

impl<C: Collection, const MAX_LEN: usize> Confined<C, ONE, MAX_LEN> where C: Default {
    /// Constructs a confinement with a collection made of a single required element.
    pub fn with(elem: C::Item) -> (r: Self)
        ensures
            exists|d: C| #[trigger] call_ensures(C::default, (), d) && (C::obeys_model() ==> r.inner()@
                == C::pushed_view(d@, elem)),
            default_is_empty::<C>() && C::obeys_model() ==> r.inner()@ == C::pushed_view(
                C::empty_view(),
                elem,
            ) && r.modeled(),
            default_is_empty::<C>() && C::obeys_model() && C::item_weight(elem) <= MAX_LEN ==> r.wf(),
    {
        let mut c = C::default();
        let ghost d = c;
        let ghost e = elem;
        c.push(elem);
        proof {
            C::lemma_empty_view();
            if default_is_empty::<C>() && C::obeys_model() {
                C::lemma_pushed_view(C::empty_view(), e);
                if C::item_weight(e) <= MAX_LEN {
                    c.lemma_len_of_view();
                }
            }
        }
        Self(c)
    }
}

impl<C: Collection, const MIN_LEN: usize> Confined<C, MIN_LEN, U8> where C: Default {
    /// Returns number of elements in the confined collection as `u8`. The confinement guarantees
    /// that the collection length can't exceed `u8::MAX`.
    pub fn len_u8(&self) -> (r: u8)
        ensures
            r == self.spec_len() as u8,
            self.wf() ==> r == self.spec_len(),
    {
        self.0.len() as u8
    }
}

impl<C: Collection, const MIN_LEN: usize> Confined<C, MIN_LEN, U16> where C: Default {
    /// Returns number of elements in the confined collection as `u16`. The confinement guarantees
    /// that the collection length can't exceed `u16::MAX`.
    pub fn len_u16(&self) -> (r: u16)
        ensures
            r == self.spec_len() as u16,
            self.wf() ==> r == self.spec_len(),
    {
        self.0.len() as u16
    }
}

impl<C: Collection, const MIN_LEN: usize> Confined<C, MIN_LEN, U24> where C: Default {
    /// Returns number of elements in the confined collection as `u24`. The confinement guarantees
    /// that the collection length can't exceed `u24::MAX`.
    pub fn len_u24(&self) -> (r: u24)
        requires
            self.spec_len() as u32 <= crate::num::U24_MAX,
        ensures
            r.value() == self.spec_len() as u32,
            self.wf() ==> r.value() == self.spec_len(),
    {
        let len = self.0.len() as u32;
        u24::try_from(len).expect("confinement broken")
    }
}

impl<C: Collection, const MIN_LEN: usize> Confined<C, MIN_LEN, U32> where C: Default {
    /// Returns number of elements in the confined collection as `u32`. The confinement guarantees
    /// that the collection length can't exceed `u32::MAX`.
    pub fn len_u32(&self) -> (r: u32)
        ensures
            r == self.spec_len() as u32,
            self.wf() ==> r == self.spec_len(),
    {
        self.0.len() as u32
    }
}

impl<C: KeyedCollection, const MIN_LEN: usize, const MAX_LEN: usize> Confined<C, MIN_LEN, MAX_LEN> {
    /// Inserts a new value into the confined collection under a given key. Fails if the collection
    /// already contains maximum number of elements allowed by the confinement.
    pub fn insert(&mut self, key: C::Key, value: C::Value) -> (r: Result<Option<C::Value>, Error>)
        ensures
            old(self).spec_len() >= MAX_LEN ==> r == Err::<Option<C::Value>, Error>(
                Error::Oversize { len: old(self).spec_len(), max_len: MAX_LEN },
            ) && *final(self) == *old(self),
            old(self).spec_len() < MAX_LEN ==> (r is Ok),
            old(self).spec_len() < MAX_LEN && C::obeys_model() ==> final(self).inner()@
                == C::inserted_view(old(self).inner()@, key, value) && r == Ok::<Option<C::Value>, Error>(
                C::lookup(old(self).inner()@, key),
            ),
            old(self).modeled() ==> final(self).modeled(),
            old(self).wf() && old(self).modeled() ==> final(self).wf(),
    {
        let len = self.0.len();
        if len >= MAX_LEN {
            return Err(Error::Oversize { len, max_len: MAX_LEN });
        }
        let ghost before = self.0;
        let ghost (k, v) = (key, value);
        let prev = self.0.insert(key, value);
        proof {
            if C::obeys_model() && C::view_wf(before@) {
                C::lemma_inserted_view(before@, k, v);
                self.0.lemma_len_of_view();
            }
        }
        Ok(prev)
    }
}

impl<C: KeyedCollection, const MAX_LEN: usize> Confined<C, ONE, MAX_LEN> where C: Default {
    /// Constructs a confinement with a collection made of a single required key-value pair.
    pub fn with_key_value(key: C::Key, value: C::Value) -> (r: Self)
        ensures
            exists|d: C| #[trigger] call_ensures(C::default, (), d) && (C::obeys_model() ==> r.inner()@
                == C::inserted_view(d@, key, value)),
            default_is_empty::<C>() && C::obeys_model() ==> r.inner()@ == C::inserted_view(
                C::empty_view(),
                key,
                value,
            ) && r.modeled(),
            default_is_empty::<C>() && C::obeys_model() && 1 <= MAX_LEN ==> r.wf(),
    {
        let mut c = C::default();
        let ghost d = c;
        let ghost (k, v) = (key, value);
        c.insert(key, value);
        proof {
            C::lemma_empty_view();
            if default_is_empty::<C>() && C::obeys_model() {
                C::lemma_inserted_view(C::empty_view(), k, v);
                c.lemma_len_of_view();
            }
        }
        Self(c)
    }
}

impl<const MIN_LEN: usize, const MAX_LEN: usize> Confined<String, MIN_LEN, MAX_LEN> {
    /// Removes a single character from the confined string, unless the string doesn't shorten more
    /// than the confinement requirement. Errors otherwise.
    ///
    /// `index` is a byte position; the character removed is the one whose
    /// encoding starts there, and the string shortens by that character's bytes.
    pub fn remove(&mut self, index: usize) -> (r: Result<char, Error>)
        requires
            MIN_LEN < old(self).spec_len() && index < old(self).spec_len() ==> is_char_boundary(
                encode_utf8(old(self).inner()@),
                index as int,
            ),
        ensures
            old(self).spec_len() <= MIN_LEN ==> r == Err::<char, Error>(
                Error::Undersize { len: old(self).spec_len(), min_len: MIN_LEN },
            ) && *final(self) == *old(self),
            MIN_LEN < old(self).spec_len() <= index ==> r == Err::<char, Error>(
                Error::OutOfBoundary { index, len: old(self).spec_len() },
            ) && *final(self) == *old(self),
            MIN_LEN < old(self).spec_len() && index < old(self).spec_len() ==> {
                let k = crate::utf8::char_index_at_byte(old(self).inner()@, index as int);
                let width = <String as Collection>::item_weight(old(self).inner()@[k]);
                &&& 0 <= k < old(self).inner()@.len()
                &&& old(self).spec_len() - width < MIN_LEN ==> r == Err::<char, Error>(
                    Error::Undersize { len: old(self).spec_len(), min_len: MIN_LEN },
                ) && *final(self) == *old(self)
                &&& old(self).spec_len() - width >= MIN_LEN ==> r == Ok::<char, Error>(
                    old(self).inner()@[k],
                ) && final(self).inner()@ == old(self).inner()@.remove(k)
                    && final(self).spec_len() == old(self).spec_len() - width
            },
            old(self).wf() ==> final(self).wf(),
    {
        let len = Collection::len(&self.0);
        if Collection::is_empty(&self.0) || len - 1 < MIN_LEN {
            return Err(Error::Undersize { len, min_len: MIN_LEN });
        }
        if index >= len {
            return Err(Error::OutOfBoundary { index, len });
        }
        let width = crate::utf8::char_width_at(&self.0, index);
        proof {
            let k = crate::utf8::char_index_at_byte(self.0@, index as int);
            crate::utf8::lemma_encode_utf8_remove(self.0@, k);
        }
        if len - width < MIN_LEN {
            return Err(Error::Undersize { len, min_len: MIN_LEN });
        }
        let ghost before = self.0@;
        let c = std_bridge::string_remove(&mut self.0, index);
        proof {
            let k = crate::utf8::char_index_at_byte(before, index as int);
            crate::utf8::lemma_encode_utf8_remove(before, k);
        }
        Ok(c)
    }
}

impl<T, const MIN_LEN: usize, const MAX_LEN: usize> Confined<Vec<T>, MIN_LEN, MAX_LEN> {
    /// Removes an element from the vector at a given index. Errors if the index exceeds the number
    /// of elements in the vector, of if the new vector length will be less than the confinement
    /// requirement. Returns the removed element otherwise.
    pub fn remove(&mut self, index: usize) -> (r: Result<T, Error>)
        ensures
            old(self).spec_len() <= MIN_LEN ==> r == Err::<T, Error>(
                Error::Undersize { len: old(self).spec_len(), min_len: MIN_LEN },
            ) && *final(self) == *old(self),
            MIN_LEN < old(self).spec_len() <= index ==> r == Err::<T, Error>(
                Error::OutOfBoundary { index, len: old(self).spec_len() },
            ) && *final(self) == *old(self),
            MIN_LEN < old(self).spec_len() && index < old(self).spec_len() ==> r == Ok::<T, Error>(
                old(self).inner()@[index as int],
            ) && final(self).inner()@ == old(self).inner()@.remove(index as int),
            old(self).wf() ==> final(self).wf(),
    {
        let len = self.0.len();
        if Collection::is_empty(&self.0) || len - 1 < MIN_LEN {
            return Err(Error::Undersize { len, min_len: MIN_LEN });
        }
        if index >= len {
            return Err(Error::OutOfBoundary { index, len });
        }
        Ok(self.0.remove(index))
    }
}

impl<T, const MIN_LEN: usize, const MAX_LEN: usize> Confined<VecDeque<T>, MIN_LEN, MAX_LEN> {
    /// Removes an element from the deque at a given index. Errors if the index exceeds the number
    /// of elements in the deque, of if the new deque length will be less than the confinement
    /// requirement. Returns the removed element otherwise.
    pub fn remove(&mut self, index: usize) -> (r: Result<T, Error>)
        ensures
            old(self).spec_len() <= MIN_LEN ==> r == Err::<T, Error>(
                Error::Undersize { len: old(self).spec_len(), min_len: MIN_LEN },
            ) && *final(self) == *old(self),
            MIN_LEN < old(self).spec_len() <= index ==> r == Err::<T, Error>(
                Error::OutOfBoundary { index, len: old(self).spec_len() },
            ) && *final(self) == *old(self),
            MIN_LEN < old(self).spec_len() && index < old(self).spec_len() ==> r == Ok::<T, Error>(
                old(self).inner()@[index as int],
            ) && final(self).inner()@ == old(self).inner()@.remove(index as int),
            old(self).wf() ==> final(self).wf(),
    {
        let len = self.0.len();
        if Collection::is_empty(&self.0) || len - 1 < MIN_LEN {
            return Err(Error::Undersize { len, min_len: MIN_LEN });
        }
        if index >= len {
            return Err(Error::OutOfBoundary { index, len });
        }
        Ok(self.0.remove(index).expect("element within the length"))
    }
}

impl<T: Hash + Eq, const MIN_LEN: usize, const MAX_LEN: usize> Confined<HashSet<T>, MIN_LEN, MAX_LEN> {
    /// Removes an element from the set. Errors if the index exceeds the number of elements in the
    /// set, of if the new collection length will be less than the confinement requirement. Returns
    /// if the element was present in the set.
    pub fn remove(&mut self, elem: &T) -> (r: Result<bool, Error>)
        ensures
            r matches Err(e) ==> e == (Error::Undersize { len: old(self).spec_len(), min_len: MIN_LEN })
                && *final(self) == *old(self),
            obeys_key_model::<T>() ==> {
                &&& !old(self).inner()@.contains(*elem) ==> r == Ok::<bool, Error>(false)
                    && *final(self) == *old(self)
                &&& old(self).inner()@.contains(*elem) && old(self).spec_len() <= MIN_LEN ==> (r is Err)
                &&& old(self).inner()@.contains(*elem) && MIN_LEN < old(self).spec_len() ==> r == Ok::<
                    bool,
                    Error,
                >(true) && final(self).inner()@ == old(self).inner()@.remove(*elem)
            },
            old(self).wf() && old(self).modeled() ==> final(self).wf() && final(self).modeled(),
    {
        if !self.0.contains(elem) {
            return Ok(false);
        }
        let len = self.0.len();
        if Collection::is_empty(&self.0) || len - 1 < MIN_LEN {
            return Err(Error::Undersize { len, min_len: MIN_LEN });
        }
        Ok(self.0.remove(elem))
    }

    /// Removes an element from the set. Errors if the index exceeds the number of elements in the
    /// set, of if the new collection length will be less than the confinement requirement. Returns
    /// the removed element otherwise.
    pub fn take(&mut self, elem: &T) -> (r: Result<Option<T>, Error>)
        ensures
            r matches Err(e) ==> e == (Error::Undersize { len: old(self).spec_len(), min_len: MIN_LEN })
                && *final(self) == *old(self),
            obeys_key_model::<T>() ==> {
                &&& !old(self).inner()@.contains(*elem) ==> r == Ok::<Option<T>, Error>(None)
                    && *final(self) == *old(self)
                &&& old(self).inner()@.contains(*elem) && old(self).spec_len() <= MIN_LEN ==> (r is Err)
                &&& old(self).inner()@.contains(*elem) && MIN_LEN < old(self).spec_len() ==> r == Ok::<
                    Option<T>,
                    Error,
                >(Some(*elem)) && final(self).inner()@ == old(self).inner()@.remove(*elem)
            },
            old(self).wf() && old(self).modeled() ==> final(self).wf() && final(self).modeled(),
    {
        if !self.0.contains(elem) {
            return Ok(None);
        }
        let len = self.0.len();
        if Collection::is_empty(&self.0) || len - 1 < MIN_LEN {
            return Err(Error::Undersize { len, min_len: MIN_LEN });
        }
        Ok(std_bridge::hash_set_take(&mut self.0, elem))
    }
}

impl<T: Ord, const MIN_LEN: usize, const MAX_LEN: usize> Confined<BTreeSet<T>, MIN_LEN, MAX_LEN> {
    /// Removes an element from the set. Errors if the index exceeds the number of elements in the
    /// set, of if the new collection length will be less than the confinement requirement. Returns
    /// if the element was present in the set.
    pub fn remove(&mut self, elem: &T) -> (r: Result<bool, Error>)
        ensures
            r matches Err(e) ==> e == (Error::Undersize { len: old(self).spec_len(), min_len: MIN_LEN })
                && *final(self) == *old(self),
            vstd::laws_cmp::obeys_cmp::<T>() ==> {
                &&& !old(self).inner()@.contains(*elem) ==> r == Ok::<bool, Error>(false)
                    && *final(self) == *old(self)
                &&& old(self).inner()@.contains(*elem) && old(self).spec_len() <= MIN_LEN ==> (r is Err)
                &&& old(self).inner()@.contains(*elem) && MIN_LEN < old(self).spec_len() ==> r == Ok::<
                    bool,
                    Error,
                >(true) && final(self).inner()@ == old(self).inner()@.remove(*elem)
            },
            old(self).wf() && old(self).modeled() ==> final(self).wf() && final(self).modeled(),
    {
        if !self.0.contains(elem) {
            return Ok(false);
        }
        let len = self.0.len();
        if Collection::is_empty(&self.0) || len - 1 < MIN_LEN {
            return Err(Error::Undersize { len, min_len: MIN_LEN });
        }
        Ok(self.0.remove(elem))
    }

    /// Removes an element from the set. Errors if the index exceeds the number of elements in the
    /// set, of if the new collection length will be less than the confinement requirement. Returns
    /// the removed element otherwise.
    pub fn take(&mut self, elem: &T) -> (r: Result<Option<T>, Error>)
        ensures
            r matches Err(e) ==> e == (Error::Undersize { len: old(self).spec_len(), min_len: MIN_LEN })
                && *final(self) == *old(self),
            vstd::laws_cmp::obeys_cmp::<T>() ==> {
                &&& !old(self).inner()@.contains(*elem) ==> r == Ok::<Option<T>, Error>(None)
                    && *final(self) == *old(self)
                &&& old(self).inner()@.contains(*elem) && old(self).spec_len() <= MIN_LEN ==> (r is Err)
                &&& old(self).inner()@.contains(*elem) && MIN_LEN < old(self).spec_len() ==> r == Ok::<
                    Option<T>,
                    Error,
                >(Some(*elem)) && final(self).inner()@ == old(self).inner()@.remove(*elem)
            },
            old(self).wf() && old(self).modeled() ==> final(self).wf() && final(self).modeled(),
    {
        if !self.0.contains(elem) {
            return Ok(None);
        }
        let len = self.0.len();
        if Collection::is_empty(&self.0) || len - 1 < MIN_LEN {
            return Err(Error::Undersize { len, min_len: MIN_LEN });
        }
        Ok(std_bridge::btree_set_take(&mut self.0, elem))
    }
}

impl<K: Hash + Eq, V, const MIN_LEN: usize, const MAX_LEN: usize> Confined<HashMap<K, V>, MIN_LEN, MAX_LEN> {
    /// Removes an element from the map. Errors if the index exceeds the number of elements in the
    /// map, of if the new collection length will be less than the confinement requirement. Returns
    /// the removed value otherwise.
    pub fn remove(&mut self, key: &K) -> (r: Result<Option<V>, Error>)
        ensures
            r matches Err(e) ==> e == (Error::Undersize { len: old(self).spec_len(), min_len: MIN_LEN })
                && *final(self) == *old(self),
            obeys_key_model::<K>() ==> {
                &&& !old(self).inner()@.contains_key(*key) ==> r == Ok::<Option<V>, Error>(None)
                    && *final(self) == *old(self)
                &&& old(self).inner()@.contains_key(*key) && old(self).spec_len() <= MIN_LEN ==> (r is Err)
                &&& old(self).inner()@.contains_key(*key) && MIN_LEN < old(self).spec_len() ==> r == Ok::<
                    Option<V>,
                    Error,
                >(Some(old(self).inner()@[*key])) && final(self).inner()@ == old(self).inner()@.remove(*key)
            },
            old(self).wf() && old(self).modeled() ==> final(self).wf() && final(self).modeled(),
    {
        if !self.0.contains_key(key) {
            return Ok(None);
        }
        let len = self.0.len();
        if Collection::is_empty(&self.0) || len - 1 < MIN_LEN {
            return Err(Error::Undersize { len, min_len: MIN_LEN });
        }
        Ok(self.0.remove(key))
    }
}

impl<K: Ord + Hash, V, const MIN_LEN: usize, const MAX_LEN: usize> Confined<BTreeMap<K, V>, MIN_LEN, MAX_LEN> {
    /// Removes an element from the map. Errors if the index exceeds the number of elements in the
    /// map, of if the new collection length will be less than the confinement requirement. Returns
    /// the removed value otherwise.
    pub fn remove(&mut self, key: &K) -> (r: Result<Option<V>, Error>)
        ensures
            r matches Err(e) ==> e == (Error::Undersize { len: old(self).spec_len(), min_len: MIN_LEN })
                && *final(self) == *old(self),
            vstd::laws_cmp::obeys_cmp::<K>() ==> {
                &&& !old(self).inner()@.contains_key(*key) ==> r == Ok::<Option<V>, Error>(None)
                    && *final(self) == *old(self)
                &&& old(self).inner()@.contains_key(*key) && old(self).spec_len() <= MIN_LEN ==> (r is Err)
                &&& old(self).inner()@.contains_key(*key) && MIN_LEN < old(self).spec_len() ==> r == Ok::<
                    Option<V>,
                    Error,
                >(Some(old(self).inner()@[*key])) && final(self).inner()@ == old(self).inner()@.remove(*key)
            },
            old(self).wf() && old(self).modeled() ==> final(self).wf() && final(self).modeled(),
    {
        if !self.0.contains_key(key) {
            return Ok(None);
        }
        let len = self.0.len();
        if Collection::is_empty(&self.0) || len - 1 < MIN_LEN {
            return Err(Error::Undersize { len, min_len: MIN_LEN });
        }
        Ok(self.0.remove(key))
    }
}

// Type aliases

/// [`String`] with maximum 255 characters.
pub type TinyString = Confined<String, ZERO, U8>;
/// [`String`] with maximum 2^16-1 characters.
pub type SmallString = Confined<String, ZERO, U16>;
/// [`String`] with maximum 2^24-1 characters.
pub type MediumString = Confined<String, ZERO, U24>;
/// [`String`] with maximum 2^32-1 characters.
pub type LargeString = Confined<String, ZERO, U32>;
/// [`String`] which contains at least a single character.
pub type NonEmptyString = Confined<String, ONE, USIZE>;

/// [`Vec`] with maximum 255 items of type `T`.
pub type TinyVec<T> = Confined<Vec<T>, ZERO, U8>;
/// [`Vec`] with maximum 2^16-1 items of type `T`.
pub type SmallVec<T> = Confined<Vec<T>, ZERO, U16>;
/// [`Vec`] with maximum 2^24-1 items of type `T`.
pub type MediumVec<T> = Confined<Vec<T>, ZERO, U24>;
/// [`Vec`] with maximum 2^32-1 items of type `T`.
pub type LargeVec<T> = Confined<Vec<T>, ZERO, U32>;
/// [`Vec`] which contains at least a single item.
pub type NonEmptyVec<T> = Confined<Vec<T>, ONE, USIZE>;

/// [`VecDeque`] with maximum 255 items of type `T`.
pub type TinyDeque<T> = Confined<VecDeque<T>, ZERO, U8>;
/// [`VecDeque`] with maximum 2^16-1 items of type `T`.
pub type SmallDeque<T> = Confined<VecDeque<T>, ZERO, U16>;
/// [`VecDeque`] with maximum 2^24-1 items of type `T`.
pub type MediumDeque<T> = Confined<VecDeque<T>, ZERO, U24>;
/// [`VecDeque`] with maximum 2^32-1 items of type `T`.
pub type LargeDeque<T> = Confined<VecDeque<T>, ZERO, U32>;
/// [`VecDeque`] which contains at least a single item.
pub type NonEmptyDeque<T> = Confined<VecDeque<T>, ONE, USIZE>;

/// [`HashSet`] with maximum 255 items of type `T`.
pub type TinyHashSet<T> = Confined<HashSet<T>, ZERO, U8>;
/// [`HashSet`] with maximum 2^16-1 items of type `T`.
pub type SmallHashSet<T> = Confined<HashSet<T>, ZERO, U16>;
/// [`HashSet`] with maximum 2^24-1 items of type `T`.
pub type MediumHashSet<T> = Confined<HashSet<T>, ZERO, U24>;
/// [`HashSet`] with maximum 2^32-1 items of type `T`.
pub type LargeHashSet<T> = Confined<HashSet<T>, ZERO, U32>;
/// [`HashSet`] which contains at least a single item.
pub type NonEmptyHashSet<T> = Confined<HashSet<T>, ONE, USIZE>;

/// [`BTreeSet`] with maximum 255 items of type `T`.
pub type TinyOrdSet<T> = Confined<BTreeSet<T>, ZERO, U8>;
/// [`BTreeSet`] with maximum 2^16-1 items of type `T`.
pub type SmallOrdSet<T> = Confined<BTreeSet<T>, ZERO, U16>;
/// [`BTreeSet`] with maximum 2^24-1 items of type `T`.
pub type MediumOrdSet<T> = Confined<BTreeSet<T>, ZERO, U24>;
/// [`BTreeSet`] with maximum 2^32-1 items of type `T`.
pub type LargeOrdSet<T> = Confined<BTreeSet<T>, ZERO, U32>;
/// [`BTreeSet`] which contains at least a single item.
pub type NonEmptyOrdSet<T> = Confined<BTreeSet<T>, ONE, USIZE>;

/// [`HashMap`] with maximum 255 items.
pub type TinyHashMap<K, V> = Confined<HashMap<K, V>, ZERO, U8>;
/// [`HashMap`] with maximum 2^16-1 items.
pub type SmallHashMap<K, V> = Confined<HashMap<K, V>, ZERO, U16>;
/// [`HashMap`] with maximum 2^24-1 items.
pub type MediumHashMap<K, V> = Confined<HashMap<K, V>, ZERO, U24>;
/// [`HashMap`] with maximum 2^32-1 items.
pub type LargeHashMap<K, V> = Confined<HashMap<K, V>, ZERO, U32>;
/// [`HashMap`] which contains at least a single item.
pub type NonEmptyHashMap<K, V> = Confined<HashMap<K, V>, ONE, USIZE>;

/// [`BTreeMap`] with maximum 255 items.
pub type TinyOrdMap<K, V> = Confined<BTreeMap<K, V>, ZERO, U8>;
/// [`BTreeMap`] with maximum 2^16-1 items.
pub type SmallOrdMap<K, V> = Confined<BTreeMap<K, V>, ZERO, U16>;
/// [`BTreeMap`] with maximum 2^24-1 items.
pub type MediumOrdMap<K, V> = Confined<BTreeMap<K, V>, ZERO, U24>;
/// [`BTreeMap`] with maximum 2^32-1 items.
pub type LargeOrdMap<K, V> = Confined<BTreeMap<K, V>, ZERO, U32>;
/// [`BTreeMap`] which contains at least a single item.
pub type NonEmptyOrdMap<K, V> = Confined<BTreeMap<K, V>, ONE, USIZE>;

} // verus!
