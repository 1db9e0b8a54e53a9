//! Specifications of the standard-library methods that the collections use
//! and that vstd leaves unspecified.
use std::collections::{BTreeSet, HashSet};
use std::hash::Hash;

use vstd::prelude::*;
use vstd::std_specs::hash::*;
use vstd::utf8::{encode_utf8, is_char_boundary};

use crate::utf8::char_index_at_byte;

verus! {

/// Calls `String::with_capacity`, which creates an empty string.
#[verifier::external_body]
pub(crate) fn string_with_capacity(capacity: usize) -> (r: String)
    ensures
        r@ == Seq::<char>::empty(),
{
    String::with_capacity(capacity)
}

/// Calls `String::push`, which appends the character at the end.
#[verifier::external_body]
pub(crate) fn string_push(s: &mut String, c: char)
    ensures
        final(s)@ == old(s)@.push(c),
{
    s.push(c)
}

/// Calls `String::clear`, which removes every character.
#[verifier::external_body]
pub(crate) fn string_clear(s: &mut String)
    ensures
        final(s)@ == Seq::<char>::empty(),
{
    s.clear()
}

/// Calls `String::remove`, which removes and returns the character that
/// starts at byte `idx`. The call panics unless `idx` is below the byte
/// length and on a character boundary; `requires` leaves those inputs out.
#[verifier::external_body]
pub(crate) fn string_remove(s: &mut String, idx: usize) -> (r: char)
    requires
        idx < encode_utf8(old(s)@).len(),
        is_char_boundary(encode_utf8(old(s)@), idx as int),
    ensures
        0 <= char_index_at_byte(old(s)@, idx as int) < old(s)@.len(),
        r == old(s)@[char_index_at_byte(old(s)@, idx as int)],
        final(s)@ == old(s)@.remove(char_index_at_byte(old(s)@, idx as int)),
{
    s.remove(idx)
}

/// Calls `HashSet::take`, which removes and returns the element equal to
/// `value`, if there is one. As with vstd's specification of
/// `HashSet::remove`, the claim holds for keys that obey vstd's hash-table
/// key model.
#[verifier::external_body]
pub(crate) fn hash_set_take<T: Eq + Hash>(set: &mut HashSet<T>, value: &T) -> (r: Option<T>)
    ensures
        obeys_key_model::<T>() ==> final(set)@ == old(set)@.remove(*value),
        obeys_key_model::<T>() ==> (r == if old(set)@.contains(*value) { Some(*value) } else { None }),
{
    set.take(value)
}

/// Calls `BTreeSet::take`, which removes and returns the element equal to
/// `value`, if there is one. The claim holds for element types whose
/// ordering obeys vstd's comparison laws, as with `BTreeSet::remove`.
#[verifier::external_body]
pub(crate) fn btree_set_take<T: Ord>(set: &mut BTreeSet<T>, value: &T) -> (r: Option<T>)
    ensures
        vstd::laws_cmp::obeys_cmp::<T>() ==> final(set)@ == old(set)@.remove(*value),
        vstd::laws_cmp::obeys_cmp::<T>() ==> (r == if old(set)@.contains(*value) { Some(*value) } else { None }),
{
    set.take(value)
}

} // verus!
