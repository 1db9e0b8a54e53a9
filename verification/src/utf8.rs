//! Facts about the UTF-8 encoding of character sequences, which a string's
//! length counts, and the width of the character at a byte position.
use vstd::prelude::*;
use vstd::utf8::{
    char_is_scalar, encode_scalar, encode_utf8, encode_utf8_first_scalar, encode_utf8_valid_utf8,
    is_char_boundary, length_of_first_codepoint, pop_first_scalar,
};

verus! {

/// The index of the character whose UTF-8 encoding starts at byte `byte`
/// of the encoding of `chars`.
pub open spec fn char_index_at_byte(chars: Seq<char>, byte: int) -> int
    decreases chars.len(),
{
    if byte <= 0 || chars.len() == 0 {
        0
    } else {
        1 + char_index_at_byte(chars.drop_first(), byte - encode_scalar(chars[0] as u32).len())
    }
}

/// Encoding a concatenation concatenates the encodings.
pub proof fn lemma_encode_utf8_concat(a: Seq<char>, b: Seq<char>)
    ensures
        encode_utf8(a + b) == encode_utf8(a) + encode_utf8(b),
    decreases a.len(),
{
    if a.len() == 0 {
        assert(a + b =~= b);
        assert(encode_utf8(a) =~= Seq::<u8>::empty());
        assert(encode_utf8(a) + encode_utf8(b) =~= encode_utf8(b));
    } else {
        assert((a + b).drop_first() =~= a.drop_first() + b);
        assert((a + b)[0] == a[0]);
        lemma_encode_utf8_concat(a.drop_first(), b);
        assert(encode_utf8(a + b) =~= encode_utf8(a) + encode_utf8(b));
    }
}

/// The encoding of a single character is its scalar's encoding, one to four bytes long.
pub proof fn lemma_encode_utf8_single(c: char)
    ensures
        encode_utf8(seq![c]) == encode_scalar(c as u32),
        1 <= encode_scalar(c as u32).len() <= 4,
{
    assert(seq![c].drop_first() =~= Seq::<char>::empty());
    assert(encode_utf8(Seq::<char>::empty()) =~= Seq::<u8>::empty());
    assert(encode_utf8(seq![c]) =~= encode_scalar(c as u32));
}

/// Pushing a character adds the length of its encoding.
pub proof fn lemma_encode_utf8_push(v: Seq<char>, c: char)
    ensures
        encode_utf8(v.push(c)).len() == encode_utf8(v).len() + encode_scalar(c as u32).len(),
        1 <= encode_scalar(c as u32).len() <= 4,
{
    assert(v.push(c) =~= v + seq![c]);
    lemma_encode_utf8_concat(v, seq![c]);
    lemma_encode_utf8_single(c);
}

/// Removing a character subtracts the length of its encoding.
pub proof fn lemma_encode_utf8_remove(v: Seq<char>, k: int)
    requires
        0 <= k < v.len(),
    ensures
        encode_utf8(v.remove(k)).len() + encode_scalar(v[k] as u32).len() == encode_utf8(v).len(),
{
    assert(v =~= v.take(k) + (seq![v[k]] + v.skip(k + 1)));
    assert(v.remove(k) =~= v.take(k) + v.skip(k + 1));
    lemma_encode_utf8_concat(v.take(k), seq![v[k]] + v.skip(k + 1));
    lemma_encode_utf8_concat(seq![v[k]], v.skip(k + 1));
    lemma_encode_utf8_concat(v.take(k), v.skip(k + 1));
    lemma_encode_utf8_single(v[k]);
}

/// The width of a UTF-8 encoding whose leading byte is `b`.
pub open spec fn width_of_leading_byte(b: u8) -> nat {
    if b <= 0x7f {
        1
    } else if 0xc0 <= b <= 0xdf {
        2
    } else if 0xe0 <= b <= 0xef {
        3
    } else {
        4
    }
}

/// The bytes before a character boundary encode the characters before the
/// character that `char_index_at_byte` picks.
pub proof fn lemma_char_index_at_byte(v: Seq<char>, idx: int)
    requires
        is_char_boundary(encode_utf8(v), idx),
        0 <= idx < encode_utf8(v).len(),
    ensures
        0 <= char_index_at_byte(v, idx) < v.len(),
        encode_utf8(v.take(char_index_at_byte(v, idx))).len() == idx,
    decreases v.len(),
{
    if v.len() == 0 {
        assert(encode_utf8(v) =~= Seq::<u8>::empty());
    } else if idx == 0 {
        assert(v.take(0) =~= Seq::<char>::empty());
        assert(encode_utf8(Seq::<char>::empty()) =~= Seq::<u8>::empty());
    } else {
        let bytes = encode_utf8(v);
        let rest = v.drop_first();
        let w = encode_scalar(v[0] as u32).len() as int;
        encode_utf8_valid_utf8(v);
        encode_utf8_first_scalar(v);
        assert(pop_first_scalar(bytes) =~= encode_utf8(rest));
        assert(is_char_boundary(encode_utf8(rest), idx - w));
        lemma_char_index_at_byte(rest, idx - w);
        let k1 = char_index_at_byte(rest, idx - w);
        assert(v.take(1 + k1) =~= seq![v[0]] + rest.take(k1));
        lemma_encode_utf8_concat(seq![v[0]], rest.take(k1));
        lemma_encode_utf8_single(v[0]);
    }
}

/// At a character boundary, the byte there leads the encoding of the
/// character that starts there, and gives its width.
pub proof fn lemma_width_at_char_boundary(v: Seq<char>, idx: int)
    requires
        is_char_boundary(encode_utf8(v), idx),
        0 <= idx < encode_utf8(v).len(),
    ensures
        0 <= char_index_at_byte(v, idx) < v.len(),
        width_of_leading_byte(encode_utf8(v)[idx]) == encode_scalar(
            v[char_index_at_byte(v, idx)] as u32,
        ).len(),
{
    lemma_char_index_at_byte(v, idx);
    let k = char_index_at_byte(v, idx);
    let tail = v.skip(k);
    assert(v =~= v.take(k) + tail);
    lemma_encode_utf8_concat(v.take(k), tail);
    assert(encode_utf8(v)[idx] == encode_utf8(tail)[0]);
    encode_utf8_first_scalar(tail);
    assert(tail[0] == v[k]);
    assert(length_of_first_codepoint(encode_utf8(tail)) == width_of_leading_byte(encode_utf8(tail)[0]));
}

/// Returns the number of bytes of the UTF-8 encoding of `c`.
pub fn char_width(c: char) -> (r: usize)
    ensures
        r == encode_scalar(c as u32).len(),
        1 <= r <= 4,
{
    proof {
        char_is_scalar(c);
    }
    let u = c as u32;
    if u <= 0x7f {
        1
    } else if u <= 0x7ff {
        2
    } else if u <= 0xffff {
        3
    } else {
        4
    }
}

/// Returns the number of bytes of the character whose encoding starts at
/// byte `index` of `s`.
pub fn char_width_at(s: &String, index: usize) -> (r: usize)
    requires
        index < encode_utf8(s@).len(),
        is_char_boundary(encode_utf8(s@), index as int),
    ensures
        0 <= char_index_at_byte(s@, index as int) < s@.len(),
        r == encode_scalar(s@[char_index_at_byte(s@, index as int)] as u32).len(),
{
    let bytes = s.as_str().as_bytes();
    let b = bytes[index];
    proof {
        lemma_width_at_char_boundary(s@, index as int);
    }
    if b <= 0x7f {
        1
    } else if 0xc0 <= b && b <= 0xdf {
        2
    } else if 0xe0 <= b && b <= 0xef {
        3
    } else {
        4
    }
}

} // verus!
