//! Errors when confinement constraints were not met.
use vstd::prelude::*;

verus! {

/// Errors when confinement constraints were not met.
#[derive(Copy, Clone, PartialEq, Eq, Structural, Hash, Debug)]
pub enum Error {
    /// Operation results in collection reduced below the required minimum number of elements.
    Undersize {
        /// Current collection length
        len: usize,
        /// Minimum number of elements which must be present in the collection
        min_len: usize,
    },
    /// Operation results in collection growth above the required maximum number of elements.
    Oversize {
        /// Current collection length
        len: usize,
        /// Maximum number of elements which must be present in the collection
        max_len: usize,
    },
    /// Attempt to address an index outside of the collection bounds.
    OutOfBoundary {
        /// Index which was outside of the bounds
        index: usize,
        /// The actual number of elements in the collection
        len: usize,
    },
}

} // verus!

verus! {

/// The character of decimal digit `d`.
pub open spec fn digit_char(d: nat) -> char {
    ((48 + d) as u8) as char
}

/// The decimal representation of `n`, most significant digit first.
pub open spec fn decimal(n: nat) -> Seq<char>
    decreases n,
{
    if n < 10 {
        seq![digit_char(n)]
    } else {
        decimal(n / 10).push(digit_char(n % 10))
    }
}

/// Appends the decimal representation of `n` to `s`.
fn push_decimal(s: &mut String, n: usize)
    ensures
        final(s)@ == old(s)@ + decimal(n as nat),
    decreases n,
{
    if n >= 10 {
        push_decimal(s, n / 10);
    }
    let d: u8 = (n % 10) as u8;
    crate::std_bridge::string_push(s, (48u8 + d) as char);
    proof {
        assert(old(s)@ + decimal(n as nat) =~= if n >= 10 {
            (old(s)@ + decimal((n / 10) as nat)).push(digit_char((n % 10) as nat))
        } else {
            old(s)@.push(digit_char(n as nat))
        });
    }
}

impl Error {
    /// The human-readable description of the error.
    pub open spec fn spec_message(self) -> Seq<char> {
        match self {
            Error::Undersize { len, min_len } => "operation results in collection size "@ + decimal(
                len as nat,
            ) + " less than lower boundary of "@ + decimal(min_len as nat) + ", which is prohibited"@,
            Error::Oversize { len, max_len } => "operation results in collection size "@ + decimal(
                len as nat,
            ) + " exceeding "@ + decimal(max_len as nat) + ", which is prohibited"@,
            Error::OutOfBoundary { index, len } => "attempt to access the element at "@ + decimal(
                index as nat,
            ) + " which is outside of the collection length boundary "@ + decimal(len as nat),
        }
    }

    /// Returns the human-readable description of the error.
    pub fn message(&self) -> (r: String)
        ensures
            r@ == self.spec_message(),
    {
        let mut s = String::new();
        match *self {
            Error::Undersize { len, min_len } => {
                s.append("operation results in collection size ");
                push_decimal(&mut s, len);
                s.append(" less than lower boundary of ");
                push_decimal(&mut s, min_len);
                s.append(", which is prohibited");
            },
            Error::Oversize { len, max_len } => {
                s.append("operation results in collection size ");
                push_decimal(&mut s, len);
                s.append(" exceeding ");
                push_decimal(&mut s, max_len);
                s.append(", which is prohibited");
            },
            Error::OutOfBoundary { index, len } => {
                s.append("attempt to access the element at ");
                push_decimal(&mut s, index);
                s.append(" which is outside of the collection length boundary ");
                push_decimal(&mut s, len);
            },
        }
        s
    }
}

} // verus!
