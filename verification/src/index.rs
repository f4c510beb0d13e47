//! The request path: one non-negative decimal number after any number of
//! leading slashes, as in `/42`.

use vstd::prelude::*;
use vstd::string::StringSliceAdditionalSpecFns;

verus! {

/// The byte is an ASCII decimal digit.
pub open spec fn is_digit(byte: u8) -> bool {
    48 <= byte <= 57
}

/// The bytes are decimal digits, at least one.
pub open spec fn all_digits(bytes: Seq<u8>) -> bool {
    bytes.len() > 0 && forall|i: int| 0 <= i < bytes.len() ==> is_digit(#[trigger] bytes[i])
}

/// The number that a sequence of decimal digits denotes.
pub open spec fn decimal_value(digits: Seq<u8>) -> nat
    decreases digits.len(),
{
    if digits.len() == 0 {
        0
    } else {
        (10 * decimal_value(digits.drop_last()) + (digits.last() - 48)) as nat
    }
}

/// How many slashes the bytes begin with.
pub open spec fn leading_slashes(bytes: Seq<u8>) -> nat
    decreases bytes.len(),
{
    if bytes.len() > 0 && bytes[0] == 47 {
        1 + leading_slashes(bytes.skip(1))
    } else {
        0
    }
}

/// The digits of a path: what follows the leading slashes and one optional
/// plus sign.
pub open spec fn digits_of(path: Seq<u8>) -> Seq<u8> {
    let rest = path.skip(leading_slashes(path) as int);
    if rest.len() > 0 && rest[0] == 43 {
        rest.skip(1)
    } else {
        rest
    }
}

/// The index that a path names: its digits must be decimal digits, at least
/// one, and denote a number that fits `usize`.
pub open spec fn parsed_index(path: Seq<u8>) -> Option<usize> {
    let digits = digits_of(path);
    if all_digits(digits) && decimal_value(digits) <= usize::MAX {
        Some(decimal_value(digits) as usize)
    } else {
        None
    }
}

/// The slashes at the start of `bytes` end at `at`.
proof fn lemma_leading_slashes(bytes: Seq<u8>, at: int)
    requires
        0 <= at <= bytes.len(),
        forall|i: int| 0 <= i < at ==> bytes[i] == 47,
        at == bytes.len() || bytes[at] != 47,
    ensures
        leading_slashes(bytes) == at,
    decreases at,
{
    if at > 0 {
        let rest = bytes.skip(1);
        assert forall|i: int| 0 <= i < at - 1 implies rest[i] == 47 by {
            assert(rest[i] == bytes[i + 1]);
        }
        lemma_leading_slashes(rest, at - 1);
    }
}

/// A longer run of digits denotes a number that is no smaller.
proof fn lemma_decimal_value_grows(digits: Seq<u8>, upto: int)
    requires
        0 <= upto <= digits.len(),
        forall|i: int| 0 <= i < digits.len() ==> is_digit(#[trigger] digits[i]),
    ensures
        decimal_value(digits.take(upto)) <= decimal_value(digits),
    decreases digits.len() - upto,
{
    if upto < digits.len() {
        let longer = digits.take(upto + 1);
        assert(longer.drop_last() =~= digits.take(upto));
        assert(is_digit(digits[upto]));
        assert(longer.last() == digits[upto]);
        lemma_decimal_value_grows(digits, upto + 1);
    } else {
        assert(digits.take(upto) =~= digits);
    }
}

/// Reads the index that a request path names. `None` if the path is not a
/// well-formed non-negative number or the number does not fit `usize`.
pub fn parse_index(path: &str) -> (index: Option<usize>)
    ensures
        index == parsed_index(path.spec_bytes()),
{
    let bytes = path.as_bytes();
    let n = bytes.len();
    let mut start: usize = 0;
    while start < n && bytes[start] == 47
        invariant
            start <= n,
            n == bytes@.len(),
            forall|i: int| 0 <= i < start ==> bytes@[i] == 47,
        decreases n - start,
    {
        start = start + 1;
    }
    proof {
        lemma_leading_slashes(bytes@, start as int);
    }
    if start < n && bytes[start] == 43 {
        proof {
            assert(bytes@.skip(start as int).skip(1) =~= bytes@.skip(start + 1));
        }
        start = start + 1;
    }
    let ghost digits = bytes@.skip(start as int);
    assert(digits == digits_of(bytes@));
    if start == n {
        return None;
    }
    let mut value: usize = 0;
    let mut i: usize = start;
    while i < n
        invariant
            start <= i <= n,
            n == bytes@.len(),
            digits == bytes@.skip(start as int),
            digits == digits_of(bytes@),
            bytes@ == path.spec_bytes(),
            forall|k: int| 0 <= k < i - start ==> is_digit(#[trigger] digits[k]),
            value == decimal_value(digits.take(i - start)),
        decreases n - i,
    {
        let byte = bytes[i];
        assert(digits[i - start] == byte);
        if byte < 48 || byte > 57 {
            return None;
        }
        let ghost longer = digits.take(i - start + 1);
        proof {
            assert(longer.drop_last() =~= digits.take(i - start));
            assert(longer.last() == byte);
        }
        let digit: usize = (byte - 48) as usize;
        let next = match value.checked_mul(10) {
            Some(tenfold) => tenfold.checked_add(digit),
            None => None,
        };
        match next {
            Some(sum) => {
                value = sum;
            },
            None => {
                proof {
                    assert(decimal_value(longer) == 10 * value + digit);
                    assert(decimal_value(longer) > usize::MAX);
                    if all_digits(digits) {
                        lemma_decimal_value_grows(digits, i - start + 1);
                    }
                }
                return None;
            },
        }
        i = i + 1;
    }
    proof {
        assert(digits.take(n - start) =~= digits);
    }
    Some(value)
}

} // verus!
