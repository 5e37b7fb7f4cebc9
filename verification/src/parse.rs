//! Parsing of the user-count strings that the instance directory returns.
//!
//! A count arrives as a string such as `"10"`. A string that does not denote
//! an `i32` (empty, non-numeric, or out of range) counts as zero rather than
//! as an error: a malformed count must never abort the run.
use vstd::prelude::*;
use vstd::string::*;

verus! {

/// A decimal digit character.
pub open spec fn is_digit_char(c: char) -> bool {
    48 <= c as u32 && c as u32 <= 57
}

/// Numeric value of one digit character.
pub open spec fn digit_val(c: char) -> int {
    c as u32 - 48
}

/// Every character of `s` is a decimal digit.
pub open spec fn all_digits(s: Seq<char>) -> bool {
    forall|i: int| 0 <= i < s.len() ==> is_digit_char(#[trigger] s[i])
}

/// Numeric value of a digit string, most significant digit first.
pub open spec fn digits_val(s: Seq<char>) -> int
    decreases s.len(),
{
    if s.len() == 0 {
        0
    } else {
        digits_val(s.drop_last()) * 10 + digit_val(s.last())
    }
}

/// The `i32` a string denotes under the usual signed-decimal grammar: an
/// optional `+` or `-` sign followed by one or more digits, with the value in
/// `i32` range. Any other string denotes nothing.
pub open spec fn spec_parse_i32(s: Seq<char>) -> Option<i32> {
    let negative = s.len() > 0 && s[0] == '-';
    let signed = s.len() > 0 && (s[0] == '-' || s[0] == '+');
    let digits = if signed { s.subrange(1, s.len() as int) } else { s };
    if digits.len() > 0 && all_digits(digits) {
        if negative {
            if -digits_val(digits) >= i32::MIN { Some((-digits_val(digits)) as i32) } else { None }
        } else {
            if digits_val(digits) <= i32::MAX { Some(digits_val(digits) as i32) } else { None }
        }
    } else {
        None
    }
}

/// The user count a directory string stands for: the number it denotes, or
/// zero when it denotes none.
pub open spec fn spec_user_count(s: Seq<char>) -> i32 {
    match spec_parse_i32(s) {
        Some(v) => v,
        None => 0,
    }
}

proof fn lemma_digits_val_nonneg(s: Seq<char>)
    requires
        all_digits(s),
    ensures
        digits_val(s) >= 0,
    decreases s.len(),
{
    if s.len() > 0 {
        lemma_digits_val_nonneg(s.drop_last());
    }
}

/// Appending digits never shrinks the value: a prefix is a lower bound.
proof fn lemma_digits_val_prefix_le(s: Seq<char>, i: int)
    requires
        all_digits(s),
        0 <= i <= s.len(),
    ensures
        digits_val(s.subrange(0, i)) <= digits_val(s),
    decreases s.len() - i,
{
    if i == s.len() {
        assert(s.subrange(0, i) =~= s);
    } else {
        let longer = s.subrange(0, i + 1);
        assert(longer.drop_last() =~= s.subrange(0, i));
        lemma_digits_val_nonneg(s.subrange(0, i));
        lemma_digits_val_prefix_le(s, i + 1);
    }
}

/// Reads a user count: the denoted number when the string is a well-formed
/// `i32`, and zero otherwise.
pub fn parse_user_count(s: &str) -> (n: i32)
    ensures
        n == spec_user_count(s@),
{
    let len = s.unicode_len();
    if len == 0 {
        return 0;
    }
    let first = s.get_char(0);
    let negative = first == '-';
    let signed = negative || first == '+';
    let start: usize = if signed {
        1
    } else {
        0
    };
    if start == len {
        // a bare sign has no digits
        return 0;
    }
    let ghost digits = s@.subrange(start as int, len as int);
    proof {
        if signed {
            assert(digits =~= s@.subrange(1, s@.len() as int));
        } else {
            assert(digits =~= s@);
        }
    }
    let mut mag: u64 = 0;
    let mut i: usize = start;
    while i < len
        invariant
            start <= i <= len,
            len == s@.len(),
            start == 1 <==> signed,
            all_digits(s@.subrange(start as int, i as int)),
            mag == digits_val(s@.subrange(start as int, i as int)),
            mag <= 0x8000_0000,
        decreases len - i,
    {
        let c = s.get_char(i);
        let d = c as u32;
        if d < 48 || d > 57 {
            proof {
                assert(digits[i - start] == s@[i as int]);
                assert(!all_digits(digits));
            }
            return 0;
        }
        let dv: u64 = (d - 48) as u64;
        let new_mag: u64 = mag * 10 + dv;
        proof {
            assert(s@.subrange(start as int, i + 1).drop_last() =~= s@.subrange(
                start as int,
                i as int,
            ));
        }
        if new_mag > 0x8000_0000 {
            // the magnitude already exceeds every i32, whatever follows
            proof {
                if all_digits(digits) {
                    assert(digits.subrange(0, i + 1 - start) =~= s@.subrange(start as int, i + 1));
                    lemma_digits_val_prefix_le(digits, i + 1 - start);
                }
            }
            return 0;
        }
        mag = new_mag;
        i += 1;
    }
    proof {
        assert(digits =~= s@.subrange(start as int, len as int));
    }
    if negative {
        if mag == 0x8000_0000 {
            i32::MIN
        } else {
            -(mag as i32)
        }
    } else {
        if mag == 0x8000_0000 {
            // 2147483648 does not fit in i32
            0
        } else {
            mag as i32
        }
    }
}

} // verus!
