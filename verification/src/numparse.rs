//! Parsing of the `exit` builtin's numeric argument.
//!
//! The accepted form is an optional `+` or `-` sign followed by one or more
//! ASCII digits, whose value must fit a 32-bit signed integer. Anything else
//! is rejected. `parse_i32_spec` defines the accepted strings and their
//! values, and `parse_i32` is proved to decide it exactly.

use vstd::prelude::*;
use vstd::string::StrSliceExecFns;

verus! {

/// An ASCII decimal digit.
pub open spec fn is_ascii_digit(c: char) -> bool {
    '0' <= c && c <= '9'
}

/// The numeric value of one digit.
pub open spec fn digit_val(c: char) -> int {
    c as int - '0' as int
}

/// Every character of `s` is an ASCII digit.
pub open spec fn all_digits(s: Seq<char>) -> bool {
    forall|i: int| 0 <= i < s.len() ==> is_ascii_digit(s[i])
}

/// The value of a digit string read in base ten.
pub open spec fn digits_val(s: Seq<char>) -> int
    decreases s.len(),
{
    if s.len() == 0 {
        0
    } else {
        digits_val(s.drop_last()) * 10 + digit_val(s.last())
    }
}

/// The integer a string denotes: an optional sign, then one or more ASCII
/// digits, and a value within the 32-bit signed range; `None` for every
/// other string.
pub open spec fn parse_i32_spec(s: Seq<char>) -> Option<int> {
    let digits = if s.len() > 0 && (s[0] == '+' || s[0] == '-') {
        s.subrange(1, s.len() as int)
    } else {
        s
    };
    let negative = s.len() > 0 && s[0] == '-';
    if digits.len() == 0 || !all_digits(digits) {
        None
    } else {
        let v = if negative {
            -digits_val(digits)
        } else {
            digits_val(digits)
        };
        if i32::MIN <= v <= i32::MAX {
            Some(v)
        } else {
            None
        }
    }
}

/// A digit string is worth no less than any of its prefixes.
proof fn lemma_digits_val_nonneg(s: Seq<char>)
    requires
        all_digits(s),
    ensures
        digits_val(s) >= 0,
    decreases s.len(),
{
    if s.len() > 0 {
        assert(all_digits(s.drop_last()));
        lemma_digits_val_nonneg(s.drop_last());
    }
}

/// Decides `parse_i32_spec`: returns the denoted value exactly when the
/// string is a well-formed 32-bit signed integer.
pub fn parse_i32(s: &String) -> (r: Option<i32>)
    ensures
        match r {
            Some(v) => parse_i32_spec(s@) == Some(v as int),
            None => parse_i32_spec(s@) is None,
        },
{
    let st = s.as_str();
    let n = st.unicode_len();
    let mut start: usize = 0;
    let mut negative = false;
    if n > 0 {
        let c0 = st.get_char(0);
        if c0 == '+' || c0 == '-' {
            negative = c0 == '-';
            start = 1;
        }
    }
    let ghost digits = s@.subrange(start as int, n as int);
    proof {
        if start == 0 {
            assert(digits =~= s@);
        }
    }
    if start >= n {
        return None;
    }
    let bound: u64 = 2147483648;
    let mut mag: u64 = 0;
    let mut overflow = false;
    let mut j: usize = start;
    while j < n
        invariant
            start <= j <= n,
            n == s@.len(),
            st@ == s@,
            digits == s@.subrange(start as int, n as int),
            s@.len() > 0 && (s@[0] == '+' || s@[0] == '-') ==> start == 1,
            !(s@.len() > 0 && (s@[0] == '+' || s@[0] == '-')) ==> start == 0,
            negative == (s@.len() > 0 && s@[0] == '-'),
            all_digits(s@.subrange(start as int, j as int)),
            !overflow ==> mag == digits_val(s@.subrange(start as int, j as int)) && mag <= bound,
            overflow ==> digits_val(s@.subrange(start as int, j as int)) > bound,
            bound == 0x8000_0000u64,
        decreases n - j,
    {
        let c = st.get_char(j);
        if !(c >= '0' && c <= '9') {
            proof {
                assert(digits[j - start] == s@[j as int]);
                assert(!all_digits(digits));
            }
            return None;
        }
        let ghost pre = s@.subrange(start as int, j as int);
        proof {
            assert(s@.subrange(start as int, j + 1).drop_last() =~= pre);
            lemma_digits_val_nonneg(pre);
        }
        if !overflow {
            let d = (c as u32 - '0' as u32) as u64;
            mag = mag * 10 + d;
            if mag > bound {
                overflow = true;
            }
        }
        j = j + 1;
    }
    proof {
        lemma_digits_val_nonneg(digits);
    }
    if overflow {
        None
    } else if negative {
        if mag == bound {
            Some(i32::MIN)
        } else {
            Some(-(mag as i32))
        }
    } else {
        if mag == bound {
            None
        } else {
            Some(mag as i32)
        }
    }
}

} // verus!
