//! Decimal integers read from text, as `str::parse` reads them.
use vstd::prelude::*;

use crate::text::str_chars;

verus! {

/// `c` is an ASCII digit.
pub open spec fn is_digit(c: char) -> bool {
    '0' <= c && c <= '9'
}

/// Every character of `s` is an ASCII digit.
pub open spec fn all_digits(s: Seq<char>) -> bool {
    forall|i: int| 0 <= i < s.len() ==> is_digit(#[trigger] s[i])
}

/// The value of a string of ASCII digits.
pub open spec fn digits_value(s: Seq<char>) -> nat
    decreases s.len(),
{
    if s.len() == 0 {
        0
    } else {
        digits_value(s.drop_last()) * 10 + ((s.last() as u32) - 48) as nat
    }
}

/// The magnitude part of a number: `s` without one leading sign character
/// (a `-` is only a sign where `allow_minus` holds).
pub open spec fn unsigned_body(s: Seq<char>, allow_minus: bool) -> Seq<char> {
    if s.len() > 0 && (s[0] == '+' || (allow_minus && s[0] == '-')) {
        s.drop_first()
    } else {
        s
    }
}

/// What `str::parse` gives for an unsigned integer type with largest value
/// `max`: an optional `+`, then one or more ASCII digits, of value at most
/// `max`.
pub open spec fn parse_unsigned(s: Seq<char>, max: nat) -> Option<nat> {
    let body = unsigned_body(s, false);
    if body.len() == 0 || !all_digits(body) || digits_value(body) > max {
        None
    } else {
        Some(digits_value(body))
    }
}

/// What `str::parse::<i64>` gives: an optional `+` or `-`, then one or more
/// ASCII digits, of a value that `i64` holds.
pub open spec fn parse_i64_spec(s: Seq<char>) -> Option<int> {
    let body = unsigned_body(s, true);
    let negative = s.len() > 0 && s[0] == '-';
    if body.len() == 0 || !all_digits(body) {
        None
    } else if negative {
        if digits_value(body) > 9223372036854775808 {
            None
        } else {
            Some(-(digits_value(body) as int))
        }
    } else if digits_value(body) > 9223372036854775807 {
        None
    } else {
        Some(digits_value(body) as int)
    }
}

proof fn lemma_digits_value_prefix(s: Seq<char>, i: int)
    requires
        0 <= i <= s.len(),
        all_digits(s),
    ensures
        digits_value(s.take(i)) <= digits_value(s),
    decreases s.len() - i,
{
    if i < s.len() {
        lemma_digits_value_prefix(s, i + 1);
        let t = s.take(i + 1);
        assert(t.drop_last() =~= s.take(i));
        assert(is_digit(s[i]));
    } else {
        assert(s.take(i) =~= s);
    }
}

/// The value of the digits of `body`, if they are all digits, there is at
/// least one, and the value is at most `max`.
fn digits_up_to(body: &Vec<char>, start: usize, max: u64) -> (r: Option<u64>)
    requires
        start <= body.len(),
    ensures
        ({
            let b = body@.skip(start as int);
            match r {
                Some(v) => b.len() > 0 && all_digits(b) && digits_value(b) <= max && v == digits_value(b),
                None => b.len() == 0 || !all_digits(b) || digits_value(b) > max,
            }
        }),
{
    let ghost b = body@.skip(start as int);
    if start == body.len() {
        return None;
    }
    let mut i: usize = start;
    let mut acc: u64 = 0;
    while i < body.len()
        invariant
            start <= i <= body.len(),
            b == body@.skip(start as int),
            all_digits(b.take(i - start)),
            acc == digits_value(b.take(i - start)),
            acc <= max,
        decreases body.len() - i,
    {
        let c = body[i];
        proof {
            let t = b.take(i - start + 1);
            assert(t.drop_last() =~= b.take(i - start));
            assert(t.last() == c);
        }
        if c < '0' || c > '9' {
            assert(!is_digit(b[i - start]));
            return None;
        }
        let d = (c as u32 - 48) as u64;
        let next = match acc.checked_mul(10) {
            Some(m) => m.checked_add(d),
            None => None,
        };
        match next {
            Some(n) => {
                if n > max {
                    proof {
                        assert(all_digits(b.take(i - start + 1)));
                        if all_digits(b) {
                            lemma_digits_value_prefix(b, i - start + 1);
                        }
                    }
                    return None;
                }
                acc = n;
            },
            None => {
                proof {
                    assert(all_digits(b.take(i - start + 1)));
                    if all_digits(b) {
                        lemma_digits_value_prefix(b, i - start + 1);
                    }
                }
                return None;
            },
        }
        i = i + 1;
        proof {
            assert(all_digits(b.take(i - start)));
        }
    }
    assert(b.take(i - start) =~= b);
    Some(acc)
}

/// `str::parse::<u64>`.
pub fn parse_u64(s: &str) -> (r: Option<u64>)
    ensures
        r matches Some(v) ==> parse_unsigned(s@, u64::MAX as nat) == Some(v as nat),
        r is None ==> parse_unsigned(s@, u64::MAX as nat) is None,
{
    let v = str_chars(s);
    let start: usize = if v.len() > 0 && v[0] == '+' {
        1
    } else {
        0
    };
    assert(unsigned_body(s@, false) =~= v@.skip(start as int));
    digits_up_to(&v, start, u64::MAX)
}

/// `str::parse::<usize>`.
pub fn parse_usize(s: &str) -> (r: Option<usize>)
    ensures
        r matches Some(v) ==> parse_unsigned(s@, usize::MAX as nat) == Some(v as nat),
        r is None ==> parse_unsigned(s@, usize::MAX as nat) is None,
{
    let v = str_chars(s);
    let start: usize = if v.len() > 0 && v[0] == '+' {
        1
    } else {
        0
    };
    assert(unsigned_body(s@, false) =~= v@.skip(start as int));
    match digits_up_to(&v, start, usize::MAX as u64) {
        Some(n) => Some(n as usize),
        None => None,
    }
}

/// `str::parse::<i64>`.
pub fn parse_i64(s: &str) -> (r: Option<i64>)
    ensures
        r matches Some(v) ==> parse_i64_spec(s@) == Some(v as int),
        r is None ==> parse_i64_spec(s@) is None,
{
    let v = str_chars(s);
    let negative = v.len() > 0 && v[0] == '-';
    let start: usize = if v.len() > 0 && (v[0] == '+' || v[0] == '-') {
        1
    } else {
        0
    };
    assert(unsigned_body(s@, true) =~= v@.skip(start as int));
    if negative {
        match digits_up_to(&v, start, 9223372036854775808u64) {
            Some(n) => {
                if n == 9223372036854775808u64 {
                    Some(i64::MIN)
                } else {
                    Some(-(n as i64))
                }
            },
            None => None,
        }
    } else {
        match digits_up_to(&v, start, 9223372036854775807u64) {
            Some(n) => Some(n as i64),
            None => None,
        }
    }
}

} // verus!
