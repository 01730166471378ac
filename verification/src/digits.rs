//! Decimal notation: one specification of digit strings shared by the
//! number formatting and parsing in this crate.

use vstd::prelude::*;
use vstd::string::StringExecFns;

verus! {

/// Whether `c` is a decimal digit.
pub open spec fn is_digit_char(c: char) -> bool {
    '0' <= c && c <= '9'
}

/// The value of a digit character.
pub open spec fn digit_val(c: char) -> int {
    c as int - '0' as int
}

/// The digit character of a value below ten.
pub open spec fn digit_char(d: int) -> char {
    if d == 0 {
        '0'
    } else if d == 1 {
        '1'
    } else if d == 2 {
        '2'
    } else if d == 3 {
        '3'
    } else if d == 4 {
        '4'
    } else if d == 5 {
        '5'
    } else if d == 6 {
        '6'
    } else if d == 7 {
        '7'
    } else if d == 8 {
        '8'
    } else {
        '9'
    }
}

/// Whether `s` consists of digits only.
pub open spec fn all_digits(s: Seq<char>) -> bool {
    forall|i: int| 0 <= i < s.len() ==> is_digit_char(s[i])
}

/// The number a digit string denotes, most significant digit first.
pub open spec fn digits_value(s: Seq<char>) -> int
    decreases s.len(),
{
    if s.len() == 0 {
        0
    } else {
        digits_value(s.drop_last()) * 10 + digit_val(s.last())
    }
}

/// The decimal notation of a nonnegative number: no sign, no padding, a
/// single `'0'` for zero.
pub open spec fn dec_digits(n: int) -> Seq<char>
    decreases n,
{
    if n < 10 {
        seq![digit_char(n)]
    } else {
        dec_digits(n / 10).push(digit_char(n % 10))
    }
}

/// The digit part of an integer string: everything after the one optional
/// leading plus sign.
pub open spec fn spec_digits_of(s: Seq<char>) -> Seq<char> {
    if s.len() > 0 && s[0] == '+' {
        s.skip(1)
    } else {
        s
    }
}

/// What parsing an integer string yields: an optional leading plus sign
/// followed by one or more digits gives the value they denote, when it is
/// in range; anything else gives nothing.
pub open spec fn spec_try_parse_u64(s: Seq<char>) -> Option<u64> {
    let digits = spec_digits_of(s);
    if digits.len() > 0 && all_digits(digits) && digits_value(digits) <= u64::MAX {
        Some(digits_value(digits) as u64)
    } else {
        None
    }
}

/// Parsing with a zero default: the behaviour of the list parser, which
/// maps every malformed element to zero rather than failing.
pub open spec fn spec_parse_u64_or_zero(s: Seq<char>) -> u64 {
    match spec_try_parse_u64(s) {
        Some(v) => v,
        None => 0,
    }
}

/// A digit string denotes a nonnegative number.
pub proof fn lemma_digits_value_nonneg(s: Seq<char>)
    requires
        all_digits(s),
    ensures
        digits_value(s) >= 0,
    decreases s.len(),
{
    if s.len() > 0 {
        assert(all_digits(s.drop_last()));
        lemma_digits_value_nonneg(s.drop_last());
    }
}

/// Extending a digit string never shrinks its value: the value of a prefix
/// is a lower bound.
pub proof fn lemma_digits_value_mono(s: Seq<char>, i: int)
    requires
        all_digits(s),
        0 <= i <= s.len(),
    ensures
        digits_value(s) >= digits_value(s.take(i)),
    decreases s.len() - i,
{
    if i == s.len() {
        assert(s.take(i) =~= s);
    } else {
        assert(all_digits(s.take(i)));
        lemma_digits_value_nonneg(s.take(i));
        assert(s.take(i + 1).drop_last() =~= s.take(i));
        assert(s.take(i + 1).last() == s[i]);
        assert(digits_value(s.take(i + 1)) == digits_value(s.take(i)) * 10 + digit_val(s[i]));
        lemma_digits_value_mono(s, i + 1);
    }
}

/// The digit character of a value below ten, as a one-character string
/// slice.
fn digit_str(d: u64) -> (r: &'static str)
    requires
        d < 10,
    ensures
        r@ == seq![digit_char(d as int)],
{
    match d {
        0 => {
            proof {
                reveal_strlit("0");
            }
            "0"
        },
        1 => {
            proof {
                reveal_strlit("1");
            }
            "1"
        },
        2 => {
            proof {
                reveal_strlit("2");
            }
            "2"
        },
        3 => {
            proof {
                reveal_strlit("3");
            }
            "3"
        },
        4 => {
            proof {
                reveal_strlit("4");
            }
            "4"
        },
        5 => {
            proof {
                reveal_strlit("5");
            }
            "5"
        },
        6 => {
            proof {
                reveal_strlit("6");
            }
            "6"
        },
        7 => {
            proof {
                reveal_strlit("7");
            }
            "7"
        },
        8 => {
            proof {
                reveal_strlit("8");
            }
            "8"
        },
        _ => {
            proof {
                reveal_strlit("9");
            }
            "9"
        },
    }
}

/// Renders `n` in decimal notation.
pub fn u64_to_string(n: u64) -> (r: String)
    ensures
        r@ == dec_digits(n as int),
    decreases n,
{
    let last = n % 10;
    let mut prefix = if n >= 10 {
        u64_to_string(n / 10)
    } else {
        String::new()
    };
    let tail = digit_str(last);
    prefix.append(tail);
    proof {
        if n < 10 {
            assert(prefix@ =~= seq![digit_char(n as int)]);
        } else {
            assert(prefix@ =~= dec_digits((n / 10) as int).push(digit_char((n % 10) as int)));
        }
    }
    prefix
}

/// Parses an integer string: one optional leading plus sign, then one or
/// more digits whose value fits a `u64`; nothing otherwise.
pub fn try_parse_u64(s: &Vec<char>) -> (r: Option<u64>)
    ensures
        r == spec_try_parse_u64(s@),
{
    let n = s.len();
    let start: usize = if n > 0 && s[0] == '+' {
        1
    } else {
        0
    };
    let ghost digits = spec_digits_of(s@);
    proof {
        assert(digits =~= s@.skip(start as int));
    }
    if start == n {
        return None;
    }
    let mut acc: u128 = 0;
    let mut i: usize = start;
    while i < n
        invariant
            n == s@.len(),
            digits == s@.skip(start as int),
            digits == spec_digits_of(s@),
            start <= i <= n,
            start < n,
            all_digits(digits.take(i - start)),
            acc == digits_value(digits.take(i - start)),
            acc <= u64::MAX,
        decreases n - i,
    {
        let c = s[i];
        proof {
            assert(digits[i - start] == s@[i as int]);
        }
        if !('0' <= c && c <= '9') {
            proof {
                assert(!is_digit_char(digits[i - start]));
                assert(!all_digits(digits));
            }
            return None;
        }
        let d: u128 = (c as u32 - '0' as u32) as u128;
        acc = acc * 10 + d;
        proof {
            assert(digits.take(i - start + 1).drop_last() =~= digits.take(i - start));
            assert(digits.take(i - start + 1).last() == digits[i - start]);
            assert(digits_value(digits.take(i - start + 1)) == digits_value(
                digits.take(i - start),
            ) * 10 + digit_val(digits[i - start]));
        }
        i += 1;
        if acc > u64::MAX as u128 {
            proof {
                if all_digits(digits) && digits_value(digits) <= u64::MAX {
                    lemma_digits_value_mono(digits, i - start);
                    assert(false);
                }
            }
            return None;
        }
    }
    proof {
        assert(digits.take(n - start) =~= digits);
        lemma_digits_value_nonneg(digits);
    }
    Some(acc as u64)
}

/// Parses a digit string with a zero default, as the list parser treats its
/// elements.
pub fn parse_u64_or_zero(s: &Vec<char>) -> (r: u64)
    ensures
        r == spec_parse_u64_or_zero(s@),
{
    match try_parse_u64(s) {
        Some(v) => v,
        None => 0,
    }
}

} // verus!
