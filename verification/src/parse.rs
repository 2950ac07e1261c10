//! Parsing of base-10 integer literals.

use vstd::prelude::*;
use vstd::string::StrSliceExecFns;
use vstd::string::StringExecFns;

verus! {

/// Whether `c` is one of the decimal digits `'0'` through `'9'`.
pub open spec fn is_decimal_digit(c: char) -> bool {
    48 <= c as u32 <= 57
}

/// The numeric value of a decimal digit.
pub open spec fn digit_value(c: char) -> int {
    c as u32 - 48
}

/// The value of a sequence of decimal digits, most significant first.
pub open spec fn decimal_value(s: Seq<char>) -> int
    decreases s.len(),
{
    if s.len() == 0 {
        0
    } else {
        decimal_value(s.drop_last()) * 10 + digit_value(s.last())
    }
}

/// Whether every character of `s` is a decimal digit.
pub open spec fn all_decimal_digits(s: Seq<char>) -> bool {
    forall|i: int| 0 <= i < s.len() ==> is_decimal_digit(#[trigger] s[i])
}

/// Whether `s` is a base-10 integer literal: an optional leading `'-'`
/// followed by one or more decimal digits, and nothing else.
pub open spec fn is_integer_literal(s: Seq<char>) -> bool {
    if s.len() > 0 && s[0] == '-' {
        s.len() > 1 && all_decimal_digits(s.skip(1))
    } else {
        s.len() > 0 && all_decimal_digits(s)
    }
}

/// The signed value denoted by an integer literal.
pub open spec fn literal_value(s: Seq<char>) -> int {
    if s.len() > 0 && s[0] == '-' {
        -decimal_value(s.skip(1))
    } else {
        decimal_value(s)
    }
}

/// Whether `v` is representable as an `i32`.
pub open spec fn fits_i32(v: int) -> bool {
    i32::MIN <= v <= i32::MAX
}

/// The error message reported for an input that is not a valid integer.
pub open spec fn invalid_number_message(s: Seq<char>) -> Seq<char> {
    "'"@ + s + "' is not a valid number"@
}

/// What parsing an input text yields: the denoted value when the text is an
/// integer literal whose value fits in an `i32`, and the error message
/// otherwise.
pub open spec fn parse_number_result(s: Seq<char>) -> Result<int, Seq<char>> {
    if is_integer_literal(s) && fits_i32(literal_value(s)) {
        Ok(literal_value(s))
    } else {
        Err(invalid_number_message(s))
    }
}

/// A sequence of decimal digits denotes a nonnegative value.
proof fn lemma_decimal_value_nonneg(s: Seq<char>)
    requires
        all_decimal_digits(s),
    ensures
        decimal_value(s) >= 0,
    decreases s.len(),
{
    if s.len() > 0 {
        assert forall|j: int| 0 <= j < s.drop_last().len() implies is_decimal_digit(
            #[trigger] s.drop_last()[j],
        ) by {
            assert(s.drop_last()[j] == s[j]);
        }
        lemma_decimal_value_nonneg(s.drop_last());
    }
}

/// Extending a digit sequence to the right never decreases its value.
proof fn lemma_decimal_value_prefix_le(s: Seq<char>, i: int)
    requires
        all_decimal_digits(s),
        0 <= i <= s.len(),
    ensures
        decimal_value(s.take(i)) <= decimal_value(s),
    decreases s.len() - i,
{
    if i == s.len() {
        assert(s.take(i) =~= s);
    } else {
        assert(s.take(i + 1).drop_last() =~= s.take(i));
        assert(s.take(i + 1).last() == s[i]);
        assert forall|j: int| 0 <= j < s.take(i).len() implies is_decimal_digit(
            #[trigger] s.take(i)[j],
        ) by {
            assert(s.take(i)[j] == s[j]);
        }
        lemma_decimal_value_nonneg(s.take(i));
        assert(decimal_value(s.take(i + 1)) == decimal_value(s.take(i)) * 10 + digit_value(s[i]));
        lemma_decimal_value_prefix_le(s, i + 1);
    }
}

/// Builds the error message for an input that is not a valid integer.
fn invalid_number_error(s: &str) -> (m: String)
    ensures
        m@ == invalid_number_message(s@),
{
    let mut m = String::from_str("'");
    m.append(s);
    m.append("' is not a valid number");
    proof {
        assert(m@ =~= invalid_number_message(s@));
    }
    m
}

/// Parses `s` as a base-10 integer literal: an optional leading `'-'`
/// followed by one or more decimal digits. Returns the denoted value when
/// the text has that shape and the value fits in an `i32`, and a
/// descriptive error message otherwise.
pub fn parse_number(s: &str) -> (r: Result<i32, String>)
    ensures
        r is Ok <==> is_integer_literal(s@) && fits_i32(literal_value(s@)),
        r is Ok ==> parse_number_result(s@) == Ok::<int, Seq<char>>(r->Ok_0 as int),
        r is Err ==> parse_number_result(s@) == Err::<int, Seq<char>>(r->Err_0@),
{
    let n: usize = s.unicode_len();
    if n == 0 {
        return Err(invalid_number_error(s));
    }
    let negative: bool = s.get_char(0) == '-';
    let start: usize = if negative {
        1
    } else {
        0
    };
    if n == start {
        return Err(invalid_number_error(s));
    }
    let mut acc: u64 = 0;
    let mut i: usize = start;
    while i < n
        invariant
            start <= i <= n,
            n == s@.len(),
            n > start,
            negative == (s@.len() > 0 && s@[0] == '-'),
            negative ==> start == 1,
            !negative ==> start == 0,
            all_decimal_digits(s@.subrange(start as int, i as int)),
            acc == decimal_value(s@.subrange(start as int, i as int)),
            acc <= 2147483648,
        decreases n - i,
    {
        let c = s.get_char(i);
        let u: u32 = c as u32;
        if u < 48 || u > 57 {
            proof {
                if negative {
                    assert(s@.skip(1)[i - 1] == s@[i as int]);
                } else {
                    assert(!is_decimal_digit(s@[i as int]));
                }
            }
            return Err(invalid_number_error(s));
        }
        let d: u64 = (u - 48) as u64;
        acc = acc * 10 + d;
        proof {
            let extended = s@.subrange(start as int, i as int + 1);
            assert(extended.drop_last() =~= s@.subrange(start as int, i as int));
            assert(extended.last() == s@[i as int]);
        }
        if acc > 2147483648 {
            proof {
                if is_integer_literal(s@) {
                    let digits = if negative {
                        s@.skip(1)
                    } else {
                        s@
                    };
                    let len: int = i + 1 - start;
                    assert(digits.take(len) =~= s@.subrange(start as int, i as int + 1));
                    lemma_decimal_value_prefix_le(digits, len);
                    assert(decimal_value(digits) > 2147483648);
                }
            }
            return Err(invalid_number_error(s));
        }
        i = i + 1;
    }
    if negative {
        proof {
            assert(s@.subrange(1, n as int) =~= s@.skip(1));
        }
        let value: i64 = -(acc as i64);
        Ok(value as i32)
    } else {
        proof {
            assert(s@.subrange(0, n as int) =~= s@);
        }
        if acc > 2147483647 {
            return Err(invalid_number_error(s));
        }
        Ok(acc as i32)
    }
}

/// Parsing is a pure function of the input text: any two results that
/// satisfy the contract of `parse_number` on the same text agree.
pub proof fn lemma_parse_number_deterministic(
    s: Seq<char>,
    r1: Result<int, Seq<char>>,
    r2: Result<int, Seq<char>>,
)
    requires
        r1 == parse_number_result(s),
        r2 == parse_number_result(s),
    ensures
        r1 == r2,
{
}

} // verus!
