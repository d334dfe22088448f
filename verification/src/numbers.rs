//! Decimal rendering and parsing of the small numbers that appear in
//! page URLs and form inputs.
//!
//! Rendering is specified by `spec_digits`, the usual most-significant-
//! first decimal expansion. Parsing follows the shape `u32` values take
//! in text: an optional leading `+`, then at least one ASCII digit, and
//! a value that fits in 32 bits; anything else is rejected.

use vstd::prelude::*;

verus! {

/// The character for one decimal digit.
pub open spec fn spec_digit_char(d: int) -> char
    recommends
        0 <= d <= 9,
{
    ((d + 48) as u8) as char
}

/// The decimal expansion of `n`, most significant digit first, with no
/// leading zeros (the single digit `0` for zero).
pub open spec fn spec_digits(n: int) -> Seq<char>
    recommends
        n >= 0,
    decreases n,
{
    if n < 10 {
        seq![spec_digit_char(n)]
    } else {
        spec_digits(n / 10).push(spec_digit_char(n % 10))
    }
}

/// Is `c` an ASCII digit?
pub open spec fn spec_is_digit(c: char) -> bool {
    '0' <= c && c <= '9'
}

/// The numeric value of a digit character.
pub open spec fn spec_digit_val(c: char) -> int {
    c as int - 48
}

/// Are all characters of `s` ASCII digits?
pub open spec fn spec_all_digits(s: Seq<char>) -> bool {
    forall|i: int| 0 <= i < s.len() ==> spec_is_digit(#[trigger] s[i])
}

/// The value of a digit string, most significant digit first.
pub open spec fn spec_digits_val(s: Seq<char>) -> int
    decreases s.len(),
{
    if s.len() == 0 {
        0
    } else {
        spec_digits_val(s.drop_last()) * 10 + spec_digit_val(s.last())
    }
}

/// What parsing an unsigned 32-bit number from text yields: an optional
/// leading `+`, then at least one ASCII digit, and a value within range;
/// otherwise nothing.
pub open spec fn spec_parse_u32(s: Seq<char>) -> Option<u32> {
    let digits = if s.len() > 0 && s[0] == '+' {
        s.drop_first()
    } else {
        s
    };
    if digits.len() > 0 && spec_all_digits(digits) && spec_digits_val(digits) <= u32::MAX as int {
        Some(spec_digits_val(digits) as u32)
    } else {
        None
    }
}

/// The parsed value, or `default` where the text is not a number.
pub open spec fn spec_parse_or(s: Seq<char>, default: u32) -> u32 {
    match spec_parse_u32(s) {
        Some(v) => v,
        None => default,
    }
}

/// The one-character string for a decimal digit.
fn digit_str(d: u8) -> (r: &'static str)
    requires
        d < 10,
    ensures
        r@ =~= seq![spec_digit_char(d as int)],
{
    proof {
        reveal_strlit("0");
        reveal_strlit("1");
        reveal_strlit("2");
        reveal_strlit("3");
        reveal_strlit("4");
        reveal_strlit("5");
        reveal_strlit("6");
        reveal_strlit("7");
        reveal_strlit("8");
        reveal_strlit("9");
    }
    match d {
        0 => "0",
        1 => "1",
        2 => "2",
        3 => "3",
        4 => "4",
        5 => "5",
        6 => "6",
        7 => "7",
        8 => "8",
        _ => "9",
    }
}

/// Render `n` in decimal.
pub fn u64_to_string(n: u64) -> (r: String)
    ensures
        r@ == spec_digits(n as int),
    decreases n,
{
    if n < 10 {
        let r = String::from_str(digit_str(n as u8));
        proof {
            assert(r@ =~= spec_digits(n as int));
        }
        r
    } else {
        let prefix = u64_to_string(n / 10);
        let r = prefix.concat(digit_str((n % 10) as u8));
        proof {
            assert(r@ =~= spec_digits(n as int));
        }
        r
    }
}

/// A digit string's value never shrinks as more digits are appended.
proof fn lemma_digits_val_prefix_le(s: Seq<char>, k: int)
    requires
        0 <= k <= s.len(),
        spec_all_digits(s),
    ensures
        0 <= spec_digits_val(s.take(k)) <= spec_digits_val(s),
    decreases s.len(),
{
    lemma_digits_val_nonneg(s.take(k));
    if k == s.len() {
        assert(s.take(k) =~= s);
    } else {
        assert(spec_all_digits(s.drop_last())) by {
            assert(forall|i: int|
                0 <= i < s.len() - 1 ==> #[trigger] s.drop_last()[i] == s[i]);
        };
        assert(s.drop_last().take(k) =~= s.take(k));
        lemma_digits_val_prefix_le(s.drop_last(), k);
        assert(spec_is_digit(s.last()));
        lemma_digits_val_nonneg(s.drop_last());
        assert(spec_digits_val(s) == spec_digits_val(s.drop_last()) * 10 + spec_digit_val(
            s.last(),
        ));
        assert(spec_digits_val(s.drop_last()) * 10 >= spec_digits_val(s.drop_last())) by {
            assert(spec_digits_val(s.drop_last()) >= 0);
        };
    }
}

/// A digit string's value is never negative.
proof fn lemma_digits_val_nonneg(s: Seq<char>)
    requires
        spec_all_digits(s),
    ensures
        spec_digits_val(s) >= 0,
    decreases s.len(),
{
    if s.len() > 0 {
        assert(spec_all_digits(s.drop_last())) by {
            assert(forall|i: int|
                0 <= i < s.len() - 1 ==> #[trigger] s.drop_last()[i] == s[i]);
        };
        lemma_digits_val_nonneg(s.drop_last());
        assert(spec_is_digit(s.last()));
    }
}

/// Parse an unsigned 32-bit number: an optional leading `+`, then at
/// least one ASCII digit, with the value in range.
pub fn parse_u32(s: &str) -> (r: Option<u32>)
    ensures
        r == spec_parse_u32(s@),
{
    let len = s.unicode_len();
    let start: usize = if len > 0 && s.get_char(0) == '+' {
        1
    } else {
        0
    };
    let ghost digits = if start == 1 {
        s@.drop_first()
    } else {
        s@
    };
    proof {
        assert(digits =~= s@.skip(start as int));
    }
    if len == start {
        return None;
    }
    let mut acc: u32 = 0;
    let mut i: usize = start;
    while i < len
        invariant
            start <= i <= len,
            len == s@.len(),
            start == 0 || start == 1,
            start == 1 ==> s@.len() > 0 && s@[0] == '+',
            start == 0 ==> s@.len() == 0 || s@[0] != '+',
            digits == (if start == 1 {
                s@.drop_first()
            } else {
                s@
            }),
            digits =~= s@.skip(start as int),
            spec_all_digits(digits.take(i - start)),
            acc as int == spec_digits_val(digits.take(i - start)),
        decreases len - i,
    {
        let c = s.get_char(i);
        if c < '0' || c > '9' {
            proof {
                assert(digits[i - start] == c);
                assert(!spec_is_digit(digits[i - start]));
            }
            return None;
        }
        let d: u32 = (c as u32) - 48;
        proof {
            assert(digits.take(i - start + 1).drop_last() =~= digits.take(i - start));
            assert(digits.take(i - start + 1).last() == digits[i - start]);
            assert(digits[i - start] == c);
        }
        if acc > (u32::MAX - d) / 10 {
            proof {
                assert(spec_all_digits(digits.take(i - start + 1)));
                assert(spec_digits_val(digits.take(i - start + 1)) == acc as int * 10
                    + d as int);
                assert(acc as int * 10 + d as int > u32::MAX as int);
                if spec_all_digits(digits) {
                    lemma_digits_val_prefix_le(digits, i - start + 1);
                }
            }
            return None;
        }
        acc = acc * 10 + d;
        i = i + 1;
    }
    proof {
        assert(digits.take(len - start) =~= digits);
    }
    Some(acc)
}

/// The parsed value of a form input, falling back to `default` where the
/// text is not a number.
pub fn parse_u32_or(s: &str, default: u32) -> (r: u32)
    ensures
        r == spec_parse_or(s@, default),
{
    match parse_u32(s) {
        Some(v) => v,
        None => default,
    }
}

} // verus!
