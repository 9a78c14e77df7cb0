//! Decimal integer literals: what text denotes which number, reading such a
//! literal, and writing a number back as text.

use vstd::prelude::*;
use vstd::string::StringExecFns;
use crate::text::chars_of;

verus! {

/// Whether `c` is one of the ten ASCII digits.
pub open spec fn is_digit(c: char) -> bool {
    '0' <= c && c <= '9'
}

/// The number a digit stands for.
pub open spec fn digit_value(c: char) -> int {
    c as int - '0' as int
}

/// Whether every character of `s` is a digit.
pub open spec fn all_digits(s: Seq<char>) -> bool {
    forall|i: int| 0 <= i < s.len() ==> is_digit(#[trigger] s[i])
}

/// The number that a run of digits denotes, most significant digit first.
pub open spec fn digits_value(s: Seq<char>) -> int
    decreases s.len(),
{
    if s.len() == 0 {
        0
    } else {
        10 * digits_value(s.drop_last()) + digit_value(s.last())
    }
}

/// The number denoted by a non-empty run of digits; `None` for any other text.
pub open spec fn magnitude(s: Seq<char>) -> Option<int> {
    if s.len() > 0 && all_digits(s) {
        Some(digits_value(s))
    } else {
        None
    }
}

/// The number denoted by an unsigned literal: an optional `+`, then at least
/// one digit.
pub open spec fn unsigned_value(s: Seq<char>) -> Option<int> {
    if s.len() > 0 && s[0] == '+' {
        magnitude(s.skip(1))
    } else {
        magnitude(s)
    }
}

/// The number denoted by a signed literal: an optional `+` or `-`, then at
/// least one digit.
pub open spec fn signed_value(s: Seq<char>) -> Option<int> {
    if s.len() > 0 && s[0] == '-' {
        match magnitude(s.skip(1)) {
            Some(m) => Some(-m),
            None => None,
        }
    } else {
        unsigned_value(s)
    }
}

/// What [`parse_u16`] returns: the value of an unsigned literal that fits.
pub open spec fn parse_u16_spec(s: Seq<char>) -> Option<u16> {
    match unsigned_value(s) {
        Some(v) => if v <= u16::MAX {
            Some(v as u16)
        } else {
            None
        },
        None => None,
    }
}

/// What [`parse_i64`] returns: the value of a signed literal that fits.
pub open spec fn parse_i64_spec(s: Seq<char>) -> Option<i64> {
    match signed_value(s) {
        Some(v) => if i64::MIN <= v <= i64::MAX {
            Some(v as i64)
        } else {
            None
        },
        None => None,
    }
}

/// The digit that stands for `d`, for `d` below ten.
pub open spec fn digit_char(d: int) -> char {
    if d == 0 {
        '0'
    } else if d == 1 {
        '1'
    } else if d == 2 {
        '2'
    } else if d == 3 {
        '3'
    } else if d == 4 {
        '4'
    } else if d == 5 {
        '5'
    } else if d == 6 {
        '6'
    } else if d == 7 {
        '7'
    } else if d == 8 {
        '8'
    } else {
        '9'
    }
}

/// The digits of `n`, most significant first, without leading zeros.
pub open spec fn digits_text(n: nat) -> Seq<char>
    decreases n,
{
    if n < 10 {
        seq![digit_char(n as int)]
    } else {
        digits_text(n / 10).push(digit_char((n % 10) as int))
    }
}

/// The canonical decimal text of `v`: a `-` for a negative number, then its
/// digits.
pub open spec fn decimal_text(v: int) -> Seq<char> {
    if v < 0 {
        seq!['-'] + digits_text((-v) as nat)
    } else {
        digits_text(v as nat)
    }
}

/// A run of digits denotes a number that is not negative.
pub proof fn lemma_digits_value_nonnegative(s: Seq<char>)
    requires
        all_digits(s),
    ensures
        digits_value(s) >= 0,
    decreases s.len(),
{
    if s.len() > 0 {
        lemma_digits_value_nonnegative(s.drop_last());
        assert(is_digit(s[s.len() - 1]));
    }
}

/// A prefix of a run of digits denotes no more than the whole run.
pub proof fn lemma_prefix_is_no_larger(s: Seq<char>, k: int)
    requires
        all_digits(s),
        0 <= k <= s.len(),
    ensures
        digits_value(s.take(k)) <= digits_value(s),
    decreases s.len() - k,
{
    if k == s.len() {
        assert(s.take(k) == s);
    } else {
        lemma_prefix_is_no_larger(s, k + 1);
        let longer = s.take(k + 1);
        assert(longer.drop_last() == s.take(k));
        assert(is_digit(s[k]));
        assert(longer.last() == s[k]);
        lemma_digits_value_nonnegative(s.take(k));
    }
}

/// Reads the run of digits that `text` holds from `start` on, as far as its
/// value stays within `limit`.
fn read_magnitude(text: &Vec<char>, start: usize, limit: u64) -> (r: Option<u64>)
    requires
        start <= text.len(),
    ensures
        r == match magnitude(text@.skip(start as int)) {
            Some(m) => if m <= limit {
                Some(m as u64)
            } else {
                None
            },
            None => None::<u64>,
        },
{
    let ghost run = text@.skip(start as int);
    if start == text.len() {
        return None;
    }
    let mut acc: u128 = 0;
    let mut i: usize = start;
    while i < text.len()
        invariant
            start <= i <= text.len(),
            run == text@.skip(start as int),
            all_digits(run.take(i - start)),
            acc == digits_value(run.take(i - start)),
            acc <= limit,
        decreases text.len() - i,
    {
        let c = text[i];
        let ghost seen = run.take(i - start);
        let ghost next = run.take(i - start + 1);
        assert(next.drop_last() == seen);
        assert(next.last() == c);
        if !(c >= '0' && c <= '9') {
            assert(!is_digit(run[i - start]));
            return None;
        }
        let d: u128 = (c as u32 - '0' as u32) as u128;
        acc = acc * 10 + d;
        assert(all_digits(next)) by {
            assert forall|j: int| 0 <= j < next.len() implies is_digit(#[trigger] next[j]) by {
                if j < seen.len() {
                    assert(next[j] == seen[j]);
                }
            }
        }
        if acc > limit as u128 {
            proof {
                if all_digits(run) {
                    lemma_prefix_is_no_larger(run, i - start + 1);
                }
            }
            return None;
        }
        i = i + 1;
    }
    assert(run.take(i - start) == run);
    Some(acc as u64)
}

/// Reads an unsigned decimal literal that fits in 16 bits.
///
/// The literal is an optional `+` followed by at least one digit; leading
/// zeros are allowed, anything else (white space, a `-`, an empty text, a
/// value above 65535) is rejected.
pub fn parse_u16(s: &str) -> (r: Option<u16>)
    ensures
        r == parse_u16_spec(s@),
{
    let text = chars_of(s);
    let start: usize = if text.len() > 0 && text[0] == '+' {
        1
    } else {
        0
    };
    assert(text@.skip(0) == text@);
    proof {
        if all_digits(text@.skip(start as int)) {
            lemma_digits_value_nonnegative(text@.skip(start as int));
        }
    }
    match read_magnitude(&text, start, 65535) {
        Some(m) => Some(m as u16),
        None => None,
    }
}

/// Reads a signed decimal literal that fits in 64 bits.
///
/// The literal is an optional `+` or `-` followed by at least one digit;
/// leading zeros are allowed, anything else is rejected.
pub fn parse_i64(s: &str) -> (r: Option<i64>)
    ensures
        r == parse_i64_spec(s@),
{
    let text = chars_of(s);
    assert(text@.skip(0) == text@);
    if text.len() > 0 && text[0] == '-' {
        proof {
            if all_digits(text@.skip(1)) {
                lemma_digits_value_nonnegative(text@.skip(1));
            }
        }
        match read_magnitude(&text, 1, 0x8000_0000_0000_0000) {
            Some(m) => if m == 0x8000_0000_0000_0000 {
                Some(i64::MIN)
            } else {
                Some(-(m as i64))
            },
            None => None,
        }
    } else {
        let start: usize = if text.len() > 0 && text[0] == '+' {
            1
        } else {
            0
        };
        proof {
            if all_digits(text@.skip(start as int)) {
                lemma_digits_value_nonnegative(text@.skip(start as int));
            }
        }
        match read_magnitude(&text, start, 0x7fff_ffff_ffff_ffff) {
            Some(m) => Some(m as i64),
            None => None,
        }
    }
}

/// The one-character text of the digit for `d`.
fn digit_str(d: u64) -> (r: &'static str)
    requires
        d < 10,
    ensures
        r@ == seq![digit_char(d as int)],
{
    proof {
        reveal_strlit("0");
        reveal_strlit("1");
        reveal_strlit("2");
        reveal_strlit("3");
        reveal_strlit("4");
        reveal_strlit("5");
        reveal_strlit("6");
        reveal_strlit("7");
        reveal_strlit("8");
        reveal_strlit("9");
    }
    let r = match d {
        0 => "0",
        1 => "1",
        2 => "2",
        3 => "3",
        4 => "4",
        5 => "5",
        6 => "6",
        7 => "7",
        8 => "8",
        _ => "9",
    };
    assert(r@ =~= seq![digit_char(d as int)]);
    r
}

/// Appends the digits of `n` to `out`.
fn push_digits(out: &mut String, n: u64)
    ensures
        final(out)@ == old(out)@ + digits_text(n as nat),
    decreases n,
{
    if n >= 10 {
        push_digits(out, n / 10);
    }
    out.append(digit_str(n % 10));
    assert(out@ == old(out)@ + digits_text(n as nat));
}

/// Writes `v` as its canonical decimal text.
pub fn format_i64(v: i64) -> (r: String)
    ensures
        r@ == decimal_text(v as int),
{
    let mut out = String::new();
    let n: u64 = if v < 0 {
        proof {
            reveal_strlit("-");
        }
        out.append("-");
        assert(out@ == seq!['-']);
        (-(v + 1)) as u64 + 1
    } else {
        v as u64
    };
    push_digits(&mut out, n);
    assert(out@ == decimal_text(v as int));
    out
}

/// The digits written for a number are a non-empty run of digits that denotes
/// that number.
pub proof fn lemma_digits_text_denotes(n: nat)
    ensures
        digits_text(n).len() > 0,
        all_digits(digits_text(n)),
        digits_value(digits_text(n)) == n,
    decreases n,
{
    if n < 10 {
        let s = digits_text(n);
        assert(s.drop_last() == Seq::<char>::empty());
        assert(digits_value(s.drop_last()) == 0);
    } else {
        lemma_digits_text_denotes(n / 10);
        let s = digits_text(n);
        assert(s.drop_last() == digits_text(n / 10));
        assert(s.last() == digit_char((n % 10) as int));
    }
}

/// Reading the canonical text of a 64-bit number gives that number back.
pub proof fn lemma_parse_inverts_format(v: i64)
    ensures
        parse_i64_spec(decimal_text(v as int)) == Some(v),
{
    let s = decimal_text(v as int);
    if v < 0 {
        let n = (-v) as nat;
        lemma_digits_text_denotes(n);
        assert(s.skip(1) == digits_text(n));
        assert(s[0] == '-');
    } else {
        let n = v as nat;
        lemma_digits_text_denotes(n);
        assert(is_digit(s[0]));
    }
}

} // verus!
