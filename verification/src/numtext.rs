//! Decimal numbers as text: parsing integers out of character sequences with
//! the exact acceptance rules of the standard library's integer parsers, and
//! rendering integers back into strings.

use vstd::prelude::*;

use crate::text::push_char;

verus! {

/// `0`..=`9`.
pub open spec fn is_digit(c: char) -> bool {
    0x30 <= c as u32 && c as u32 <= 0x39
}

/// The numeric value of a digit character.
pub open spec fn digit_val(c: char) -> nat {
    (c as u32 - 0x30) as nat
}

/// Every character of `s` is a decimal digit.
pub open spec fn all_digits(s: Seq<char>) -> bool {
    forall|i: int| 0 <= i < s.len() ==> is_digit(#[trigger] s[i])
}

/// The number written by a digit sequence, most significant first.
pub open spec fn digits_val(s: Seq<char>) -> nat
    decreases s.len(),
{
    if s.len() == 0 {
        0
    } else {
        digits_val(s.drop_last()) * 10 + digit_val(s.last())
    }
}

/// Reading further digits never decreases the value.
proof fn lemma_digits_val_monotone(s: Seq<char>, i: int, j: int)
    requires
        0 <= i <= j <= s.len(),
    ensures
        digits_val(s.subrange(0, i)) <= digits_val(s.subrange(0, j)),
    decreases j - i,
{
    if i < j {
        lemma_digits_val_monotone(s, i, j - 1);
        assert(s.subrange(0, j).drop_last() =~= s.subrange(0, j - 1));
    }
}

/// The digit at position `i`, as a character.
pub open spec fn digit_char(d: nat) -> char {
    if d == 0 {
        '0'
    } else if d == 1 {
        '1'
    } else if d == 2 {
        '2'
    } else if d == 3 {
        '3'
    } else if d == 4 {
        '4'
    } else if d == 5 {
        '5'
    } else if d == 6 {
        '6'
    } else if d == 7 {
        '7'
    } else if d == 8 {
        '8'
    } else {
        '9'
    }
}

/// The decimal digits of `n`, most significant first, without a sign and
/// without leading zeros (`0` itself is the single digit `0`).
pub open spec fn dec_digits(n: nat) -> Seq<char>
    decreases n,
{
    if n < 10 {
        seq![digit_char(n)]
    } else {
        dec_digits(n / 10).push(digit_char(n % 10))
    }
}

/// The decimal rendering of a signed integer: a leading `-` for negative
/// values, then the digits of the magnitude.
pub open spec fn dec_int(n: int) -> Seq<char> {
    if n < 0 {
        seq!['-'] + dec_digits((-n) as nat)
    } else {
        dec_digits(n as nat)
    }
}

fn digit_of(d: u64) -> (c: char)
    requires
        d < 10,
    ensures
        c == digit_char(d as nat),
{
    if d == 0 {
        '0'
    } else if d == 1 {
        '1'
    } else if d == 2 {
        '2'
    } else if d == 3 {
        '3'
    } else if d == 4 {
        '4'
    } else if d == 5 {
        '5'
    } else if d == 6 {
        '6'
    } else if d == 7 {
        '7'
    } else if d == 8 {
        '8'
    } else {
        '9'
    }
}

/// Append the decimal digits of `n` to `s`.
pub fn push_u64(s: &mut String, n: u64)
    ensures
        final(s)@ == old(s)@ + dec_digits(n as nat),
    decreases n,
{
    if n < 10 {
        push_char(s, digit_of(n));
        assert(final(s)@ =~= old(s)@ + dec_digits(n as nat));
    } else {
        push_u64(s, n / 10);
        push_char(s, digit_of(n % 10));
        assert(final(s)@ =~= old(s)@ + dec_digits(n as nat));
    }
}

/// Append the decimal rendering of `n` to `s`, sign included.
pub fn push_i64(s: &mut String, n: i64)
    ensures
        final(s)@ == old(s)@ + dec_int(n as int),
{
    if n < 0 {
        push_char(s, '-');
        let magnitude: u64 = if n == i64::MIN {
            9223372036854775808u64
        } else {
            (-n) as u64
        };
        push_u64(s, magnitude);
        assert(final(s)@ =~= old(s)@ + dec_int(n as int));
    } else {
        push_u64(s, n as u64);
    }
}

/// The decimal rendering of `n`.
pub fn u64_to_string(n: u64) -> (s: String)
    ensures
        s@ == dec_digits(n as nat),
{
    let mut s = String::new();
    push_u64(&mut s, n);
    assert(s@ =~= dec_digits(n as nat));
    s
}

/// The decimal rendering of `n`, sign included.
pub fn i64_to_string(n: i64) -> (s: String)
    ensures
        s@ == dec_int(n as int),
{
    let mut s = String::new();
    push_i64(&mut s, n);
    assert(s@ =~= dec_int(n as int));
    s
}

/// The digits of `v` starting at `from` hold a value of at most `limit`; this
/// is exactly when the standard parser for an integer type with maximum
/// `limit` accepts them.
pub open spec fn digits_within(s: Seq<char>, limit: int) -> bool {
    s.len() >= 1 && all_digits(s) && digits_val(s) <= limit
}

/// Parse the digits of `v` from position `from` to the end, refusing values
/// beyond `limit`.
fn parse_digits_from(v: &Vec<char>, from: usize, limit: u64) -> (r: Option<u64>)
    requires
        from <= v@.len(),
    ensures
        match r {
            Some(value) => digits_within(v@.skip(from as int), limit as int) && value == digits_val(
                v@.skip(from as int),
            ),
            None => !digits_within(v@.skip(from as int), limit as int),
        },
{
    let n = v.len();
    if from >= n {
        return None;
    }
    let ghost tail = v@.skip(from as int);
    let mut acc: u64 = 0;
    let mut i: usize = from;
    while i < n
        invariant
            from <= i <= n,
            n == v@.len(),
            from < n,
            tail == v@.skip(from as int),
            all_digits(tail.subrange(0, i - from)),
            acc == digits_val(tail.subrange(0, i - from)),
            acc <= limit,
        decreases n - i,
    {
        let c = v[i];
        let cv = c as u32;
        if cv < 0x30 || cv > 0x39 {
            assert(tail[i - from] == v@[i as int]);
            return None;
        }
        let d = (cv - 0x30) as u64;
        assert(tail.subrange(0, i + 1 - from).drop_last() =~= tail.subrange(0, i - from));
        assert(tail.subrange(0, i + 1 - from).last() == v@[i as int]);
        let next = match acc.checked_mul(10) {
            Some(scaled) => scaled.checked_add(d),
            None => None,
        };
        match next {
            Some(value) => {
                if value > limit {
                    proof {
                        lemma_digits_val_monotone(tail, i + 1 - from, tail.len() as int);
                        assert(tail.subrange(0, tail.len() as int) =~= tail);
                    }
                    return None;
                }
                acc = value;
            },
            None => {
                proof {
                    assert(digits_val(tail.subrange(0, i + 1 - from)) > u64::MAX);
                    lemma_digits_val_monotone(tail, i + 1 - from, tail.len() as int);
                    assert(tail.subrange(0, tail.len() as int) =~= tail);
                }
                return None;
            },
        }
        i = i + 1;
    }
    assert(tail.subrange(0, n - from) =~= tail);
    Some(acc)
}

/// `s` is text that the standard parser of an unsigned type with maximum
/// `limit` accepts: an optional `+`, then digits whose value fits.
pub open spec fn uint_string_wf(s: Seq<char>, limit: int) -> bool {
    if s.len() > 0 && s[0] == '+' {
        digits_within(s.skip(1), limit)
    } else {
        digits_within(s, limit)
    }
}

/// The value written by such text.
pub open spec fn uint_string_val(s: Seq<char>) -> nat {
    if s.len() > 0 && s[0] == '+' {
        digits_val(s.skip(1))
    } else {
        digits_val(s)
    }
}

/// `s` is text that `i64::from_str` accepts: an optional sign, then digits
/// whose value fits the signed range.
pub open spec fn i64_string_wf(s: Seq<char>) -> bool {
    if s.len() > 0 && s[0] == '-' {
        digits_within(s.skip(1), 0x8000_0000_0000_0000)
    } else if s.len() > 0 && s[0] == '+' {
        digits_within(s.skip(1), i64::MAX as int)
    } else {
        digits_within(s, i64::MAX as int)
    }
}

/// The value written by such text.
pub open spec fn i64_string_val(s: Seq<char>) -> int {
    if s.len() > 0 && s[0] == '-' {
        -(digits_val(s.skip(1)) as int)
    } else if s.len() > 0 && s[0] == '+' {
        digits_val(s.skip(1)) as int
    } else {
        digits_val(s) as int
    }
}

/// Parse `v` exactly as `i64::from_str` does.
pub fn parse_i64(v: &Vec<char>) -> (r: Option<i64>)
    ensures
        match r {
            Some(value) => i64_string_wf(v@) && value == i64_string_val(v@),
            None => !i64_string_wf(v@),
        },
{
    if v.len() > 0 && v[0] == '-' {
        match parse_digits_from(v, 1, 0x8000_0000_0000_0000u64) {
            Some(magnitude) => {
                if magnitude == 0x8000_0000_0000_0000u64 {
                    Some(i64::MIN)
                } else {
                    Some(-(magnitude as i64))
                }
            },
            None => None,
        }
    } else if v.len() > 0 && v[0] == '+' {
        match parse_digits_from(v, 1, i64::MAX as u64) {
            Some(value) => Some(value as i64),
            None => None,
        }
    } else {
        assert(v@.skip(0) =~= v@);
        match parse_digits_from(v, 0, i64::MAX as u64) {
            Some(value) => Some(value as i64),
            None => None,
        }
    }
}

/// Parse `v` exactly as `usize::from_str` does: an optional `+`, then digit
/// text whose value fits the platform's `usize`.
pub fn parse_usize(v: &Vec<char>) -> (r: Option<usize>)
    ensures
        match r {
            Some(value) => uint_string_wf(v@, usize::MAX as int) && value == uint_string_val(v@),
            None => !uint_string_wf(v@, usize::MAX as int),
        },
{
    let parsed = if v.len() > 0 && v[0] == '+' {
        parse_digits_from(v, 1, usize::MAX as u64)
    } else {
        assert(v@.skip(0) =~= v@);
        parse_digits_from(v, 0, usize::MAX as u64)
    };
    match parsed {
        Some(value) => Some(value as usize),
        None => None,
    }
}

} // verus!
