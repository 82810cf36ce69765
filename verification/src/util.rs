use vstd::prelude::*;
use vstd::string::StrSliceExecFns;

verus! {

/// Largest magnitude that a decimal number may have and still be read as an `i64`
/// (reached only by a negative number).
pub open spec fn i64_magnitude_limit() -> int {
    0x8000_0000_0000_0000
}

/// Is `c` one of the ASCII digits `0` to `9`?
pub open spec fn is_digit_char(c: char) -> bool {
    '0' <= c && c <= '9'
}

/// Is `b` the ASCII code of a digit?
pub open spec fn is_digit_byte(b: u8) -> bool {
    48 <= b && b <= 57
}

/// The numeric value of one digit character.
pub open spec fn char_digit(c: char) -> int {
    c as int - '0' as int
}

/// The decimal value of a sequence of digit characters.
pub open spec fn char_digits_value(s: Seq<char>) -> int
    decreases s.len(),
{
    if s.len() == 0 {
        0
    } else {
        char_digits_value(s.drop_last()) * 10 + char_digit(s.last())
    }
}

/// The decimal value of a sequence of ASCII digit bytes.
pub open spec fn byte_digits_value(s: Seq<u8>) -> int
    decreases s.len(),
{
    if s.len() == 0 {
        0
    } else {
        byte_digits_value(s.drop_last()) * 10 + (s.last() - 48)
    }
}

/// The index just after the run of digit characters that starts at `i`.
pub open spec fn char_digits_end(s: Seq<char>, i: int) -> int
    decreases s.len() - i,
{
    if 0 <= i < s.len() && is_digit_char(s[i]) {
        char_digits_end(s, i + 1)
    } else {
        i
    }
}

/// The index just after the run of digit bytes that starts at `i`.
pub open spec fn byte_digits_end(s: Seq<u8>, i: int) -> int
    decreases s.len() - i,
{
    if 0 <= i < s.len() && is_digit_byte(s[i]) {
        byte_digits_end(s, i + 1)
    } else {
        i
    }
}

/// The signed value `-m` or `m`, if it is representable as an `i64`.
pub open spec fn signed_in_range(neg: bool, m: int) -> Option<i64> {
    if neg && m <= i64_magnitude_limit() {
        Some((-m) as i64)
    } else if !neg && m < i64_magnitude_limit() {
        Some(m as i64)
    } else {
        None
    }
}

/// Where the digits of a number written as `s` start: after an optional leading `-`.
pub open spec fn char_number_start(s: Seq<char>) -> int {
    if s.len() > 0 && s[0] == '-' {
        1
    } else {
        0
    }
}

/// What `str_to_int` gives for `s`: the value of the optional `-` and the digits that
/// follow it (`None` where it does not fit in an `i64`), and the index where the rest
/// begins; `None` and index 0 where no digit follows.
pub open spec fn str_to_int_spec(s: Seq<char>) -> (Option<i64>, int) {
    let start = char_number_start(s);
    let end = char_digits_end(s, start);
    if end == start {
        (None, 0)
    } else {
        (signed_in_range(start == 1, char_digits_value(s.subrange(start, end))), end)
    }
}

/// Where the digits of a number written as the bytes `s` start.
pub open spec fn byte_number_start(s: Seq<u8>) -> int {
    if s.len() > 0 && s[0] == 45 {
        1
    } else {
        0
    }
}

/// What `bytes_to_int` gives for `s`, as `str_to_int_spec` does for characters.
pub open spec fn bytes_to_int_spec(s: Seq<u8>) -> (Option<i64>, int) {
    let start = byte_number_start(s);
    let end = byte_digits_end(s, start);
    if end == start {
        (None, 0)
    } else {
        (signed_in_range(start == 1, byte_digits_value(s.subrange(start, end))), end)
    }
}

proof fn lemma_char_digits_end_bounds(s: Seq<char>, i: int)
    requires
        0 <= i <= s.len(),
    ensures
        i <= char_digits_end(s, i) <= s.len(),
    decreases s.len() - i,
{
    if i < s.len() && is_digit_char(s[i]) {
        lemma_char_digits_end_bounds(s, i + 1);
    }
}

proof fn lemma_byte_digits_end_bounds(s: Seq<u8>, i: int)
    requires
        0 <= i <= s.len(),
    ensures
        i <= byte_digits_end(s, i) <= s.len(),
    decreases s.len() - i,
{
    if i < s.len() && is_digit_byte(s[i]) {
        lemma_byte_digits_end_bounds(s, i + 1);
    }
}

/// The rest that `str_to_int` leaves is a suffix of its input.
pub proof fn lemma_str_to_int_spec_bound(s: Seq<char>)
    ensures
        0 <= str_to_int_spec(s).1 <= s.len(),
{
    lemma_char_digits_end_bounds(s, char_number_start(s));
}

/// A text that starts with a digit has a number at its start, of one digit at
/// least.
pub proof fn lemma_str_to_int_digit_start(s: Seq<char>)
    requires
        s.len() > 0,
        is_digit_char(s[0]),
    ensures
        1 <= str_to_int_spec(s).1 <= s.len(),
{
    lemma_char_digits_end_bounds(s, 1);
}

/// Turn a magnitude and a sign into the value, where it fits.
fn signed_result(neg: bool, big: bool, acc: u128) -> (r: Option<i64>)
    requires
        !big ==> acc <= i64_magnitude_limit(),
    ensures
        !big ==> r == signed_in_range(neg, acc as int),
        big ==> r is None,
{
    if big {
        None
    } else if neg {
        let v: i128 = 0i128 - (acc as i128);
        Some(v as i64)
    } else if acc < 0x8000_0000_0000_0000u128 {
        Some(acc as i64)
    } else {
        None
    }
}

/// Read an optionally negative decimal number at the start of the bytes `s`.
/// Returns the number (`None` if it does not fit in an `i64`) and the bytes after it;
/// where no digit follows the optional `-`, returns `None` and `s` unchanged.
pub fn bytes_to_int<'a>(s: &'a [u8]) -> (r: (Option<i64>, &'a [u8]))
    requires
        s@.len() > 0,
    ensures
        r.0 == bytes_to_int_spec(s@).0,
        r.1@ == s@.subrange(bytes_to_int_spec(s@).1, s@.len() as int),
{
    let ghost sq = s@;
    let mut i: usize = 0;
    let neg = s[0] == 45u8;
    if neg {
        i = 1;
    }
    let start = i;
    let mut acc: u128 = 0;
    let mut big = false;
    proof {
        lemma_byte_digits_end_bounds(sq, start as int);
    }
    while i < s.len() && 48u8 <= s[i] && s[i] <= 57u8
        invariant
            sq == s@,
            start == byte_number_start(sq),
            neg == (start == 1),
            start <= i <= s.len(),
            byte_digits_end(sq, start as int) == byte_digits_end(sq, i as int),
            !big ==> acc == byte_digits_value(sq.subrange(start as int, i as int)),
            !big ==> acc <= i64_magnitude_limit(),
            big ==> byte_digits_value(sq.subrange(start as int, i as int)) > i64_magnitude_limit(),
        decreases s.len() - i,
    {
        let d = s[i] - 48u8;
        proof {
            assert(sq.subrange(start as int, i + 1).drop_last() =~= sq.subrange(
                start as int,
                i as int,
            ));
        }
        if !big {
            let next = acc * 10 + (d as u128);
            if next > 0x8000_0000_0000_0000u128 {
                big = true;
            } else {
                acc = next;
            }
        }
        i = i + 1;
    }
    if i == start {
        return (None, s);
    }
    let v = signed_result(neg, big, acc);
    let (_, rest) = s.split_at(i);
    (v, rest)
}

/// Read an optionally negative decimal number at the start of `s`.
/// Returns the number (`None` if it does not fit in an `i64`) and the text after it;
/// where no digit follows the optional `-`, returns `None` and `s` unchanged.
pub fn str_to_int<'a>(s: &'a str) -> (r: (Option<i64>, &'a str))
    ensures
        r.0 == str_to_int_spec(s@).0,
        r.1@ == s@.subrange(str_to_int_spec(s@).1, s@.len() as int),
{
    let ghost sq = s@;
    let n = s.unicode_len();
    let mut i: usize = 0;
    let neg = n > 0 && s.get_char(0) == '-';
    if neg {
        i = 1;
    }
    let start = i;
    let mut acc: u128 = 0;
    let mut big = false;
    proof {
        lemma_char_digits_end_bounds(sq, start as int);
    }
    while i < n && '0' <= s.get_char(i) && s.get_char(i) <= '9'
        invariant
            sq == s@,
            n == sq.len(),
            start == char_number_start(sq),
            neg == (start == 1),
            start <= i <= n,
            char_digits_end(sq, start as int) == char_digits_end(sq, i as int),
            !big ==> acc == char_digits_value(sq.subrange(start as int, i as int)),
            !big ==> acc <= i64_magnitude_limit(),
            big ==> char_digits_value(sq.subrange(start as int, i as int))
                > i64_magnitude_limit(),
        decreases n - i,
    {
        let c = s.get_char(i);
        proof {
            assert(sq.subrange(start as int, i + 1).drop_last() =~= sq.subrange(
                start as int,
                i as int,
            ));
        }
        if !big {
            let d = (c as u32 - '0' as u32) as u128;
            let next = acc * 10 + d;
            if next > 0x8000_0000_0000_0000u128 {
                big = true;
            } else {
                acc = next;
            }
        }
        i = i + 1;
    }
    if i == start {
        proof {
            assert(sq.subrange(0, sq.len() as int) =~= sq);
        }
        return (None, s);
    }
    let v = signed_result(neg, big, acc);
    (v, s.substring_char(i, n))
}

} // verus!
