use vstd::prelude::*;
use vstd::string::StrSliceExecFns;

verus! {

/// The Unicode White_Space property: the code points tab to carriage return,
/// space, next line, no-break space, ogham space mark, the spaces from en quad
/// to hair space, line and paragraph separators, narrow no-break space, medium
/// mathematical space and ideographic space.
pub open spec fn char_is_whitespace(c: char) -> bool {
    let u = c as u32;
    ||| 0x09 <= u <= 0x0D
    ||| u == 0x20
    ||| u == 0x85
    ||| u == 0xA0
    ||| u == 0x1680
    ||| 0x2000 <= u <= 0x200A
    ||| u == 0x2028
    ||| u == 0x2029
    ||| u == 0x202F
    ||| u == 0x205F
    ||| u == 0x3000
}

/// Whether `c` has the Unicode White_Space property (see `char_is_whitespace`),
/// as `char::is_whitespace` tells it.
pub fn is_whitespace(c: char) -> (r: bool)
    ensures
        r == char_is_whitespace(c),
{
    let u = c as u32;
    (0x09 <= u && u <= 0x0D) || u == 0x20 || u == 0x85 || u == 0xA0 || u == 0x1680 || (0x2000 <= u && u <= 0x200A)
        || u == 0x2028 || u == 0x2029 || u == 0x202F || u == 0x205F || u == 0x3000
}

/// Is `v` a Unicode scalar value (a code point that is not a surrogate)?
pub open spec fn is_scalar(v: int) -> bool {
    (0 <= v <= 0xD7FF) || (0xE000 <= v <= 0x10FFFF)
}

/// `char::from_u32`: the character with code point `v`.
/// Claimed: it exists exactly for the Unicode scalar values, and then has code
/// point `v`.
#[verifier::external_body]
pub(crate) fn char_from_u32(v: u32) -> (r: Option<char>)
    ensures
        r is Some <==> is_scalar(v as int),
        r matches Some(c) ==> c as u32 == v && c as int == v as int,
{
    char::from_u32(v)
}

/// `String::push`: appends one character.
/// Claimed: the new text is the old text followed by `c`.
#[verifier::external_body]
pub(crate) fn push_char(s: &mut String, c: char)
    ensures
        final(s)@ == old(s)@.push(c),
{
    s.push(c)
}

/// Index of the first character at or after `i` that is not white space.
pub open spec fn skip_space_end(s: Seq<char>, i: int) -> int
    decreases s.len() - i,
{
    if 0 <= i < s.len() && char_is_whitespace(s[i]) {
        skip_space_end(s, i + 1)
    } else {
        i
    }
}

pub proof fn lemma_skip_space_end_bounds(s: Seq<char>, i: int)
    requires
        0 <= i <= s.len(),
    ensures
        i <= skip_space_end(s, i) <= s.len(),
        forall|k: int| i <= k < skip_space_end(s, i) ==> char_is_whitespace(#[trigger] s[k]),
        skip_space_end(s, i) < s.len() ==> !char_is_whitespace(s[skip_space_end(s, i)]),
    decreases s.len() - i,
{
    if i < s.len() && char_is_whitespace(s[i]) {
        lemma_skip_space_end_bounds(s, i + 1);
    }
}

/// The characters of `s`, one by one.
pub fn str_to_chars(s: &str) -> (v: Vec<char>)
    ensures
        v@ == s@,
{
    let n = s.unicode_len();
    let mut v: Vec<char> = Vec::new();
    let mut i: usize = 0;
    while i < n
        invariant
            n == s@.len(),
            0 <= i <= n,
            v@ == s@.subrange(0, i as int),
        decreases n - i,
    {
        v.push(s.get_char(i));
        i = i + 1;
        assert(v@ =~= s@.subrange(0, i as int));
    }
    assert(v@ =~= s@);
    v
}

/// A `String` holding the characters of `v`.
pub fn chars_to_string(v: &[char]) -> (s: String)
    ensures
        s@ == v@,
{
    let mut s = String::new();
    let mut i: usize = 0;
    while i < v.len()
        invariant
            0 <= i <= v@.len(),
            s@ == v@.subrange(0, i as int),
        decreases v@.len() - i,
    {
        push_char(&mut s, v[i]);
        i = i + 1;
        assert(s@ =~= v@.subrange(0, i as int));
    }
    assert(s@ =~= v@);
    s
}

/// Append the characters of `t` to `s`.
pub fn push_chars(s: &mut String, t: &[char])
    ensures
        final(s)@ == old(s)@ + t@,
{
    let mut i: usize = 0;
    let ghost s0 = s@;
    while i < t.len()
        invariant
            0 <= i <= t@.len(),
            s@ == s0 + t@.subrange(0, i as int),
        decreases t@.len() - i,
    {
        push_char(s, t[i]);
        i = i + 1;
        assert(s@ =~= s0 + t@.subrange(0, i as int));
    }
    assert(t@.subrange(0, t@.len() as int) =~= t@);
}

/// Append the text `t` to `s`.
pub fn push_str(s: &mut String, t: &str)
    ensures
        final(s)@ == old(s)@ + t@,
{
    let v = str_to_chars(t);
    push_chars(s, v.as_slice());
}

/// `s` with leading white space removed.
pub fn trim_start(s: &str) -> (r: &str)
    ensures
        r@ == s@.subrange(skip_space_end(s@, 0), s@.len() as int),
{
    let n = s.unicode_len();
    let mut i: usize = 0;
    proof {
        lemma_skip_space_end_bounds(s@, 0);
    }
    while i < n && is_whitespace(s.get_char(i))
        invariant
            n == s@.len(),
            0 <= i <= n,
            skip_space_end(s@, 0) == skip_space_end(s@, i as int),
        decreases n - i,
    {
        i = i + 1;
    }
    s.substring_char(i, n)
}

/// Are the texts `a` and `b` the same?
pub fn str_eq(a: &str, b: &str) -> (r: bool)
    ensures
        r == (a@ == b@),
{
    let n = a.unicode_len();
    if n != b.unicode_len() {
        return false;
    }
    let mut i: usize = 0;
    while i < n
        invariant
            n == a@.len(),
            n == b@.len(),
            0 <= i <= n,
            forall|k: int| 0 <= k < i ==> a@[k] == b@[k],
        decreases n - i,
    {
        if a.get_char(i) != b.get_char(i) {
            return false;
        }
        i = i + 1;
    }
    assert(a@ =~= b@);
    true
}

/// The decimal digits of `n`, most significant first.
pub open spec fn nat_digits(n: nat) -> Seq<char>
    decreases n,
{
    if n < 10 {
        seq![(n + 48) as char]
    } else {
        nat_digits(n / 10).push(((n % 10) + 48) as char)
    }
}

/// Decimal form of an integer, with a leading `-` for a negative one.
pub open spec fn int_text(v: int) -> Seq<char> {
    if v < 0 {
        seq!['-'] + nat_digits((-v) as nat)
    } else {
        nat_digits(v as nat)
    }
}

fn digit_char(d: u64) -> (c: char)
    requires
        d < 10,
    ensures
        c == (d + 48) as char,
{
    ((d as u8) + 48u8) as char
}

/// Append the decimal form of `n` to `s`.
fn push_nat(s: &mut String, n: u64)
    ensures
        final(s)@ == old(s)@ + nat_digits(n as nat),
    decreases n,
{
    if n < 10 {
        push_char(s, digit_char(n));
        assert(seq![(n + 48) as char] =~= nat_digits(n as nat));
    } else {
        push_nat(s, n / 10);
        push_char(s, digit_char(n % 10));
        assert(old(s)@ + nat_digits((n / 10) as nat) + seq![((n % 10) + 48) as char] =~= old(s)@
            + nat_digits(n as nat));
    }
}

/// Append the decimal form of `v` to `s`.
pub fn push_int(s: &mut String, v: i64)
    ensures
        final(s)@ == old(s)@ + int_text(v as int),
{
    if v < 0 {
        push_char(s, '-');
        let m: u64 = if v == i64::MIN {
            0x8000_0000_0000_0000u64
        } else {
            (-v) as u64
        };
        push_nat(s, m);
        assert(old(s)@.push('-') + nat_digits(m as nat) =~= old(s)@ + (seq!['-'] + nat_digits(
            (-v) as nat,
        )));
    } else {
        push_nat(s, v as u64);
    }
}

/// The decimal form of `v`.
pub fn int_to_string(v: i64) -> (s: String)
    ensures
        s@ == int_text(v as int),
{
    let mut s = String::new();
    push_int(&mut s, v);
    assert(s@ =~= int_text(v as int));
    s
}

} // verus!
