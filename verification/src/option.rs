use vstd::prelude::*;
use vstd::string::StrSliceExecFns;

use crate::defs::{CH_CANSEEK, NUM_FRAC_DENOM, OPT_OFF, OPT_ON, OPT_ONPLUS};
use crate::opttbl::{
    LOption, OptAction, Options, ToggleHow, OLETTER_NONE, O_BOOL, O_NOVAR, O_NO_QUERY, O_NO_TOGGLE,
    O_NUMBER, O_REPAINT, O_STRING, O_TRIPLE, O_UNSUPPORTED,
};
use crate::opttbl::is_ascii_lower;
use crate::text::{
    char_is_whitespace, chars_to_string, int_text, push_char, push_int, push_str, skip_space_end,
    str_to_chars, trim_start,
};
use crate::util::{
    char_digits_end, char_digits_value, is_digit_char, str_to_int, str_to_int_spec,
};

verus! {

/// Character that ends an option string.
pub const END_OPTION_STRING: char = '$';

/// "Toggle" a triple-valued option: a lower-case letter switches between off
/// and on, an upper-case one between off and "on plus".
pub open spec fn flip_triple_spec(val: i32, lc: bool) -> i32 {
    if lc {
        if val == OPT_ON {
            OPT_OFF
        } else {
            OPT_ON
        }
    } else {
        if val == OPT_ONPLUS {
            OPT_OFF
        } else {
            OPT_ONPLUS
        }
    }
}

/// "Toggle" a triple-valued option.
pub fn flip_triple(val: i32, lc: bool) -> (r: i32)
    ensures
        r == flip_triple_spec(val, lc),
{
    if lc {
        if val == OPT_ON {
            OPT_OFF
        } else {
            OPT_ON
        }
    } else {
        if val == OPT_ONPLUS {
            OPT_OFF
        } else {
            OPT_ONPLUS
        }
    }
}

/// The printable name of the option letter `c`: a dash and the letter.
pub fn propt(c: char) -> (r: String)
    ensures
        r@ == seq!['-', c],
{
    let mut s = String::new();
    push_char(&mut s, '-');
    push_char(&mut s, c);
    assert(s@ =~= seq!['-', c]);
    s
}

/// A printable description of an option: `--name` for a long-only option,
/// `-x (--name)` for one with a letter.
pub open spec fn opt_desc_spec(o: LOption) -> Seq<char> {
    if o.oletter == OLETTER_NONE {
        seq!['-', '-'] + o.onames@[0]@
    } else {
        seq!['-', o.oletter, ' ', '(', '-', '-'] + o.onames@[0]@ + seq![')']
    }
}

/// Return a printable description of an option.
pub fn opt_desc(o: &LOption) -> (r: String)
    ensures
        r@ == opt_desc_spec(*o),
{
    let mut s = String::new();
    if o.oletter == OLETTER_NONE {
        push_char(&mut s, '-');
        push_char(&mut s, '-');
        push_str(&mut s, o.onames[0]);
        assert(s@ =~= opt_desc_spec(*o));
    } else {
        push_char(&mut s, '-');
        push_char(&mut s, o.oletter);
        push_char(&mut s, ' ');
        push_char(&mut s, '(');
        push_char(&mut s, '-');
        push_char(&mut s, '-');
        push_str(&mut s, o.onames[0]);
        push_char(&mut s, ')');
        assert(s@ =~= opt_desc_spec(*o));
    }
    s
}

/// Determine if an option takes a parameter: a known option that is not
/// boolean, triple-valued, without a variable, or untoggleable.
pub fn opt_has_param(o: Option<&LOption>) -> (r: bool)
    ensures
        r == (o matches Some(opt) && !opt.otype.any(O_BOOL | O_TRIPLE | O_NOVAR | O_NO_TOGGLE)),
{
    match o {
        Some(opt) => !opt.otype.intersects(O_BOOL | O_TRIPLE | O_NOVAR | O_NO_TOGGLE),
        None => false,
    }
}

/// Return the prompt to be used for a given option: its prompt string
/// (the first description) for string and number options, `?` otherwise.
pub fn opt_prompt(o: Option<&LOption>) -> (r: String)
    ensures
        (o matches Some(opt) && opt.otype.any(O_STRING | O_NUMBER)) ==> r@ == o.unwrap().odesc@[0]@,
        !(o matches Some(opt) && opt.otype.any(O_STRING | O_NUMBER)) ==> r@ == seq!['?'],
{
    match o {
        Some(opt) => {
            if opt.otype.intersects(O_STRING | O_NUMBER) {
                let mut s = String::new();
                push_str(&mut s, opt.odesc[0]);
                assert(s@ =~= opt.odesc@[0]@);
                return s;
            }
        },
        None => {},
    }
    let mut s = String::new();
    push_char(&mut s, '?');
    assert(s@ =~= seq!['?']);
    s
}

/// If the option letter `c` can be toggled, return `None`; otherwise the reason why
/// not. `ch_flags` are the flags of the current input: the log-file option `o`
/// cannot be changed when the input is seekable (not a pipe).
pub fn opt_toggle_disallowed(c: char, ch_flags: i32) -> (r: Option<&'static str>)
    ensures
        r is Some <==> (c == 'o' && (ch_flags & CH_CANSEEK) != 0),
        r is Some ==> r->0@ == "Input is not a pipe"@,
{
    if c == 'o' {
        if ch_flags & CH_CANSEEK != 0 {
            return Some("Input is not a pipe");
        }
    }
    None
}

/// The value of the -e flag as it applies: in "more" mode, the flag means quitting
/// at the second end of file, so it reads as "on plus" when set and "on" when not.
pub fn get_quit_at_eof(less_is_more: i32, quit_at_eof: i32) -> (r: i32)
    ensures
        less_is_more == 0 ==> r == quit_at_eof,
        less_is_more != 0 ==> r == (if quit_at_eof != 0 {
            OPT_ONPLUS
        } else {
            OPT_ON
        }),
{
    if less_is_more == 0 {
        return quit_at_eof;
    }
    if quit_at_eof != 0 {
        OPT_ONPLUS
    } else {
        OPT_ON
    }
}

/// Message about a missing string after the option `printopt`.
pub open spec fn nostring_msg(printopt: Seq<char>) -> Seq<char> {
    "Value is required after "@ + printopt
}

/// The error message for a missing string after an option.
pub fn nostring(printopt: &str) -> (r: String)
    ensures
        r@ == nostring_msg(printopt@),
{
    let mut s = String::new();
    push_str(&mut s, "Value is required after ");
    push_str(&mut s, printopt);
    s
}

/// One step of the check of a string option's value against its set of valid
/// characters. `valid` is what is left of the set: `s` means a space ends the
/// value, `-` and `.` allow one leading such character, `d` allows digits, and a
/// final `,` allows commas. `None` means that `ch` ends the value.
pub open spec fn valid_step(valid: Seq<char>, ch: char) -> Option<Seq<char>> {
    if valid.len() == 0 {
        Some(valid)
    } else if valid[0] == 's' {
        if ch == ' ' {
            None
        } else {
            Some(valid)
        }
    } else if ch == '-' {
        if valid[0] != '-' {
            None
        } else {
            Some(valid.skip(1))
        }
    } else if ch == '.' {
        let v1 = if valid[0] == '-' {
            valid.skip(1)
        } else {
            valid
        };
        if v1.len() == 0 || v1[0] != '.' {
            None
        } else {
            Some(v1.skip(1))
        }
    } else if ch == ',' {
        if valid.len() < 2 || valid.last() != ',' {
            None
        } else {
            Some(valid)
        }
    } else if is_digit_char(ch) {
        let v1 = skip_signs(valid);
        if v1.len() == 0 || v1[0] != 'd' {
            None
        } else {
            Some(v1)
        }
    } else {
        None
    }
}

/// `valid` without its leading `-` and `.` characters.
pub open spec fn skip_signs(valid: Seq<char>) -> Seq<char>
    decreases valid.len(),
{
    if valid.len() > 0 && (valid[0] == '-' || valid[0] == '.') {
        skip_signs(valid.skip(1))
    } else {
        valid
    }
}

/// The value of a string option read from `s` at `k`, and where it ends.
/// With `backslash`, a backslash takes the next character literally (it is still
/// checked against `valid`); a lone final backslash ends the string.
pub open spec fn optstring_scan(s: Seq<char>, k: int, valid: Seq<char>, backslash: bool) -> (
    Seq<char>,
    int,
)
    decreases s.len() - k,
{
    if k < 0 || k >= s.len() {
        (Seq::empty(), s.len() as int)
    } else if backslash && s[k] == '\\' && k + 1 >= s.len() {
        (Seq::empty(), s.len() as int)
    } else {
        let escaped = backslash && s[k] == '\\';
        let ch = if escaped {
            s[k + 1]
        } else {
            s[k]
        };
        let next = if escaped {
            k + 2
        } else {
            k + 1
        };
        match valid_step(valid, ch) {
            None => (Seq::empty(), k),
            Some(v2) => if ch == END_OPTION_STRING {
                (Seq::empty(), k)
            } else {
                let (o, e) = optstring_scan(s, next, v2, backslash);
                (seq![ch] + o, e)
            },
        }
    }
}

proof fn lemma_optstring_scan_bounds(s: Seq<char>, k: int, valid: Seq<char>, backslash: bool)
    requires
        0 <= k <= s.len(),
    ensures
        k <= optstring_scan(s, k, valid, backslash).1 <= s.len(),
    decreases s.len() - k,
{
    if k < s.len() && !(backslash && s[k] == '\\' && k + 1 >= s.len()) {
        let escaped = backslash && s[k] == '\\';
        let ch = if escaped {
            s[k + 1]
        } else {
            s[k]
        };
        let next = if escaped {
            k + 2
        } else {
            k + 1
        };
        if let Some(v2) = valid_step(valid, ch) {
            lemma_optstring_scan_bounds(s, next, v2, backslash);
        }
    }
}

fn skip_signs_exec(valid: &Vec<char>, from: usize) -> (r: usize)
    requires
        from <= valid@.len(),
    ensures
        from <= r <= valid@.len(),
        valid@.skip(r as int) == skip_signs(valid@.skip(from as int)),
{
    let mut k = from;
    while k < valid.len() && (valid[k] == '-' || valid[k] == '.')
        invariant
            from <= k <= valid@.len(),
            skip_signs(valid@.skip(k as int)) == skip_signs(valid@.skip(from as int)),
        decreases valid@.len() - k,
    {
        assert(valid@.skip(k as int).skip(1) =~= valid@.skip(k + 1));
        k = k + 1;
    }
    k
}

/// The check of `valid_step` on the suffix of `valid` that starts at `from`;
/// the new start, or `None` where `ch` ends the value.
fn valid_step_exec(valid: &Vec<char>, from: usize, ch: char) -> (r: Option<usize>)
    requires
        from <= valid@.len(),
    ensures
        r is None <==> valid_step(valid@.skip(from as int), ch) is None,
        r matches Some(k) ==> from <= k <= valid@.len() && valid_step(
            valid@.skip(from as int),
            ch,
        ) == Some(valid@.skip(k as int)),
{
    let n = valid.len();
    let ghost v = valid@.skip(from as int);
    if from == n {
        return Some(from);
    }
    if valid[from] == 's' {
        if ch == ' ' {
            return None;
        }
        return Some(from);
    }
    if ch == '-' {
        if valid[from] != '-' {
            return None;
        }
        assert(v.skip(1) =~= valid@.skip(from + 1));
        return Some(from + 1);
    }
    if ch == '.' {
        let mut k = from;
        if valid[k] == '-' {
            k = k + 1;
            assert(v.skip(1) =~= valid@.skip(k as int));
        }
        if k == n || valid[k] != '.' {
            return None;
        }
        assert(valid@.skip(k as int).skip(1) =~= valid@.skip(k + 1));
        return Some(k + 1);
    }
    if ch == ',' {
        if n - from < 2 || valid[n - 1] != ',' {
            return None;
        }
        return Some(from);
    }
    if '0' <= ch && ch <= '9' {
        let k = skip_signs_exec(valid, from);
        if k == n || valid[k] != 'd' {
            return None;
        }
        return Some(k);
    }
    None
}

/// Read the value of a string option from `s`: up to the end of `s`, to an
/// `END_OPTION_STRING` character (stopping before it), or to the first
/// character not allowed by `validchars`. Returns the value and the rest of `s`,
/// or `None` if `s` is empty.
pub fn optstring<'a>(s: &'a str, validchars: Option<&str>, use_backslash: bool) -> (r: Option<
    (String, &'a str),
>)
    ensures
        s@.len() == 0 <==> r is None,
        r matches Some((val, rest)) ==> {
            let valid = match validchars {
                Some(v) => v@,
                None => Seq::<char>::empty(),
            };
            let (o, e) = optstring_scan(s@, 0, valid, use_backslash);
            &&& val@ == o
            &&& rest@ == s@.subrange(e, s@.len() as int)
        },
{
    let n = s.unicode_len();
    if n == 0 {
        return None;
    }
    let sv = str_to_chars(s);
    let valid: Vec<char> = match validchars {
        Some(v) => str_to_chars(v),
        None => Vec::new(),
    };
    let ghost valid0 = valid@;
    assert(valid@.skip(0) =~= valid0);
    let mut out: Vec<char> = Vec::new();
    let mut vpos: usize = 0;
    let mut k: usize = 0;
    let mut end: usize = n;
    proof {
        lemma_optstring_scan_bounds(s@, 0, valid0, use_backslash);
    }
    while k < n
        invariant_except_break
            end == n,
        invariant
            n == s@.len(),
            sv@ == s@,
            valid@ == valid0,
            0 <= k <= n,
            vpos <= valid@.len(),
            ({
                let (o, e) = optstring_scan(s@, k as int, valid@.skip(vpos as int), use_backslash);
                optstring_scan(s@, 0, valid0, use_backslash) == (out@ + o, e)
            }),
        ensures
            k <= end <= n,
            optstring_scan(s@, 0, valid0, use_backslash) == (out@, end as int),
        decreases n - k,
    {
        let raw = sv[k];
        if use_backslash && raw == '\\' && k + 1 >= n {
            assert(out@ + Seq::<char>::empty() =~= out@);
            break;
        }
        let escaped = use_backslash && raw == '\\';
        let ch = if escaped {
            sv[k + 1]
        } else {
            raw
        };
        let next = if escaped {
            k + 2
        } else {
            k + 1
        };
        match valid_step_exec(&valid, vpos, ch) {
            None => {
                assert(out@ + Seq::<char>::empty() =~= out@);
                end = k;
                break;
            },
            Some(v2) => {
                if ch == END_OPTION_STRING {
                    assert(out@ + Seq::<char>::empty() =~= out@);
                    end = k;
                    break;
                }
                let ghost out0 = out@;
                out.push(ch);
                proof {
                    let (o, e) = optstring_scan(s@, next as int, valid@.skip(v2 as int), use_backslash);
                    assert(out0 + (seq![ch] + o) =~= out@ + o);
                }
                vpos = v2;
                k = next;
            },
        }
    }
    proof {
        if k >= n && end == n {
            assert(out@ + Seq::<char>::empty() =~= out@);
        }
    }
    let val = chars_to_string(out.as_slice());
    Some((val, s.substring_char(end, n)))
}

/// What `getnumc` gives for `s`: the number after any leading white space, and
/// the index in `s` where the rest begins (the whole of `s` where no number is there).
pub open spec fn getnumc_spec(s: Seq<char>) -> (Option<i64>, int) {
    let w = skip_space_end(s, 0);
    let t = s.subrange(w, s.len() as int);
    let (v, e) = str_to_int_spec(t);
    if v is None && e == 0 {
        (None, w)
    } else {
        (v, w + e)
    }
}

/// The rest that `getnumc` leaves is a suffix of its input.
pub proof fn lemma_getnumc_bound(s: Seq<char>)
    ensures
        0 <= getnumc_spec(s).1 <= s.len(),
{
    crate::text::lemma_skip_space_end_bounds(s, 0);
    let w = skip_space_end(s, 0);
    crate::util::lemma_str_to_int_spec_bound(s.subrange(w, s.len() as int));
}

/// Translate a string into a number: skip white space, then read an optionally
/// negative decimal number. Returns the number (`None` if there is none or it does
/// not fit in an `i64`) and the text after it. `printopt` names the option for the
/// caller's error message.
pub fn getnumc<'a>(s: &'a str, printopt: Option<&str>) -> (r: (Option<i64>, &'a str))
    ensures
        r.0 == getnumc_spec(s@).0,
        r.1@ == s@.subrange(getnumc_spec(s@).1, s@.len() as int),
{
    let t = trim_start(s);
    proof {
        crate::text::lemma_skip_space_end_bounds(s@, 0);
    }
    let (v, rest) = str_to_int(t);
    proof {
        crate::util::lemma_str_to_int_spec_bound(t@);
        let w = skip_space_end(s@, 0);
        let e = str_to_int_spec(t@).1;
        assert(t@.subrange(e, t@.len() as int) =~= s@.subrange(w + e, s@.len() as int));
    }
    (v, rest)
}

/// Like `getnumc`, but moves `sp` past the number that was read.
pub fn getnum(sp: &mut &str, printopt: Option<&str>) -> (r: Option<i64>)
    ensures
        r == getnumc_spec(old(sp)@).0,
        final(sp)@ == old(sp)@.subrange(getnumc_spec(old(sp)@).1, old(sp)@.len() as int),
{
    let (v, rest) = getnumc(*sp, printopt);
    *sp = rest;
    v
}

/// The value of the digits `d` read as the part of a number after a decimal
/// point, in millionths: digits past the sixth do not count.
pub open spec fn fraction_value(d: Seq<char>) -> int {
    if d.len() >= 6 {
        char_digits_value(d.subrange(0, 6))
    } else {
        char_digits_value(d) * vstd::arithmetic::power::pow(10, (6 - d.len()) as nat)
    }
}

/// What `getfraction` gives for `s`: after white space, a run of digits read as
/// the part of a number after a decimal point, in millionths (digits past the
/// sixth are skipped), and the index where the rest begins. `None`, and the whole of
/// `s`, where no digit is there.
pub open spec fn getfraction_spec(s: Seq<char>) -> (Option<i64>, int) {
    let w = skip_space_end(s, 0);
    let e = char_digits_end(s, w);
    if e == w {
        (None, 0)
    } else {
        (Some(fraction_value(s.subrange(w, e)) as i64), e)
    }
}

proof fn lemma_digits_value_bound(s: Seq<char>)
    requires
        forall|k: int| 0 <= k < s.len() ==> is_digit_char(#[trigger] s[k]),
    ensures
        0 <= char_digits_value(s),
        char_digits_value(s) < vstd::arithmetic::power::pow(10, s.len()),
    decreases s.len(),
{
    reveal(vstd::arithmetic::power::pow);
    if s.len() > 0 {
        let t = s.drop_last();
        assert forall|k: int| 0 <= k < t.len() implies is_digit_char(#[trigger] t[k]) by {
            assert(t[k] == s[k]);
        }
        lemma_digits_value_bound(t);
        assert(vstd::arithmetic::power::pow(10, s.len()) == 10 * vstd::arithmetic::power::pow(
            10,
            t.len(),
        ));
    }
}

proof fn lemma_char_digits_end(s: Seq<char>, i: int)
    requires
        0 <= i <= s.len(),
    ensures
        i <= char_digits_end(s, i) <= s.len(),
        forall|k: int| i <= k < char_digits_end(s, i) ==> is_digit_char(#[trigger] s[k]),
    decreases s.len() - i,
{
    if i < s.len() && is_digit_char(s[i]) {
        lemma_char_digits_end(s, i + 1);
    }
}

/// The run of digits at `i` of `s` stays within `s`, and is made of digits.
pub proof fn lemma_char_digits_end_pub(s: Seq<char>, i: int)
    requires
        0 <= i <= s.len(),
    ensures
        i <= char_digits_end(s, i) <= s.len(),
        forall|k: int| i <= k < char_digits_end(s, i) ==> is_digit_char(#[trigger] s[k]),
{
    lemma_char_digits_end(s, i);
}

/// Translate a string into a fraction, represented by the part of a number which
/// would follow a decimal point: the value is in parts per million
/// (`NUM_FRAC_DENOM`). Returns `None` and `s` unchanged if no digit follows the
/// leading white space.
pub fn getfraction<'a>(s: &'a str) -> (r: (Option<i64>, &'a str))
    ensures
        r.0 == getfraction_spec(s@).0,
        r.1@ == s@.subrange(getfraction_spec(s@).1, s@.len() as int),
        r.0 matches Some(f) ==> 0 <= f < NUM_FRAC_DENOM,
{
    let n = s.unicode_len();
    let t = trim_start(s);
    proof {
        crate::text::lemma_skip_space_end_bounds(s@, 0);
    }
    let w = n - t.unicode_len();
    assert(w as int == skip_space_end(s@, 0));
    let mut i = w;
    let mut frac: i64 = 0;
    let mut fraclen: usize = 0;
    proof {
        lemma_char_digits_end(s@, w as int);
        reveal(vstd::arithmetic::power::pow);
        assert(s@.subrange(w as int, w as int) =~= Seq::<char>::empty());
    }
    while i < n && '0' <= s.get_char(i) && s.get_char(i) <= '9'
        invariant
            n == s@.len(),
            w <= i <= n,
            w as int == skip_space_end(s@, 0),
            char_digits_end(s@, w as int) == char_digits_end(s@, i as int),
            forall|k: int| w <= k < i ==> is_digit_char(#[trigger] s@[k]),
            fraclen == if i - w < 6 {
                (i - w) as usize
            } else {
                6usize
            },
            frac == char_digits_value(s@.subrange(w as int, (w + fraclen) as int)),
            0 <= frac < vstd::arithmetic::power::pow(10, fraclen as nat),
        decreases n - i,
    {
        let c = s.get_char(i);
        if fraclen < 6 {
            proof {
                reveal_with_fuel(vstd::arithmetic::power::pow, 7);
                assert(s@.subrange(w as int, (w + fraclen + 1) as int).drop_last() =~= s@.subrange(
                    w as int,
                    (w + fraclen) as int,
                ));
                reveal(vstd::arithmetic::power::pow);
                assert(vstd::arithmetic::power::pow(10, (fraclen + 1) as nat) == 10
                    * vstd::arithmetic::power::pow(10, fraclen as nat));
            }
            frac = frac * 10 + (c as u32 - '0' as u32) as i64;
            fraclen = fraclen + 1;
        }
        i = i + 1;
    }
    if i == w {
        assert(s@.subrange(0, s@.len() as int) =~= s@);
        return (None, s);
    }
    let ghost d = s@.subrange(w as int, i as int);
    assert(d.subrange(0, fraclen as int) =~= s@.subrange(w as int, (w + fraclen) as int));
    if fraclen < 6 {
        assert(d =~= s@.subrange(w as int, (w + fraclen) as int));
    }
    let ghost flen0 = fraclen;
    proof {
        reveal(vstd::arithmetic::power::pow);
        assert(vstd::arithmetic::power::pow(10, 0) == 1);
        if flen0 < 6 {
            assert(char_digits_value(d) == frac);
            assert((fraclen - flen0) as nat == 0nat);
            assert(vstd::arithmetic::power::pow(10, (fraclen - flen0) as nat) == 1);
            vstd::arithmetic::mul::lemma_mul_basics(char_digits_value(d));
            assert(char_digits_value(d) * vstd::arithmetic::power::pow(10, (fraclen - flen0) as nat)
                == frac);
        }
    }
    while fraclen < 6
        invariant
            flen0 <= fraclen <= 6,
            flen0 < 6 ==> flen0 == d.len(),
            flen0 < 6 ==> frac == char_digits_value(d) * vstd::arithmetic::power::pow(
                10,
                (fraclen - flen0) as nat,
            ),
            flen0 >= 6 ==> frac == char_digits_value(d.subrange(0, 6)),
            0 <= frac < vstd::arithmetic::power::pow(10, fraclen as nat),
        decreases 6 - fraclen,
    {
        proof {
            reveal_with_fuel(vstd::arithmetic::power::pow, 7);
            assert(vstd::arithmetic::power::pow(10, (fraclen + 1) as nat) == 10
                * vstd::arithmetic::power::pow(10, fraclen as nat));
            assert(vstd::arithmetic::power::pow(10, (fraclen + 1 - flen0) as nat) == 10
                * vstd::arithmetic::power::pow(10, (fraclen - flen0) as nat));
            vstd::arithmetic::mul::lemma_mul_is_associative(
                char_digits_value(d),
                vstd::arithmetic::power::pow(10, (fraclen - flen0) as nat),
                10,
            );
        }
        frac = frac * 10;
        fraclen = fraclen + 1;
    }
    proof {
        reveal_with_fuel(vstd::arithmetic::power::pow, 7);
    }
    (Some(frac), s.substring_char(i, n))
}

/// Something that processing an option asks of the rest of the program.
#[derive(Debug)]
pub enum OptEvent {
    /// Call the handling function of option `index` for `action` with `arg`.
    Handler { index: usize, action: OptAction, arg: Option<String> },
    /// Commands to run at the start of every file that is opened.
    EveryFirstCmd(String),
    /// Commands to run at the start of the first file (put back as input, then an
    /// end-of-command mark).
    Unget(String),
    /// An error message for the user.
    Error(String),
    /// A message that reports the setting of an option.
    Message(String),
    /// The screen must be repainted.
    Repaint,
}

/// `OptEvent` with its texts as sequences of characters.
pub enum OptEventV {
    Handler { index: int, action: OptAction, arg: Option<Seq<char>> },
    EveryFirstCmd(Seq<char>),
    Unget(Seq<char>),
    Error(Seq<char>),
    Message(Seq<char>),
    Repaint,
}

impl View for OptEvent {
    type V = OptEventV;

    open spec fn view(&self) -> OptEventV {
        match self {
            OptEvent::Handler { index, action, arg } => OptEventV::Handler {
                index: *index as int,
                action: *action,
                arg: match arg {
                    Some(a) => Some(a@),
                    None => None,
                },
            },
            OptEvent::EveryFirstCmd(t) => OptEventV::EveryFirstCmd(t@),
            OptEvent::Unget(t) => OptEventV::Unget(t@),
            OptEvent::Error(t) => OptEventV::Error(t@),
            OptEvent::Message(t) => OptEventV::Message(t@),
            OptEvent::Repaint => OptEventV::Repaint,
        }
    }
}

/// The events `evs` as values.
pub open spec fn events_view(evs: Seq<OptEvent>) -> Seq<OptEventV> {
    evs.map_values(|e: OptEvent| e@)
}

/// `desc` with its first `%d` replaced by the decimal form of `v`.
pub open spec fn subst_d(desc: Seq<char>, v: int) -> Seq<char>
    decreases desc.len(),
{
    if desc.len() < 2 {
        desc
    } else if desc[0] == '%' && desc[1] == 'd' {
        int_text(v) + desc.skip(2)
    } else {
        seq![desc[0]] + subst_d(desc.skip(1), v)
    }
}

/// Replace the first `%d` of `desc` with the decimal form of `v`.
pub fn format_number_desc(desc: &str, v: i64) -> (r: String)
    ensures
        r@ == subst_d(desc@, v as int),
{
    let d = str_to_chars(desc);
    let n = d.len();
    let mut out = String::new();
    let mut i: usize = 0;
    assert(d@.skip(0) =~= d@);
    assert(out@ + subst_d(d@, v as int) =~= subst_d(d@, v as int));
    while i < n
        invariant
            n == d@.len(),
            d@ == desc@,
            0 <= i <= n,
            subst_d(desc@, v as int) == out@ + subst_d(d@.skip(i as int), v as int),
        decreases n - i,
    {
        let ghost rest = d@.skip(i as int);
        if i + 1 < n && d[i] == '%' && d[i + 1] == 'd' {
            push_int(&mut out, v);
            let mut k = i + 2;
            let ghost out1 = out@;
            while k < n
                invariant
                    n == d@.len(),
                    i + 2 <= k <= n,
                    out@ == out1 + d@.subrange(i + 2, k as int),
                decreases n - k,
            {
                push_char(&mut out, d[k]);
                k = k + 1;
                assert(out@ =~= out1 + d@.subrange(i + 2, k as int));
            }
            assert(rest.skip(2) =~= d@.subrange(i + 2, n as int));
            return out;
        }
        if i + 1 >= n {
            assert(rest.len() < 2);
            let ghost out0 = out@;
            push_char(&mut out, d[i]);
            assert(rest =~= seq![d@[i as int]]);
            assert(out@ =~= out0 + rest);
            assert(d@.skip(n as int) =~= Seq::<char>::empty());
            i = i + 1;
            assert(subst_d(d@.skip(i as int), v as int) =~= Seq::<char>::empty());
            assert(out@ + Seq::<char>::empty() =~= out@);
        } else {
            let ghost out0 = out@;
            push_char(&mut out, d[i]);
            assert(rest.skip(1) =~= d@.skip(i + 1));
            i = i + 1;
            assert(out0 + (seq![d@[i - 1]] + subst_d(d@.skip(i as int), v as int)) =~= out@
                + subst_d(d@.skip(i as int), v as int));
        }
    }
    assert(d@.skip(n as int) =~= Seq::<char>::empty());
    assert(out@ + Seq::<char>::empty() =~= out@);
    out
}

/// Logical negation of an option value.
pub open spec fn bool_not(v: i32) -> i32 {
    if v == 0 {
        1
    } else {
        0
    }
}

/// How a string or number option is really toggled: the "-" command with no
/// value only reports the setting.
pub open spec fn effective_how(o: LOption, s: Seq<char>, how: ToggleHow) -> ToggleHow {
    let k = o.otype.kind();
    if (k == O_STRING || k == O_NUMBER) && how == ToggleHow::Toggle && s.len() == 0 {
        ToggleHow::NoToggle
    } else {
        how
    }
}

/// The new value of option `o` (`None`: unchanged), or the error that stops the change.
pub open spec fn toggle_change(o: LOption, lower: bool, s: Seq<char>, how: ToggleHow) -> Result<
    Option<i32>,
    Seq<char>,
> {
    let k = o.otype.kind();
    if how == ToggleHow::NoToggle {
        Ok(None)
    } else if k == O_BOOL {
        match o.ovar {
            None => Ok(None),
            Some(v) => Ok(
                Some(
                    match how {
                        ToggleHow::Toggle => bool_not(v),
                        ToggleHow::Unset => o.odefault,
                        _ => bool_not(o.odefault),
                    },
                ),
            ),
        }
    } else if k == O_TRIPLE {
        match o.ovar {
            None => Ok(None),
            Some(v) => Ok(
                Some(
                    match how {
                        ToggleHow::Toggle => flip_triple_spec(v, lower),
                        ToggleHow::Unset => o.odefault,
                        _ => flip_triple_spec(o.odefault, lower),
                    },
                ),
            ),
        }
    } else if k == O_STRING {
        if how == ToggleHow::SetInverse || how == ToggleHow::Unset {
            Err("Cannot use \"-+\" or \"-!\" for a string option"@)
        } else {
            Ok(None)
        }
    } else if k == O_NUMBER {
        match o.ovar {
            None => Ok(None),
            Some(v) => match how {
                ToggleHow::Toggle => match getnumc_spec(s).0 {
                    Some(n) => Ok(Some(n as i32)),
                    None => Err(nostring_msg(opt_desc_spec(o))),
                },
                ToggleHow::Unset => Ok(Some(o.odefault)),
                _ => Err("Can't use \"-!\" for a numeric option"@),
            },
        }
    } else {
        Ok(None)
    }
}

/// The reports that `toggle_option` makes after option `o` (index `i`) is handled.
pub open spec fn toggle_reports(i: int, o: LOption, s: Seq<char>, how: ToggleHow, no_prompt: bool) -> Seq<
    OptEventV,
> {
    let k = o.otype.kind();
    let handler: Seq<OptEventV> = if o.ofunc is Some {
        seq![
            OptEventV::Handler {
                index: i,
                action: if how == ToggleHow::NoToggle {
                    OptAction::Query
                } else {
                    OptAction::Toggle
                },
                arg: Some(s),
            },
        ]
    } else {
        Seq::empty()
    };
    let print: Seq<OptEventV> = if no_prompt {
        Seq::empty()
    } else if k == O_BOOL || k == O_TRIPLE {
        match o.ovar {
            Some(v) => if 0 <= v < 3 {
                seq![OptEventV::Message(o.odesc@[v as int]@)]
            } else {
                Seq::empty()
            },
            None => Seq::empty(),
        }
    } else if k == O_NUMBER {
        match o.ovar {
            Some(v) => seq![OptEventV::Message(subst_d(o.odesc@[1]@, v as int))],
            None => Seq::empty(),
        }
    } else {
        Seq::empty()
    };
    let repaint: Seq<OptEventV> = if how != ToggleHow::NoToggle && o.otype.any(O_REPAINT) {
        seq![OptEventV::Repaint]
    } else {
        Seq::empty()
    };
    handler + print + repaint
}

/// What `toggle_option` does to the table `tbl` and which events it reports.
pub open spec fn toggle_spec(
    tbl: Seq<LOption>,
    idx: Option<usize>,
    lower: bool,
    s: Seq<char>,
    how: ToggleHow,
    no_prompt: bool,
) -> (Seq<LOption>, Seq<OptEventV>) {
    match idx {
        Some(i) if (i as int) < tbl.len() => {
            let o = tbl[i as int];
            if how == ToggleHow::Toggle && o.otype.any(O_NO_TOGGLE) {
                (tbl, seq![OptEventV::Error("Cannot change the "@ + opt_desc_spec(o) + " option"@)])
            } else if how == ToggleHow::NoToggle && o.otype.any(O_NO_QUERY) {
                (tbl, seq![OptEventV::Error("Cannot query the "@ + opt_desc_spec(o) + " option"@)])
            } else {
                let how2 = effective_how(o, s, how);
                match toggle_change(o, lower, s, how2) {
                    Err(msg) => (tbl, seq![OptEventV::Error(msg)]),
                    Ok(newv) => {
                        let o2 = match newv {
                            Some(v) => LOption { ovar: Some(v), ..o },
                            None => o,
                        };
                        (tbl.update(i as int, o2), toggle_reports(i as int, o2, s, how2, no_prompt))
                    },
                }
            }
        },
        _ => (tbl, seq![OptEventV::Error("No such option"@)]),
    }
}

/// A `String` with the text `t`.
fn text_string(t: &str) -> (r: String)
    ensures
        r@ == t@,
{
    let mut s = String::new();
    push_str(&mut s, t);
    s
}

fn single_event(e: OptEvent) -> (r: Vec<OptEvent>)
    ensures
        events_view(r@) == seq![e@],
{
    let mut v: Vec<OptEvent> = Vec::new();
    v.push(e);
    assert(events_view(v@) =~= seq![e@]);
    v
}

fn push_event(v: &mut Vec<OptEvent>, e: OptEvent)
    ensures
        events_view(final(v)@) == events_view(old(v)@).push(e@),
{
    v.push(e);
    assert(events_view(v@) =~= events_view(old(v)@).push(e@));
}

/// Toggle an option from within the program (the "-" and "_" commands).
/// `how` may be: `NoToggle`, just report the current setting; `Toggle`, invert the
/// current setting; `Unset`, set to the default value; `SetInverse`, set to the
/// inverse of the default value. `lower` tells whether the option letter was in
/// lower case (for triple-valued options); `s` is the value given for a string or
/// number option. Returns what the rest of the program must do or report.
pub fn toggle_option(
    opts: &mut Options,
    o: Option<usize>,
    lower: bool,
    s: &str,
    how: ToggleHow,
    no_prompt: bool,
) -> (r: Vec<OptEvent>)
    ensures
        (final(opts).option_table@, events_view(r@)) == toggle_spec(
            old(opts).option_table@,
            o,
            lower,
            s@,
            how,
            no_prompt,
        ),
        final(opts).less_is_more == old(opts).less_is_more,
{
    let mut i: usize = 0;
    let mut known = false;
    if let Some(k) = o {
        if k < opts.option_table.len() {
            i = k;
            known = true;
        }
    }
    if !known {
        return single_event(OptEvent::Error(text_string("No such option")));
    }
    let opt = opts.option_table[i];
    if how == ToggleHow::Toggle && opt.otype.intersects(O_NO_TOGGLE) {
        let mut m = text_string("Cannot change the ");
        let d = opt_desc(&opt);
        push_str(&mut m, d.as_str());
        push_str(&mut m, " option");
        return single_event(OptEvent::Error(m));
    }
    if how == ToggleHow::NoToggle && opt.otype.intersects(O_NO_QUERY) {
        let mut m = text_string("Cannot query the ");
        let d = opt_desc(&opt);
        push_str(&mut m, d.as_str());
        push_str(&mut m, " option");
        return single_event(OptEvent::Error(m));
    }
    let k = opt.otype.otype();
    let how2 = if (k == O_STRING || k == O_NUMBER) && how == ToggleHow::Toggle
        && s.unicode_len() == 0 {
        ToggleHow::NoToggle
    } else {
        how
    };
    let mut newv: Option<i32> = None;
    if how2 != ToggleHow::NoToggle {
        if k == O_BOOL {
            if let Some(v) = opt.ovar {
                newv = Some(
                    match how2 {
                        ToggleHow::Toggle => if v == 0 {
                            1
                        } else {
                            0
                        },
                        ToggleHow::Unset => opt.odefault,
                        _ => if opt.odefault == 0 {
                            1
                        } else {
                            0
                        },
                    },
                );
            }
        } else if k == O_TRIPLE {
            if let Some(v) = opt.ovar {
                newv = Some(
                    match how2 {
                        ToggleHow::Toggle => flip_triple(v, lower),
                        ToggleHow::Unset => opt.odefault,
                        _ => flip_triple(opt.odefault, lower),
                    },
                );
            }
        } else if k == O_STRING {
            if how2 == ToggleHow::SetInverse || how2 == ToggleHow::Unset {
                return single_event(
                    OptEvent::Error(text_string("Cannot use \"-+\" or \"-!\" for a string option")),
                );
            }
        } else if k == O_NUMBER {
            if let Some(_) = opt.ovar {
                match how2 {
                    ToggleHow::Toggle => {
                        let (num, _) = getnumc(s, None);
                        match num {
                            Some(n) => {
                                newv = Some(#[verifier::truncate] (n as i32));
                            },
                            None => {
                                let d = opt_desc(&opt);
                                return single_event(OptEvent::Error(nostring(d.as_str())));
                            },
                        }
                    },
                    ToggleHow::Unset => {
                        newv = Some(opt.odefault);
                    },
                    _ => {
                        return single_event(
                            OptEvent::Error(
                                text_string("Can't use \"-!\" for a numeric option"),
                            ),
                        );
                    },
                }
            }
        }
    }
    let mut o2 = opt;
    if let Some(v) = newv {
        o2.ovar = Some(v);
    }
    opts.option_table.set(i, o2);
    let mut evs: Vec<OptEvent> = Vec::new();
    assert(events_view(evs@) =~= Seq::<OptEventV>::empty());
    if o2.ofunc.is_some() {
        let action = if how2 == ToggleHow::NoToggle {
            OptAction::Query
        } else {
            OptAction::Toggle
        };
        push_event(&mut evs, OptEvent::Handler { index: i, action, arg: Some(text_string(s)) });
    }
    let ghost after_handler = events_view(evs@);
    if !no_prompt {
        if k == O_BOOL || k == O_TRIPLE {
            if let Some(v) = o2.ovar {
                if 0 <= v && v < 3 {
                    push_event(&mut evs, OptEvent::Message(text_string(o2.odesc[v as usize])));
                }
            }
        } else if k == O_NUMBER {
            if let Some(v) = o2.ovar {
                push_event(&mut evs, OptEvent::Message(format_number_desc(o2.odesc[1], v as i64)));
            }
        }
    }
    let ghost after_print = events_view(evs@);
    if how2 != ToggleHow::NoToggle && o2.otype.intersects(O_REPAINT) {
        push_event(&mut evs, OptEvent::Repaint);
    }
    proof {
        let rep = toggle_reports(i as int, o2, s@, how2, no_prompt);
        assert(events_view(evs@) =~= rep);
    }
    evs
}

/// Settings kept from one argument to the next while options are scanned.
#[derive(Debug)]
pub struct ScanContext {
    /// A string or number option whose value comes in the next argument.
    pub pending: Option<usize>,
    /// Has a "+" option been seen?
    pub plus_option: bool,
}

impl ScanContext {
    pub fn new() -> (r: Self)
        ensures
            r.pending is None,
            !r.plus_option,
    {
        ScanContext { pending: None, plus_option: false }
    }
}

/// Index of the first option of `tbl` from `i` on whose first long name is `name`.
pub open spec fn first_named(tbl: Seq<LOption>, name: Seq<char>, i: int) -> Option<int>
    decreases tbl.len() - i,
{
    if i < 0 || i >= tbl.len() {
        None
    } else if tbl[i].onames@[0]@ == name {
        Some(i)
    } else {
        first_named(tbl, name, i + 1)
    }
}

/// Is backslash escaping of option values on (the `--use-backslash` option)?
pub open spec fn backslash_on(tbl: Seq<LOption>) -> bool {
    match first_named(tbl, "use-backslash"@, 0) {
        Some(i) => tbl[i].ovar matches Some(v) && v != 0,
        None => false,
    }
}

fn use_backslash(tbl: &Vec<LOption>) -> (r: bool)
    ensures
        r == backslash_on(tbl@),
{
    let mut i: usize = 0;
    while i < tbl.len()
        invariant
            0 <= i <= tbl@.len(),
            first_named(tbl@, "use-backslash"@, 0) == first_named(tbl@, "use-backslash"@, i as int),
        decreases tbl@.len() - i,
    {
        if crate::text::str_eq(tbl[i].onames[0], "use-backslash") {
            return match tbl[i].ovar {
                Some(v) => v != 0,
                None => false,
            };
        }
        i = i + 1;
    }
    false
}

/// The state of a scan of option arguments.
pub struct ScanSt {
    pub tbl: Seq<LOption>,
    pub pending: Option<usize>,
    pub plus: bool,
    pub evs: Seq<OptEventV>,
}

/// `st` with the event `e` reported.
pub open spec fn report(st: ScanSt, e: OptEventV) -> ScanSt {
    ScanSt { evs: st.evs.push(e), ..st }
}

/// Table `tbl` with the value of option `i` set to `v`.
pub open spec fn set_value(tbl: Seq<LOption>, i: int, v: i32) -> Seq<LOption> {
    tbl.update(i, LOption { ovar: Some(v), ..tbl[i] })
}

/// After option `i` was set up from the command line: its handler, if it has one
/// and is supported, is called for initialization with `arg`.
pub open spec fn init_handler(st: ScanSt, i: int, arg: Option<Seq<char>>) -> ScanSt {
    let o = st.tbl[i];
    if o.ofunc is Some && !o.otype.any(O_UNSUPPORTED) {
        report(st, OptEventV::Handler { index: i, action: OptAction::Init, arg })
    } else {
        st
    }
}

/// The valid characters of a string option's value.
pub open spec fn validchars_of(o: LOption) -> Seq<char> {
    o.odesc@[1]@
}

/// Set up option `i`, whose value (if it takes one) starts at `r` of `s`.
/// `lc`: the option was named in lower case; `sd`: set it to its default.
/// Returns the new state and where the scan goes on (`None`: it stops here).
pub open spec fn apply_spec(
    st: ScanSt,
    i: int,
    s: Seq<char>,
    r: int,
    lc: bool,
    sd: bool,
    is_env: bool,
    printopt: Seq<char>,
) -> (ScanSt, Option<int>) {
    let o = st.tbl[i];
    let k = o.otype.kind();
    let unsup = o.otype.any(O_UNSUPPORTED);
    let t = s.subrange(r, s.len() as int);
    if (k == O_STRING || k == O_NUMBER) && t.len() == 0 {
        (ScanSt { pending: Some(i as usize), ..st }, None)
    } else if k == O_BOOL {
        let tbl2 = if !unsup && o.ovar is Some {
            set_value(
                st.tbl,
                i,
                if sd {
                    o.odefault
                } else {
                    bool_not(o.odefault)
                },
            )
        } else {
            st.tbl
        };
        (init_handler(ScanSt { tbl: tbl2, ..st }, i, None), Some(r))
    } else if k == O_TRIPLE {
        let tbl2 = if !unsup && o.ovar is Some {
            set_value(
                st.tbl,
                i,
                if sd {
                    o.odefault
                } else if is_env && o.oletter == 'r' {
                    OPT_ONPLUS
                } else {
                    flip_triple_spec(o.odefault, lc)
                },
            )
        } else {
            st.tbl
        };
        (init_handler(ScanSt { tbl: tbl2, ..st }, i, None), Some(r))
    } else if k == O_STRING {
        let (val, e) = optstring_scan(t, 0, validchars_of(o), backslash_on(st.tbl));
        (init_handler(st, i, Some(val)), Some(r + e))
    } else if k == O_NUMBER {
        let (v, e) = getnumc_spec(t);
        match v {
            None => (report(st, OptEventV::Error(number_msg(printopt))), None),
            Some(n) => {
                let tbl2 = if !unsup && o.ovar is Some {
                    set_value(st.tbl, i, n as i32)
                } else {
                    st.tbl
                };
                (init_handler(ScanSt { tbl: tbl2, ..st }, i, None), Some(r + e))
            },
        }
    } else {
        (st, Some(r))
    }
}

/// Message about a missing or bad number after the option `printopt`.
pub open spec fn number_msg(printopt: Seq<char>) -> Seq<char> {
    "Number is required after "@ + printopt
}

/// Index, match length and ambiguity of the long option name `name` in `tbl`.
pub open spec fn long_lookup(tbl: Seq<LOption>, name: Seq<char>) -> (Option<int>, int, bool) {
    let f = crate::opttbl::scan_table(tbl, name, 0, crate::opttbl::name_scan_start());
    if f.ambig {
        (None, 0, true)
    } else {
        (f.maxo, f.maxlen, false)
    }
}

/// Message for a name that does not name an option.
pub open spec fn no_option_msg(printopt: Seq<char>) -> Seq<char> {
    "There is no "@ + printopt + " option"@
}

/// A long option name starts at `q` of `s`: look it up, and set the option up.
pub open spec fn long_step(st: ScanSt, s: Seq<char>, q: int, sd: bool, is_env: bool) -> (ScanSt, Option<int>) {
    let name = s.subrange(q, s.len() as int);
    let (idx, len, ambig) = long_lookup(st.tbl, name);
    let dname = seq!['-', '-'] + name;
    if ambig {
        (report(st, OptEventV::Error(name + " is an ambiguous abbreviation"@)), None)
    } else {
        match idx {
            None => (report(st, OptEventV::Error(no_option_msg(dname))), None),
            Some(i) => {
                let after = q + len;
                let printopt = seq!['-', '-'] + s.subrange(q, after);
                let lc = is_ascii_lower(crate::opttbl::char_or_nul(name, 0));
                if after > s.len() {
                    (report(st, OptEventV::Error(no_option_msg(dname))), None)
                } else if after == s.len() || s[after] == ' ' {
                    apply_spec(st, i, s, after, lc, sd, is_env, printopt)
                } else if s[after] == '=' {
                    let k = st.tbl[i].otype.kind();
                    if k != O_STRING && k != O_NUMBER {
                        (
                            report(
                                st,
                                OptEventV::Error(
                                    "The "@ + printopt + " option should not be followed by ="@,
                                ),
                            ),
                            None,
                        )
                    } else {
                        apply_spec(st, i, s, after + 1, lc, sd, is_env, printopt)
                    }
                } else {
                    (report(st, OptEventV::Error(no_option_msg(dname))), None)
                }
            },
        }
    }
}

/// One step of the scan of `s` at `k`: where it goes on (`None`: it stops), and
/// whether options are to be set to their defaults from there.
pub open spec fn scan_step(st: ScanSt, s: Seq<char>, k: int, sd: bool, is_env: bool, lim: bool) -> (
    ScanSt,
    Option<(int, bool)>,
) {
    let c = s[k];
    if c == ' ' || c == '\t' || c == END_OPTION_STRING {
        (st, Some((k + 1, sd)))
    } else if c == '-' {
        if k + 1 < s.len() && s[k + 1] == '-' {
            let p = k + 2;
            let sd2 = p < s.len() && s[p] == '+';
            let q = if sd2 {
                p + 1
            } else {
                p
            };
            let (st2, nk) = long_step(st, s, q, sd2, is_env);
            match nk {
                Some(n) => (st2, Some((n, sd2))),
                None => (st2, None),
            }
        } else {
            let sd2 = k + 1 < s.len() && s[k + 1] == '+';
            (
                st,
                Some(
                    (
                        if sd2 {
                            k + 2
                        } else {
                            k + 1
                        },
                        sd2,
                    ),
                ),
            )
        }
    } else if c == '+' {
        let st1 = ScanSt { plus: true, ..st };
        let t = s.subrange(k + 1, s.len() as int);
        if t.len() == 0 {
            (report(st1, OptEventV::Error(nostring_msg(seq!['-', '+']))), None)
        } else {
            let (cmd, e) = optstring_scan(t, 0, Seq::empty(), backslash_on(st.tbl));
            let ev = if cmd.len() > 0 && cmd[0] == '+' {
                OptEventV::EveryFirstCmd(cmd.skip(1))
            } else {
                OptEventV::Unget(cmd)
            };
            (report(st1, ev), Some((k + 1 + e, sd)))
        }
    } else {
        let optc = if is_digit_char(c) || (c == 'n' && lim) {
            'z'
        } else {
            c
        };
        let r = if is_digit_char(c) {
            k
        } else {
            k + 1
        };
        match crate::opttbl::first_with_letter(st.tbl, optc, 0) {
            None => (report(st, OptEventV::Error(no_option_msg(seq!['-', optc]))), None),
            Some(i) => {
                let (st2, nk) = apply_spec(st, i, s, r, is_ascii_lower(optc), sd, is_env, seq!['-', optc]);
                match nk {
                    Some(n) => (st2, Some((n, sd))),
                    None => (st2, None),
                }
            },
        }
    }
}

/// The scan of the option text `s` from `k` on.
pub open spec fn scan_from(st: ScanSt, s: Seq<char>, k: int, sd: bool, is_env: bool, lim: bool) -> ScanSt
    decreases s.len() - k,
{
    if k < 0 || k >= s.len() {
        st
    } else {
        let (st2, next) = scan_step(st, s, k, sd, is_env, lim);
        match next {
            Some((nk, sd2)) => if k < nk && nk <= s.len() {
                scan_from(st2, s, nk, sd2, is_env, lim)
            } else {
                st2
            },
            None => st2,
        }
    }
}

/// Where two scans go on, `d` apart (both stop, or both go on).
pub open spec fn next_shifted(a: Option<int>, b: Option<int>, d: int) -> bool {
    match (a, b) {
        (None, None) => true,
        (Some(x), Some(y)) => x == y + d,
        _ => false,
    }
}

/// Setting an option up depends on the text only from where its value starts.
pub proof fn lemma_apply_shift(
    st: ScanSt,
    i: int,
    s1: Seq<char>,
    r1: int,
    s2: Seq<char>,
    r2: int,
    lc: bool,
    sd: bool,
    is_env: bool,
    printopt: Seq<char>,
)
    requires
        0 <= r1 <= s1.len(),
        0 <= r2 <= s2.len(),
        s1.skip(r1) == s2.skip(r2),
    ensures
        apply_spec(st, i, s1, r1, lc, sd, is_env, printopt).0 == apply_spec(st, i, s2, r2, lc, sd, is_env, printopt).0,
        next_shifted(
            apply_spec(st, i, s1, r1, lc, sd, is_env, printopt).1,
            apply_spec(st, i, s2, r2, lc, sd, is_env, printopt).1,
            r1 - r2,
        ),
{
    assert(s1.subrange(r1, s1.len() as int) =~= s2.subrange(r2, s2.len() as int)) by {
        assert(s1.subrange(r1, s1.len() as int) =~= s1.skip(r1));
        assert(s2.subrange(r2, s2.len() as int) =~= s2.skip(r2));
    }
}

/// Texts that agree from `q1` and `q2` on agree from `m` further on, and
/// character by character.
pub proof fn lemma_skip_more(s1: Seq<char>, q1: int, s2: Seq<char>, q2: int, m: int)
    requires
        0 <= q1 <= s1.len(),
        0 <= q2 <= s2.len(),
        s1.skip(q1) == s2.skip(q2),
        0 <= m <= s1.len() - q1,
    ensures
        s1.len() - q1 == s2.len() - q2,
        s1.skip(q1 + m) == s2.skip(q2 + m),
        forall|j: int| q1 <= j < s1.len() ==> #[trigger] s1[j] == s2[j - q1 + q2],
{
    assert(s1.skip(q1).len() == s1.len() - q1);
    assert(s2.skip(q2).len() == s2.len() - q2);
    assert(s1.skip(q1).len() == s2.skip(q2).len());
    assert forall|j: int| q1 <= j < s1.len() implies #[trigger] s1[j] == s2[j - q1 + q2] by {
        assert(s1.skip(q1)[j - q1] == s1[j]);
        assert(s2.skip(q2)[j - q1] == s2[j - q1 + q2]);
    }
    assert(s1.skip(q1 + m) =~= s2.skip(q2 + m)) by {
        assert forall|j: int| 0 <= j < s1.len() - q1 - m implies #[trigger] s1.skip(q1 + m)[j] == s2.skip(q2 + m)[j] by {
            assert(s1.skip(q1 + m)[j] == s1[q1 + m + j]);
            assert(s2.skip(q2 + m)[j] == s2[q2 + m + j]);
            assert(s1[q1 + m + j] == s2[q1 + m + j - q1 + q2]);
        }
    }
}

/// A long option name is looked up and set up from the text after `q` alone.
pub proof fn lemma_long_shift(st: ScanSt, s1: Seq<char>, q1: int, s2: Seq<char>, q2: int, sd: bool, is_env: bool)
    requires
        0 <= q1 <= s1.len(),
        0 <= q2 <= s2.len(),
        s1.skip(q1) == s2.skip(q2),
    ensures
        long_step(st, s1, q1, sd, is_env).0 == long_step(st, s2, q2, sd, is_env).0,
        next_shifted(long_step(st, s1, q1, sd, is_env).1, long_step(st, s2, q2, sd, is_env).1, q1 - q2),
{
    lemma_skip_more(s1, q1, s2, q2, 0);
    let name1 = s1.subrange(q1, s1.len() as int);
    let name2 = s2.subrange(q2, s2.len() as int);
    assert(name1 =~= name2);
    let (idx, len, ambig) = long_lookup(st.tbl, name1);
    crate::opttbl::lemma_scan_table_maxlen(st.tbl, name1, 0, crate::opttbl::name_scan_start());
    if !ambig && idx is Some {
        let i = idx.unwrap();
        let a1 = q1 + len;
        let a2 = q2 + len;
        if a1 <= s1.len() {
            lemma_skip_more(s1, q1, s2, q2, len);
            assert(s1.subrange(q1, a1) =~= s2.subrange(q2, a2));
            if a1 < s1.len() {
                assert(s1[a1] == s2[a2]);
            }
            let printopt = seq!['-', '-'] + s1.subrange(q1, a1);
            let lc = is_ascii_lower(crate::opttbl::char_or_nul(name1, 0));
            if a1 == s1.len() || s1[a1] == ' ' {
                lemma_apply_shift(st, i, s1, a1, s2, a2, lc, sd, is_env, printopt);
            } else if s1[a1] == '=' {
                lemma_skip_more(s1, q1, s2, q2, len + 1);
                lemma_apply_shift(st, i, s1, a1 + 1, s2, a2 + 1, lc, sd, is_env, printopt);
            }
        }
    }
}

/// Where two scan steps go on: both stop, or both go on `d` apart with the same
/// setting for defaults.
pub open spec fn step_shifted(a: Option<(int, bool)>, b: Option<(int, bool)>, d: int) -> bool {
    match (a, b) {
        (None, None) => true,
        (Some(x), Some(y)) => x.0 == y.0 + d && x.1 == y.1,
        _ => false,
    }
}

/// A step of the scan depends on the text only from where it is.
#[verifier::spinoff_prover]
#[verifier::rlimit(60)]
pub proof fn lemma_step_shift(
    st: ScanSt,
    s1: Seq<char>,
    k1: int,
    s2: Seq<char>,
    k2: int,
    sd: bool,
    is_env: bool,
    lim: bool,
)
    requires
        0 <= k1 < s1.len(),
        0 <= k2 <= s2.len(),
        s1.skip(k1) == s2.skip(k2),
    ensures
        scan_step(st, s1, k1, sd, is_env, lim).0 == scan_step(st, s2, k2, sd, is_env, lim).0,
        step_shifted(scan_step(st, s1, k1, sd, is_env, lim).1, scan_step(st, s2, k2, sd, is_env, lim).1, k1 - k2),
{
    lemma_skip_more(s1, k1, s2, k2, 0);
    let c = s1[k1];
    assert(c == s2[k2]);
    if c == ' ' || c == '\t' || c == END_OPTION_STRING {
    } else if c == '-' {
        if k1 + 1 < s1.len() {
            assert(s1[k1 + 1] == s2[k2 + 1]);
        }
        if k1 + 1 < s1.len() && s1[k1 + 1] == '-' {
            let p1 = k1 + 2;
            if p1 < s1.len() {
                assert(s1[p1] == s2[k2 + 2]);
            }
            let sd2 = p1 < s1.len() && s1[p1] == '+';
            let m = if sd2 { 3int } else { 2int };
            lemma_skip_more(s1, k1, s2, k2, m);
            lemma_long_shift(st, s1, k1 + m, s2, k2 + m, sd2, is_env);
        }
    } else if c == '+' {
        lemma_skip_more(s1, k1, s2, k2, 1);
        assert(s1.subrange(k1 + 1, s1.len() as int) =~= s1.skip(k1 + 1));
        assert(s2.subrange(k2 + 1, s2.len() as int) =~= s2.skip(k2 + 1));
    } else {
        let optc = if is_digit_char(c) || (c == 'n' && lim) { 'z' } else { c };
        let m = if is_digit_char(c) { 0int } else { 1int };
        lemma_skip_more(s1, k1, s2, k2, m);
        match crate::opttbl::first_with_letter(st.tbl, optc, 0) {
            None => {},
            Some(i) => {
                lemma_apply_shift(st, i, s1, k1 + m, s2, k2 + m, is_ascii_lower(optc), sd, is_env, seq!['-', optc]);
            },
        }
    }
}

/// The scan depends on the text only from where it is.
pub proof fn lemma_scan_shift(
    st: ScanSt,
    s1: Seq<char>,
    k1: int,
    s2: Seq<char>,
    k2: int,
    sd: bool,
    is_env: bool,
    lim: bool,
)
    requires
        0 <= k1 <= s1.len(),
        0 <= k2 <= s2.len(),
        s1.skip(k1) == s2.skip(k2),
    ensures
        scan_from(st, s1, k1, sd, is_env, lim) == scan_from(st, s2, k2, sd, is_env, lim),
    decreases s1.len() - k1,
{
    lemma_skip_more(s1, k1, s2, k2, 0);
    if k1 < s1.len() {
        lemma_step_shift(st, s1, k1, s2, k2, sd, is_env, lim);
        let (st2, next) = scan_step(st, s1, k1, sd, is_env, lim);
        match next {
            Some((n1, sd2)) => {
                if k1 < n1 && n1 <= s1.len() {
                    let n2 = n1 - k1 + k2;
                    lemma_skip_more(s1, k1, s2, k2, n1 - k1);
                    lemma_scan_shift(st2, s1, n1, s2, n2, sd2, is_env, lim);
                }
            },
            None => {},
        }
    }
}

/// The value for a pending string or number option `i` arrives as `s`.
pub open spec fn pending_spec(st: ScanSt, i: int, s: Seq<char>) -> ScanSt {
    let st0 = ScanSt { pending: None, ..st };
    if i < 0 || i >= st.tbl.len() || st.tbl[i].otype.any(O_UNSUPPORTED) {
        st0
    } else {
        let o = st.tbl[i];
        let k = o.otype.kind();
        if k == O_STRING {
            if o.ofunc is Some {
                report(st0, OptEventV::Handler { index: i, action: OptAction::Init, arg: Some(s) })
            } else {
                st0
            }
        } else if k == O_NUMBER {
            match getnumc_spec(s).0 {
                Some(n) => if o.ovar is Some {
                    ScanSt { tbl: set_value(st.tbl, i, n as i32), ..st0 }
                } else {
                    st0
                },
                None => report(st0, OptEventV::Error(number_msg(opt_desc_spec(o)))),
            }
        } else {
            st0
        }
    }
}

/// What `scan_option` does: from the table and context before, and the argument `s`.
pub open spec fn scan_option_spec(
    tbl: Seq<LOption>,
    pending: Option<usize>,
    plus: bool,
    s: Seq<char>,
    is_env: bool,
    lim: bool,
) -> ScanSt {
    let st = ScanSt { tbl, pending, plus, evs: Seq::empty() };
    if s.len() == 0 {
        st
    } else {
        match pending {
            Some(i) => pending_spec(st, i as int, s),
            None => scan_from(st, s, 0, false, is_env, lim),
        }
    }
}

/// The scan state held by the given values.
pub open spec fn cur_st(tbl: Seq<LOption>, ctx: ScanContext, evs: Seq<OptEvent>) -> ScanSt {
    ScanSt { tbl, pending: ctx.pending, plus: ctx.plus_option, evs: events_view(evs) }
}

fn init_handler_exec(tbl: &Vec<LOption>, evs: &mut Vec<OptEvent>, i: usize, arg: Option<String>)
    requires
        i < tbl@.len(),
    ensures
        events_view(final(evs)@) == init_handler(
            ScanSt { tbl: tbl@, pending: None, plus: false, evs: events_view(old(evs)@) },
            i as int,
            match arg {
                Some(a) => Some(a@),
                None => None,
            },
        ).evs,
{
    let o = &tbl[i];
    if o.ofunc.is_some() && !o.otype.intersects(O_UNSUPPORTED) {
        push_event(evs, OptEvent::Handler { index: i, action: OptAction::Init, arg });
    }
}

fn set_option_value(opts: &mut Options, i: usize, v: i32)
    requires
        i < old(opts).option_table@.len(),
    ensures
        final(opts).option_table@ == set_value(old(opts).option_table@, i as int, v),
        final(opts).less_is_more == old(opts).less_is_more,
{
    let mut o = opts.option_table[i];
    o.ovar = Some(v);
    opts.option_table.set(i, o);
}

/// Set up option `i` as `apply_spec` says; returns where the scan goes on.
fn apply_option(
    opts: &mut Options,
    ctx: &mut ScanContext,
    evs: &mut Vec<OptEvent>,
    i: usize,
    s: &str,
    n: usize,
    r: usize,
    lc: bool,
    sd: bool,
    is_env: bool,
    printopt: &String,
) -> (next: Option<usize>)
    requires
        i < old(opts).option_table@.len(),
        n == s@.len(),
        r <= n,
    ensures
        (cur_st(final(opts).option_table@, *final(ctx), final(evs)@), match next {
            Some(k) => Some(k as int),
            None => None,
        }) == apply_spec(
            cur_st(old(opts).option_table@, *old(ctx), old(evs)@),
            i as int,
            s@,
            r as int,
            lc,
            sd,
            is_env,
            printopt@,
        ),
        final(opts).less_is_more == old(opts).less_is_more,
        next matches Some(k) ==> r <= k <= n,
{
    let o = opts.option_table[i];
    let k = o.otype.otype();
    let unsup = o.otype.intersects(O_UNSUPPORTED);
    let t = s.substring_char(r, n);
    let tn = n - r;
    if (k == O_STRING || k == O_NUMBER) && tn == 0 {
        ctx.pending = Some(i);
        return None;
    }
    if k == O_BOOL {
        if !unsup && o.ovar.is_some() {
            let v = if sd {
                o.odefault
            } else if o.odefault == 0 {
                1
            } else {
                0
            };
            set_option_value(opts, i, v);
        }
        init_handler_exec(&opts.option_table, evs, i, None);
        return Some(r);
    }
    if k == O_TRIPLE {
        if !unsup && o.ovar.is_some() {
            let v = if sd {
                o.odefault
            } else if is_env && o.oletter == 'r' {
                OPT_ONPLUS
            } else {
                flip_triple(o.odefault, lc)
            };
            set_option_value(opts, i, v);
        }
        init_handler_exec(&opts.option_table, evs, i, None);
        return Some(r);
    }
    if k == O_STRING {
        let ub = use_backslash(&opts.option_table);
        match optstring(t, Some(o.odesc[1]), ub) {
            Some((val, rest)) => {
                proof {
                    lemma_optstring_scan_bounds(t@, 0, validchars_of(o), ub);
                }
                let e = tn - rest.unicode_len();
                init_handler_exec(&opts.option_table, evs, i, Some(val));
                return Some(r + e);
            },
            None => {
                return None;
            },
        }
    }
    if k == O_NUMBER {
        let (v, rest) = getnumc(t, None);
        proof {
            lemma_getnumc_bound(t@);
            assert(t@.len() == tn);
            assert(rest@.len() <= tn);
        }
        match v {
            None => {
                let mut m = text_string("Number is required after ");
                push_str(&mut m, printopt.as_str());
                push_event(evs, OptEvent::Error(m));
                return None;
            },
            Some(num) => {
                let e = tn - rest.unicode_len();
                if !unsup && o.ovar.is_some() {
                    set_option_value(opts, i, #[verifier::truncate] (num as i32));
                }
                init_handler_exec(&opts.option_table, evs, i, None);
                return Some(r + e);
            },
        }
    }
    Some(r)
}

fn dashes_then(t: &str) -> (r: String)
    ensures
        r@ == seq!['-', '-'] + t@,
{
    let mut m = String::new();
    push_char(&mut m, '-');
    push_char(&mut m, '-');
    push_str(&mut m, t);
    assert(m@ =~= seq!['-', '-'] + t@);
    m
}

fn no_option_error(evs: &mut Vec<OptEvent>, printopt: &str)
    ensures
        events_view(final(evs)@) == events_view(old(evs)@).push(
            OptEventV::Error(no_option_msg(printopt@)),
        ),
{
    let mut m = text_string("There is no ");
    push_str(&mut m, printopt);
    push_str(&mut m, " option");
    push_event(evs, OptEvent::Error(m));
}

/// Look up the long option name that starts at `q` of `s` and set the option up,
/// as `long_step` says.
fn long_step_exec(
    opts: &mut Options,
    ctx: &mut ScanContext,
    evs: &mut Vec<OptEvent>,
    s: &str,
    sv: &Vec<char>,
    n: usize,
    q: usize,
    sd: bool,
    is_env: bool,
) -> (next: Option<usize>)
    requires
        n == s@.len(),
        sv@ == s@,
        q <= n,
    ensures
        (cur_st(final(opts).option_table@, *final(ctx), final(evs)@), match next {
            Some(k) => Some(k as int),
            None => None,
        }) == long_step(cur_st(old(opts).option_table@, *old(ctx), old(evs)@), s@, q as int, sd, is_env),
        final(opts).less_is_more == old(opts).less_is_more,
        next matches Some(k) ==> q <= k <= n,
{
    let name = s.substring_char(q, n);
    let f = crate::opttbl::findopt_name_in(&opts.option_table, name);
    if f.ambig {
        let mut m = text_string(name);
        push_str(&mut m, " is an ambiguous abbreviation");
        push_event(evs, OptEvent::Error(m));
        return None;
    }
    let dname = dashes_then(name);
    match f.index {
        None => {
            no_option_error(evs, dname.as_str());
            None
        },
        Some(i) => {
            if f.len > n - q {
                no_option_error(evs, dname.as_str());
                return None;
            }
            let after = q + f.len;
            let matched = s.substring_char(q, after);
            let printopt = dashes_then(matched);
            let lc = q < n && 'a' <= sv[q] && sv[q] <= 'z';
            proof {
                assert(crate::opttbl::char_or_nul(name@, 0) == if q < n {
                    s@[q as int]
                } else {
                    '\0'
                });
            }
            if after == n || sv[after] == ' ' {
                apply_option(opts, ctx, evs, i, s, n, after, lc, sd, is_env, &printopt)
            } else if sv[after] == '=' {
                let k = opts.option_table[i].otype.otype();
                if k != O_STRING && k != O_NUMBER {
                    let mut m = text_string("The ");
                    push_str(&mut m, printopt.as_str());
                    push_str(&mut m, " option should not be followed by =");
                    push_event(evs, OptEvent::Error(m));
                    None
                } else {
                    apply_option(opts, ctx, evs, i, s, n, after + 1, lc, sd, is_env, &printopt)
                }
            } else {
                no_option_error(evs, dname.as_str());
                None
            }
        },
    }
}

/// The scan of `s` at `k` as `scan_step` says; returns where it goes on.
fn scan_step_exec(
    opts: &mut Options,
    ctx: &mut ScanContext,
    evs: &mut Vec<OptEvent>,
    s: &str,
    sv: &Vec<char>,
    n: usize,
    k: usize,
    sd: bool,
    is_env: bool,
    lim: bool,
) -> (next: Option<(usize, bool)>)
    requires
        n == s@.len(),
        sv@ == s@,
        k < n,
    ensures
        (cur_st(final(opts).option_table@, *final(ctx), final(evs)@), match next {
            Some((nk, sd2)) => Some((nk as int, sd2)),
            None => None,
        }) == scan_step(cur_st(old(opts).option_table@, *old(ctx), old(evs)@), s@, k as int, sd, is_env, lim),
        final(opts).less_is_more == old(opts).less_is_more,
        next matches Some((nk, _)) ==> nk <= n,
{
    let c = sv[k];
    if c == ' ' || c == '\t' || c == END_OPTION_STRING {
        return Some((k + 1, sd));
    }
    if c == '-' {
        if k + 1 < n && sv[k + 1] == '-' {
            let p = k + 2;
            let sd2 = p < n && sv[p] == '+';
            let q = if sd2 {
                p + 1
            } else {
                p
            };
            return match long_step_exec(opts, ctx, evs, s, sv, n, q, sd2, is_env) {
                Some(nk) => Some((nk, sd2)),
                None => None,
            };
        } else {
            let sd2 = k + 1 < n && sv[k + 1] == '+';
            return Some(
                (
                    if sd2 {
                        k + 2
                    } else {
                        k + 1
                    },
                    sd2,
                ),
            );
        }
    }
    if c == '+' {
        ctx.plus_option = true;
        let t = s.substring_char(k + 1, n);
        let tn = n - (k + 1);
        if tn == 0 {
            let mut pr = String::new();
            push_char(&mut pr, '-');
            push_char(&mut pr, '+');
            assert(pr@ =~= seq!['-', '+']);
            push_event(evs, OptEvent::Error(nostring(pr.as_str())));
            return None;
        }
        let ub = use_backslash(&opts.option_table);
        match optstring(t, None, ub) {
            Some((cmd, rest)) => {
                proof {
                    lemma_optstring_scan_bounds(t@, 0, Seq::empty(), ub);
                }
                let e = tn - rest.unicode_len();
                let cn = cmd.as_str().unicode_len();
                if cn > 0 && cmd.as_str().get_char(0) == '+' {
                    let tail = text_string(cmd.as_str().substring_char(1, cn));
                    proof {
                        assert(tail@ =~= cmd@.skip(1));
                    }
                    push_event(evs, OptEvent::EveryFirstCmd(tail));
                } else {
                    push_event(evs, OptEvent::Unget(cmd));
                }
                return Some((k + 1 + e, sd));
            },
            None => {
                return None;
            },
        }
    }
    let is_digit = '0' <= c && c <= '9';
    let optc = if is_digit || (c == 'n' && lim) {
        'z'
    } else {
        c
    };
    let r = if is_digit {
        k
    } else {
        k + 1
    };
    match crate::opttbl::findopt_in(&opts.option_table, optc) {
        None => {
            let pr = propt(optc);
            no_option_error(evs, pr.as_str());
            None
        },
        Some(i) => {
            proof {
                crate::opttbl::lemma_first_with_letter_in_range(opts.option_table@, optc, 0);
            }
            let pr = propt(optc);
            let lc = 'a' <= optc && optc <= 'z';
            match apply_option(opts, ctx, evs, i, s, n, r, lc, sd, is_env, &pr) {
                Some(nk) => Some((nk, sd)),
                None => None,
            }
        },
    }
}

/// The value that arrives for the pending option `i`.
fn pending_exec(opts: &mut Options, ctx: &mut ScanContext, evs: &mut Vec<OptEvent>, i: usize, s: &str)
    requires
        old(ctx).pending == Some(i),
    ensures
        cur_st(final(opts).option_table@, *final(ctx), final(evs)@) == pending_spec(
            cur_st(old(opts).option_table@, *old(ctx), old(evs)@),
            i as int,
            s@,
        ),
        final(opts).less_is_more == old(opts).less_is_more,
{
    ctx.pending = None;
    if i >= opts.option_table.len() || opts.option_table[i].otype.intersects(O_UNSUPPORTED) {
        return;
    }
    let o = opts.option_table[i];
    let k = o.otype.otype();
    if k == O_STRING {
        if o.ofunc.is_some() {
            push_event(
                evs,
                OptEvent::Handler { index: i, action: OptAction::Init, arg: Some(text_string(s)) },
            );
        }
    } else if k == O_NUMBER {
        let (v, _) = getnumc(s, None);
        match v {
            Some(num) => {
                if o.ovar.is_some() {
                    set_option_value(opts, i, #[verifier::truncate] (num as i32));
                }
            },
            None => {
                let d = opt_desc(&o);
                let mut m = text_string("Number is required after ");
                push_str(&mut m, d.as_str());
                push_event(evs, OptEvent::Error(m));
            },
        }
    }
}

/// Scan an argument (either from the command line or from the LESS environment
/// variable) and process it. Letters name options, `--name` long options, `-+`
/// sets options back to their defaults, and `+cmd` gives commands to run at the
/// start of the first file (`++cmd`: of every file). A string or number option
/// with nothing after it takes its value from the next argument. The option
/// values change in the table; what else is to be done is returned.
pub fn scan_option(ctx: &mut ScanContext, opts: &mut Options, s: &str, is_env: bool) -> (r: Vec<
    OptEvent,
>)
    ensures
        cur_st(final(opts).option_table@, *final(ctx), r@) == scan_option_spec(
            old(opts).option_table@,
            old(ctx).pending,
            old(ctx).plus_option,
            s@,
            is_env,
            old(opts).less_is_more != 0,
        ),
        final(opts).less_is_more == old(opts).less_is_more,
{
    let mut evs: Vec<OptEvent> = Vec::new();
    assert(events_view(evs@) =~= Seq::<OptEventV>::empty());
    let n = s.unicode_len();
    if n == 0 {
        return evs;
    }
    if let Some(i) = ctx.pending {
        pending_exec(opts, ctx, &mut evs, i, s);
        return evs;
    }
    let lim = opts.less_is_more != 0;
    let sv = str_to_chars(s);
    let ghost st0 = cur_st(opts.option_table@, *ctx, evs@);
    let mut k: usize = 0;
    let mut sd = false;
    while k < n
        invariant
            n == s@.len(),
            sv@ == s@,
            k <= n,
            lim == (opts.less_is_more != 0),
            opts.less_is_more == old(opts).less_is_more,
            scan_option_spec(
                old(opts).option_table@,
                old(ctx).pending,
                old(ctx).plus_option,
                s@,
                is_env,
                lim,
            ) == scan_from(st0, s@, 0, false, is_env, lim),
            scan_from(st0, s@, 0, false, is_env, lim) == scan_from(
                cur_st(opts.option_table@, *ctx, evs@),
                s@,
                k as int,
                sd,
                is_env,
                lim,
            ),
        decreases n - k,
    {
        let ghost cur = cur_st(opts.option_table@, *ctx, evs@);
        assert(scan_from(cur, s@, k as int, sd, is_env, lim) == {
            let (st2, next) = scan_step(cur, s@, k as int, sd, is_env, lim);
            match next {
                Some((nk, sd2)) => if k < nk && nk <= s@.len() {
                    scan_from(st2, s@, nk, sd2, is_env, lim)
                } else {
                    st2
                },
                None => st2,
            }
        });
        match scan_step_exec(opts, ctx, &mut evs, s, &sv, n, k, sd, is_env, lim) {
            Some((nk, sd2)) => {
                if k < nk && nk <= n {
                    k = nk;
                    sd = sd2;
                } else {
                    return evs;
                }
            },
            None => {
                return evs;
            },
        }
    }
    evs
}

/// Option `o` set to its default value, if it has a value.
pub open spec fn default_option(o: LOption) -> LOption {
    if o.ovar is Some {
        LOption { ovar: Some(o.odefault), ..o }
    } else {
        o
    }
}

/// The handlers to call for initialization, of the options from the `i`-th on.
pub open spec fn init_events(tbl: Seq<LOption>, i: int) -> Seq<OptEventV>
    decreases tbl.len() - i,
{
    if i < 0 || i >= tbl.len() {
        Seq::empty()
    } else {
        (if tbl[i].otype.any(crate::opttbl::O_INIT_HANDLER) && tbl[i].ofunc is Some {
            seq![OptEventV::Handler { index: i, action: OptAction::Init, arg: None }]
        } else {
            Seq::empty()
        }) + init_events(tbl, i + 1)
    }
}

/// Does the value of `LESS_IS_MORE` turn "more" mode on? (Set, not empty, not "0".)
pub open spec fn more_mode_on(env: Option<Seq<char>>) -> bool {
    env matches Some(v) && v.len() > 0 && v != seq!['0']
}

impl Options {
    /// Initialize each option to its default value. `less_is_more_env` is the value
    /// of the `LESS_IS_MORE` environment variable. Returns the handlers that must be
    /// called for initialization.
    pub fn init_option(&mut self, less_is_more_env: Option<&str>) -> (r: Vec<OptEvent>)
        ensures
            final(self).less_is_more == (if more_mode_on(
                match less_is_more_env {
                    Some(v) => Some(v@),
                    None => None,
                },
            ) {
                1
            } else {
                old(self).less_is_more
            }),
            final(self).option_table@ == old(self).option_table@.map_values(
                |o: LOption| default_option(o),
            ),
            events_view(r@) == init_events(old(self).option_table@, 0),
    {
        if let Some(lm) = less_is_more_env {
            let n = lm.unicode_len();
            if n > 0 && !(n == 1 && lm.get_char(0) == '0') {
                self.less_is_more = 1;
                proof {
                    if lm@ == seq!['0'] {
                        assert(lm@[0] == '0');
                    }
                }
            } else {
                proof {
                    if n == 1 {
                        assert(lm@ =~= seq!['0']);
                    }
                }
            }
        }
        let ghost tbl0 = self.option_table@;
        let ghost lim = self.less_is_more;
        let mut evs: Vec<OptEvent> = Vec::new();
        let mut i: usize = 0;
        while i < self.option_table.len()
            invariant
                self.option_table@.len() == tbl0.len(),
                0 <= i <= tbl0.len(),
                forall|k: int|
                    0 <= k < i ==> self.option_table@[k] == default_option(#[trigger] tbl0[k]),
                forall|k: int| i <= k < tbl0.len() ==> self.option_table@[k] == tbl0[k],
                events_view(evs@) + init_events(tbl0, i as int) == init_events(tbl0, 0),
                self.less_is_more == lim,
            decreases tbl0.len() - i,
        {
            let o = self.option_table[i];
            let mut o2 = o;
            if o.ovar.is_some() {
                o2.ovar = Some(o.odefault);
            }
            self.option_table.set(i, o2);
            let ghost before = events_view(evs@);
            if o.otype.intersects(crate::opttbl::O_INIT_HANDLER) && o.ofunc.is_some() {
                push_event(&mut evs, OptEvent::Handler { index: i, action: OptAction::Init, arg: None });
            }
            assert(events_view(evs@) + init_events(tbl0, i + 1) =~= before + init_events(tbl0, i as int));
            i = i + 1;
        }
        assert(init_events(tbl0, i as int) =~= Seq::<OptEventV>::empty());
        assert(events_view(evs@) + Seq::<OptEventV>::empty() =~= events_view(evs@));
        assert(self.option_table@ =~= tbl0.map_values(|o: LOption| default_option(o)));
        evs
    }
}

/// Is a string option pending, waiting for its value in the next argument?
pub fn isoptpending(ctx: &ScanContext) -> (r: bool)
    ensures
        r == ctx.pending is Some,
{
    ctx.pending.is_some()
}

/// The error message for a string option that was not followed by its value,
/// if one is pending.
pub fn nopendopt(ctx: &ScanContext, opts: &Options) -> (r: Option<String>)
    ensures
        r is Some <==> (ctx.pending matches Some(i) && i < opts.option_table@.len()),
        r matches Some(m) ==> m@ == nostring_msg(
            opt_desc_spec(opts.option_table@[ctx.pending.unwrap() as int]),
        ),
{
    match ctx.pending {
        Some(i) => {
            if i < opts.option_table.len() {
                let d = opt_desc(&opts.option_table[i]);
                Some(nostring(d.as_str()))
            } else {
                None
            }
        },
        None => None,
    }
}

/// `o` marked as unsupported.
pub open spec fn mark_unsupported(tbl: Seq<LOption>, idx: Option<int>) -> Seq<LOption> {
    match idx {
        Some(i) if 0 <= i < tbl.len() => tbl.update(
            i,
            LOption {
                otype: crate::opttbl::OptFlags { bits: tbl[i].otype.bits | O_UNSUPPORTED },
                ..tbl[i]
            },
        ),
        _ => tbl,
    }
}

/// The options marked by the `LESS_UNSUPPORT` list `s` from `k` on: white-space
/// separated entries, each an option letter, a dash and a letter, or two dashes
/// and a long name. A lone `-` ends the list; an entry that names no option is
/// skipped.
pub open spec fn unsupport_from(tbl: Seq<LOption>, s: Seq<char>, k: int) -> Seq<LOption>
    decreases s.len() - k,
{
    let w = skip_space_end(s, k);
    if k < 0 || w < k || w >= s.len() {
        tbl
    } else if s[w] == '-' && w + 1 >= s.len() {
        tbl
    } else if s[w] == '-' && s[w + 1] == '-' {
        let name = s.subrange(w + 2, s.len() as int);
        let (idx, len, _) = long_lookup(tbl, name);
        let next = w + 2 + len;
        if len < 0 || next > s.len() {
            tbl
        } else {
            unsupport_from(mark_unsupported(tbl, idx), s, next)
        }
    } else {
        let (c, next) = if s[w] == '-' {
            (s[w + 1], w + 2)
        } else {
            (s[w], w + 1)
        };
        if next > s.len() {
            tbl
        } else {
            unsupport_from(
                mark_unsupported(tbl, crate::opttbl::first_with_letter(tbl, c, 0)),
                s,
                next,
            )
        }
    }
}

fn mark_unsupported_exec(opts: &mut Options, idx: Option<usize>)
    ensures
        final(opts).option_table@ == mark_unsupported(
            old(opts).option_table@,
            match idx {
                Some(i) => Some(i as int),
                None => None,
            },
        ),
        final(opts).less_is_more == old(opts).less_is_more,
{
    if let Some(i) = idx {
        if i < opts.option_table.len() {
            let mut o = opts.option_table[i];
            o.otype = crate::opttbl::OptFlags { bits: o.otype.bits | O_UNSUPPORTED };
            opts.option_table.set(i, o);
        }
    }
}

/// Mark as unsupported the options listed in the value of `LESS_UNSUPPORT`.
pub fn init_unsupport(opts: &mut Options, env: Option<&str>)
    ensures
        final(opts).less_is_more == old(opts).less_is_more,
        env is None ==> final(opts).option_table@ == old(opts).option_table@,
        env matches Some(v) ==> final(opts).option_table@ == unsupport_from(
            old(opts).option_table@,
            v@,
            0,
        ),
{
    let s = match env {
        Some(v) => v,
        None => {
            return;
        },
    };
    let n = s.unicode_len();
    let sv = str_to_chars(s);
    let mut k: usize = 0;
    while k <= n
        invariant
            n == s@.len(),
            sv@ == s@,
            k <= n,
            env matches Some(v) && v@ == s@,
            opts.less_is_more == old(opts).less_is_more,
            unsupport_from(old(opts).option_table@, s@, 0) == unsupport_from(
                opts.option_table@,
                s@,
                k as int,
            ),
        decreases n - k,
    {
        let t = trim_start(s.substring_char(k, n));
        proof {
            crate::text::lemma_skip_space_end_bounds(s@, k as int);
            lemma_skip_space_shift(s@, k as int);
        }
        let w = n - t.unicode_len();
        if w >= n {
            return;
        }
        if sv[w] == '-' && w + 1 >= n {
            return;
        }
        if sv[w] == '-' && sv[w + 1] == '-' {
            let name = s.substring_char(w + 2, n);
            let f = opts.findopt_name(name);
            if f.len > n - (w + 2) {
                return;
            }
            mark_unsupported_exec(opts, f.index);
            k = w + 2 + f.len;
        } else {
            let (c, next) = if sv[w] == '-' {
                (sv[w + 1], w + 2)
            } else {
                (sv[w], w + 1)
            };
            let idx = opts.findopt(c);
            mark_unsupported_exec(opts, idx);
            k = next;
        }
    }
}

/// Skipping white space in a suffix is the same as skipping it in the whole.
proof fn lemma_skip_space_shift_from(s: Seq<char>, k: int, j: int)
    requires
        0 <= k <= s.len(),
        0 <= j <= s.len() - k,
    ensures
        skip_space_end(s.subrange(k, s.len() as int), j) + k == skip_space_end(s, k + j),
    decreases s.len() - k - j,
{
    let t = s.subrange(k, s.len() as int);
    if j < t.len() {
        assert(t[j] == s[k + j]);
        if char_is_whitespace(s[k + j]) {
            lemma_skip_space_shift_from(s, k, j + 1);
        }
    }
}

proof fn lemma_skip_space_shift(s: Seq<char>, k: int)
    requires
        0 <= k <= s.len(),
    ensures
        skip_space_end(s.subrange(k, s.len() as int), 0) + k == skip_space_end(s, k),
{
    lemma_skip_space_shift_from(s, k, 0);
}

} // verus!
