use vstd::prelude::*;
use vstd::string::StrSliceExecFns;

use crate::command::{norm_search_type, norm_search_type_spec};
use crate::defs::{
    INIT, NUM_FRAC_DENOM, NUM_SEARCH_COLORS, QUERY, SRCH_FIRST_FILE, SRCH_NO_MATCH, SRCH_NO_MOVE,
    SRCH_NO_REGEX, SRCH_PAST_EOF, SRCH_WRAP, TABSTOP_MAX, TOGGLE, MAX_LINENUM_WIDTH, MIN_LINENUM_WIDTH,
    MAX_STATUSCOL_WIDTH,
};
use crate::util::{char_digits_end, char_digits_value, is_digit_char};
use crate::command::{pushed_string, Char, Ungot};
use crate::defs::{
    AT_BLINK, AT_BOLD, AT_COLOR, AT_COLOR_ATTN, AT_COLOR_BIN, AT_COLOR_CTRL, AT_COLOR_ERROR, AT_COLOR_HEADER,
    AT_COLOR_LINENUM, AT_COLOR_MARK, AT_COLOR_PROMPT, AT_COLOR_RSCROLL, AT_COLOR_SEARCH, AT_NORMAL, AT_STANDOUT,
    AT_UNDERLINE,
};
use crate::prompt::Prompts;
use crate::option::{format_number_desc, getfraction, getfraction_spec, getnumc, getnumc_spec, subst_d};
use crate::text::{chars_to_string, int_text, str_to_chars};

verus! {

/// `val * num / den` rounded to the nearest integer (a tie to the even one).
pub open spec fn umuldiv_spec(val: nat, num: nat, den: nat) -> nat {
    let q = (val * num) / den;
    let r = (val * num) % den;
    if 2 * r > den || (2 * r == den && q % 2 == 1) {
        q + 1
    } else {
        q
    }
}

/// `val * num / den`, rounded (see `umuldiv_spec`).
pub fn umuldiv(val: u64, num: u64, den: u64) -> (r: u128)
    requires
        den > 0,
    ensures
        r == umuldiv_spec(val as nat, num as nat, den as nat),
{
    assert((val as int) * (num as int) <= 0xffff_ffff_ffff_ffffint * 0xffff_ffff_ffff_ffffint) by (nonlinear_arith)
        requires
            val <= 0xffff_ffff_ffff_ffffu64,
            num <= 0xffff_ffff_ffff_ffffu64,
    ;
    let p: u128 = (val as u128) * (num as u128);
    assert(p / (den as u128) <= p) by (nonlinear_arith)
        requires
            den > 0,
    ;
    let q = p / (den as u128);
    let rem = p % (den as u128);
    if 2 * rem > den as u128 || (2 * rem == den as u128 && q % 2 == 1) {
        q + 1
    } else {
        q
    }
}

/// The number of screen lines or columns that a fraction `frac` (in millionths)
/// of `size` stands for.
pub open spec fn fraction_of(size: int, frac: int) -> int {
    umuldiv_spec(size as nat, frac as nat, NUM_FRAC_DENOM as nat) as int
}

pub proof fn lemma_fraction_of_bound(size: int, frac: int)
    requires
        0 <= size,
        0 <= frac < NUM_FRAC_DENOM,
    ensures
        0 <= fraction_of(size, frac) <= size,
{
    let d: int = NUM_FRAC_DENOM as int;
    let p: int = size * frac;
    assert(size * frac <= size * (d - 1)) by (nonlinear_arith)
        requires
            frac <= d - 1,
            size >= 0,
    ;
    assert(p >= 0) by (nonlinear_arith)
        requires
            p == size * frac,
            frac >= 0,
            size >= 0,
    ;
    let q = p / d;
    let r = p % d;
    assert(q * d + r == p && 0 <= r < d && q >= 0) by (nonlinear_arith)
        requires
            q == p / d,
            r == p % d,
            d > 0,
            p >= 0,
    ;
    assert(q < size || (q == size && r == 0) || size == 0) by (nonlinear_arith)
        requires
            q * d + r == p,
            p <= size * (d - 1),
            0 <= r < d,
            q >= 0,
            size >= 0,
            d > 1,
    ;
    assert((size as nat) * (frac as nat) == p);
}

/// The screen line a jump lands on: a set fraction of the screen height is
/// recomputed; the line is kept below the header lines.
pub open spec fn calc_jump_sline_spec(sc_height: int, header_lines: int, jump_sline: int, frac: int) -> int {
    let js = if frac >= 0 {
        fraction_of(sc_height, frac)
    } else {
        jump_sline
    };
    if js <= header_lines {
        header_lines + 1
    } else {
        js
    }
}

/// The screen line a jump lands on (see `calc_jump_sline_spec`).
pub fn calc_jump_sline(sc_height: i32, header_lines: i32, jump_sline: i32, frac: i64) -> (r: i32)
    requires
        sc_height >= 0,
        header_lines < i32::MAX,
        frac < NUM_FRAC_DENOM,
    ensures
        r == calc_jump_sline_spec(sc_height as int, header_lines as int, jump_sline as int, frac as int),
{
    let mut js = jump_sline;
    if frac >= 0 {
        proof {
            lemma_fraction_of_bound(sc_height as int, frac as int);
        }
        let v = umuldiv(sc_height as u64, frac as u64, NUM_FRAC_DENOM as u64);
        js = v as i32;
    }
    if js <= header_lines {
        js = header_lines + 1;
    }
    js
}

/// A count of screen columns set as a fraction `frac` of the width (unchanged
/// when none is set).
pub open spec fn calc_columns_spec(sc_width: int, count: int, frac: int) -> int {
    if frac < 0 {
        count
    } else {
        fraction_of(sc_width, frac)
    }
}

/// The columns of a horizontal shift, or of a search match shift (see
/// `calc_columns_spec`).
pub fn calc_shift_count(sc_width: i32, count: i32, frac: i64) -> (r: i32)
    requires
        sc_width >= 0,
        frac < NUM_FRAC_DENOM,
    ensures
        r == calc_columns_spec(sc_width as int, count as int, frac as int),
{
    if frac < 0 {
        return count;
    }
    proof {
        lemma_fraction_of_bound(sc_width as int, frac as int);
    }
    let v = umuldiv(sc_width as u64, frac as u64, NUM_FRAC_DENOM as u64);
    v as i32
}

/// The search match shift (see `calc_columns_spec`).
pub fn calc_match_shift(sc_width: i32, count: i32, frac: i64) -> (r: i32)
    requires
        sc_width >= 0,
        frac < NUM_FRAC_DENOM,
    ensures
        r == calc_columns_spec(sc_width as int, count as int, frac as int),
{
    calc_shift_count(sc_width, count, frac)
}

/// What the value of an option that takes a number or a fraction gives.
#[derive(Clone, Copy, Debug, PartialEq, Eq, Structural)]
pub enum FracValue {
    /// No value: recompute from the fraction set before.
    Recalc,
    /// A fraction (`.` and digits), in millionths.
    Fraction(i64),
    /// A number.
    Number(i32),
    InvalidFraction,
    InvalidNumber,
}

/// How the value `s` of an option that takes a number or a fraction reads.
pub open spec fn toggle_fraction_spec(s: Seq<char>) -> FracValue {
    if s.len() == 0 {
        FracValue::Recalc
    } else if s[0] == '.' {
        match getfraction_spec(s.skip(1)).0 {
            Some(f) => FracValue::Fraction(f),
            None => FracValue::InvalidFraction,
        }
    } else {
        match getnumc_spec(s).0 {
            Some(n) => if i32::MIN <= n <= i32::MAX {
                FracValue::Number(n as i32)
            } else {
                FracValue::InvalidNumber
            },
            None => FracValue::InvalidNumber,
        }
    }
}

/// Read the value `s` of an option that takes a number or a fraction (see
/// `toggle_fraction_spec`).
pub fn toggle_fraction(s: &str, printopt: &str) -> (r: FracValue)
    ensures
        r == toggle_fraction_spec(s@),
        r matches FracValue::Fraction(f) ==> 0 <= f < NUM_FRAC_DENOM,
{
    let n = s.unicode_len();
    if n == 0 {
        return FracValue::Recalc;
    }
    if s.get_char(0) == '.' {
        let rest = s.substring_char(1, n);
        assert(rest@ =~= s@.skip(1));
        let (f, _) = getfraction(rest);
        match f {
            Some(v) => FracValue::Fraction(v),
            None => FracValue::InvalidFraction,
        }
    } else {
        let (v, _) = getnumc(s, Some(printopt));
        match v {
            Some(x) => if i32::MIN as i64 <= x && x <= i32::MAX as i64 {
                FracValue::Number(x as i32)
            } else {
                FracValue::InvalidNumber
            },
            None => FracValue::InvalidNumber,
        }
    }
}

/// `fmt` with its first `%s` replaced by `arg`.
pub open spec fn subst_s(fmt: Seq<char>, arg: Seq<char>) -> Seq<char>
    decreases fmt.len(),
{
    if fmt.len() < 2 {
        fmt
    } else if fmt[0] == '%' && fmt[1] == 's' {
        arg + fmt.skip(2)
    } else {
        seq![fmt[0]] + subst_s(fmt.skip(1), arg)
    }
}

/// Replace the first `%s` of `fmt` by `arg`.
pub fn format_str(fmt: &str, arg: &Vec<char>) -> (r: String)
    ensures
        r@ == subst_s(fmt@, arg@),
{
    let f = str_to_chars(fmt);
    let n = f.len();
    let mut out: Vec<char> = Vec::new();
    let mut i: usize = 0;
    assert(f@.skip(0) =~= f@);
    while i < n
        invariant
            n == f@.len(),
            f@ == fmt@,
            0 <= i <= n,
            out@ + subst_s(f@.skip(i as int), arg@) == subst_s(fmt@, arg@),
        decreases n - i,
    {
        let ghost rest = f@.skip(i as int);
        if i + 1 < n && f[i] == '%' && f[i + 1] == 's' {
            let mut k: usize = 0;
            let ghost o0 = out@;
            while k < arg.len()
                invariant
                    0 <= k <= arg@.len(),
                    out@ == o0 + arg@.subrange(0, k as int),
                decreases arg@.len() - k,
            {
                out.push(arg[k]);
                k = k + 1;
                assert(out@ =~= o0 + arg@.subrange(0, k as int));
            }
            let mut j: usize = i + 2;
            let ghost o1 = out@;
            assert(arg@.subrange(0, arg@.len() as int) =~= arg@);
            while j < n
                invariant
                    i + 2 <= j <= n,
                    n == f@.len(),
                    out@ == o1 + f@.subrange(i + 2, j as int),
                decreases n - j,
            {
                out.push(f[j]);
                j = j + 1;
                assert(out@ =~= o1 + f@.subrange(i + 2, j as int));
            }
            assert(rest.skip(2) =~= f@.subrange(i + 2, n as int));
            assert(out@ =~= subst_s(fmt@, arg@));
            return chars_to_string(out.as_slice());
        }
        out.push(f[i]);
        assert(f@.skip(i + 1) =~= rest.skip(1));
        i = i + 1;
    }
    assert(f@.skip(n as int) =~= Seq::<char>::empty());
    assert(out@ =~= subst_s(fmt@, arg@));
    chars_to_string(out.as_slice())
}

/// The six digits of a fraction `f` (in millionths), with leading zeros.
pub open spec fn six_digits(f: int) -> Seq<char> {
    seq![
        ((f / 100000) % 10 + 48) as char,
        ((f / 10000) % 10 + 48) as char,
        ((f / 1000) % 10 + 48) as char,
        ((f / 100) % 10 + 48) as char,
        ((f / 10) % 10 + 48) as char,
        (f % 10 + 48) as char,
    ]
}

/// `t` without its trailing zeros, keeping at least `keep` characters.
pub open spec fn trim_zeros(t: Seq<char>, keep: int) -> Seq<char>
    decreases t.len(),
{
    if t.len() > keep && t.len() > 0 && t.last() == '0' {
        trim_zeros(t.drop_last(), keep)
    } else {
        t
    }
}

/// How a fraction `f` (in millionths) is shown: a point and its digits, without
/// trailing zeros (but with one digit at least).
pub open spec fn fraction_text(f: int) -> Seq<char> {
    trim_zeros(seq!['.'] + six_digits(f), 2)
}

fn fraction_text_exec(f: i64) -> (r: Vec<char>)
    requires
        0 <= f < NUM_FRAC_DENOM,
    ensures
        r@ == fraction_text(f as int),
{
    let mut v: Vec<char> = Vec::new();
    v.push('.');
    v.push((((f / 100000) % 10) as u8 + 48u8) as char);
    v.push((((f / 10000) % 10) as u8 + 48u8) as char);
    v.push((((f / 1000) % 10) as u8 + 48u8) as char);
    v.push((((f / 100) % 10) as u8 + 48u8) as char);
    v.push((((f / 10) % 10) as u8 + 48u8) as char);
    v.push(((f % 10) as u8 + 48u8) as char);
    assert(v@ =~= seq!['.'] + six_digits(f as int));
    while v.len() > 2 && v[v.len() - 1] == '0'
        invariant
            trim_zeros(v@, 2) == fraction_text(f as int),
        decreases v@.len(),
    {
        let ghost before = v@;
        v.pop();
        assert(v@ =~= before.drop_last());
    }
    v
}

/// The message of a query of an option that takes a number or a fraction: with
/// no fraction set, `int_msg` with the number; else `frac_msg` with the fraction.
pub open spec fn query_fraction_spec(value: int, fraction: int, int_msg: Seq<char>, frac_msg: Seq<char>) -> Seq<char> {
    if fraction < 0 {
        subst_d(int_msg, value)
    } else {
        subst_s(frac_msg, fraction_text(fraction))
    }
}

/// The message of a query of an option that takes a number or a fraction.
pub fn query_fraction(value: i32, fraction: i64, int_msg: &str, frac_msg: &str) -> (r: String)
    requires
        fraction < NUM_FRAC_DENOM,
    ensures
        r@ == query_fraction_spec(value as int, fraction as int, int_msg@, frac_msg@),
{
    if fraction < 0 {
        format_number_desc(int_msg, value as i64)
    } else {
        let t = fraction_text_exec(fraction);
        format_str(frac_msg, &t)
    }
}

/// A setting given as a number or as a fraction of the screen: the number in
/// use, and the fraction (in millionths; negative when a number was given).
#[derive(Clone, Copy, Debug, PartialEq, Eq, Structural)]
pub struct FracSetting {
    pub value: i32,
    pub fraction: i64,
}

/// What a handler of an option that takes a number or a fraction does to the
/// setting `st`, with `recalc` the number for a fraction: the new setting, and
/// its message (an error, or the answer to a query).
pub open spec fn fraction_option_spec(
    ty: i32,
    s: Seq<char>,
    st: FracSetting,
    recalc: spec_fn(int) -> int,
    int_msg: Seq<char>,
    frac_msg: Seq<char>,
) -> (FracSetting, Option<Seq<char>>) {
    if ty == INIT || ty == TOGGLE {
        match toggle_fraction_spec(s) {
            FracValue::Recalc => (FracSetting { value: recalc(st.fraction as int) as i32, ..st }, None),
            FracValue::Fraction(f) => (FracSetting { value: recalc(f as int) as i32, fraction: f }, None),
            FracValue::Number(n) => (FracSetting { value: n, fraction: -1i64 }, None),
            FracValue::InvalidFraction => (st, Some("Invalid fraction"@)),
            FracValue::InvalidNumber => (st, Some("Invalid number"@)),
        }
    } else if ty == QUERY {
        (st, Some(query_fraction_spec(st.value as int, st.fraction as int, int_msg, frac_msg)))
    } else {
        (st, None)
    }
}

/// Handler of `-j`: the screen line that a jump targets.
pub fn opt_j(ty: i32, s: &str, st: &mut FracSetting, sc_height: i32, header_lines: i32) -> (msg: Option<String>)
    requires
        sc_height >= 0,
        header_lines < i32::MAX,
        old(st).fraction < NUM_FRAC_DENOM,
    ensures
        final(st).fraction < NUM_FRAC_DENOM,
        ({
            let r = fraction_option_spec(
                ty,
                s@,
                *old(st),
                |f: int| calc_jump_sline_spec(sc_height as int, header_lines as int, old(st).value as int, f),
                "Position target at screen line %d"@,
                "Position target at screen position %s"@,
            );
            &&& *final(st) == r.0
            &&& r.1 is None ==> msg is None
            &&& r.1 matches Some(m) ==> (msg matches Some(x) && x@ == m)
        }),
{
    if ty == INIT || ty == TOGGLE {
        match toggle_fraction(s, "j") {
            FracValue::Recalc => {
                st.value = calc_jump_sline(sc_height, header_lines, st.value, st.fraction);
            },
            FracValue::Fraction(f) => {
                st.value = calc_jump_sline(sc_height, header_lines, st.value, f);
                st.fraction = f;
            },
            FracValue::Number(n) => {
                st.value = n;
                st.fraction = -1;
            },
            FracValue::InvalidFraction => {
                return Some("Invalid fraction".to_string());
            },
            FracValue::InvalidNumber => {
                return Some("Invalid number".to_string());
            },
        }
        None
    } else if ty == QUERY {
        Some(
            query_fraction(
                st.value,
                st.fraction,
                "Position target at screen line %d",
                "Position target at screen position %s",
            ),
        )
    } else {
        None
    }
}

/// Handler of `-#` (`--shift`): the columns of a horizontal shift.
pub fn opt_shift(ty: i32, s: &str, st: &mut FracSetting, sc_width: i32) -> (msg: Option<String>)
    requires
        sc_width >= 0,
        old(st).fraction < NUM_FRAC_DENOM,
    ensures
        final(st).fraction < NUM_FRAC_DENOM,
        ({
            let r = fraction_option_spec(
                ty,
                s@,
                *old(st),
                |f: int| calc_columns_spec(sc_width as int, old(st).value as int, f),
                "Horizontal shift %d columns"@,
                "Horizontal shift %s of screen width"@,
            );
            &&& *final(st) == r.0
            &&& r.1 is None ==> msg is None
            &&& r.1 matches Some(m) ==> (msg matches Some(x) && x@ == m)
        }),
{
    if ty == INIT || ty == TOGGLE {
        match toggle_fraction(s, "#") {
            FracValue::Recalc => {
                st.value = calc_shift_count(sc_width, st.value, st.fraction);
            },
            FracValue::Fraction(f) => {
                st.value = calc_shift_count(sc_width, st.value, f);
                st.fraction = f;
            },
            FracValue::Number(n) => {
                st.value = n;
                st.fraction = -1;
            },
            FracValue::InvalidFraction => {
                return Some("Invalid fraction".to_string());
            },
            FracValue::InvalidNumber => {
                return Some("Invalid number".to_string());
            },
        }
        None
    } else if ty == QUERY {
        Some(query_fraction(st.value, st.fraction, "Horizontal shift %d columns", "Horizontal shift %s of screen width"))
    } else {
        None
    }
}

/// Handler of `--match-shift`: the columns a search match is shifted to.
pub fn opt_match_shift(ty: i32, s: &str, st: &mut FracSetting, sc_width: i32) -> (msg: Option<String>)
    requires
        sc_width >= 0,
        old(st).fraction < NUM_FRAC_DENOM,
    ensures
        final(st).fraction < NUM_FRAC_DENOM,
        ({
            let r = fraction_option_spec(
                ty,
                s@,
                *old(st),
                |f: int| calc_columns_spec(sc_width as int, old(st).value as int, f),
                "Search match shift is %d"@,
                "Search match shift is %s of screen width"@,
            );
            &&& *final(st) == r.0
            &&& r.1 is None ==> msg is None
            &&& r.1 matches Some(m) ==> (msg matches Some(x) && x@ == m)
        }),
{
    if ty == INIT || ty == TOGGLE {
        match toggle_fraction(s, "--match-shift") {
            FracValue::Recalc => {
                st.value = calc_match_shift(sc_width, st.value, st.fraction);
            },
            FracValue::Fraction(f) => {
                st.value = calc_match_shift(sc_width, st.value, f);
                st.fraction = f;
            },
            FracValue::Number(n) => {
                st.value = n;
                st.fraction = -1;
            },
            FracValue::InvalidFraction => {
                return Some("Invalid fraction".to_string());
            },
            FracValue::InvalidNumber => {
                return Some("Invalid number".to_string());
            },
        }
        None
    } else if ty == QUERY {
        Some(
            query_fraction(
                st.value,
                st.fraction,
                "Search match shift is %d",
                "Search match shift is %s of screen width",
            ),
        )
    } else {
        None
    }
}


/// Search flag for the sub-pattern `i` (1 to 5).
pub open spec fn srch_subsearch_spec(i: int) -> i32 {
    if i == 1 {
        1i32 << 18u32
    } else if i == 2 {
        1i32 << 19u32
    } else if i == 3 {
        1i32 << 20u32
    } else if i == 4 {
        1i32 << 21u32
    } else {
        1i32 << 22u32
    }
}

/// Search flag for the sub-pattern `i` (the bit `17 + i`, which must be a bit
/// of an `i32`).
pub fn srch_subsearch(i: i32) -> (r: i32)
    requires
        -17 <= i <= 14,
    ensures
        r == 1i32 << ((17 + i) as u32),
        1 <= i <= NUM_SEARCH_COLORS ==> r == srch_subsearch_spec(i as int),
{
    let n: u32 = (17 + i) as u32;
    1i32 << n
}

/// The search flag that the letter `c` of `--search-options` sets (in upper
/// case, lower case, or as a control character).
pub open spec fn search_flag_of(c: char) -> Option<i32> {
    if c == 'E' || c == 'e' || c == '\x05' {
        Some(SRCH_PAST_EOF)
    } else if c == 'F' || c == 'f' || c == '\x06' {
        Some(SRCH_FIRST_FILE)
    } else if c == 'K' || c == 'k' || c == '\x0b' {
        Some(SRCH_NO_MOVE)
    } else if c == 'N' || c == 'n' || c == '\x0e' {
        Some(SRCH_NO_MATCH)
    } else if c == 'R' || c == 'r' || c == '\x12' {
        Some(SRCH_NO_REGEX)
    } else if c == 'W' || c == 'w' || c == '\x17' {
        Some(SRCH_WRAP)
    } else if '1' <= c <= '5' {
        Some(srch_subsearch_spec(c as int - '0' as int))
    } else {
        None
    }
}

/// The search type that the letters of `s` from `i` on give, starting from
/// `st`: each letter adds its flag, `-` clears them all, `^` is ignored. Any
/// other character is an error, and is given.
pub open spec fn search_opts_scan(s: Seq<char>, i: int, st: i32) -> Result<i32, char>
    decreases s.len() - i,
{
    if i < 0 || i >= s.len() {
        Ok(st)
    } else {
        let c = s[i];
        match search_flag_of(c) {
            Some(f) => search_opts_scan(s, i + 1, st | f),
            None => if c == '-' {
                search_opts_scan(s, i + 1, 0)
            } else if c == '^' {
                search_opts_scan(s, i + 1, st)
            } else {
                Err(c)
            },
        }
    }
}

fn search_flag_exec(c: char) -> (r: Option<i32>)
    ensures
        r == search_flag_of(c),
{
    if c == 'E' || c == 'e' || c == '\x05' {
        Some(SRCH_PAST_EOF)
    } else if c == 'F' || c == 'f' || c == '\x06' {
        Some(SRCH_FIRST_FILE)
    } else if c == 'K' || c == 'k' || c == '\x0b' {
        Some(SRCH_NO_MOVE)
    } else if c == 'N' || c == 'n' || c == '\x0e' {
        Some(SRCH_NO_MATCH)
    } else if c == 'R' || c == 'r' || c == '\x12' {
        Some(SRCH_NO_REGEX)
    } else if c == 'W' || c == 'w' || c == '\x17' {
        Some(SRCH_WRAP)
    } else if '1' <= c && c <= '5' {
        let d: i32 = if c == '1' {
            1
        } else if c == '2' {
            2
        } else if c == '3' {
            3
        } else if c == '4' {
            4
        } else {
            5
        };
        assert(d == c as int - '0' as int);
        Some(srch_subsearch(d))
    } else {
        None
    }
}

/// Read the value of `--search-options` (see `search_opts_scan`).
pub fn parse_search_options(s: &str) -> (r: Result<i32, char>)
    ensures
        r == search_opts_scan(s@, 0, 0),
{
    let n = s.unicode_len();
    let mut st: i32 = 0;
    let mut i: usize = 0;
    while i < n
        invariant
            n == s@.len(),
            0 <= i <= n,
            search_opts_scan(s@, 0, 0) == search_opts_scan(s@, i as int, st),
        decreases n - i,
    {
        let c = s.get_char(i);
        match search_flag_exec(c) {
            Some(f) => {
                st = st | f;
            },
            None => {
                if c == '-' {
                    st = 0;
                } else if c != '^' {
                    return Err(c);
                }
            },
        }
        i = i + 1;
    }
    Ok(st)
}

/// The letters that show the search type `st`: `E`, `F`, `K`, `N`, `R`, `W`
/// and the digits of the sub-patterns, for the flags that are set; `-` for none.
pub open spec fn search_opts_text(st: i32) -> Seq<char> {
    let t = (if st & SRCH_PAST_EOF != 0 { seq!['E'] } else { Seq::empty() })
        + (if st & SRCH_FIRST_FILE != 0 { seq!['F'] } else { Seq::empty() })
        + (if st & SRCH_NO_MOVE != 0 { seq!['K'] } else { Seq::empty() })
        + (if st & SRCH_NO_MATCH != 0 { seq!['N'] } else { Seq::empty() })
        + (if st & SRCH_NO_REGEX != 0 { seq!['R'] } else { Seq::empty() })
        + (if st & SRCH_WRAP != 0 { seq!['W'] } else { Seq::empty() })
        + (if st & srch_subsearch_spec(1) != 0 { seq!['1'] } else { Seq::empty() })
        + (if st & srch_subsearch_spec(2) != 0 { seq!['2'] } else { Seq::empty() })
        + (if st & srch_subsearch_spec(3) != 0 { seq!['3'] } else { Seq::empty() })
        + (if st & srch_subsearch_spec(4) != 0 { seq!['4'] } else { Seq::empty() })
        + (if st & srch_subsearch_spec(5) != 0 { seq!['5'] } else { Seq::empty() });
    if t.len() == 0 {
        seq!['-']
    } else {
        t
    }
}

fn push_if(v: &mut Vec<char>, b: bool, c: char)
    ensures
        final(v)@ == old(v)@ + if b { seq![c] } else { Seq::<char>::empty() },
{
    if b {
        v.push(c);
    }
    assert(final(v)@ =~= old(v)@ + if b { seq![c] } else { Seq::<char>::empty() }) by {
    }
}

/// The letters that show the search type `st` (see `search_opts_text`).
#[verifier::spinoff_prover]
#[verifier::rlimit(40)]
pub fn search_options_text(st: i32) -> (r: Vec<char>)
    ensures
        r@ == search_opts_text(st),
{
    let mut v: Vec<char> = Vec::new();
    push_if(&mut v, st & SRCH_PAST_EOF != 0, 'E');
    push_if(&mut v, st & SRCH_FIRST_FILE != 0, 'F');
    push_if(&mut v, st & SRCH_NO_MOVE != 0, 'K');
    push_if(&mut v, st & SRCH_NO_MATCH != 0, 'N');
    push_if(&mut v, st & SRCH_NO_REGEX != 0, 'R');
    push_if(&mut v, st & SRCH_WRAP != 0, 'W');
    push_if(&mut v, st & srch_subsearch(1) != 0, '1');
    push_if(&mut v, st & srch_subsearch(2) != 0, '2');
    push_if(&mut v, st & srch_subsearch(3) != 0, '3');
    push_if(&mut v, st & srch_subsearch(4) != 0, '4');
    push_if(&mut v, st & srch_subsearch(5) != 0, '5');
    assert(v@ =~= Seq::<char>::empty() + (if st & SRCH_PAST_EOF != 0 { seq!['E'] } else { Seq::empty() })
        + (if st & SRCH_FIRST_FILE != 0 { seq!['F'] } else { Seq::empty() })
        + (if st & SRCH_NO_MOVE != 0 { seq!['K'] } else { Seq::empty() })
        + (if st & SRCH_NO_MATCH != 0 { seq!['N'] } else { Seq::empty() })
        + (if st & SRCH_NO_REGEX != 0 { seq!['R'] } else { Seq::empty() })
        + (if st & SRCH_WRAP != 0 { seq!['W'] } else { Seq::empty() })
        + (if st & srch_subsearch_spec(1) != 0 { seq!['1'] } else { Seq::empty() })
        + (if st & srch_subsearch_spec(2) != 0 { seq!['2'] } else { Seq::empty() })
        + (if st & srch_subsearch_spec(3) != 0 { seq!['3'] } else { Seq::empty() })
        + (if st & srch_subsearch_spec(4) != 0 { seq!['4'] } else { Seq::empty() })
        + (if st & srch_subsearch_spec(5) != 0 { seq!['5'] } else { Seq::empty() }));
    if v.len() == 0 {
        v.push('-');
        assert(v@ =~= seq!['-']);
    }
    v
}

/// The message that `--search-options` gives for the invalid letter `c`.
pub open spec fn invalid_search_option_msg(c: char) -> Seq<char> {
    "invalid search option '"@ + seq![c] + "'"@
}

/// Handler of `--search-options`: the default search type. An invalid letter
/// leaves it as it was, with an error; a query tells the letters.
pub fn opt_search_type(ty: i32, s: &str, def_search_type: &mut i32) -> (msg: Option<String>)
    ensures
        (ty == INIT || ty == TOGGLE) ==> match search_opts_scan(s@, 0, 0) {
            Ok(st) => *final(def_search_type) == norm_search_type_spec(st) && msg is None,
            Err(c) => *final(def_search_type) == *old(def_search_type) && (msg matches Some(m) && m@
                == invalid_search_option_msg(c)),
        },
        ty == QUERY ==> *final(def_search_type) == *old(def_search_type) && (msg matches Some(m) && m@
            == "search options: "@ + search_opts_text(*old(def_search_type))),
        !(ty == INIT || ty == TOGGLE || ty == QUERY) ==> *final(def_search_type) == *old(def_search_type)
            && msg is None,
{
    if ty == INIT || ty == TOGGLE {
        match parse_search_options(s) {
            Ok(st) => {
                *def_search_type = norm_search_type(st);
                None
            },
            Err(c) => {
                let mut m = "invalid search option '".to_string();
                crate::text::push_char(&mut m, c);
                crate::text::push_str(&mut m, "'");
                Some(m)
            },
        }
    } else if ty == QUERY {
        let t = search_options_text(*def_search_type);
        let mut m = "search options: ".to_string();
        crate::text::push_chars(&mut m, t.as_slice());
        Some(m)
    } else {
        None
    }
}


/// The index of the first character at or after `p` that is not a space.
pub open spec fn skip_spaces(s: Seq<char>, p: int) -> int
    decreases s.len() - p,
{
    if 0 <= p < s.len() && s[p] == ' ' {
        skip_spaces(s, p + 1)
    } else {
        p
    }
}

proof fn lemma_skip_spaces_bounds(s: Seq<char>, p: int)
    requires
        0 <= p <= s.len(),
    ensures
        p <= skip_spaces(s, p) <= s.len(),
    decreases s.len() - p,
{
    if p < s.len() && s[p] == ' ' {
        lemma_skip_spaces_bounds(s, p + 1);
    }
}

proof fn lemma_digits_end_bounds(s: Seq<char>, p: int)
    requires
        0 <= p <= s.len(),
    ensures
        p <= char_digits_end(s, p) <= s.len(),
        forall|k: int| p <= k < char_digits_end(s, p) ==> is_digit_char(#[trigger] s[k]),
    decreases s.len() - p,
{
    if p < s.len() && is_digit_char(s[p]) {
        lemma_digits_end_bounds(s, p + 1);
    }
}

/// The tab stops that the list `s` (numbers separated by commas) gives, read
/// from `p` on, after the stops `stops` found so far: a number that does not
/// come after the last stop is skipped; at most `TABSTOP_MAX` stops.
pub open spec fn tabs_scan(s: Seq<char>, p: int, stops: Seq<i32>) -> Seq<i32>
    decreases s.len() - p,
{
    if stops.len() >= TABSTOP_MAX || p < 0 || p > s.len() || stops.len() == 0 {
        stops
    } else {
        let p1 = skip_spaces(s, p);
        let e = char_digits_end(s, p1);
        let n = char_digits_value(s.subrange(p1, e));
        let stops2 = if p1 <= e && n <= i32::MAX && n > stops.last() {
            stops.push(n as i32)
        } else {
            stops
        };
        let p2 = skip_spaces(s, e);
        if p2 < p || p2 >= s.len() || s[p2] != ',' {
            stops2
        } else {
            tabs_scan(s, p2 + 1, stops2)
        }
    }
}

/// The tab stops: the columns of the first ones (the first is column 0), and
/// the distance between the stops after them.
pub struct Tabs {
    pub stops: Vec<i32>,
    pub tabdefault: i32,
}

/// The tab stops after `set_tabs` reads `s`: the stops it gives, if there are at
/// least one besides column 0, and the last distance between them.
pub open spec fn set_tabs_spec(s: Seq<char>, stops: Seq<i32>, tabdefault: i32) -> (Seq<i32>, i32) {
    let n = tabs_scan(s, 0, seq![0i32]);
    if n.len() < 2 {
        (stops, tabdefault)
    } else {
        (n, (n[n.len() - 1] - n[n.len() - 2]) as i32)
    }
}

pub proof fn lemma_tabs_scan_increasing(s: Seq<char>, p: int, stops: Seq<i32>)
    requires
        stops.len() >= 1,
        stops[0] == 0,
        forall|i: int, j: int| 0 <= i < j < stops.len() ==> stops[i] < stops[j],
    ensures
        tabs_scan(s, p, stops).len() >= stops.len(),
        tabs_scan(s, p, stops).len() <= if stops.len() > TABSTOP_MAX { stops.len() as int } else { TABSTOP_MAX as int },
        tabs_scan(s, p, stops)[0] == 0,
        forall|i: int, j: int|
            0 <= i < j < tabs_scan(s, p, stops).len() ==> tabs_scan(s, p, stops)[i] < tabs_scan(s, p, stops)[j],
    decreases s.len() - p,
{
    if stops.len() >= TABSTOP_MAX || p < 0 || p > s.len() || stops.len() == 0 {
    } else {
        let p1 = skip_spaces(s, p);
        lemma_skip_spaces_bounds(s, p);
        lemma_digits_end_bounds(s, p1);
        let e = char_digits_end(s, p1);
        let n = char_digits_value(s.subrange(p1, e));
        let stops2 = if p1 <= e && n <= i32::MAX && n > stops.last() {
            stops.push(n as i32)
        } else {
            stops
        };
        let p2 = skip_spaces(s, e);
        lemma_skip_spaces_bounds(s, e);
        if p2 < p || p2 >= s.len() || s[p2] != ',' {
        } else {
            lemma_tabs_scan_increasing(s, p2 + 1, stops2);
        }
    }
}

/// Read a list of tab stops (see `set_tabs_spec`).
pub fn set_tabs(tabs: &mut Tabs, s: &str)
    requires
        old(tabs).stops@.len() <= TABSTOP_MAX,
    ensures
        (final(tabs).stops@, final(tabs).tabdefault) == set_tabs_spec(s@, old(tabs).stops@, old(tabs).tabdefault),
        final(tabs).stops@.len() <= TABSTOP_MAX,
{
    let sv = str_to_chars(s);
    let n = sv.len();
    let mut stops: Vec<i32> = Vec::new();
    stops.push(0);
    let mut p: usize = 0;
    let ghost result = tabs_scan(sv@, 0, seq![0i32]);
    proof {
        lemma_tabs_scan_increasing(sv@, 0, seq![0i32]);
    }
    assert(stops@ =~= seq![0i32]);
    loop
        invariant_except_break
            tabs_scan(sv@, 0, seq![0i32]) == tabs_scan(sv@, p as int, stops@),
        invariant
            n == sv@.len(),
            sv@ == s@,
            p <= n,
            result == tabs_scan(sv@, 0, seq![0i32]),
            1 <= stops@.len() <= TABSTOP_MAX,
            stops@[0] == 0,
            forall|i: int, j: int| 0 <= i < j < stops@.len() ==> stops@[i] < stops@[j],
        ensures
            stops@ == result,
        decreases n - p,
    {
        if stops.len() >= TABSTOP_MAX as usize {
            break;
        }
        let ghost p0 = p as int;
        let ghost st0 = stops@;
        proof {
            lemma_skip_spaces_bounds(sv@, p0);
        }
        while p < n && sv[p] == ' '
            invariant
                p0 <= p <= n,
                n == sv@.len(),
                skip_spaces(sv@, p0) == skip_spaces(sv@, p as int),
            decreases n - p,
        {
            p = p + 1;
        }
        let p1 = p;
        let mut v: i64 = 0;
        let mut over = false;
        proof {
            lemma_digits_end_bounds(sv@, p1 as int);
        }
        assert(sv@.subrange(p1 as int, p1 as int) =~= Seq::<char>::empty());
        while p < n && '0' <= sv[p] && sv[p] <= '9'
            invariant
                p1 <= p <= n,
                n == sv@.len(),
                char_digits_end(sv@, p1 as int) == char_digits_end(sv@, p as int),
                forall|k: int| p1 <= k < p ==> is_digit_char(#[trigger] sv@[k]),
                0 <= v,
                !over ==> v == char_digits_value(sv@.subrange(p1 as int, p as int)),
                !over ==> v <= i32::MAX,
                over ==> char_digits_value(sv@.subrange(p1 as int, p as int)) > i32::MAX,
            decreases n - p,
        {
            let d = (sv[p] as u32 - '0' as u32) as i64;
            let ghost pre = sv@.subrange(p1 as int, p as int);
            assert(sv@.subrange(p1 as int, p + 1).drop_last() =~= pre);
            assert(forall|k: int| 0 <= k < pre.len() ==> is_digit_char(#[trigger] pre[k])) by {
                assert forall|k: int| 0 <= k < pre.len() implies is_digit_char(#[trigger] pre[k]) by {
                    assert(pre[k] == sv@[p1 + k]);
                }
            }
            proof {
                lemma_value_nonneg(pre);
            }
            if !over {
                v = v * 10 + d;
                if v > i32::MAX as i64 {
                    over = true;
                }
            }
            p = p + 1;
        }
        let e = p;
        assert(e as int == char_digits_end(sv@, p1 as int));
        let last = stops[stops.len() - 1];
        if !over && v > last as i64 {
            stops.push(v as i32);
        }
        proof {
            lemma_skip_spaces_bounds(sv@, e as int);
        }
        while p < n && sv[p] == ' '
            invariant
                e <= p <= n,
                n == sv@.len(),
                skip_spaces(sv@, e as int) == skip_spaces(sv@, p as int),
            decreases n - p,
        {
            p = p + 1;
        }
        assert(stops@ == (if p1 <= e && char_digits_value(sv@.subrange(p1 as int, e as int)) <= i32::MAX
            && char_digits_value(sv@.subrange(p1 as int, e as int)) > st0.last() {
            st0.push(char_digits_value(sv@.subrange(p1 as int, e as int)) as i32)
        } else {
            st0
        }));
        if p >= n || sv[p] != ',' {
            break;
        }
        p = p + 1;
    }
    if stops.len() >= 2 {
        let k = stops.len();
        tabs.tabdefault = stops[k - 1] - stops[k - 2];
        tabs.stops = stops;
    }
}

proof fn lemma_value_nonneg(d: Seq<char>)
    requires
        forall|k: int| 0 <= k < d.len() ==> is_digit_char(#[trigger] d[k]),
    ensures
        char_digits_value(d) >= 0,
    decreases d.len(),
{
    if d.len() > 0 {
        assert forall|k: int| 0 <= k < d.drop_last().len() implies is_digit_char(#[trigger] d.drop_last()[k]) by {
            assert(d.drop_last()[k] == d[k]);
        }
        lemma_value_nonneg(d.drop_last());
        assert(is_digit_char(d[d.len() - 1]));
    }
}


/// The stops from index `i` on, separated by commas.
pub open spec fn stops_text(stops: Seq<i32>, i: int) -> Seq<char>
    decreases stops.len() - i,
{
    if i < 1 || i >= stops.len() {
        Seq::empty()
    } else if i == 1 {
        int_text(stops[1] as int) + stops_text(stops, 2)
    } else {
        seq![','] + int_text(stops[i] as int) + stops_text(stops, i + 1)
    }
}

/// The answer to a query of `-x`: the tab stops set (if more than one) and then
/// the distance between the following ones.
pub open spec fn tabs_query_spec(stops: Seq<i32>, tabdefault: i32) -> Seq<char> {
    "Tab stops "@ + (if stops.len() > 2 {
        stops_text(stops, 1) + " and then "@
    } else {
        Seq::empty()
    }) + "every "@ + int_text(tabdefault as int) + " spaces"@
}

/// Handler of `-x`: set the tab stops, or tell them.
pub fn opt_x(ty: i32, s: &str, tabs: &mut Tabs) -> (msg: Option<String>)
    requires
        old(tabs).stops@.len() <= TABSTOP_MAX,
    ensures
        final(tabs).stops@.len() <= TABSTOP_MAX,
        (ty == INIT || ty == TOGGLE) ==> (final(tabs).stops@, final(tabs).tabdefault) == set_tabs_spec(
            s@,
            old(tabs).stops@,
            old(tabs).tabdefault,
        ) && msg is None,
        ty == QUERY ==> final(tabs).stops@ == old(tabs).stops@ && final(tabs).tabdefault == old(
            tabs).tabdefault && (msg matches Some(m) && m@ == tabs_query_spec(
            old(tabs).stops@,
            old(tabs).tabdefault,
        )),
        !(ty == INIT || ty == TOGGLE || ty == QUERY) ==> final(tabs).stops@ == old(tabs).stops@
            && final(tabs).tabdefault == old(tabs).tabdefault && msg is None,
{
    if ty == INIT || ty == TOGGLE {
        set_tabs(tabs, s);
        None
    } else if ty == QUERY {
        let mut m = "Tab stops ".to_string();
        let n = tabs.stops.len();
        let ghost m0 = m@;
        if n > 2 {
            let mut i: usize = 1;
            assert(stops_text(tabs.stops@, 1) == stops_text(tabs.stops@, 1));
            while i < n
                invariant
                    1 <= i <= n,
                    n == tabs.stops@.len(),
                    n > 2,
                    m@ + stops_text(tabs.stops@, i as int) == m0 + stops_text(tabs.stops@, 1),
                decreases n - i,
            {
                let ghost before = m@;
                if i > 1 {
                    crate::text::push_char(&mut m, ',');
                }
                crate::text::push_int(&mut m, tabs.stops[i] as i64);
                i = i + 1;
                assert(before + stops_text(tabs.stops@, (i - 1) as int) =~= m@ + stops_text(tabs.stops@, i as int));
            }
            crate::text::push_str(&mut m, " and then ");
        }
        crate::text::push_str(&mut m, "every ");
        crate::text::push_int(&mut m, tabs.tabdefault as i64);
        crate::text::push_str(&mut m, " spaces");
        assert(m@ =~= tabs_query_spec(tabs.stops@, tabs.tabdefault));
        Some(m)
    } else {
        None
    }
}

/// What `-"` (`--quotes`) sets the quotes to: none for no value, the one
/// character for both, or the two; `None` for more than two characters.
pub open spec fn quotes_of(s: Seq<char>) -> Option<(char, char)> {
    if s.len() == 0 {
        Some(('\0', '\0'))
    } else if s.len() == 1 {
        Some((s[0], s[0]))
    } else if s.len() == 2 {
        Some((s[0], s[1]))
    } else {
        None
    }
}

/// The quotes as a C string would show them (up to a NUL).
pub open spec fn quotes_text(oq: char, cq: char) -> Seq<char> {
    if oq == '\0' {
        Seq::empty()
    } else if cq == '\0' {
        seq![oq]
    } else {
        seq![oq, cq]
    }
}

/// Handler of `-"`: set the quotes around file names, or tell them.
pub fn opt_quote(ty: i32, s: &str, openquote: &mut char, closequote: &mut char) -> (msg: Option<String>)
    ensures
        (ty == INIT || ty == TOGGLE) ==> match quotes_of(s@) {
            Some(q) => *final(openquote) == q.0 && *final(closequote) == q.1 && msg is None,
            None => *final(openquote) == *old(openquote) && *final(closequote) == *old(closequote) && (msg matches Some(
                m,
            ) && m@ == "-\" must be followed by 1 or 2 chars"@),
        },
        ty == QUERY ==> *final(openquote) == *old(openquote) && *final(closequote) == *old(closequote) && (msg matches Some(
            m,
        ) && m@ == "quotes "@ + quotes_text(*old(openquote), *old(closequote))),
        !(ty == INIT || ty == TOGGLE || ty == QUERY) ==> *final(openquote) == *old(openquote)
            && *final(closequote) == *old(closequote) && msg is None,
{
    if ty == INIT || ty == TOGGLE {
        let n = s.unicode_len();
        if n == 0 {
            *openquote = '\0';
            *closequote = '\0';
        } else if n == 1 {
            *openquote = s.get_char(0);
            *closequote = s.get_char(0);
        } else if n == 2 {
            *openquote = s.get_char(0);
            *closequote = s.get_char(1);
        } else {
            return Some("-\" must be followed by 1 or 2 chars".to_string());
        }
        None
    } else if ty == QUERY {
        let mut m = "quotes ".to_string();
        let ghost m0 = m@;
        if *openquote != '\0' {
            crate::text::push_char(&mut m, *openquote);
            if *closequote != '\0' {
                crate::text::push_char(&mut m, *closequote);
            }
        }
        assert(m@ =~= m0 + quotes_text(*openquote, *closequote));
        Some(m)
    } else {
        None
    }
}

/// What `--intr` sets the interrupt character to: `^c` is the control
/// character for `c`; any other value its first character; none: unchanged.
pub open spec fn intr_of(s: Seq<char>, old_char: char) -> char {
    if s.len() >= 2 && s[0] == '^' {
        ((s[1] as u32) % 32) as char
    } else if s.len() >= 1 {
        s[0]
    } else {
        old_char
    }
}

/// Handler of `--intr`: set the interrupt character, or tell it (in the form
/// `printable` gives of it).
pub fn opt_intr(ty: i32, s: &str, intr_char: &mut char, printable: &str) -> (msg: Option<String>)
    ensures
        (ty == INIT || ty == TOGGLE) ==> *final(intr_char) == intr_of(s@, *old(intr_char)) && msg is None,
        ty == QUERY ==> *final(intr_char) == *old(intr_char) && (msg matches Some(m) && m@
            == "interrupt character is "@ + printable@),
        !(ty == INIT || ty == TOGGLE || ty == QUERY) ==> *final(intr_char) == *old(intr_char) && msg is None,
{
    if ty == INIT || ty == TOGGLE {
        let n = s.unicode_len();
        if n >= 2 && s.get_char(0) == '^' {
            let c = crate::defs::CONTROL(s.get_char(1));
            *intr_char = c;
            assert(c == ((s@[1] as u32) % 32) as char);
        } else if n >= 1 {
            *intr_char = s.get_char(0);
        }
        None
    } else if ty == QUERY {
        let mut m = "interrupt character is ".to_string();
        crate::text::push_str(&mut m, printable);
        Some(m)
    } else {
        None
    }
}


/// An entry of a comma-separated list of numbers.
#[derive(Clone, Copy, Debug, PartialEq, Eq, Structural)]
pub enum Cnum {
    /// The entry is empty, or the list is at its end.
    Missing,
    Num(i64),
    Invalid,
}

/// The next entry of the list `s`, and the index where the rest begins (past
/// the comma that ends the entry).
pub open spec fn next_cnum_spec(s: Seq<char>) -> (Cnum, int) {
    if s.len() == 0 {
        (Cnum::Missing, 0)
    } else if s[0] == ',' {
        (Cnum::Missing, 1)
    } else {
        let g = getnumc_spec(s);
        match g.0 {
            None => (Cnum::Invalid, 0),
            Some(n) => (Cnum::Num(n), if 0 <= g.1 < s.len() && s[g.1] == ',' {
                g.1 + 1
            } else {
                g.1
            }),
        }
    }
}

/// Read the next entry of a comma-separated list of numbers (see
/// `next_cnum_spec`).
pub fn next_cnum<'a>(s: &'a str, printopt: &str) -> (r: (Cnum, &'a str))
    ensures
        r.0 == next_cnum_spec(s@).0,
        r.1@ == s@.skip(next_cnum_spec(s@).1),
{
    let n = s.unicode_len();
    if n == 0 {
        assert(s@.skip(0) =~= s@);
        return (Cnum::Missing, s);
    }
    if s.get_char(0) == ',' {
        return (Cnum::Missing, s.substring_char(1, n));
    }
    let (v, rest) = getnumc(s, Some(printopt));
    proof {
        crate::option::lemma_getnumc_bound(s@);
    }
    match v {
        None => {
            assert(s@.skip(0) =~= s@);
            (Cnum::Invalid, s)
        },
        Some(x) => {
            let rn = rest.unicode_len();
            if rn > 0 && rest.get_char(0) == ',' {
                let r2 = rest.substring_char(1, rn);
                assert(r2@ =~= s@.skip(getnumc_spec(s@).1 + 1));
                (Cnum::Num(x), r2)
            } else {
                assert(rest@ =~= s@.skip(getnumc_spec(s@).1));
                (Cnum::Num(x), rest)
            }
        },
    }
}

/// What `--header` gives: the number of header lines and columns, and the
/// number of the line the header starts at (0: the start of the file).
#[derive(Clone, Copy, Debug, PartialEq, Eq, Structural)]
pub struct HeaderValue {
    pub lines: i64,
    pub cols: i64,
    pub start_line: i64,
}

/// A number of lines or columns of `--header`: a part that is left out, or
/// negative, gives 0.
pub open spec fn header_count(c: Cnum) -> i64 {
    match c {
        Cnum::Num(n) => if n >= 0 { n } else { 0 },
        _ => 0,
    }
}

/// The line number of `--header`: one that is left out, or not positive, gives
/// 0 (the start of the file).
pub open spec fn header_start(c: Cnum) -> i64 {
    match c {
        Cnum::Num(n) => if n > 0 { n } else { 0 },
        _ => 0,
    }
}

/// Read the value `s` of `--header`: "lines,columns,line-number", each part a
/// number or empty (see `header_count`, `header_start`); `-` means "0,0". An
/// invalid part gives its name.
pub open spec fn parse_header_spec(s: Seq<char>) -> Result<HeaderValue, Seq<char>> {
    let t0 = if s.len() > 0 && s[0] == '-' { "0,0"@ } else { s };
    let a = next_cnum_spec(t0);
    let t1 = t0.skip(a.1);
    let b = next_cnum_spec(t1);
    let t2 = t1.skip(b.1);
    let c = next_cnum_spec(t2);
    if a.0 == Cnum::Invalid {
        Err("number of lines"@)
    } else if b.0 == Cnum::Invalid {
        Err("number of columns"@)
    } else if c.0 == Cnum::Invalid {
        Err("line number"@)
    } else {
        Ok(HeaderValue { lines: header_count(a.0), cols: header_count(b.0), start_line: header_start(c.0) })
    }
}

/// Read the value of `--header` (see `parse_header_spec`); an error is
/// "invalid" and the name of the part.
pub fn parse_header(s: &str) -> (r: Result<HeaderValue, String>)
    ensures
        r matches Ok(h) ==> parse_header_spec(s@) == Ok::<HeaderValue, Seq<char>>(h),
        r matches Err(m) ==> (parse_header_spec(s@) matches Err(part) && m@ == "invalid "@ + part),
{
    let t0: &str = if s.unicode_len() > 0 && s.get_char(0) == '-' {
        "0,0"
    } else {
        s
    };
    let (a, t1) = next_cnum(t0, "header");
    if a == Cnum::Invalid {
        proof {
            reveal_strlit("invalid number of lines");
            reveal_strlit("invalid ");
            reveal_strlit("number of lines");
            assert("invalid number of lines"@ =~= "invalid "@ + "number of lines"@);
        }
        return Err("invalid number of lines".to_string());
    }
    let (b, t2) = next_cnum(t1, "header");
    if b == Cnum::Invalid {
        proof {
            reveal_strlit("invalid number of columns");
            reveal_strlit("invalid ");
            reveal_strlit("number of columns");
            assert("invalid number of columns"@ =~= "invalid "@ + "number of columns"@);
        }
        return Err("invalid number of columns".to_string());
    }
    let (c, _) = next_cnum(t2, "header");
    if c == Cnum::Invalid {
        proof {
            reveal_strlit("invalid line number");
            reveal_strlit("invalid ");
            reveal_strlit("line number");
            assert("invalid line number"@ =~= "invalid "@ + "line number"@);
        }
        return Err("invalid line number".to_string());
    }
    let lines: i64 = match a {
        Cnum::Num(n) => if n >= 0 { n } else { 0 },
        _ => 0,
    };
    let cols: i64 = match b {
        Cnum::Num(n) => if n >= 0 { n } else { 0 },
        _ => 0,
    };
    let start_line: i64 = match c {
        Cnum::Num(n) => if n > 0 { n } else { 0 },
        _ => 0,
    };
    Ok(HeaderValue { lines, cols, start_line })
}

/// The message that the options on searching header lines and columns give: what
/// a search now includes.
pub open spec fn nosearch_headers_msg(no_lines: bool, no_cols: bool) -> Seq<char> {
    if no_lines && no_cols {
        "Search does not include header lines or columns"@
    } else if no_lines {
        "Search includes header columns but not header lines"@
    } else if no_cols {
        "Search includes header lines but not header columns"@
    } else {
        "Search includes header lines and columns"@
    }
}

/// Handler of the options on searching header lines and columns: `INIT` and
/// `TOGGLE` set whether a search leaves out the header lines and columns (to
/// `no_header_lines`, `no_header_cols`); `TOGGLE` and `QUERY` tell the result.
pub fn do_nosearch_headers(
    ty: i32,
    no_header_lines: bool,
    no_header_cols: bool,
    nosearch_lines: &mut bool,
    nosearch_cols: &mut bool,
) -> (msg: Option<String>)
    ensures
        (ty == INIT || ty == TOGGLE) ==> *final(nosearch_lines) == no_header_lines && *final(nosearch_cols)
            == no_header_cols,
        !(ty == INIT || ty == TOGGLE) ==> *final(nosearch_lines) == *old(nosearch_lines) && *final(nosearch_cols)
            == *old(nosearch_cols),
        (ty == TOGGLE || ty == QUERY) ==> (msg matches Some(m) && m@ == nosearch_headers_msg(
            *final(nosearch_lines),
            *final(nosearch_cols),
        )),
        !(ty == TOGGLE || ty == QUERY) ==> msg is None,
{
    if ty == INIT || ty == TOGGLE {
        *nosearch_lines = no_header_lines;
        *nosearch_cols = no_header_cols;
    }
    if ty == TOGGLE || ty == QUERY {
        let m = if *nosearch_lines && *nosearch_cols {
            "Search does not include header lines or columns"
        } else if *nosearch_lines {
            "Search includes header columns but not header lines"
        } else if *nosearch_cols {
            "Search includes header lines but not header columns"
        } else {
            "Search includes header lines and columns"
        };
        Some(m.to_string())
    } else {
        None
    }
}

/// Are long lines chopped (with `-S`, or when there is a header)?
pub fn chop_line(chopline: bool, header_cols: i32, header_lines: i32) -> (r: bool)
    ensures
        r == (chopline || header_cols > 0 || header_lines > 0),
{
    chopline || header_cols > 0 || header_lines > 0
}

/// The number of lines a page scrolls: the window size if it is set (positive),
/// else the screen height less the header lines and less `-swindow`.
pub fn get_swindow(swindow: i32, sc_height: i32, header_lines: i32) -> (r: i64)
    ensures
        r == if swindow > 0 { swindow as int } else { sc_height - header_lines + swindow },
{
    if swindow > 0 {
        return swindow as i64;
    }
    sc_height as i64 - header_lines as i64 + swindow as i64
}


/// The attribute that the letter `c` of `-D` names: a kind of text (`B`inary,
/// `C`ontrol, `E`rror, `H`eader, `M`ark, line `N`umber, `P`rompt, `R`scroll,
/// `S`earch, `W` or `A` attention), a plain attribute (`n`ormal, `s`tandout,
/// bol`d`, `u`nderline, blin`k`), or a search sub-pattern (a digit from 1 to 5);
/// -1 for anything else.
pub open spec fn color_from_namechar_spec(c: char) -> i32 {
    if c == 'B' {
        AT_COLOR_BIN
    } else if c == 'C' {
        AT_COLOR_CTRL
    } else if c == 'E' {
        AT_COLOR_ERROR
    } else if c == 'H' {
        AT_COLOR_HEADER
    } else if c == 'M' {
        AT_COLOR_MARK
    } else if c == 'N' {
        AT_COLOR_LINENUM
    } else if c == 'P' {
        AT_COLOR_PROMPT
    } else if c == 'R' {
        AT_COLOR_RSCROLL
    } else if c == 'S' {
        AT_COLOR_SEARCH
    } else if c == 'W' || c == 'A' {
        AT_COLOR_ATTN
    } else if c == 'n' {
        AT_NORMAL
    } else if c == 's' {
        AT_STANDOUT
    } else if c == 'd' {
        AT_BOLD
    } else if c == 'u' {
        AT_UNDERLINE
    } else if c == 'k' {
        AT_BLINK
    } else if '1' <= c <= '5' {
        ((10 + (c as int - '0' as int)) * 256) as i32
    } else {
        -1i32
    }
}

/// The attribute that a letter of `-D` names (see `color_from_namechar_spec`).
pub fn color_from_namechar(c: char) -> (r: i32)
    ensures
        r == color_from_namechar_spec(c),
{
    if c == 'B' {
        AT_COLOR_BIN
    } else if c == 'C' {
        AT_COLOR_CTRL
    } else if c == 'E' {
        AT_COLOR_ERROR
    } else if c == 'H' {
        AT_COLOR_HEADER
    } else if c == 'M' {
        AT_COLOR_MARK
    } else if c == 'N' {
        AT_COLOR_LINENUM
    } else if c == 'P' {
        AT_COLOR_PROMPT
    } else if c == 'R' {
        AT_COLOR_RSCROLL
    } else if c == 'S' {
        AT_COLOR_SEARCH
    } else if c == 'W' || c == 'A' {
        AT_COLOR_ATTN
    } else if c == 'n' {
        AT_NORMAL
    } else if c == 's' {
        AT_STANDOUT
    } else if c == 'd' {
        AT_BOLD
    } else if c == 'u' {
        AT_UNDERLINE
    } else if c == 'k' {
        AT_BLINK
    } else if '1' <= c && c <= '5' {
        let d: i32 = (c as u32 - '0' as u32) as i32;
        crate::defs::AT_COLOR_SUBSEARCH(d)
    } else {
        -1
    }
}

/// What `-D` does with its value: the attribute named by its first letter, and
/// the color string after it; or the error.
pub open spec fn opt_d_spec(s: Seq<char>, use_color: bool) -> Result<(i32, Seq<char>), Seq<char>> {
    let attr = color_from_namechar_spec(s[0]);
    if attr < 0 {
        Err("Invalid color specifier '"@ + seq![s[0]] + "'"@)
    } else if !use_color && (attr & AT_COLOR) != 0 {
        Err("Set --use-color before changing colors"@)
    } else {
        Ok((attr, s.skip(1)))
    }
}

/// Handler of `-D` (`INIT`, `TOGGLE`): check the color setting `s` and give the
/// attribute it sets and its color string (see `opt_d_spec`).
pub fn opt_D(s: &str, use_color: bool) -> (r: Result<(i32, String), String>)
    requires
        s@.len() > 0,
    ensures
        r matches Ok(v) ==> opt_d_spec(s@, use_color) == Ok::<(i32, Seq<char>), Seq<char>>((v.0, v.1@)),
        r matches Err(m) ==> opt_d_spec(s@, use_color) == Err::<(i32, Seq<char>), Seq<char>>(m@),
{
    let c = s.get_char(0);
    let attr = color_from_namechar(c);
    if attr < 0 {
        let mut m = "Invalid color specifier '".to_string();
        let ghost m0 = m@;
        crate::text::push_char(&mut m, c);
        crate::text::push_str(&mut m, "'");
        assert(m@ =~= m0 + seq![s@[0]] + "'"@);
        return Err(m);
    }
    if !use_color && (attr & AT_COLOR) != 0 {
        return Err("Set --use-color before changing colors".to_string());
    }
    let rest = s.substring_char(1, s.unicode_len());
    assert(rest@ =~= s@.skip(1));
    Ok((attr, rest.to_string()))
}

/// Which prompt `-P` changes, by its first letter (`s`hort, `m`edium, long `M`,
/// `=`, `h`elp, `w`aiting): 0 to 2 the prompts, 3 that of `=`, 4 of help, 5 of
/// waiting; and where its text begins. With no such letter, the short prompt is
/// the whole value.
pub open spec fn proto_target(s: Seq<char>) -> (int, int) {
    if s.len() == 0 {
        (0, 0)
    } else if s[0] == 's' {
        (0, 1)
    } else if s[0] == 'm' {
        (1, 1)
    } else if s[0] == 'M' {
        (2, 1)
    } else if s[0] == '=' {
        (3, 1)
    } else if s[0] == 'h' {
        (4, 1)
    } else if s[0] == 'w' {
        (5, 1)
    } else {
        (0, 0)
    }
}

/// Handler of `-P`: set a prompt (see `proto_target`), or tell the prompt of
/// type `pr_type`.
#[allow(non_snake_case)]
pub fn opt__P(ty: i32, s: &str, prompts: &mut Prompts, pr_type: usize) -> (msg: Option<String>)
    requires
        old(prompts).prproto@.len() == 3,
        pr_type < 3,
    ensures
        final(prompts).prproto@.len() == 3,
        (ty == INIT || ty == TOGGLE) ==> {
            let t = proto_target(s@);
            let v = s@.skip(t.1);
            &&& msg is None
            &&& forall|k: int| 0 <= k < 3 ==> #[trigger] final(prompts).prproto@[k]@ == if k == t.0 {
                v
            } else {
                old(prompts).prproto@[k]@
            }
            &&& final(prompts).eqproto@ == if t.0 == 3 { v } else { old(prompts).eqproto@ }
            &&& final(prompts).hproto@ == if t.0 == 4 { v } else { old(prompts).hproto@ }
            &&& final(prompts).wproto@ == if t.0 == 5 { v } else { old(prompts).wproto@ }
        },
        !(ty == INIT || ty == TOGGLE) ==> {
            &&& forall|k: int| 0 <= k < 3 ==> #[trigger] final(prompts).prproto@[k]@ == old(prompts).prproto@[k]@
            &&& final(prompts).eqproto@ == old(prompts).eqproto@
            &&& final(prompts).hproto@ == old(prompts).hproto@
            &&& final(prompts).wproto@ == old(prompts).wproto@
            &&& ty == QUERY ==> (msg matches Some(m) && m@ == old(prompts).prproto@[pr_type as int]@)
            &&& ty != QUERY ==> msg is None
        },
{
    if ty == INIT || ty == TOGGLE {
        let n = s.unicode_len();
        let c = if n > 0 {
            s.get_char(0)
        } else {
            '\0'
        };
        let (which, start): (usize, usize) = if n == 0 {
            (0, 0)
        } else if c == 's' {
            (0, 1)
        } else if c == 'm' {
            (1, 1)
        } else if c == 'M' {
            (2, 1)
        } else if c == '=' {
            (3, 1)
        } else if c == 'h' {
            (4, 1)
        } else if c == 'w' {
            (5, 1)
        } else {
            (0, 0)
        };
        let v = s.substring_char(start, n).to_string();
        assert(v@ =~= s@.skip(start as int));
        if which < 3 {
            prompts.prproto.set(which, v);
        } else if which == 3 {
            prompts.eqproto = v;
        } else if which == 4 {
            prompts.hproto = v;
        } else {
            prompts.wproto = v;
        }
        None
    } else if ty == QUERY {
        Some(prompts.prproto[pr_type].clone())
    } else {
        None
    }
}

/// Handler of `--line-number-width` (`INIT`, `TOGGLE`): a width over the
/// largest is an error, and the width becomes the smallest.
pub fn opt_linenum_width(width: &mut i32) -> (msg: Option<String>)
    ensures
        *old(width) > MAX_LINENUM_WIDTH ==> *final(width) == MIN_LINENUM_WIDTH && (msg matches Some(m)
            && m@ == "Line number width must not be larger than "@ + int_text(MAX_LINENUM_WIDTH as int)),
        *old(width) <= MAX_LINENUM_WIDTH ==> *final(width) == *old(width) && msg is None,
{
    if *width > MAX_LINENUM_WIDTH {
        let mut m = "Line number width must not be larger than ".to_string();
        crate::text::push_int(&mut m, MAX_LINENUM_WIDTH as i64);
        *width = MIN_LINENUM_WIDTH;
        Some(m)
    } else {
        None
    }
}

/// Handler of `--status-column-width` (`INIT`, `TOGGLE`): a width over the
/// largest is an error, and the width becomes 2.
pub fn opt_status_col_width(width: &mut i32) -> (msg: Option<String>)
    ensures
        *old(width) > MAX_STATUSCOL_WIDTH ==> *final(width) == 2 && (msg matches Some(m) && m@
            == "Status column width must not be larger than "@ + int_text(MAX_STATUSCOL_WIDTH as int)),
        *old(width) <= MAX_STATUSCOL_WIDTH ==> *final(width) == *old(width) && msg is None,
{
    if *width > MAX_STATUSCOL_WIDTH {
        let mut m = "Status column width must not be larger than ".to_string();
        crate::text::push_int(&mut m, MAX_STATUSCOL_WIDTH as i64);
        *width = 2;
        Some(m)
    } else {
        None
    }
}

/// Handler of `-?`: as an option it only says how to get help; a query asks
/// for the help.
pub fn opt_query(ty: i32, dohelp: &mut bool) -> (msg: Option<String>)
    ensures
        (ty == INIT || ty == TOGGLE) ==> *final(dohelp) == *old(dohelp) && (msg matches Some(m) && m@
            == "Use \"h\" for help"@),
        ty == QUERY ==> *final(dohelp) && msg is None,
        !(ty == INIT || ty == TOGGLE || ty == QUERY) ==> *final(dohelp) == *old(dohelp) && msg is None,
{
    if ty == INIT || ty == TOGGLE {
        Some("Use \"h\" for help".to_string())
    } else if ty == QUERY {
        *dohelp = true;
        None
    } else {
        None
    }
}

/// Handler of `-p` (`INIT`): behaving like `more`, the value is the command
/// for each new file; else a search for it is given in advance (a `/`, the
/// pattern, and the end of the command) and `plusoption` is set.
pub fn opt_p(s: &str, less_is_more: bool, ungot: &mut Ungot, every_first_cmd: &mut String, plusoption: &mut bool)
    ensures
        less_is_more ==> final(every_first_cmd)@ == s@ && final(ungot)@ == old(ungot)@ && *final(plusoption)
            == *old(plusoption),
        !less_is_more ==> {
            &&& *final(plusoption)
            &&& final(every_first_cmd)@ == old(every_first_cmd)@
            &&& final(ungot)@ == seq![Char { ch: '\0', end_command: true }] + pushed_string(
                pushed_string(old(ungot)@, "/"@),
                s@,
            )
        },
{
    if less_is_more {
        *every_first_cmd = s.to_string();
    } else {
        *plusoption = true;
        ungot.ungetsc("/");
        ungot.ungetsc(s);
        ungot.ungetcc_end_command();
    }
}

/// Handler of `--wheel-lines` (`INIT`, `TOGGLE`): a count that is not positive
/// becomes the default.
pub fn opt_wheel_lines(wheel_lines: &mut i32, default_lines: i32)
    ensures
        *final(wheel_lines) == if *old(wheel_lines) <= 0 { default_lines } else { *old(wheel_lines) },
{
    if *wheel_lines <= 0 {
        *wheel_lines = default_lines;
    }
}


/// Handler of `--no-search-headers`: a search leaves out the header lines and
/// columns.
pub fn opt_nosearch_headers(ty: i32, nosearch_lines: &mut bool, nosearch_cols: &mut bool) -> (msg: Option<String>)
    ensures
        (ty == INIT || ty == TOGGLE) ==> *final(nosearch_lines) && *final(nosearch_cols),
        !(ty == INIT || ty == TOGGLE) ==> *final(nosearch_lines) == *old(nosearch_lines) && *final(nosearch_cols)
            == *old(nosearch_cols),
        (ty == TOGGLE || ty == QUERY) ==> (msg matches Some(m) && m@ == nosearch_headers_msg(
            *final(nosearch_lines),
            *final(nosearch_cols),
        )),
        !(ty == TOGGLE || ty == QUERY) ==> msg is None,
{
    do_nosearch_headers(ty, true, true, nosearch_lines, nosearch_cols)
}

/// Handler of `--no-search-header-lines`: a search leaves out the header lines.
pub fn opt_nosearch_header_lines(ty: i32, nosearch_lines: &mut bool, nosearch_cols: &mut bool) -> (msg: Option<
    String,
>)
    ensures
        (ty == INIT || ty == TOGGLE) ==> *final(nosearch_lines) && !*final(nosearch_cols),
        !(ty == INIT || ty == TOGGLE) ==> *final(nosearch_lines) == *old(nosearch_lines) && *final(nosearch_cols)
            == *old(nosearch_cols),
        (ty == TOGGLE || ty == QUERY) ==> (msg matches Some(m) && m@ == nosearch_headers_msg(
            *final(nosearch_lines),
            *final(nosearch_cols),
        )),
        !(ty == TOGGLE || ty == QUERY) ==> msg is None,
{
    do_nosearch_headers(ty, true, false, nosearch_lines, nosearch_cols)
}

/// Handler of `--no-search-header-columns`: a search leaves out the header
/// columns.
pub fn opt_nosearch_header_cols(ty: i32, nosearch_lines: &mut bool, nosearch_cols: &mut bool) -> (msg: Option<
    String,
>)
    ensures
        (ty == INIT || ty == TOGGLE) ==> !*final(nosearch_lines) && *final(nosearch_cols),
        !(ty == INIT || ty == TOGGLE) ==> *final(nosearch_lines) == *old(nosearch_lines) && *final(nosearch_cols)
            == *old(nosearch_cols),
        (ty == TOGGLE || ty == QUERY) ==> (msg matches Some(m) && m@ == nosearch_headers_msg(
            *final(nosearch_lines),
            *final(nosearch_cols),
        )),
        !(ty == TOGGLE || ty == QUERY) ==> msg is None,
{
    do_nosearch_headers(ty, false, true, nosearch_lines, nosearch_cols)
}

/// The header as set: lines and columns, and the number of the line it starts
/// at (0: the start of the file).
#[derive(Clone, Copy, Debug, PartialEq, Eq, Structural)]
pub struct HeaderSetting {
    pub lines: i64,
    pub cols: i64,
    pub start_line: i64,
}

/// The screen line a jump lands on once the header has `lines` lines (see
/// `calc_jump_sline_spec`); a number of lines beyond the range of screen lines
/// leaves it as it was.
pub open spec fn header_jump_spec(sc_height: int, lines: int, jump: FracSetting) -> int {
    if i32::MIN <= lines < i32::MAX {
        calc_jump_sline_spec(sc_height, lines, jump.value as int, jump.fraction as int)
    } else {
        jump.value as int
    }
}

/// What `--header` does: `INIT` keeps the value to read once a file is open;
/// `TOGGLE` reads it now and sets the header to it (see `parse_header_spec`;
/// an invalid value changes nothing); then the line a jump lands on (`jump`,
/// on a screen `sc_height` lines high) is found again, below the header.
/// `QUERY` tells the header.
pub fn opt_header(
    ty: i32,
    s: &str,
    h: &mut HeaderSetting,
    init_header: &mut String,
    jump: &mut FracSetting,
    sc_height: i32,
) -> (msg: Option<String>)
    requires
        sc_height >= 0,
        old(jump).fraction < NUM_FRAC_DENOM,
    ensures
        final(jump).fraction == old(jump).fraction,
        ty == INIT ==> final(init_header)@ == s@ && *final(h) == *old(h) && *final(jump) == *old(jump) && msg is None,
        ty == TOGGLE ==> final(init_header)@ == old(init_header)@ && match parse_header_spec(s@) {
            Ok(v) => {
                &&& msg is None
                &&& *final(h) == (HeaderSetting { lines: v.lines, cols: v.cols, start_line: v.start_line })
                &&& final(jump).value == header_jump_spec(sc_height as int, final(h).lines as int, *old(jump))
            },
            Err(part) => *final(h) == *old(h) && *final(jump) == *old(jump) && (msg matches Some(m) && m@
                == "invalid "@ + part),
        },
        ty == QUERY ==> final(init_header)@ == old(init_header)@ && *final(h) == *old(h) && *final(jump)
            == *old(jump) && (msg matches Some(m) && m@ == "Header (lines,columns,line-number) is "@ + int_text(
            old(h).lines as int,
        ) + ","@ + int_text(old(h).cols as int) + ","@ + int_text(old(h).start_line as int)),
        !(ty == INIT || ty == TOGGLE || ty == QUERY) ==> final(init_header)@ == old(init_header)@ && *final(h)
            == *old(h) && *final(jump) == *old(jump) && msg is None,
{
    if ty == INIT {
        *init_header = s.to_string();
        None
    } else if ty == TOGGLE {
        match parse_header(s) {
            Ok(v) => {
                *h = HeaderSetting { lines: v.lines, cols: v.cols, start_line: v.start_line };
                if h.lines < i32::MAX as i64 {
                    jump.value = calc_jump_sline(sc_height, h.lines as i32, jump.value, jump.fraction);
                }
                None
            },
            Err(m) => Some(m),
        }
    } else if ty == QUERY {
        let mut m = "Header (lines,columns,line-number) is ".to_string();
        crate::text::push_int(&mut m, h.lines);
        crate::text::push_str(&mut m, ",");
        crate::text::push_int(&mut m, h.cols);
        crate::text::push_str(&mut m, ",");
        crate::text::push_int(&mut m, h.start_line);
        Some(m)
    } else {
        None
    }
}


/// What a handler of an option that names a file (or a tag) asks to be done.
#[derive(Debug)]
pub enum OptStep {
    Nothing,
    Error(String),
    Message(String),
    /// Keep the value, to be used later.
    Store(String),
    /// Use the value now: expand it as a file name (or find the tag) and use it.
    Open(String),
}

/// The message that reports a file name: the text and the name in quotes.
pub open spec fn quoted_msg(what: Seq<char>, name: Seq<char>) -> Seq<char> {
    what + seq!['"'] + name + seq!['"']
}

fn quoted_msg_exec(what: &str, name: &str) -> (r: String)
    ensures
        r@ == quoted_msg(what@, name@),
{
    let mut m = what.to_string();
    crate::text::push_char(&mut m, '"');
    crate::text::push_str(&mut m, name);
    crate::text::push_char(&mut m, '"');
    m
}

fn text_of(s: &str) -> (r: String)
    ensures
        r@ == s@,
{
    s.to_string()
}

/// What the handler of `-o` gives back (see `opt_o`).
pub open spec fn opt_o_result(
    ty: i32,
    s: Seq<char>,
    allowed: bool,
    ch_flags: i32,
    log_open: bool,
    logname: Seq<char>,
    r: OptStep,
) -> bool {
    &&& !allowed ==> (r matches OptStep::Error(m) && m@ == "log file support is not available"@)
    &&& allowed && ty == INIT ==> (r matches OptStep::Store(v) && v@ == s)
    &&& allowed && ty == TOGGLE ==> {
        &&& (ch_flags & crate::defs::CH_CANSEEK) != 0 ==> (r matches OptStep::Error(m) && m@
            == "Input is not a pipe"@)
        &&& (ch_flags & crate::defs::CH_CANSEEK) == 0 && log_open ==> (r matches OptStep::Error(m) && m@
            == "Log file is already in use"@)
        &&& (ch_flags & crate::defs::CH_CANSEEK) == 0 && !log_open ==> (r matches OptStep::Open(v) && v@
            == s.skip(crate::text::skip_space_end(s, 0)))
    }
    &&& allowed && ty == QUERY ==> {
        &&& !log_open ==> (r matches OptStep::Error(m) && m@ == "No log file"@)
        &&& log_open ==> (r matches OptStep::Message(m) && m@ == quoted_msg("Log file "@, logname))
    }
    &&& allowed && !(ty == INIT || ty == TOGGLE || ty == QUERY) ==> r is Nothing
}

/// Handler of `-o` (the log file): `allowed` whether secure mode allows it,
/// `ch_flags` the flags of the input, `log_open` whether a log file is in use
/// and `logname` its name. Only a pipe can be logged, and only to one file.
pub fn opt_o(ty: i32, s: &str, allowed: bool, ch_flags: i32, log_open: bool, logname: &str) -> (r: OptStep)
    ensures
        opt_o_result(ty, s@, allowed, ch_flags, log_open, logname@, r),
{
    if !allowed {
        return OptStep::Error(text_of("log file support is not available"));
    }
    if ty == INIT {
        OptStep::Store(text_of(s))
    } else if ty == TOGGLE {
        if ch_flags & crate::defs::CH_CANSEEK != 0 {
            return OptStep::Error(text_of("Input is not a pipe"));
        }
        if log_open {
            return OptStep::Error(text_of("Log file is already in use"));
        }
        let t = crate::text::trim_start(s);
        proof {
            crate::text::lemma_skip_space_end_bounds(s@, 0);
        }
        OptStep::Open(text_of(t))
    } else if ty == QUERY {
        if !log_open {
            OptStep::Error(text_of("No log file"))
        } else {
            OptStep::Message(quoted_msg_exec("Log file ", logname))
        }
    } else {
        OptStep::Nothing
    }
}

/// Handler of `-t` (find a tag): `allowed` whether secure mode allows tags.
pub fn opt_t(ty: i32, s: &str, allowed: bool) -> (r: OptStep)
    ensures
        ty == INIT ==> (r matches OptStep::Store(v) && v@ == s@),
        ty == TOGGLE && !allowed ==> (r matches OptStep::Error(m) && m@ == "tags support is not available"@),
        ty == TOGGLE && allowed ==> (r matches OptStep::Open(v) && v@ == s@.skip(crate::text::skip_space_end(s@, 0))),
        !(ty == INIT || ty == TOGGLE) ==> r is Nothing,
{
    if ty == INIT {
        OptStep::Store(text_of(s))
    } else if ty == TOGGLE {
        if !allowed {
            OptStep::Error(text_of("tags support is not available"))
        } else {
            let t = crate::text::trim_start(s);
            proof {
                crate::text::lemma_skip_space_end_bounds(s@, 0);
            }
            OptStep::Open(text_of(t))
        }
    } else {
        OptStep::Nothing
    }
}

/// Handler of `-T` (the tags file), whose name is `tags`.
#[allow(non_snake_case)]
pub fn opt__T(ty: i32, s: &str, tags: &str) -> (r: OptStep)
    ensures
        ty == INIT ==> (r matches OptStep::Store(v) && v@ == s@),
        ty == TOGGLE ==> (r matches OptStep::Open(v) && v@ == s@.skip(crate::text::skip_space_end(s@, 0))),
        ty == QUERY ==> (r matches OptStep::Message(m) && m@ == quoted_msg("Tags file "@, tags@)),
        !(ty == INIT || ty == TOGGLE || ty == QUERY) ==> r is Nothing,
{
    if ty == INIT {
        OptStep::Store(text_of(s))
    } else if ty == TOGGLE {
        let t = crate::text::trim_start(s);
        proof {
            crate::text::lemma_skip_space_end_bounds(s@, 0);
        }
        OptStep::Open(text_of(t))
    } else if ty == QUERY {
        OptStep::Message(quoted_msg_exec("Tags file ", tags))
    } else {
        OptStep::Nothing
    }
}

/// What `-V` (`--version`) shows: the version message, or (given on the
/// command line) the banner, after which less quits.
#[derive(Debug)]
pub enum VersionOut {
    Nothing,
    Message(String),
    Banner(String),
}

/// The lines of the version banner: the version and the kind of regular
/// expressions, the copyright, a warning for an experimental build (a version
/// that ends in `x`), and where to find more.
pub open spec fn version_banner(version: Seq<char>, lib: Seq<char>) -> Seq<char> {
    "less "@ + version + " ("@ + lib + " regular expressions)\n"@ + "Copyright (C) 1984-2025  Mark Nudelman\n\n"@
        + (if version.len() > 0 && version.last() == 'x' {
        "** This is an EXPERIMENTAL build of the 'less' software,\n"@
            + "** and may not function correctly.\n"@
            + "** Obtain release builds from the web page below.\n\n"@
    } else {
        Seq::empty()
    }) + "less comes with NO WARRANTY, to the extent permitted by law.\n"@
        + "For information about the terms of redistribution,\n"@
        + "see the file named README in the less distribution.\n"@
        + "Home page: https://greenwoodsoftware.com/less\n"@
}

/// Handler of `-V`: `version` is the version of less, `lib` the name of the
/// library of regular expressions.
#[allow(non_snake_case)]
pub fn opt__V(ty: i32, version: &str, lib: &str) -> (r: VersionOut)
    ensures
        (ty == TOGGLE || ty == QUERY) ==> (r matches VersionOut::Message(m) && m@ == "less "@ + version@),
        ty == INIT ==> (r matches VersionOut::Banner(b) && b@ == version_banner(version@, lib@)),
        !(ty == INIT || ty == TOGGLE || ty == QUERY) ==> r is Nothing,
{
    if ty == TOGGLE || ty == QUERY {
        VersionOut::Message(crate::command::dispversion(version))
    } else if ty == INIT {
        let mut b = "less ".to_string();
        crate::text::push_str(&mut b, version);
        crate::text::push_str(&mut b, " (");
        crate::text::push_str(&mut b, lib);
        crate::text::push_str(&mut b, " regular expressions)\n");
        crate::text::push_str(&mut b, "Copyright (C) 1984-2025  Mark Nudelman\n\n");
        let n = version.unicode_len();
        if n > 0 && version.get_char(n - 1) == 'x' {
            crate::text::push_str(&mut b, "** This is an EXPERIMENTAL build of the 'less' software,\n");
            crate::text::push_str(&mut b, "** and may not function correctly.\n");
            crate::text::push_str(&mut b, "** Obtain release builds from the web page below.\n\n");
        }
        crate::text::push_str(&mut b, "less comes with NO WARRANTY, to the extent permitted by law.\n");
        crate::text::push_str(&mut b, "For information about the terms of redistribution,\n");
        crate::text::push_str(&mut b, "see the file named README in the less distribution.\n");
        crate::text::push_str(&mut b, "Home page: https://greenwoodsoftware.com/less\n");
        assert(b@ =~= version_banner(version@, lib@));
        VersionOut::Banner(b)
    } else {
        VersionOut::Nothing
    }
}

/// The character shown where a line is cut off (`--rscroll`), from the format
/// `fmt` and attribute `attr` that the value gives: `-` shows none; else the
/// attribute is that of the color for it, and the character the first of the
/// format (`>` for none).
pub open spec fn rscroll_spec(fmt: Seq<char>, attr: i32) -> (char, Option<i32>) {
    if fmt == seq!['-'] {
        ('\0', None)
    } else {
        (if fmt.len() == 0 { '>' } else { fmt[0] }, Some(attr | AT_COLOR_RSCROLL))
    }
}

/// The `--rscroll` setting (see `rscroll_spec`): the character (NUL: none) and
/// the new attribute, if it changes. A character wider than one column is not
/// taken (that is for the caller to check).
pub fn rscroll_setting(fmt: &str, attr: i32) -> (r: (char, Option<i32>))
    ensures
        r == rscroll_spec(fmt@, attr),
{
    let n = fmt.unicode_len();
    if n == 1 && fmt.get_char(0) == '-' {
        assert(fmt@ =~= seq!['-']);
        ('\0', None)
    } else {
        assert(fmt@ != seq!['-']);
        let c = if n == 0 {
            '>'
        } else {
            fmt.get_char(0)
        };
        (c, Some(attr | AT_COLOR_RSCROLL))
    }
}


/// Handler of `-O` (the log file, overwritten without asking): as `opt_o`; the
/// first item says that the file is then to be overwritten.
#[allow(non_snake_case)]
pub fn opt__O(ty: i32, s: &str, allowed: bool, ch_flags: i32, log_open: bool, logname: &str) -> (r: (bool, OptStep))
    ensures
        r.0,
        opt_o_result(ty, s@, allowed, ch_flags, log_open, logname@, r.1),
{
    (true, opt_o(ty, s, allowed, ch_flags, log_open, logname))
}

/// What a handler asks of the parts of the pager that hold the screen and
/// the input, once its option has changed.
#[derive(Clone, Copy, Debug, PartialEq, Eq, Structural)]
pub enum CatchUp {
    Nothing,
    /// Size the input buffers anew (`-b`).
    SetBufSpace,
    /// Search highlighting follows the new case rule (`-i`).
    ChangeCaseless,
    /// Find the start of the line at the top of the screen again (`-S`).
    Rehead,
    InitMouse,
    DeinitMouse,
    InitPaste,
    DeinitPaste,
    /// Read to the end of the input to learn its size (`--file-size`).
    ScanEof,
}

/// Handler of `-b`: the buffer space is applied when set or changed.
pub fn opt_b(ty: i32) -> (r: CatchUp)
    ensures
        r == (if ty == INIT || ty == TOGGLE { CatchUp::SetBufSpace } else { CatchUp::Nothing }),
{
    if ty == INIT || ty == TOGGLE {
        CatchUp::SetBufSpace
    } else {
        CatchUp::Nothing
    }
}

/// Handler of `-i`: a change of the case rule is passed on to the search.
pub fn opt_i(ty: i32) -> (r: CatchUp)
    ensures
        r == (if ty == TOGGLE { CatchUp::ChangeCaseless } else { CatchUp::Nothing }),
{
    if ty == TOGGLE {
        CatchUp::ChangeCaseless
    } else {
        CatchUp::Nothing
    }
}

/// Handler of `-S`: when long lines start or stop being chopped, the top line
/// is found again.
#[allow(non_snake_case)]
pub fn opt__S(ty: i32) -> (r: CatchUp)
    ensures
        r == (if ty == TOGGLE { CatchUp::Rehead } else { CatchUp::Nothing }),
{
    if ty == TOGGLE {
        CatchUp::Rehead
    } else {
        CatchUp::Nothing
    }
}

/// Handler of `--mouse`, with `mousecap` its new value.
pub fn opt_mousecap(ty: i32, mousecap: i32) -> (r: CatchUp)
    ensures
        r == (if ty != TOGGLE {
            CatchUp::Nothing
        } else if mousecap == 0 {
            CatchUp::DeinitMouse
        } else {
            CatchUp::InitMouse
        }),
{
    if ty != TOGGLE {
        CatchUp::Nothing
    } else if mousecap == 0 {
        CatchUp::DeinitMouse
    } else {
        CatchUp::InitMouse
    }
}

/// Handler of `--no-paste`, with `no_paste` its new value: bracketed paste is
/// switched on to be able to discard what is pasted.
pub fn opt_no_paste(ty: i32, no_paste: i32) -> (r: CatchUp)
    ensures
        r == (if ty != TOGGLE {
            CatchUp::Nothing
        } else if no_paste != 0 {
            CatchUp::InitPaste
        } else {
            CatchUp::DeinitPaste
        }),
{
    if ty != TOGGLE {
        CatchUp::Nothing
    } else if no_paste != 0 {
        CatchUp::InitPaste
    } else {
        CatchUp::DeinitPaste
    }
}

/// Handler of `--file-size`, with `want_filesize` its value, `has_file`
/// whether a file is open and `length_known` whether its length is known:
/// the size is found by reading to the end when it is wanted and not known.
pub fn opt_filesize(ty: i32, want_filesize: i32, has_file: bool, length_known: bool) -> (r: CatchUp)
    ensures
        r == (if (ty == INIT || ty == TOGGLE) && want_filesize != 0 && has_file && !length_known {
            CatchUp::ScanEof
        } else {
            CatchUp::Nothing
        }),
{
    if (ty == INIT || ty == TOGGLE) && want_filesize != 0 && has_file && !length_known {
        CatchUp::ScanEof
    } else {
        CatchUp::Nothing
    }
}


/// What the handler of `--rscroll` changes: the character (NUL: none), the
/// attribute, and the message to show; `None` where it leaves them.
#[derive(Debug)]
pub struct RscrollOut {
    pub ch: Option<char>,
    pub attr: Option<i32>,
    pub msg: Option<String>,
}

/// Handler of `--rscroll`. Setting it takes `fmt` and `attr`, what the value
/// gives as a format and attribute (see `rscroll_spec`), and `width`, how many
/// columns the character of the format takes: one wider than a column is
/// refused, though the attribute is taken. A query reports `current`, the
/// character in use, as `shown` prints it.
pub fn opt_rscroll(ty: i32, fmt: &str, attr: i32, width: i32, current: char, shown: &str) -> (r: RscrollOut)
    ensures
        (ty == INIT || ty == TOGGLE) ==> {
            let (c, a) = rscroll_spec(fmt@, attr);
            &&& r.attr == a
            &&& (a is None || width <= 1) ==> r.ch == Some(c) && r.msg is None
            &&& (a is Some && width > 1) ==> r.ch is None && (r.msg matches Some(m) && m@
                == "cannot set rscroll to a wide character"@)
        },
        ty == QUERY ==> {
            &&& r.ch is None
            &&& r.attr is None
            &&& r.msg matches Some(m) && m@ == "rscroll character is "@ + (if current != '\0' {
                shown@
            } else {
                "-"@
            })
        },
        !(ty == INIT || ty == TOGGLE || ty == QUERY) ==> r.ch is None && r.attr is None && r.msg is None,
{
    if ty == INIT || ty == TOGGLE {
        let (c, a) = rscroll_setting(fmt, attr);
        match a {
            None => RscrollOut { ch: Some(c), attr: None, msg: None },
            Some(na) => {
                if width > 1 {
                    RscrollOut { ch: None, attr: Some(na), msg: Some(text_of("cannot set rscroll to a wide character")) }
                } else {
                    RscrollOut { ch: Some(c), attr: Some(na), msg: None }
                }
            },
        }
    } else if ty == QUERY {
        let mut m = text_of("rscroll character is ");
        if current != '\0' {
            crate::text::push_str(&mut m, shown);
        } else {
            crate::text::push_str(&mut m, "-");
        }
        RscrollOut { ch: None, attr: None, msg: Some(m) }
    } else {
        RscrollOut { ch: None, attr: None, msg: None }
    }
}


/// Where key bindings are read from: a compiled lesskey file (`-k`), a lesskey
/// source file (`--lesskey-src`), or lesskey text given in the option itself
/// (`--lesskey-content`).
#[derive(Clone, Copy, Debug, PartialEq, Eq, Structural)]
pub enum LesskeyKind {
    File,
    Source,
    Content,
}

/// Key bindings are read only when the option is first given: the name (or
/// text) to read, at `INIT`.
fn lesskey_request(ty: i32, s: &str) -> (r: Option<String>)
    ensures
        ty == INIT ==> (r matches Some(v) && v@ == s@),
        ty != INIT ==> r is None,
{
    if ty == INIT {
        Some(text_of(s))
    } else {
        None
    }
}

/// Handler of `-k`: the lesskey file to read (see `lesskey_request`).
pub fn opt_k(ty: i32, s: &str) -> (r: Option<String>)
    ensures
        ty == INIT ==> (r matches Some(v) && v@ == s@),
        ty != INIT ==> r is None,
{
    lesskey_request(ty, s)
}

/// Handler of `--lesskey-src`: the lesskey source file to read.
pub fn opt_ks(ty: i32, s: &str) -> (r: Option<String>)
    ensures
        ty == INIT ==> (r matches Some(v) && v@ == s@),
        ty != INIT ==> r is None,
{
    lesskey_request(ty, s)
}

/// Handler of `--lesskey-content`: the lesskey text to read.
pub fn opt_kc(ty: i32, s: &str) -> (r: Option<String>)
    ensures
        ty == INIT ==> (r matches Some(v) && v@ == s@),
        ty != INIT ==> r is None,
{
    lesskey_request(ty, s)
}

/// The message when the key bindings given by `s` cannot be used.
pub fn lesskey_failure(kind: LesskeyKind, s: &str) -> (r: String)
    ensures
        kind == LesskeyKind::File ==> r@ == quoted_msg("Cannot use lesskey file "@, s@),
        kind == LesskeyKind::Source ==> r@ == quoted_msg("Cannot use lesskey source file "@, s@),
        kind == LesskeyKind::Content ==> r@ == "Error in lesskey content"@,
{
    match kind {
        LesskeyKind::File => quoted_msg_exec("Cannot use lesskey file ", s),
        LesskeyKind::Source => quoted_msg_exec("Cannot use lesskey source file ", s),
        LesskeyKind::Content => text_of("Error in lesskey content"),
    }
}

} // verus!
