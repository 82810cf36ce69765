use vstd::prelude::*;

use crate::cmdbuf::{addhist_spec, edit_line_result, CmdBuf, restored_updown, saved_updown, utf8_char_of, utf_lead_len, HistKind};
use crate::histfile::{hist_items, hist_scan, mlist_out, quoted, save_scan, section_header, trim_cr};
use crate::command::{exec_mca_matches, norm_search_type_spec, opt_first_char_spec, search_char_spec, Char, ExecMca, Mca};
use crate::commands::{commands_fits, commands_spec, reverse_dir, shift_amount, Action, CommandEnv, CommandState, StepV};
use crate::option::{
    apply_spec, bool_not, lemma_apply_shift, lemma_scan_shift, lemma_skip_more, scan_from, scan_option_spec, scan_step,
    toggle_spec, OptEventV, ScanSt,
};
use crate::opttbl::{first_with_letter, is_ascii_lower, OptAction, O_NUMBER, O_STRING, O_UNSUPPORTED};
use crate::util::is_digit_char;
use crate::optfunc::{proto_target, fraction_of, search_flag_of, search_opts_scan, search_opts_text, srch_subsearch_spec, tabs_scan};
use crate::defs::{OPT_OFF, OPT_ON, OPT_ONPLUS, SRCH_BACK, SRCH_FORW, SRCH_FIRST_FILE, SRCH_NO_MATCH, SRCH_NO_MOVE, SRCH_NO_REGEX, SRCH_PAST_EOF, SRCH_WRAP};
use crate::opttbl::{LOption, ToggleHow, O_BOOL, O_NO_TOGGLE, O_OTYPE, O_TRIPLE};
use crate::prompt::{cond_spec, expand_from, page_num_spec, percentage_spec, protochar_spec, trim_end_spec, PromptEnv, Where};

verus! {

/// A character put back with `ungetcc` is the next one read (by `get_ungot`),
/// and reading it leaves the characters as they were.
pub proof fn law_unget_read_back(st: Seq<Char>, c: char)
    ensures
        st.push(Char { ch: c, end_command: false }).last() == (Char { ch: c, end_command: false }),
        st.push(Char { ch: c, end_command: false }).drop_last() == st,
{
    assert(st.push(Char { ch: c, end_command: false }).drop_last() =~= st);
}

/// Toggling a boolean option twice gives back the table it started with (for
/// an option that can be toggled and holds 0 or 1).
pub proof fn law_toggle_bool_twice(tbl: Seq<LOption>, i: usize, lower: bool, s: Seq<char>, no_prompt: bool)
    requires
        (i as int) < tbl.len(),
        tbl[i as int].otype.kind() == O_BOOL,
        !tbl[i as int].otype.any(O_NO_TOGGLE),
        tbl[i as int].ovar matches Some(v) && (v == 0 || v == 1),
    ensures
        toggle_spec(
            toggle_spec(tbl, Some(i), lower, s, ToggleHow::Toggle, no_prompt).0,
            Some(i),
            lower,
            s,
            ToggleHow::Toggle,
            no_prompt,
        ).0 == tbl,
{
    let o = tbl[i as int];
    let v = o.ovar.unwrap();
    let t1 = toggle_spec(tbl, Some(i), lower, s, ToggleHow::Toggle, no_prompt).0;
    assert(O_BOOL & O_OTYPE == O_BOOL) by (bit_vector);
    assert(t1 == tbl.update(i as int, LOption { ovar: Some(bool_not(v)), ..o }));
    let t2 = toggle_spec(t1, Some(i), lower, s, ToggleHow::Toggle, no_prompt).0;
    assert(t2 == t1.update(i as int, LOption { ovar: Some(bool_not(bool_not(v))), ..o }));
    assert(t2 =~= tbl);
}

/// Unsetting a boolean option (`-+`) gives it its default value; setting it
/// (`-!`) the opposite of its default.
pub proof fn law_unset_set_bool(tbl: Seq<LOption>, i: usize, lower: bool, s: Seq<char>, no_prompt: bool)
    requires
        (i as int) < tbl.len(),
        tbl[i as int].otype.kind() == O_BOOL,
        tbl[i as int].ovar is Some,
    ensures
        toggle_spec(tbl, Some(i), lower, s, ToggleHow::Unset, no_prompt).0[i as int].ovar == Some(
            tbl[i as int].odefault,
        ),
        toggle_spec(tbl, Some(i), lower, s, ToggleHow::SetInverse, no_prompt).0[i as int].ovar == Some(
            bool_not(tbl[i as int].odefault),
        ),
{
    assert(O_BOOL & O_OTYPE == O_BOOL) by (bit_vector);
}

/// Inserting a character at the cursor and then erasing the character before
/// the (advanced) cursor gives back the text.
pub proof fn law_insert_then_erase(t: Seq<char>, cp: int, c: char)
    requires
        0 <= cp <= t.len(),
    ensures
        t.insert(cp, c).remove(cp + 1 - 1) == t,
{
    assert(t.insert(cp, c).remove(cp) =~= t);
}

/// Normalizing a search type twice is normalizing it once.
pub proof fn law_norm_search_type_idempotent(st: i32)
    ensures
        norm_search_type_spec(norm_search_type_spec(st)) == norm_search_type_spec(st),
{
    let e: i32 = crate::defs::SRCH_PAST_EOF;
    let w: i32 = crate::defs::SRCH_WRAP;
    assert((st & (e | w)) == (e | w) ==> ((st ^ e) & (e | w)) != (e | w)) by (bit_vector)
        requires
            e == crate::defs::SRCH_PAST_EOF,
            w == crate::defs::SRCH_WRAP,
    ;
}

/// A part of a number of screen lines or columns never exceeds the whole.
pub proof fn law_fraction_within_size(size: int, frac: int)
    requires
        0 <= size,
        0 <= frac < crate::defs::NUM_FRAC_DENOM,
    ensures
        0 <= fraction_of(size, frac) <= size,
{
    crate::optfunc::lemma_fraction_of_bound(size, frac);
}

/// The tab stops read from any text start at column 0 and increase strictly,
/// and there are at most `TABSTOP_MAX` of them.
pub proof fn law_tab_stops_increase(s: Seq<char>)
    ensures
        tabs_scan(s, 0, seq![0i32]).len() >= 1,
        tabs_scan(s, 0, seq![0i32]).len() <= crate::defs::TABSTOP_MAX,
        tabs_scan(s, 0, seq![0i32])[0] == 0,
        forall|i: int, j: int|
            0 <= i < j < tabs_scan(s, 0, seq![0i32]).len() ==> tabs_scan(s, 0, seq![0i32])[i] < tabs_scan(
                s,
                0,
                seq![0i32],
            )[j],
{
    crate::optfunc::lemma_tabs_scan_increasing(s, 0, seq![0i32]);
}

/// Is `c` plain text in a prompt prototype (none of `\`, `?`, `:`, `.`, `%`)?
pub open spec fn plain_proto_char(c: char) -> bool {
    c != '\\' && c != '?' && c != ':' && c != '.' && c != '%'
}

/// A prompt prototype with no escapes and no conditionals is its own message.
pub proof fn law_plain_prompt(env: PromptEnv, p: Seq<char>, i: int, msg: Seq<char>)
    requires
        0 <= i <= p.len(),
        forall|k: int| 0 <= k < p.len() ==> plain_proto_char(#[trigger] p[k]),
    ensures
        expand_from(env, p, i, msg) == msg + p.subrange(i, p.len() as int),
    decreases p.len() - i,
{
    if i < p.len() {
        assert(plain_proto_char(p[i]));
        law_plain_prompt(env, p, i + 1, msg.push(p[i]));
        assert(msg.push(p[i]) + p.subrange(i + 1, p.len() as int) =~= msg + p.subrange(i, p.len() as int));
    } else {
        assert(p.subrange(i, p.len() as int) =~= Seq::<char>::empty());
        assert(msg + Seq::<char>::empty() =~= msg);
    }
}

/// A command added to a history becomes its newest entry, with the mark of
/// whether it was added in this session.
pub proof fn law_addhist_newest(entries: Seq<(Seq<char>, bool)>, cmd: Seq<char>, modified: bool, no_dups: bool)
    ensures
        addhist_spec(entries, cmd, modified, no_dups).len() > 0,
        addhist_spec(entries, cmd, modified, no_dups).last().0 == cmd,
{
}

/// The two bytes of UTF-8 for a character from U+0080 to U+07FF read back as
/// that character.
pub proof fn law_utf8_two_bytes(v: int)
    requires
        0x80 <= v < 0x800,
    ensures
        ({
            let bs = seq![(0xC0 + v / 64) as u8, (0x80 + v % 64) as u8];
            utf8_char_of(bs) == Some(v)
        }),
{
    let b0 = (0xC0 + v / 64) as u8;
    let b1 = (0x80 + v % 64) as u8;
    let bs = seq![b0, b1];
    assert(2 <= v / 64 < 32);
    assert(0 <= v % 64 < 64);
    assert(b0 as int == 0xC0 + v / 64);
    assert(b1 as int == 0x80 + v % 64);
    assert(utf_lead_len(b0) == 2);
    assert(crate::cmdbuf::is_utf8_trail(bs[1]));
    assert(crate::cmdbuf::utf8_well_formed(bs));
    assert((b0 - 0xC0) * 64 + (b1 - 0x80) == v);
}

/// The three bytes of UTF-8 for a character from U+0800 to U+FFFF (not a
/// surrogate) read back as that character.
pub proof fn law_utf8_three_bytes(v: int)
    requires
        0x800 <= v < 0x10000,
        !(0xD800 <= v <= 0xDFFF),
    ensures
        ({
            let bs = seq![(0xE0 + v / 4096) as u8, (0x80 + (v / 64) % 64) as u8, (0x80 + v % 64) as u8];
            utf8_char_of(bs) == Some(v)
        }),
{
    let b0 = (0xE0 + v / 4096) as u8;
    let b1 = (0x80 + (v / 64) % 64) as u8;
    let b2 = (0x80 + v % 64) as u8;
    let bs = seq![b0, b1, b2];
    assert(0 <= v / 4096 < 16);
    assert(b0 as int == 0xE0 + v / 4096);
    assert(b1 as int == 0x80 + (v / 64) % 64);
    assert(b2 as int == 0x80 + v % 64);
    assert(utf_lead_len(b0) == 3);
    assert(crate::cmdbuf::is_utf8_trail(bs[1]));
    assert(crate::cmdbuf::is_utf8_trail(bs[2]));
    assert(v / 4096 == 0 ==> (v / 64) % 64 >= 32);
    assert(crate::cmdbuf::utf8_well_formed(bs));
    assert((v / 4096) * 4096 + ((v / 64) % 64) * 64 + v % 64 == v) by (nonlinear_arith)
        requires
            v >= 0,
    ;
    assert((b0 - 0xE0) * 4096 + (b1 - 0x80) * 64 + (b2 - 0x80) == v);
}


/// The flags that the letters of `t` from `i` on set together (every letter
/// naming a flag).
pub open spec fn flags_from(t: Seq<char>, i: int) -> i32
    decreases t.len() - i,
{
    if i < 0 || i >= t.len() {
        0
    } else {
        match search_flag_of(t[i]) {
            Some(f) => f | flags_from(t, i + 1),
            None => 0,
        }
    }
}

/// Does every character of `t` name a search flag?
pub open spec fn all_flag_letters(t: Seq<char>) -> bool {
    forall|k: int| 0 <= k < t.len() ==> #[trigger] search_flag_of(t[k]) is Some
}

proof fn lemma_scan_flags(t: Seq<char>, i: int, st: i32)
    requires
        0 <= i <= t.len(),
        all_flag_letters(t),
    ensures
        search_opts_scan(t, i, st) == Ok::<i32, char>(st | flags_from(t, i)),
    decreases t.len() - i,
{
    if i < t.len() {
        assert(search_flag_of(t[i]) is Some);
        let f = search_flag_of(t[i]).unwrap();
        lemma_scan_flags(t, i + 1, st | f);
        lemma_or_assoc(st, f, flags_from(t, i + 1));
    } else {
        lemma_or_zero(st);
    }
}

proof fn lemma_flags_from_concat(a: Seq<char>, b: Seq<char>, i: int)
    requires
        0 <= i <= a.len(),
        all_flag_letters(a),
        all_flag_letters(b),
    ensures
        flags_from(a + b, i) == flags_from(a, i) | flags_from(b, 0),
    decreases a.len() - i,
{
    if i < a.len() {
        lemma_flags_from_concat(a, b, i + 1);
        assert((a + b)[i] == a[i]);
        assert(search_flag_of(a[i]) is Some);
        let f = search_flag_of(a[i]).unwrap();
        lemma_or_assoc(f, flags_from(a, i + 1), flags_from(b, 0));
    } else {
        lemma_flags_from_shift(a, b, 0);
        lemma_or_zero(flags_from(b, 0));
    }
}

proof fn lemma_flags_from_shift(a: Seq<char>, b: Seq<char>, j: int)
    requires
        0 <= j <= b.len(),
    ensures
        flags_from(a + b, a.len() + j) == flags_from(b, j),
    decreases b.len() - j,
{
    if j < b.len() {
        lemma_flags_from_shift(a, b, j + 1);
        assert((a + b)[a.len() + j] == b[j]);
    }
}

/// The flag of a letter that appears exactly when the flag `f` (one bit) of
/// `d` is set: `d & f`.
proof fn lemma_optional_letter(d: i32, f: i32, c: char)
    requires
        search_flag_of(c) == Some(f),
        f == SRCH_PAST_EOF || f == SRCH_FIRST_FILE || f == SRCH_NO_MOVE || f == SRCH_NO_MATCH || f == SRCH_NO_REGEX
            || f == SRCH_WRAP || f == srch_subsearch_spec(1) || f == srch_subsearch_spec(2) || f
            == srch_subsearch_spec(3) || f == srch_subsearch_spec(4) || f == srch_subsearch_spec(5),
    ensures
        all_flag_letters(if d & f != 0 { seq![c] } else { Seq::<char>::empty() }),
        flags_from(if d & f != 0 { seq![c] } else { Seq::<char>::empty() }, 0) == d & f,
{
    let t = if d & f != 0 { seq![c] } else { Seq::<char>::empty() };
    assert forall|k: int| 0 <= k < t.len() implies #[trigger] search_flag_of(t[k]) is Some by {
        assert(t[k] == c);
    }
    lemma_single_bits(f);
    if d & f != 0 {
        assert(flags_from(t, 1) == 0);
        assert(t[0] == c);
        lemma_or_zero(f);
        lemma_single_bit_and(d, f);
    }
}


proof fn lemma_or_assoc(a: i32, b: i32, c: i32)
    ensures
        (a | b) | c == a | (b | c),
{
    assert((a | b) | c == a | (b | c)) by (bit_vector);
}

proof fn lemma_or_zero(a: i32)
    ensures
        a | 0 == a,
        0i32 | a == a,
{
    assert(a | 0 == a && 0i32 | a == a) by (bit_vector);
}

/// Each flag of `--search-options` is a single bit.
pub open spec fn is_search_opt_bit(f: i32) -> bool {
    f == 1i32 << 9u32 || f == 1i32 << 10u32 || f == 1i32 << 2u32 || f == 1i32 << 8u32 || f == 1i32 << 12u32 || f
        == 1i32 << 15u32 || f == 1i32 << 18u32 || f == 1i32 << 19u32 || f == 1i32 << 20u32 || f == 1i32 << 21u32 || f
        == 1i32 << 22u32
}

proof fn lemma_single_bits(f: i32)
    requires
        f == SRCH_PAST_EOF || f == SRCH_FIRST_FILE || f == SRCH_NO_MOVE || f == SRCH_NO_MATCH || f == SRCH_NO_REGEX
            || f == SRCH_WRAP || f == srch_subsearch_spec(1) || f == srch_subsearch_spec(2) || f
            == srch_subsearch_spec(3) || f == srch_subsearch_spec(4) || f == srch_subsearch_spec(5),
    ensures
        is_search_opt_bit(f),
{
    assert(SRCH_PAST_EOF == 1i32 << 9u32) by (bit_vector);
    assert(SRCH_FIRST_FILE == 1i32 << 10u32) by (bit_vector);
    assert(SRCH_NO_MOVE == 1i32 << 2u32) by (bit_vector);
    assert(SRCH_NO_MATCH == 1i32 << 8u32) by (bit_vector);
    assert(SRCH_NO_REGEX == 1i32 << 12u32) by (bit_vector);
    assert(SRCH_WRAP == 1i32 << 15u32) by (bit_vector);
}

proof fn lemma_single_bit_and(d: i32, f: i32)
    requires
        is_search_opt_bit(f),
        d & f != 0,
    ensures
        d & f == f,
{
    assert(d & f != 0 ==> d & f == f) by (bit_vector)
        requires
            f == 1i32 << 9u32 || f == 1i32 << 10u32 || f == 1i32 << 2u32 || f == 1i32 << 8u32 || f == 1i32 << 12u32
                || f == 1i32 << 15u32 || f == 1i32 << 18u32 || f == 1i32 << 19u32 || f == 1i32 << 20u32 || f == 1i32
                << 21u32 || f == 1i32 << 22u32,
    ;
}


proof fn lemma_all_flag_letters_concat(a: Seq<char>, b: Seq<char>)
    requires
        all_flag_letters(a),
        all_flag_letters(b),
    ensures
        all_flag_letters(a + b),
{
    assert forall|k: int| 0 <= k < (a + b).len() implies #[trigger] search_flag_of((a + b)[k]) is Some by {
        if k < a.len() {
            assert((a + b)[k] == a[k]);
            assert(search_flag_of(a[k]) is Some);
        } else {
            assert((a + b)[k] == b[k - a.len()]);
            assert(search_flag_of(b[k - a.len()]) is Some);
        }
    }
}

/// The letter, if the flag `f` of `d` is set.
pub open spec fn opt_letter(d: i32, f: i32, c: char) -> Seq<char> {
    if d & f != 0 {
        seq![c]
    } else {
        Seq::empty()
    }
}

/// Add the optional letter of flag `f` to the text `acc` of flags `x`.
proof fn lemma_add_letter(acc: Seq<char>, x: i32, d: i32, f: i32, c: char)
    requires
        all_flag_letters(acc),
        flags_from(acc, 0) == x,
        search_flag_of(c) == Some(f),
        f == SRCH_PAST_EOF || f == SRCH_FIRST_FILE || f == SRCH_NO_MOVE || f == SRCH_NO_MATCH || f == SRCH_NO_REGEX
            || f == SRCH_WRAP || f == srch_subsearch_spec(1) || f == srch_subsearch_spec(2) || f
            == srch_subsearch_spec(3) || f == srch_subsearch_spec(4) || f == srch_subsearch_spec(5),
    ensures
        all_flag_letters(acc + opt_letter(d, f, c)),
        flags_from(acc + opt_letter(d, f, c), 0) == x | (d & f),
{
    lemma_optional_letter(d, f, c);
    lemma_all_flag_letters_concat(acc, opt_letter(d, f, c));
    lemma_flags_from_concat(acc, opt_letter(d, f, c), 0);
}

/// All the flags that `--search-options` can set.
pub open spec fn search_opts_all() -> i32 {
    SRCH_PAST_EOF | SRCH_FIRST_FILE | SRCH_NO_MOVE | SRCH_NO_MATCH | SRCH_NO_REGEX | SRCH_WRAP | srch_subsearch_spec(1)
        | srch_subsearch_spec(2) | srch_subsearch_spec(3) | srch_subsearch_spec(4) | srch_subsearch_spec(5)
}

/// Reading back the letters that a query of `--search-options` shows gives the
/// flags of the search type that it can set.
#[verifier::spinoff_prover]
pub proof fn law_search_options_roundtrip(d: i32)
    ensures
        search_opts_scan(search_opts_text(d), 0, 0) == Ok::<i32, char>(d & search_opts_all()),
{
    let e = Seq::<char>::empty();
    assert(all_flag_letters(e));
    assert(flags_from(e, 0) == 0);
    let t1 = e + opt_letter(d, SRCH_PAST_EOF, 'E');
    lemma_add_letter(e, 0, d, SRCH_PAST_EOF, 'E');
    let t2 = t1 + opt_letter(d, SRCH_FIRST_FILE, 'F');
    lemma_add_letter(t1, 0 | (d & SRCH_PAST_EOF), d, SRCH_FIRST_FILE, 'F');
    let x2 = (0 | (d & SRCH_PAST_EOF)) | (d & SRCH_FIRST_FILE);
    let t3 = t2 + opt_letter(d, SRCH_NO_MOVE, 'K');
    lemma_add_letter(t2, x2, d, SRCH_NO_MOVE, 'K');
    let x3 = x2 | (d & SRCH_NO_MOVE);
    let t4 = t3 + opt_letter(d, SRCH_NO_MATCH, 'N');
    lemma_add_letter(t3, x3, d, SRCH_NO_MATCH, 'N');
    let x4 = x3 | (d & SRCH_NO_MATCH);
    let t5 = t4 + opt_letter(d, SRCH_NO_REGEX, 'R');
    lemma_add_letter(t4, x4, d, SRCH_NO_REGEX, 'R');
    let x5 = x4 | (d & SRCH_NO_REGEX);
    let t6 = t5 + opt_letter(d, SRCH_WRAP, 'W');
    lemma_add_letter(t5, x5, d, SRCH_WRAP, 'W');
    let x6 = x5 | (d & SRCH_WRAP);
    let s1 = srch_subsearch_spec(1);
    let s2 = srch_subsearch_spec(2);
    let s3 = srch_subsearch_spec(3);
    let s4 = srch_subsearch_spec(4);
    let s5 = srch_subsearch_spec(5);
    let t7 = t6 + opt_letter(d, s1, '1');
    lemma_add_letter(t6, x6, d, s1, '1');
    let x7 = x6 | (d & s1);
    let t8 = t7 + opt_letter(d, s2, '2');
    lemma_add_letter(t7, x7, d, s2, '2');
    let x8 = x7 | (d & s2);
    let t9 = t8 + opt_letter(d, s3, '3');
    lemma_add_letter(t8, x8, d, s3, '3');
    let x9 = x8 | (d & s3);
    let t10 = t9 + opt_letter(d, s4, '4');
    lemma_add_letter(t9, x9, d, s4, '4');
    let x10 = x9 | (d & s4);
    let t11 = t10 + opt_letter(d, s5, '5');
    lemma_add_letter(t10, x10, d, s5, '5');
    let x11 = x10 | (d & s5);
    assert(t11 =~= (if d & SRCH_PAST_EOF != 0 { seq!['E'] } else { Seq::empty() }) + (if d & SRCH_FIRST_FILE != 0 {
        seq!['F']
    } else {
        Seq::empty()
    }) + (if d & SRCH_NO_MOVE != 0 { seq!['K'] } else { Seq::empty() }) + (if d & SRCH_NO_MATCH != 0 {
        seq!['N']
    } else {
        Seq::empty()
    }) + (if d & SRCH_NO_REGEX != 0 { seq!['R'] } else { Seq::empty() }) + (if d & SRCH_WRAP != 0 {
        seq!['W']
    } else {
        Seq::empty()
    }) + (if d & s1 != 0 { seq!['1'] } else { Seq::empty() }) + (if d & s2 != 0 { seq!['2'] } else { Seq::empty() })
        + (if d & s3 != 0 { seq!['3'] } else { Seq::empty() }) + (if d & s4 != 0 { seq!['4'] } else { Seq::empty() })
        + (if d & s5 != 0 { seq!['5'] } else { Seq::empty() }));
    assert(SRCH_PAST_EOF == 1i32 << 9u32) by (bit_vector);
    assert(SRCH_FIRST_FILE == 1i32 << 10u32) by (bit_vector);
    assert(SRCH_NO_MOVE == 1i32 << 2u32) by (bit_vector);
    assert(SRCH_NO_MATCH == 1i32 << 8u32) by (bit_vector);
    assert(SRCH_NO_REGEX == 1i32 << 12u32) by (bit_vector);
    assert(SRCH_WRAP == 1i32 << 15u32) by (bit_vector);
    lemma_combine_bits(d, x11);
    lemma_scan_flags(t11, 0, 0);
    lemma_or_zero(x11);
    if t11.len() == 0 {
        assert(d & SRCH_PAST_EOF == 0 && d & SRCH_FIRST_FILE == 0 && d & SRCH_NO_MOVE == 0 && d & SRCH_NO_MATCH == 0
            && d & SRCH_NO_REGEX == 0 && d & SRCH_WRAP == 0 && d & s1 == 0 && d & s2 == 0 && d & s3 == 0 && d & s4
            == 0 && d & s5 == 0);
        lemma_none_set(d);
        let m = seq!['-'];
        assert(search_flag_of(m[0]) is None);
        assert(search_opts_scan(m, 1, 0) == Ok::<i32, char>(0));
    }
}

proof fn lemma_combine_bits(d: i32, x11: i32)
    requires
        x11 == (((((((((((0i32 | (d & (1i32 << 9u32))) | (d & (1i32 << 10u32))) | (d & (1i32 << 2u32))) | (d & (1i32
            << 8u32))) | (d & (1i32 << 12u32))) | (d & (1i32 << 15u32))) | (d & (1i32 << 18u32))) | (d & (1i32
            << 19u32))) | (d & (1i32 << 20u32))) | (d & (1i32 << 21u32))) | (d & (1i32 << 22u32))),
    ensures
        x11 == d & search_opts_all(),
{
    assert(x11 == d & search_opts_all()) by (bit_vector)
        requires
            x11 == (((((((((((0i32 | (d & (1i32 << 9u32))) | (d & (1i32 << 10u32))) | (d & (1i32 << 2u32))) | (d & (
                1i32 << 8u32))) | (d & (1i32 << 12u32))) | (d & (1i32 << 15u32))) | (d & (1i32 << 18u32))) | (d & (
                1i32 << 19u32))) | (d & (1i32 << 20u32))) | (d & (1i32 << 21u32))) | (d & (1i32 << 22u32))),
    ;
}

proof fn lemma_none_set(d: i32)
    requires
        d & (1i32 << 9u32) == 0,
        d & (1i32 << 10u32) == 0,
        d & (1i32 << 2u32) == 0,
        d & (1i32 << 8u32) == 0,
        d & (1i32 << 12u32) == 0,
        d & (1i32 << 15u32) == 0,
        d & (1i32 << 18u32) == 0,
        d & (1i32 << 19u32) == 0,
        d & (1i32 << 20u32) == 0,
        d & (1i32 << 21u32) == 0,
        d & (1i32 << 22u32) == 0,
    ensures
        d & search_opts_all() == 0,
{
    assert(d & search_opts_all() == 0) by (bit_vector)
        requires
            d & (1i32 << 9u32) == 0,
            d & (1i32 << 10u32) == 0,
            d & (1i32 << 2u32) == 0,
            d & (1i32 << 8u32) == 0,
            d & (1i32 << 12u32) == 0,
            d & (1i32 << 15u32) == 0,
            d & (1i32 << 18u32) == 0,
            d & (1i32 << 19u32) == 0,
            d & (1i32 << 20u32) == 0,
            d & (1i32 << 21u32) == 0,
            d & (1i32 << 22u32) == 0,
    ;
}


/// Searching in the other direction twice (`N` after `N`) goes the way the
/// search went at first, for a search type with one direction.
pub proof fn law_reverse_search_twice(st: i32)
    requires
        (st & SRCH_FORW != 0) != (st & SRCH_BACK != 0),
    ensures
        reverse_dir(reverse_dir(st)) == st,
        (reverse_dir(st) & SRCH_FORW != 0) == (st & SRCH_BACK != 0),
{
    let f: i32 = SRCH_FORW;
    let b: i32 = SRCH_BACK;
    assert(((st & f != 0) != (st & b != 0)) ==> (
        (st & f != 0 ==> ((((st & !f) | b) & f) == 0 && ((((st & !f) | b) & !b) | f) == st))
        && (st & f == 0 ==> ((((st & !b) | f) & f) != 0 && ((((st & !b) | f) & !f) | b) == st))
    )) by (bit_vector)
        requires
            f == SRCH_FORW,
            b == SRCH_BACK,
    ;
}

/// Shifting right by `n` columns and then left by `n` columns gives back the
/// horizontal shift (and leaves `n` as the shift count).
pub proof fn law_shift_right_then_left(s: CommandState, e: CommandEnv, n: i64)
    requires
        0 < n <= i32::MAX,
        s.number == n,
        0 <= s.hshift,
        s.hshift + n <= i32::MAX,
    ensures
        ({
            let r = commands_spec(s, e, Action::RShift).0;
            let l = commands_spec(r, e, Action::LShift).0;
            &&& commands_fits(s, e, Action::RShift)
            &&& commands_fits(r, e, Action::LShift)
            &&& l.hshift == s.hshift
            &&& l.shift_count == n
        }),
{
    assert((n as i32) as int == n as int);
}


/// Shifting left moves the view left by the shift amount (the number typed,
/// else the shift count, else half the screen), but not past the left edge;
/// a number typed becomes the shift count, and the screen is redrawn.
pub proof fn law_left_shift(s: CommandState, e: CommandEnv)
    requires
        0 <= s.hshift,
        s.number <= i32::MAX,
        commands_fits(s, e, Action::LShift),
    ensures
        ({
            let (r, step) = commands_spec(s, e, Action::LShift);
            let d = shift_amount(s, e);
            &&& r.hshift == s.hshift - (if d < s.hshift { d } else { s.hshift as i64 })
            &&& r.hshift >= 0
            &&& s.number > 0 ==> r.shift_count == s.number
            &&& step == StepV::Rehead
        }),
{
}

/// The entries of a history that were added in this session, as items of the
/// history `k` read from a history file.
pub open spec fn session_items(k: HistKind, ev: Seq<(Seq<char>, bool)>) -> Seq<(Option<HistKind>, Seq<char>)>
    decreases ev.len(),
{
    if ev.len() == 0 {
        Seq::empty()
    } else {
        let p = session_items(k, ev.drop_last());
        if ev.last().1 {
            p.push((Some(k), ev.last().0))
        } else {
            p
        }
    }
}

proof fn lemma_mlist_out_len(ev: Seq<(Seq<char>, bool)>)
    ensures
        mlist_out(ev).len() <= ev.len(),
        forall|j: int| 0 <= j < mlist_out(ev).len() ==> (#[trigger] mlist_out(ev)[j]).len() > 0 && mlist_out(ev)[j][0] == '"',
    decreases ev.len(),
{
    if ev.len() > 0 {
        lemma_mlist_out_len(ev.drop_last());
    }
}

/// Reading the lines written for the new entries of a history, in its section,
/// gives those entries back.
proof fn lemma_read_section(lines: Seq<Seq<char>>, i: int, k: HistKind, ev: Seq<(Seq<char>, bool)>)
    requires
        0 <= i,
        i + mlist_out(ev).len() <= lines.len(),
        lines.subrange(i, i + mlist_out(ev).len()) == mlist_out(ev),
    ensures
        hist_scan(lines, i, Some(k), 0, 0) == session_items(k, ev) + hist_scan(
            lines,
            i + mlist_out(ev).len(),
            Some(k),
            0,
            0,
        ),
    decreases ev.len(),
{
    reveal_strlit(".search");
    reveal_strlit(".shell");
    reveal_strlit(".mark");
    if ev.len() == 0 {
        assert(session_items(k, ev) =~= Seq::<(Option<HistKind>, Seq<char>)>::empty());
    } else {
        let d = ev.drop_last();
        let m = mlist_out(d).len() as int;
        assert(lines.subrange(i, i + m) =~= mlist_out(d)) by {
            assert(mlist_out(ev).subrange(0, m) =~= mlist_out(d));
            assert(lines.subrange(i, i + m) =~= lines.subrange(i, i + mlist_out(ev).len()).subrange(0, m));
        }
        lemma_read_section(lines, i, k, d);
        if ev.last().1 {
            let l = lines[i + m];
            assert(l == mlist_out(ev)[m]);
            assert(l == quoted(ev.last().0));
            assert(l[0] == '"');
            assert(l != ".search"@ && l != ".shell"@ && l != ".mark"@);
            assert(l.skip(1) =~= ev.last().0);
            assert(hist_scan(lines, i + m, Some(k), 0, 0) == seq![(Some(k), ev.last().0)] + hist_scan(
                lines,
                i + m + 1,
                Some(k),
                0,
                0,
            ));
            assert(session_items(k, d) + (seq![(Some(k), ev.last().0)] + hist_scan(lines, i + m + 1, Some(k), 0, 0))
                =~= session_items(k, ev) + hist_scan(lines, i + m + 1, Some(k), 0, 0));
        }
    }
}

/// The lines of a history section: its header and the new entries.
pub open spec fn section_lines(k: HistKind, l: (Seq<(Seq<char>, bool)>, bool)) -> Seq<Seq<char>> {
    if l.1 {
        section_header(k) + mlist_out(l.0)
    } else {
        Seq::empty()
    }
}

/// A history file written from histories with no old file to copy holds, read
/// back, the entries that were added to the search and to the shell history in
/// this session, in that order.
pub proof fn law_history_read_back(s: (Seq<(Seq<char>, bool)>, bool), h: (Seq<(Seq<char>, bool)>, bool))
    ensures
        hist_items(
            seq![".less-history-file:"@] + save_scan(Seq::empty(), 0, None, s, h).0,
            0,
            0,
        ) == (if s.1 { session_items(HistKind::Search, s.0) } else { Seq::empty() }) + (if h.1 {
            session_items(HistKind::Shell, h.0)
        } else {
            Seq::empty()
        }),
{
    reveal_strlit(".search");
    reveal_strlit(".shell");
    reveal_strlit(".mark");
    reveal_strlit(".less-history-file:");
    let hdr = ".less-history-file:"@;
    let a = section_lines(HistKind::Search, s);
    let b = section_lines(HistKind::Shell, h);
    let lines = seq![hdr] + (a + b);
    assert(save_scan(Seq::empty(), 0, None, s, h).0 =~= a + b);
    assert(seq![hdr] + save_scan(Seq::empty(), 0, None, s, h).0 =~= lines);
    assert(trim_cr(hdr) == hdr) by {
        assert(hdr.last() == ':');
    }
    let ia = 1 + a.len() as int;
    let n = lines.len() as int;
    let sa = if s.1 { session_items(HistKind::Search, s.0) } else { Seq::<(Option<HistKind>, Seq<char>)>::empty() };
    let sb = if h.1 { session_items(HistKind::Shell, h.0) } else { Seq::<(Option<HistKind>, Seq<char>)>::empty() };
    // The section of the shell history, and the end.
    assert(hist_scan(lines, n, Some(HistKind::Shell), 0, 0) =~= Seq::<(Option<HistKind>, Seq<char>)>::empty());
    assert(hist_scan(lines, n, Some(HistKind::Search), 0, 0) =~= Seq::<(Option<HistKind>, Seq<char>)>::empty());
    assert(hist_scan(lines, n, None, 0, 0) =~= Seq::<(Option<HistKind>, Seq<char>)>::empty());
    assert(forall|cur: Option<HistKind>| hist_scan(lines, ia, cur, 0, 0) == sb) by {
        if h.1 {
            assert(lines[ia] == ".shell"@);
            assert(lines.subrange(ia + 1, ia + 1 + mlist_out(h.0).len()) =~= mlist_out(h.0));
            lemma_read_section(lines, ia + 1, HistKind::Shell, h.0);
            assert(ia + 1 + mlist_out(h.0).len() == n);
            assert(sb + Seq::<(Option<HistKind>, Seq<char>)>::empty() =~= sb);
        } else {
            assert(ia == n);
        }
    }
    if s.1 {
        assert(lines[1] == ".search"@);
        assert(lines.subrange(2, 2 + mlist_out(s.0).len() as int) =~= mlist_out(s.0));
        lemma_read_section(lines, 2, HistKind::Search, s.0);
        assert(2 + mlist_out(s.0).len() == ia);
    } else {
        assert(ia == 1);
        assert(sa + sb =~= sb);
    }
}



/// Restoring the prefix of history moves that was saved (around a search that
/// forgets it) gives back the same prefix, or none if moves had not begun.
pub proof fn law_updown_save_restore(b: CmdBuf)
    requires
        b.wf(),
    ensures
        restored_updown(saved_updown(b.updown())) == b.updown(),
{
    b.lemma_updown_fits();
}



/// An option argument that starts with a digit sets the window size, as if
/// `z` stood before the number: `-20` does what `-z20` does.
#[verifier::spinoff_prover]
#[verifier::rlimit(60)]
pub proof fn law_digits_set_window(tbl: Seq<LOption>, plus: bool, x: Seq<char>, is_env: bool, lim: bool)
    requires
        x.len() > 0,
        is_digit_char(x[0]),
        first_with_letter(tbl, 'z', 0) matches Some(i) ==> tbl[i].otype.kind() == O_NUMBER,
    ensures
        scan_option_spec(tbl, None, plus, seq!['-'] + x, is_env, lim) == scan_option_spec(
            tbl,
            None,
            plus,
            seq!['-', 'z'] + x,
            is_env,
            lim,
        ),
{
    let s1 = seq!['-'] + x;
    let s2 = seq!['-', 'z'] + x;
    let st = ScanSt { tbl, pending: None, plus, evs: Seq::empty() };
    assert(s1[0] == '-' && s1[1] == x[0]);
    assert(s2[0] == '-' && s2[1] == 'z');
    assert(scan_step(st, s1, 0, false, is_env, lim) == (st, Some((1int, false))));
    assert(scan_step(st, s2, 0, false, is_env, lim) == (st, Some((1int, false))));
    assert(scan_from(st, s1, 0, false, is_env, lim) == scan_from(st, s1, 1, false, is_env, lim));
    assert(scan_from(st, s2, 0, false, is_env, lim) == scan_from(st, s2, 1, false, is_env, lim));
    assert(s1.skip(1) =~= x);
    assert(s2.skip(2) =~= x);
    match first_with_letter(tbl, 'z', 0) {
        None => {
            assert(scan_step(st, s1, 1, false, is_env, lim) == scan_step(st, s2, 1, false, is_env, lim));
        },
        Some(i) => {
            let lc = is_ascii_lower('z');
            crate::opttbl::lemma_first_with_letter_in_range(tbl, 'z', 0);
            assert(crate::text::skip_space_end(x, 0) == 0);
            assert(x.subrange(0, x.len() as int) =~= x);
            crate::util::lemma_str_to_int_digit_start(x);
            assert(s1.subrange(1, s1.len() as int) =~= x);
            lemma_apply_shift(st, i, s1, 1, s2, 2, lc, false, is_env, seq!['-', 'z']);
            let a1 = apply_spec(st, i, s1, 1, lc, false, is_env, seq!['-', 'z']);
            let a2 = apply_spec(st, i, s2, 2, lc, false, is_env, seq!['-', 'z']);
            assert(scan_step(st, s1, 1, false, is_env, lim).0 == a1.0);
            assert(scan_step(st, s2, 1, false, is_env, lim).0 == a2.0);
            match a1.1 {
                Some(n1) => {
                    let n2 = n1 + 1;
                    assert(a2.1 == Some(n2));
                    assert(scan_step(st, s1, 1, false, is_env, lim).1 == Some((n1, false)));
                    assert(scan_step(st, s2, 1, false, is_env, lim).1 == Some((n2, false)));
                    if 1 < n1 && n1 <= s1.len() {
                        lemma_skip_more(s1, 1, s2, 2, n1 - 1);
                        lemma_scan_shift(a1.0, s1, n1, s2, n2, false, is_env, lim);
                        assert(scan_from(st, s1, 1, false, is_env, lim) == scan_from(a1.0, s1, n1, false, is_env, lim));
                        assert(scan_from(st, s2, 1, false, is_env, lim) == scan_from(a1.0, s2, n2, false, is_env, lim));
                    } else {
                        assert(n1 > s1.len());
                    }
                },
                None => {
                    assert(a2.1 is None);
                    assert(scan_from(st, s1, 1, false, is_env, lim) == a1.0);
                    assert(scan_from(st, s2, 1, false, is_env, lim) == a2.0);
                },
            }
        },
    }
}

/// A string option given without its value (`-j` alone) waits for it: the
/// next argument is its value, handed to its handler for initialization.
pub proof fn law_string_option_waits(
    tbl: Seq<LOption>,
    c: char,
    i: int,
    plus: bool,
    v: Seq<char>,
    is_env: bool,
    lim: bool,
)
    requires
        first_with_letter(tbl, c, 0) == Some(i),
        0 <= i < tbl.len() <= usize::MAX,
        tbl[i].otype.kind() == O_STRING,
        !(c == ' ' || c == '\t' || c == '$' || c == '-' || c == '+' || is_digit_char(c) || (c == 'n' && lim)),
        v.len() > 0,
    ensures
        scan_option_spec(tbl, None, plus, seq!['-', c], is_env, lim) == (ScanSt {
            tbl,
            pending: Some(i as usize),
            plus,
            evs: Seq::empty(),
        }),
        scan_option_spec(tbl, Some(i as usize), plus, v, is_env, lim) == (ScanSt {
            tbl,
            pending: None,
            plus,
            evs: if tbl[i].ofunc is Some && !tbl[i].otype.any(O_UNSUPPORTED) {
                seq![OptEventV::Handler { index: i, action: OptAction::Init, arg: Some(v) }]
            } else {
                Seq::empty()
            },
        }),
{
    let s = seq!['-', c];
    let st = ScanSt { tbl, pending: None, plus, evs: Seq::empty() };
    assert(s[0] == '-' && s[1] == c && s.len() == 2);
    assert(scan_step(st, s, 0, false, is_env, lim) == (st, Some((1int, false))));
    assert(scan_from(st, s, 0, false, is_env, lim) == scan_from(st, s, 1, false, is_env, lim));
    assert(s.subrange(2, 2) =~= Seq::<char>::empty());
    assert(apply_spec(st, i, s, 2, is_ascii_lower(c), false, is_env, seq!['-', c]) == (ScanSt {
        pending: Some(i as usize),
        ..st
    }, None::<int>));
    assert(scan_from(st, s, 1, false, is_env, lim) == ScanSt { pending: Some(i as usize), ..st });
    let st2 = ScanSt { tbl, pending: Some(i as usize), plus, evs: Seq::empty() };
    assert(st2.evs.push(OptEventV::Handler { index: i, action: OptAction::Init, arg: Some(v) }) =~= seq![
        OptEventV::Handler { index: i, action: OptAction::Init, arg: Some(v) },
    ]);
}


/// The entries `a` of history `k`, as the items read from a history file give
/// them.
pub open spec fn items_of(k: HistKind, a: Seq<Seq<char>>) -> Seq<(Option<HistKind>, Seq<char>)> {
    a.map_values(|x: Seq<char>| (Some(k), x))
}

/// The lines of a section of a history file that hold the entries `a`.
pub open spec fn quoted_lines(a: Seq<Seq<char>>) -> Seq<Seq<char>> {
    a.map_values(|x: Seq<char>| quoted(x))
}

/// `a` without its first `n` entries (none left if it has fewer).
pub open spec fn drop_n(a: Seq<Seq<char>>, n: int) -> Seq<Seq<char>> {
    if n < a.len() {
        a.skip(n)
    } else {
        Seq::empty()
    }
}

/// Reading a section of entries `a` of history `k` skips the first entries as
/// that history's own count says, and leaves the other count alone.
proof fn lemma_skip_section(lines: Seq<Seq<char>>, p: int, k: HistKind, a: Seq<Seq<char>>, ss: int, sh: int)
    requires
        0 <= p,
        p + a.len() <= lines.len(),
        lines.subrange(p, p + a.len()) == quoted_lines(a),
        ss >= 0,
        sh >= 0,
        k != HistKind::Examine,
    ensures
        k == HistKind::Search ==> hist_scan(lines, p, Some(k), ss, sh) == items_of(k, drop_n(a, ss)) + hist_scan(
            lines,
            p + a.len(),
            Some(k),
            if ss < a.len() { 0 } else { ss - a.len() },
            sh,
        ),
        k == HistKind::Shell ==> hist_scan(lines, p, Some(k), ss, sh) == items_of(k, drop_n(a, sh)) + hist_scan(
            lines,
            p + a.len(),
            Some(k),
            ss,
            if sh < a.len() { 0 } else { sh - a.len() },
        ),
    decreases a.len(),
{
    reveal_strlit(".search");
    reveal_strlit(".shell");
    reveal_strlit(".mark");
    if a.len() == 0 {
        assert(items_of(k, drop_n(a, ss)) =~= Seq::<(Option<HistKind>, Seq<char>)>::empty());
        assert(items_of(k, drop_n(a, sh)) =~= Seq::<(Option<HistKind>, Seq<char>)>::empty());
    } else {
        let l = lines[p];
        assert(l == lines.subrange(p, p + a.len())[0]);
        assert(l == quoted(a[0]));
        assert(l[0] == '"');
        assert(l != ".search"@ && l != ".shell"@ && l != ".mark"@);
        assert(l.skip(1) =~= a[0]);
        let r = a.drop_first();
        assert(lines.subrange(p + 1, p + 1 + r.len()) =~= quoted_lines(r)) by {
            assert forall|j: int| 0 <= j < r.len() implies #[trigger] lines.subrange(p + 1, p + 1 + r.len())[j]
                == quoted_lines(r)[j] by {
                assert(lines.subrange(p, p + a.len())[j + 1] == quoted_lines(a)[j + 1]);
            }
        }
        if k == HistKind::Search {
            if ss > 0 {
                lemma_skip_section(lines, p + 1, k, r, ss - 1, sh);
                assert(drop_n(a, ss) =~= drop_n(r, ss - 1));
            } else {
                lemma_skip_section(lines, p + 1, k, r, ss, sh);
                assert(drop_n(a, ss) =~= a);
                assert(drop_n(r, ss) =~= r);
                assert(items_of(k, a) =~= seq![(Some(k), a[0])] + items_of(k, r));
            }
        } else {
            if sh > 0 {
                lemma_skip_section(lines, p + 1, k, r, ss, sh - 1);
                assert(drop_n(a, sh) =~= drop_n(r, sh - 1));
            } else {
                lemma_skip_section(lines, p + 1, k, r, ss, sh);
                assert(drop_n(a, sh) =~= a);
                assert(drop_n(r, sh) =~= r);
                assert(items_of(k, a) =~= seq![(Some(k), a[0])] + items_of(k, r));
            }
        }
    }
}

/// In a history file with a search section holding `a` and a shell section
/// holding `b`, reading skips the first `ss` search entries and the first `sh`
/// shell entries (the oldest ones, beyond what the history keeps): each count
/// applies to its own history only, and the order of the entries is kept.
pub proof fn law_history_skips(a: Seq<Seq<char>>, b: Seq<Seq<char>>, ss: int, sh: int)
    requires
        ss >= 0,
        sh >= 0,
    ensures
        hist_items(
            seq![".less-history-file:"@, ".search"@] + quoted_lines(a) + seq![".shell"@] + quoted_lines(b),
            ss,
            sh,
        ) == items_of(HistKind::Search, drop_n(a, ss)) + items_of(HistKind::Shell, drop_n(b, sh)),
{
    reveal_strlit(".search");
    reveal_strlit(".shell");
    reveal_strlit(".mark");
    reveal_strlit(".less-history-file:");
    let hdr = ".less-history-file:"@;
    let lines = seq![hdr, ".search"@] + quoted_lines(a) + seq![".shell"@] + quoted_lines(b);
    assert(trim_cr(hdr) == hdr) by {
        assert(hdr.last() == ':');
    }
    let na = a.len() as int;
    let nb = b.len() as int;
    assert(lines[1] == ".search"@);
    assert(lines.subrange(2, 2 + na) =~= quoted_lines(a));
    lemma_skip_section(lines, 2, HistKind::Search, a, ss, sh);
    let ss2 = if ss < na { 0 } else { ss - na };
    assert(lines[2 + na] == ".shell"@);
    assert(hist_scan(lines, 2 + na, Some(HistKind::Search), ss2, sh) == hist_scan(
        lines,
        3 + na,
        Some(HistKind::Shell),
        ss2,
        sh,
    ));
    assert(lines.subrange(3 + na, 3 + na + nb) =~= quoted_lines(b));
    lemma_skip_section(lines, 3 + na, HistKind::Shell, b, ss2, sh);
    let sh2 = if sh < nb { 0 } else { sh - nb };
    assert(lines.len() == 3 + na + nb);
    assert(hist_scan(lines, 3 + na + nb, Some(HistKind::Shell), ss2, sh2) =~= Seq::<(Option<HistKind>, Seq<char>)>::empty());
    assert(hist_scan(lines, 1, None, ss, sh) == hist_scan(lines, 2, Some(HistKind::Search), ss, sh));
    assert(items_of(HistKind::Shell, drop_n(b, sh)) + Seq::<(Option<HistKind>, Seq<char>)>::empty() =~= items_of(
        HistKind::Shell,
        drop_n(b, sh),
    ));
}


/// A triple-valued option holding a value: `-+` puts back its default; `-!`
/// sets it to the opposite of its default (on, or off where the default is on,
/// for a lower-case letter; on-plus, or off where the default is on-plus, for
/// an upper-case one); toggling it (where allowed) does the same from its
/// current value. No other option changes.
pub proof fn law_triple_values(tbl: Seq<LOption>, i: usize, lower: bool, s: Seq<char>, no_prompt: bool)
    requires
        (i as int) < tbl.len(),
        tbl[i as int].otype.kind() == O_TRIPLE,
        tbl[i as int].ovar is Some,
    ensures
        ({
            let o = tbl[i as int];
            let v = o.ovar.unwrap();
            let d = o.odefault;
            let inv = |x: i32| if lower {
                if x == OPT_ON { OPT_OFF } else { OPT_ON }
            } else {
                if x == OPT_ONPLUS { OPT_OFF } else { OPT_ONPLUS }
            };
            &&& toggle_spec(tbl, Some(i), lower, s, ToggleHow::Unset, no_prompt).0 == tbl.update(
                i as int,
                LOption { ovar: Some(d), ..o },
            )
            &&& toggle_spec(tbl, Some(i), lower, s, ToggleHow::SetInverse, no_prompt).0 == tbl.update(
                i as int,
                LOption { ovar: Some(inv(d)), ..o },
            )
            &&& !o.otype.any(O_NO_TOGGLE) ==> toggle_spec(tbl, Some(i), lower, s, ToggleHow::Toggle, no_prompt).0
                == tbl.update(i as int, LOption { ovar: Some(inv(v)), ..o })
        }),
{
    assert(O_TRIPLE & O_OTYPE == O_TRIPLE) by (bit_vector);
    assert(O_TRIPLE != O_BOOL && O_TRIPLE != O_STRING && O_TRIPLE != O_NUMBER);
}

/// A boolean option holding a value: toggling it (where allowed) turns 0 into
/// 1 and anything else into 0; `-+` puts back its default, and `-!` the
/// opposite of its default. No other option changes.
pub proof fn law_bool_values(tbl: Seq<LOption>, i: usize, lower: bool, s: Seq<char>, no_prompt: bool)
    requires
        (i as int) < tbl.len(),
        tbl[i as int].otype.kind() == O_BOOL,
        tbl[i as int].ovar is Some,
    ensures
        ({
            let o = tbl[i as int];
            let v = o.ovar.unwrap();
            let d = o.odefault;
            &&& toggle_spec(tbl, Some(i), lower, s, ToggleHow::Unset, no_prompt).0 == tbl.update(
                i as int,
                LOption { ovar: Some(d), ..o },
            )
            &&& toggle_spec(tbl, Some(i), lower, s, ToggleHow::SetInverse, no_prompt).0 == tbl.update(
                i as int,
                LOption { ovar: Some(if d == 0 { 1i32 } else { 0i32 }), ..o },
            )
            &&& !o.otype.any(O_NO_TOGGLE) ==> toggle_spec(tbl, Some(i), lower, s, ToggleHow::Toggle, no_prompt).0
                == tbl.update(i as int, LOption { ovar: Some(if v == 0 { 1i32 } else { 0i32 }), ..o })
        }),
{
    assert(O_BOOL & O_OTYPE == O_BOOL) by (bit_vector);
}

/// A number option holding a value: `-+` puts back its default; a string
/// option cannot be set or unset with `-!` or `-+` (an error, nothing changes).
pub proof fn law_unset_number_and_string(tbl: Seq<LOption>, i: usize, lower: bool, s: Seq<char>, no_prompt: bool)
    requires
        (i as int) < tbl.len(),
    ensures
        tbl[i as int].otype.kind() == O_NUMBER && tbl[i as int].ovar is Some ==> toggle_spec(
            tbl,
            Some(i),
            lower,
            s,
            ToggleHow::Unset,
            no_prompt,
        ).0 == tbl.update(i as int, LOption { ovar: Some(tbl[i as int].odefault), ..tbl[i as int] }),
        tbl[i as int].otype.kind() == O_STRING ==> {
            &&& toggle_spec(tbl, Some(i), lower, s, ToggleHow::Unset, no_prompt) == (tbl, seq![
                OptEventV::Error("Cannot use \"-+\" or \"-!\" for a string option"@),
            ])
            &&& toggle_spec(tbl, Some(i), lower, s, ToggleHow::SetInverse, no_prompt) == (tbl, seq![
                OptEventV::Error("Cannot use \"-+\" or \"-!\" for a string option"@),
            ])
        },
{
}


/// What the conditions `?c` of a prompt test: `a` something is in the message
/// already; `b` the byte offset is known; `c` the view is shifted sideways; `e`
/// the end of the file is shown; `f`, `g` the file has a name; `l`, `d` line
/// numbers are kept and the line is known; `L`, `D` line numbers are kept and
/// the length is known; `m` there is more than one file (more than one tag, in
/// a tag list); `n` a new file (or a tag list); `p` the byte offset and a
/// length above 0 are known; `P` the line, a length above 0 and the last line
/// are known; `s`, `B` the length is known; `x` there is a next file (and no
/// tag list). Any other letter is false.
pub proof fn law_prompt_conditions(env: PromptEnv, w: Where, msg: Seq<char>)
    ensures
        cond_spec(env, 'a', w, msg) == (msg.len() > 0),
        cond_spec(env, 'b', w, msg) == (env.place(w).byte != crate::defs::NULL_POSITION),
        cond_spec(env, 'c', w, msg) == (env.hshift != 0),
        cond_spec(env, 'e', w, msg) == env.eof_displayed,
        cond_spec(env, 'f', w, msg) == env.file_named,
        cond_spec(env, 'g', w, msg) == env.file_named,
        cond_spec(env, 'l', w, msg) == (env.linenums && env.place(w).line != 0),
        cond_spec(env, 'd', w, msg) == (env.linenums && env.place(w).line != 0),
        cond_spec(env, 'L', w, msg) == (env.linenums && env.file_len != crate::defs::NULL_POSITION),
        cond_spec(env, 'D', w, msg) == (env.linenums && env.file_len != crate::defs::NULL_POSITION),
        env.ntags == 0 ==> (cond_spec(env, 'm', w, msg) <==> env.nifile >= 2),
        env.ntags != 0 ==> (cond_spec(env, 'm', w, msg) <==> env.ntags >= 2),
        cond_spec(env, 'n', w, msg) == (env.ntags != 0 || env.new_file),
        cond_spec(env, 'p', w, msg) == (env.place(w).byte != crate::defs::NULL_POSITION && env.file_len > 0),
        cond_spec(env, 'P', w, msg) == (env.place(w).line != 0 && env.file_len > 0 && env.last_linenum != 0),
        cond_spec(env, 's', w, msg) == (env.file_len != crate::defs::NULL_POSITION),
        cond_spec(env, 'B', w, msg) == (env.file_len != crate::defs::NULL_POSITION),
        cond_spec(env, 'x', w, msg) == (env.ntags == 0 && env.next_file is Some),
        forall|c: char|
            !(c == 'a' || c == 'b' || c == 'c' || c == 'e' || c == 'f' || c == 'g' || c == 'l' || c == 'd' || c == 'L'
                || c == 'D' || c == 'm' || c == 'n' || c == 'p' || c == 'P' || c == 's' || c == 'B' || c == 'x')
                ==> !#[trigger] cond_spec(env, c, w, msg),
{
}

/// `-P` sets the prompt named by its first letter, with the rest of the value
/// as the prompt: `s` the short prompt, `m` the medium one, `M` the long one,
/// `=` that of the `=` command, `h` that of help, `w` that of waiting. With any
/// other first letter the whole value is the short prompt.
pub proof fn law_prompt_letters(x: Seq<char>, c: char)
    ensures
        proto_target(seq!['s'] + x) == (0int, 1int),
        proto_target(seq!['m'] + x) == (1int, 1int),
        proto_target(seq!['M'] + x) == (2int, 1int),
        proto_target(seq!['='] + x) == (3int, 1int),
        proto_target(seq!['h'] + x) == (4int, 1int),
        proto_target(seq!['w'] + x) == (5int, 1int),
        (seq![c] + x).skip(1) == x,
        !(c == 's' || c == 'm' || c == 'M' || c == '=' || c == 'h' || c == 'w') ==> proto_target(seq![c] + x) == (
            0int,
            0int,
        ),
        proto_target(Seq::<char>::empty()) == (0int, 0int),
{
    assert((seq![c] + x).skip(1) =~= x);
    assert((seq!['s'] + x)[0] == 's');
    assert((seq!['m'] + x)[0] == 'm');
    assert((seq!['M'] + x)[0] == 'M');
    assert((seq!['='] + x)[0] == '=');
    assert((seq!['h'] + x)[0] == 'h');
    assert((seq!['w'] + x)[0] == 'w');
    assert((seq![c] + x)[0] == c);
}

/// The characters that may start a search pattern to change the search: `!`
/// or control-N no match; `*` or control-E past the end of the file (and not
/// wrapping); `@` or control-F from the first file; control-K keep the
/// position; control-W wrap; control-R no regular expression; control-S and a
/// digit from 1 to 5 that sub-pattern; control-L the next character literally.
/// A filter takes only no match, no regular expression, sub-patterns and the
/// literal character. The first item is the flag toggled (0: none; -1: a
/// prompt change only), the second the search type before the toggle.
pub proof fn law_search_modifiers(m: Mca, st: i32, sub: char)
    ensures
        search_char_spec(m, st, '!', sub) == (SRCH_NO_MATCH, st, false),
        search_char_spec(m, st, '\x0e', sub) == (SRCH_NO_MATCH, st, false),
        search_char_spec(m, st, '\x12', sub) == (SRCH_NO_REGEX, st, false),
        search_char_spec(m, st, '\x0c', sub) == (-1i32, st, true),
        '1' <= sub <= '5' ==> search_char_spec(m, st, '\x13', sub) == (
            srch_subsearch_spec(sub as int - '0' as int),
            st,
            false,
        ),
        !('1' <= sub <= '5') ==> search_char_spec(m, st, '\x13', sub) == (-1i32, st, false),
        m != Mca::Filter ==> {
            &&& search_char_spec(m, st, '@', sub) == (SRCH_FIRST_FILE, st, false)
            &&& search_char_spec(m, st, '\x06', sub) == (SRCH_FIRST_FILE, st, false)
            &&& search_char_spec(m, st, '*', sub) == (SRCH_PAST_EOF, st & !SRCH_WRAP, false)
            &&& search_char_spec(m, st, '\x05', sub) == (SRCH_PAST_EOF, st & !SRCH_WRAP, false)
            &&& search_char_spec(m, st, '\x0b', sub) == (SRCH_NO_MOVE, st, false)
            &&& search_char_spec(m, st, '\x17', sub) == (SRCH_WRAP, st, false)
        },
        m == Mca::Filter ==> {
            &&& search_char_spec(m, st, '@', sub).0 == 0
            &&& search_char_spec(m, st, '\x06', sub).0 == 0
            &&& search_char_spec(m, st, '*', sub).0 == 0
            &&& search_char_spec(m, st, '\x05', sub).0 == 0
            &&& search_char_spec(m, st, '\x0b', sub).0 == 0
            &&& search_char_spec(m, st, '\x17', sub).0 == 0
        },
        forall|c: char|
            !(c == '!' || c == '\x0e' || c == '\x12' || c == '\x0c' || c == '\x13' || c == '@' || c == '\x06' || c
                == '*' || c == '\x05' || c == '\x0b' || c == '\x17') ==> #[trigger] search_char_spec(m, st, c, sub)
                == (0i32, st, false),
{
}


/// What the escapes `%c` of a prompt add to the message `msg` (a `?` where the
/// value is not known): `b` the byte offset; `c` the columns scrolled; `E` the
/// editor; `f` the file name, `F` its last part, `g` it quoted for the shell;
/// `i` the index of the file (of the tag, in a tag list); `l` the line number
/// as shown; `m` the number of files (of tags); `o` the OSC 8 path; `s`, `B`
/// the length; `t` removes the white space at the end; `T` "tag" or "file";
/// `x` the next file. Any other letter adds nothing.
pub proof fn law_prompt_escapes(env: PromptEnv, w: Where, msg: Seq<char>)
    ensures
        protochar_spec(env, 'b', w, msg) == if env.place(w).byte != crate::defs::NULL_POSITION {
            msg + crate::text::int_text(env.place(w).byte as int)
        } else {
            msg.push('?')
        },
        protochar_spec(env, 'c', w, msg) == msg + crate::text::int_text(env.hshift as int),
        protochar_spec(env, 'E', w, msg) == msg + env.editor@,
        protochar_spec(env, 'f', w, msg) == msg + env.file_name@,
        protochar_spec(env, 'F', w, msg) == msg + env.file_last@,
        protochar_spec(env, 'g', w, msg) == msg + env.file_quoted@,
        env.ntags == 0 ==> protochar_spec(env, 'i', w, msg) == msg + crate::text::int_text(env.ifile_index as int),
        env.ntags != 0 ==> protochar_spec(env, 'i', w, msg) == msg + crate::text::int_text(env.curr_tag as int),
        env.place(w).line != 0 ==> protochar_spec(env, 'l', w, msg) == msg + crate::text::int_text(
            env.place(w).line_shown as int,
        ),
        env.place(w).line == 0 ==> protochar_spec(env, 'l', w, msg) == msg.push('?'),
        env.ntags == 0 ==> protochar_spec(env, 'm', w, msg) == msg + crate::text::int_text(env.nifile as int),
        env.ntags != 0 ==> protochar_spec(env, 'm', w, msg) == msg + crate::text::int_text(env.ntags as int),
        env.file_len != crate::defs::NULL_POSITION ==> protochar_spec(env, 's', w, msg) == msg
            + crate::text::int_text(env.file_len as int) && protochar_spec(env, 'B', w, msg) == msg
            + crate::text::int_text(env.file_len as int),
        env.file_len == crate::defs::NULL_POSITION ==> protochar_spec(env, 's', w, msg) == msg.push('?')
            && protochar_spec(env, 'B', w, msg) == msg.push('?'),
        protochar_spec(env, 't', w, msg) == trim_end_spec(msg),
        env.ntags == 0 ==> protochar_spec(env, 'T', w, msg) == msg + "file"@,
        env.ntags != 0 ==> protochar_spec(env, 'T', w, msg) == msg + "tag"@,
        env.next_file matches Some(n) ==> protochar_spec(env, 'x', w, msg) == msg + n@,
        env.next_file is None ==> protochar_spec(env, 'x', w, msg) == msg.push('?'),
        env.osc8_path matches Some(o) ==> protochar_spec(env, 'o', w, msg) == msg + o@,
        env.osc8_path is None ==> protochar_spec(env, 'o', w, msg) == msg.push('?'),
        forall|c: char|
            !(c == 'b' || c == 'c' || c == 'd' || c == 'D' || c == 'E' || c == 'f' || c == 'F' || c == 'g' || c == 'i'
                || c == 'l' || c == 'L' || c == 'm' || c == 'o' || c == 'p' || c == 'P' || c == 's' || c == 'B' || c
                == 't' || c == 'T' || c == 'x') ==> #[trigger] protochar_spec(env, c, w, msg) == msg,
{
}

/// Pages of `size` lines: line `line` (from 1 on) is on the page `p` that
/// holds lines `(p - 1) * size + 1` to `p * size`.
pub proof fn law_page_num(line: int, height: int, head_lines: int)
    requires
        line >= 1,
        height - head_lines - 1 >= 1,
    ensures
        ({
            let size = height - head_lines - 1;
            let p = page_num_spec(line, height, head_lines);
            &&& p >= 1
            &&& (p - 1) * size < line <= p * size
        }),
{
    let size = height - head_lines - 1;
    let a = line - 1;
    let q = a / size;
    assert(crate::prompt::trunc_div(a, size) == q);
    assert(q * size <= a < q * size + size) by (nonlinear_arith)
        requires
            q == a / size,
            a >= 0,
            size >= 1,
    ;
    assert(q >= 0) by (nonlinear_arith)
        requires
            q == a / size,
            a >= 0,
            size >= 1,
    ;
    assert((q + 1) * size == q * size + size) by (nonlinear_arith);
}


/// The letters of `--search-options`, in either case or as control characters:
/// `E` past the end of file, `F` from the first file, `K` keep the position,
/// `N` no match, `R` no regular expression, `W` wrap; a digit from 1 to 5 that
/// sub-pattern. Nothing else is a flag.
pub proof fn law_search_option_letters(c: char)
    ensures
        search_flag_of('E') == Some(SRCH_PAST_EOF) && search_flag_of('e') == Some(SRCH_PAST_EOF) && search_flag_of(
            '\x05',
        ) == Some(SRCH_PAST_EOF),
        search_flag_of('F') == Some(SRCH_FIRST_FILE) && search_flag_of('f') == Some(SRCH_FIRST_FILE)
            && search_flag_of('\x06') == Some(SRCH_FIRST_FILE),
        search_flag_of('K') == Some(SRCH_NO_MOVE) && search_flag_of('k') == Some(SRCH_NO_MOVE) && search_flag_of(
            '\x0b',
        ) == Some(SRCH_NO_MOVE),
        search_flag_of('N') == Some(SRCH_NO_MATCH) && search_flag_of('n') == Some(SRCH_NO_MATCH) && search_flag_of(
            '\x0e',
        ) == Some(SRCH_NO_MATCH),
        search_flag_of('R') == Some(SRCH_NO_REGEX) && search_flag_of('r') == Some(SRCH_NO_REGEX) && search_flag_of(
            '\x12',
        ) == Some(SRCH_NO_REGEX),
        search_flag_of('W') == Some(SRCH_WRAP) && search_flag_of('w') == Some(SRCH_WRAP) && search_flag_of('\x17')
            == Some(SRCH_WRAP),
        '1' <= c <= '5' ==> search_flag_of(c) == Some(1i32 << ((17 + (c as int - '0' as int)) as u32)),
        !(c == 'E' || c == 'e' || c == '\x05' || c == 'F' || c == 'f' || c == '\x06' || c == 'K' || c == 'k' || c
            == '\x0b' || c == 'N' || c == 'n' || c == '\x0e' || c == 'R' || c == 'r' || c == '\x12' || c == 'W' || c
            == 'w' || c == '\x17' || ('1' <= c <= '5')) ==> search_flag_of(c) is None,
{
    if '1' <= c <= '5' {
        let d = c as int - '0' as int;
        assert(srch_subsearch_spec(d) == 1i32 << ((17 + d) as u32)) by {
            assert(1i32 << 18u32 == 1i32 << 18u32);
        }
    }
}

/// A percentage is rounded down: `p` percent of `den` is at most `num`
/// hundredths of it, and `p + 1` percent more (where it fits).
pub proof fn law_percentage(num: int, den: int)
    requires
        den > 0,
        num >= 0,
        num * 100 / den <= i32::MAX,
    ensures
        ({
            let p = percentage_spec(num, den) as int;
            &&& p * den <= num * 100 < (p + 1) * den
        }),
{
    let q = num * 100 / den;
    assert(q * den <= num * 100 < q * den + den) by (nonlinear_arith)
        requires
            q == num * 100 / den,
            num >= 0,
            den > 0,
    ;
    assert(q >= 0) by (nonlinear_arith)
        requires
            q == num * 100 / den,
            num >= 0,
            den > 0,
    ;
    assert((q + 1) * den == q * den + den) by (nonlinear_arith);
}


/// Moving by lines: `j`/`k` (and the newline forms) move forward or back by the
/// number typed, or by one line without a number; the forced forms go the same
/// distance, past the end; `g` goes to the line typed (the first without a
/// number); `G` goes to the line typed, or to the end without a number; `%`
/// goes to the percentage typed, at most 100 and at least 0; the mouse wheel
/// moves by its number of lines, whatever was typed.
pub proof fn law_line_moves(s: CommandState, e: CommandEnv)
    ensures
        ({
            let n = s.number;
            let d: int = if n > 0 { n as int } else { 1 };
            &&& commands_spec(s, e, Action::FLine).1 matches StepV::Forward { n: k, force: false, only_last: false, .. } && k == d
            &&& commands_spec(s, e, Action::BLine).1 matches StepV::Backward { n: k, force: false, only_last: false, .. } && k == d
            &&& commands_spec(s, e, Action::FNewline).1 matches StepV::Forward { n: k, force: false, .. } && k == d
            &&& commands_spec(s, e, Action::BNewline).1 matches StepV::Backward { n: k, force: false, .. } && k == d
            &&& commands_spec(s, e, Action::FFLine).1 matches StepV::Forward { n: k, force: true, .. } && k == d
            &&& commands_spec(s, e, Action::BFLine).1 matches StepV::Backward { n: k, force: true, .. } && k == d
            &&& commands_spec(s, e, Action::GoLine).1 matches StepV::JumpBack { line: l, .. } && l == d
            &&& n <= 0 ==> commands_spec(s, e, Action::GoEnd).1 == StepV::JumpForw
            &&& n > 0 ==> (commands_spec(s, e, Action::GoEnd).1 matches StepV::JumpBack { line: l, .. } && l == n)
            &&& commands_spec(s, e, Action::Percent).1 matches StepV::JumpPercent { percent: p, .. } && 0 <= p <= 100
                && (0 <= n <= 100 ==> p == n) && (n > 100 ==> p == 100) && (n < 0 ==> p == 0)
            &&& commands_spec(s, e, Action::FMouse).1 matches StepV::Forward { n: k, .. } && k == e.wheel_lines
            &&& commands_spec(s, e, Action::BMouse).1 matches StepV::Backward { n: k, .. } && k == e.wheel_lines
        }),
{
}

/// Moving by screens: `f`/`b` (and space) move forward or back by the number
/// typed, else by the window size, else by the screen less its header (and
/// less the window size, if that is negative); `z`/`w` with a number make it
/// the window size; `d`/`u` move by the number typed, which becomes the scroll
/// size, else by the scroll size.
pub proof fn law_screen_moves(s: CommandState, e: CommandEnv)
    ensures
        ({
            let n = s.number;
            let page = |sw: i32| if n > 0 {
                n as int
            } else if sw > 0 {
                sw as int
            } else {
                ((e.sc_height - e.header_lines + sw) as i64) as int
            };
            let w: int = if n > 0 { n as i32 as int } else { s.wscroll as int };
            &&& commands_spec(s, e, Action::FScreen).1 matches StepV::Forward { n: k, force: false, .. } && k == page(s.swindow)
            &&& commands_spec(s, e, Action::BScreen).1 matches StepV::Backward { n: k, force: false, .. } && k == page(s.swindow)
            &&& commands_spec(s, e, Action::FWindow).1 matches StepV::Forward { n: k, .. } && k == page(
                if n > 0 { n as i32 } else { s.swindow },
            )
            &&& n > 0 ==> commands_spec(s, e, Action::FWindow).0.swindow == n as i32
            &&& n > 0 ==> commands_spec(s, e, Action::BWindow).0.swindow == n as i32
            &&& commands_spec(s, e, Action::FScroll).1 matches StepV::Forward { n: k, .. } && k == w
            &&& commands_spec(s, e, Action::BScroll).1 matches StepV::Backward { n: k, .. } && k == w
            &&& commands_spec(s, e, Action::FScroll).0.wscroll == w
        }),
{
}


/// The bracket commands take the same two characters the two ways: going
/// forward the first is the open bracket and the second the close one, going
/// back the other way round; both look for the number typed.
pub proof fn law_bracket_pairs(t: Seq<char>, number: i64, st: i32, pc: char, r1: ExecMca, r2: ExecMca)
    requires
        exec_mca_matches(Mca::FBracket, t, number, st, pc, r1),
        exec_mca_matches(Mca::BBracket, t, number, st, pc, r2),
    ensures
        r1 matches ExecMca::Bracket { open: o1, close: c1, forward: f1, n: n1 } && r2 matches ExecMca::Bracket {
            open: o2,
            close: c2,
            forward: f2,
            n: n2,
        } && o1 == c2 && c1 == o2 && f1 && !f2 && n1 == number && n2 == number && (t.len() > 0 ==> o1 == t[0]) && (
        t.len() > 1 ==> c1 == t[1]),
{
}

/// A search command looks for the pattern typed, for the match numbered by
/// the number typed; a filter shows the lines that the pattern does not match
/// (or does, after `!`): its search type differs from the command's only in
/// the no-match flag.
pub proof fn law_search_commands(t: Seq<char>, number: i64, st: i32, pc: char, r: ExecMca)
    ensures
        (exec_mca_matches(Mca::FSearch, t, number, st, pc, r) || exec_mca_matches(Mca::BSearch, t, number, st, pc, r))
            ==> (r matches ExecMca::Search { pattern, n } && pattern@ == t && n == number),
        exec_mca_matches(Mca::Filter, t, number, st, pc, r) ==> (r matches ExecMca::Filter { pattern, search_type }
            && pattern@ == t && search_type ^ st == crate::defs::SRCH_NO_MATCH),
{
    if exec_mca_matches(Mca::Filter, t, number, st, pc, r) {
        match r {
            ExecMca::Filter { pattern, search_type } => {
                assert(search_type ^ st == crate::defs::SRCH_NO_MATCH) by (bit_vector)
                    requires
                        search_type == st ^ crate::defs::SRCH_NO_MATCH,
                ;
            },
            _ => {},
        }
    }
}

/// In an option command, typing `+` (unset) or `!` (set) twice in a row gives
/// back a plain toggle, and control-P twice gives back the prompting as it
/// was; `-` (after the dash) asks for a long name; `+` and `!` give their
/// change, keeping the no-prompt flag.
pub proof fn law_option_prefixes(g: bool, np: bool)
    ensures
        ({
            let f = if np { crate::defs::OPT_NO_PROMPT } else { 0 };
            let t = f | crate::defs::OPT_TOGGLE;
            &&& opt_first_char_spec(t, g, '+') == Some((f | crate::defs::OPT_UNSET, g))
            &&& opt_first_char_spec(f | crate::defs::OPT_UNSET, g, '+') == Some((t, g))
            &&& opt_first_char_spec(t, g, '!') == Some((f | crate::defs::OPT_SET, g))
            &&& opt_first_char_spec(f | crate::defs::OPT_SET, g, '!') == Some((t, g))
            &&& opt_first_char_spec(t, g, '-') == Some((t, true))
            &&& opt_first_char_spec(t ^ crate::defs::OPT_NO_PROMPT, g, '\x10') == Some((t, g))
        }),
{
    assert(0i32 | 1i32 == 1i32 && 0o100i32 | 1i32 == 0o101i32) by (bit_vector);
    assert((0i32 | 1i32) & !0o100i32 == 1i32 && (0o100i32 | 1i32) & !0o100i32 == 1i32) by (bit_vector);
    assert((0i32 | 2i32) & !0o100i32 == 2i32 && (0o100i32 | 2i32) & !0o100i32 == 2i32) by (bit_vector);
    assert((0i32 | 3i32) & !0o100i32 == 3i32 && (0o100i32 | 3i32) & !0o100i32 == 3i32) by (bit_vector);
    assert((0i32 | 1i32) & 0o100i32 == 0i32 && (0o100i32 | 1i32) & 0o100i32 == 0o100i32) by (bit_vector);
    assert((0i32 | 2i32) & 0o100i32 == 0i32 && (0o100i32 | 2i32) & 0o100i32 == 0o100i32) by (bit_vector);
    assert((0i32 | 3i32) & 0o100i32 == 0i32 && (0o100i32 | 3i32) & 0o100i32 == 0o100i32) by (bit_vector);
    assert(((0i32 | 1i32) ^ 0o100i32) & !0o100i32 == 1i32 && ((0o100i32 | 1i32) ^ 0o100i32) & !0o100i32 == 1i32)
        by (bit_vector);
    assert(((0i32 | 1i32) ^ 0o100i32) ^ 0o100i32 == (0i32 | 1i32) && ((0o100i32 | 1i32) ^ 0o100i32) ^ 0o100i32 == (
    0o100i32 | 1i32)) by (bit_vector);
}


/// The cursor keys of the command line leave its text alone: home goes to the
/// start, end to the end, right and left one character (not past either end).
/// Backspace takes out the character before the cursor and delete the one at
/// it; killing the line empties it.
pub proof fn law_line_keys(a: CmdBuf, b: CmdBuf, r: i32)
    requires
        0 <= a.cursor() <= a.text().len(),
    ensures
        ({
            let t = a.text();
            let cp = a.cursor();
            &&& edit_line_result(a, crate::defs::EC_HOME, b, r) ==> b.text() == t && b.cursor() == 0
            &&& edit_line_result(a, crate::defs::EC_END, b, r) ==> b.text() == t && b.cursor() == t.len()
            &&& edit_line_result(a, crate::defs::EC_RIGHT, b, r) ==> b.text() == t && b.cursor() == (if cp < t.len() {
                cp + 1
            } else {
                cp
            })
            &&& edit_line_result(a, crate::defs::EC_LEFT, b, r) ==> b.text() == t && b.cursor() == (if cp > 0 {
                cp - 1
            } else {
                0
            })
            &&& edit_line_result(a, crate::defs::EC_BACKSPACE, b, r) && cp > 0 ==> b.text() == t.subrange(0, cp - 1)
                + t.subrange(cp, t.len() as int) && b.cursor() == cp - 1
            &&& edit_line_result(a, crate::defs::EC_DELETE, b, r) && cp < t.len() ==> b.text() == t.subrange(0, cp)
                + t.subrange(cp + 1, t.len() as int) && b.cursor() == cp
            &&& edit_line_result(a, crate::defs::EC_LINEKILL, b, r) ==> b.text().len() == 0
        }),
{
    let t = a.text();
    let cp = a.cursor();
    if cp > 0 {
        assert(t.remove(cp - 1) =~= t.subrange(0, cp - 1) + t.subrange(cp, t.len() as int));
    }
    if cp < t.len() {
        assert(t.remove(cp) =~= t.subrange(0, cp) + t.subrange(cp + 1, t.len() as int));
    }
}

} // verus!
