use vstd::prelude::*;
use vstd::string::StrSliceExecFns;

use crate::cmdbuf::{addhist_spec, cmd_addhist, entry_views, HistEntry, HistKind, Histories, MList};
use crate::text::{chars_to_string, str_eq, str_to_chars};
use crate::util::{char_digits_value, is_digit_char};

verus! {

/// One item read from a history file: an entry of the search or shell history
/// (without its leading quote), or (with no kind) a line that records a mark.
pub struct HistEvent {
    pub kind: Option<HistKind>,
    pub text: String,
}

/// The items of a list of events, as (kind, text) pairs.
pub open spec fn events_view(ev: Seq<HistEvent>) -> Seq<(Option<HistKind>, Seq<char>)> {
    ev.map_values(|e: HistEvent| (e.kind, e.text@))
}

/// The texts of a list of lines.
pub open spec fn lines_view(v: Seq<String>) -> Seq<Seq<char>> {
    v.map_values(|s: String| s@)
}

/// `l` without the carriage returns at its end.
pub open spec fn trim_cr(l: Seq<char>) -> Seq<char>
    decreases l.len(),
{
    if l.len() > 0 && l.last() == '\r' {
        trim_cr(l.drop_last())
    } else {
        l
    }
}

/// The items of the lines of a history file from line `i` on: `cur` is the
/// history whose section is being read (none before the first section and in
/// the section of marks); the first `ss` entries of the search history and the
/// first `sh` of the shell history are skipped.
pub open spec fn hist_scan(
    lines: Seq<Seq<char>>,
    i: int,
    cur: Option<HistKind>,
    ss: int,
    sh: int,
) -> Seq<(Option<HistKind>, Seq<char>)>
    decreases lines.len() - i,
{
    if i < 0 || i >= lines.len() {
        Seq::empty()
    } else {
        let l = lines[i];
        if l == ".search"@ {
            hist_scan(lines, i + 1, Some(HistKind::Search), ss, sh)
        } else if l == ".shell"@ {
            hist_scan(lines, i + 1, Some(HistKind::Shell), ss, sh)
        } else if l == ".mark"@ {
            hist_scan(lines, i + 1, None, ss, sh)
        } else if l.len() > 0 && l[0] == '"' {
            match cur {
                None => hist_scan(lines, i + 1, cur, ss, sh),
                Some(k) => if k == HistKind::Search && ss > 0 {
                    hist_scan(lines, i + 1, cur, ss - 1, sh)
                } else if k != HistKind::Search && sh > 0 {
                    hist_scan(lines, i + 1, cur, ss, sh - 1)
                } else {
                    seq![(Some(k), l.skip(1))] + hist_scan(lines, i + 1, cur, ss, sh)
                },
            }
        } else if l.len() > 0 && l[0] == 'm' {
            seq![(None::<HistKind>, l)] + hist_scan(lines, i + 1, cur, ss, sh)
        } else {
            hist_scan(lines, i + 1, cur, ss, sh)
        }
    }
}

/// The items of a history file with lines `lines`: none unless it starts with
/// the header line.
pub open spec fn hist_items(lines: Seq<Seq<char>>, ss: int, sh: int) -> Seq<(Option<HistKind>, Seq<char>)> {
    if lines.len() > 0 && trim_cr(lines[0]) == ".less-history-file:"@ {
        hist_scan(lines, 1, None, ss, sh)
    } else {
        Seq::empty()
    }
}

fn trim_cr_exec(l: &str) -> (r: Vec<char>)
    ensures
        r@ == trim_cr(l@),
{
    let mut v = str_to_chars(l);
    while v.len() > 0 && v[v.len() - 1] == '\r'
        invariant
            trim_cr(l@) == trim_cr(v@),
        decreases v@.len(),
    {
        let ghost before = v@;
        v.pop();
        assert(v@ =~= before.drop_last());
    }
    v
}

/// Read the lines of a history file (see `hist_items`): its entries, in order,
/// with the first `skip_search` of the search history and the first
/// `skip_shell` of the shell history left out, and its lines for marks.
pub fn read_cmdhist2(lines: &Vec<String>, skip_search: i64, skip_shell: i64) -> (r: Vec<HistEvent>)
    ensures
        events_view(r@) == hist_items(lines_view(lines@), skip_search as int, skip_shell as int),
{
    let mut out: Vec<HistEvent> = Vec::new();
    let ghost lv = lines_view(lines@);
    if lines.len() == 0 {
        assert(events_view(out@) =~= Seq::<(Option<HistKind>, Seq<char>)>::empty());
        return out;
    }
    let h = trim_cr_exec(lines[0].as_str());
    let hs = chars_to_string(h.as_slice());
    assert(lv[0] == lines@[0]@);
    if !str_eq(hs.as_str(), ".less-history-file:") {
        assert(events_view(out@) =~= Seq::<(Option<HistKind>, Seq<char>)>::empty());
        return out;
    }
    let mut cur: Option<HistKind> = None;
    let mut ss = skip_search;
    let mut sh = skip_shell;
    let mut i: usize = 1;
    assert(events_view(out@) =~= Seq::<(Option<HistKind>, Seq<char>)>::empty());
    while i < lines.len()
        invariant
            1 <= i <= lines@.len(),
            lv == lines_view(lines@),
            lv.len() == lines@.len(),
            hist_items(lv, skip_search as int, skip_shell as int) == events_view(out@) + hist_scan(
                lv,
                i as int,
                cur,
                ss as int,
                sh as int,
            ),
        decreases lines@.len() - i,
    {
        let l = lines[i].as_str();
        assert(lv[i as int] == l@);
        let ghost before = events_view(out@);
        if str_eq(l, ".search") {
            cur = Some(HistKind::Search);
        } else if str_eq(l, ".shell") {
            cur = Some(HistKind::Shell);
        } else if str_eq(l, ".mark") {
            cur = None;
        } else if l.unicode_len() > 0 && l.get_char(0) == '"' {
            match cur {
                None => {},
                Some(k) => {
                    if k == HistKind::Search && ss > 0 {
                        ss = ss - 1;
                    } else if k != HistKind::Search && sh > 0 {
                        sh = sh - 1;
                    } else {
                        let t = l.substring_char(1, l.unicode_len());
                        let ts = t.to_string();
                        assert(ts@ =~= l@.skip(1));
                        out.push(HistEvent { kind: Some(k), text: ts });
                        assert(events_view(out@) =~= before + seq![(Some(k), l@.skip(1))]);
                    }
                },
            }
        } else if l.unicode_len() > 0 && l.get_char(0) == 'm' {
            let ts = l.to_string();
            out.push(HistEvent { kind: None, text: ts });
            assert(events_view(out@) =~= before + seq![(None::<HistKind>, l@)]);
        }
        i = i + 1;
    }
    out
}


/// The entries of history `k` after adding, in order, the entries of `items`
/// that belong to it, as `init_cmdhist` does (as not modified in this session).
pub open spec fn addhist_fold(
    ev: Seq<(Seq<char>, bool)>,
    items: Seq<(Option<HistKind>, Seq<char>)>,
    k: HistKind,
    no_dups: bool,
) -> Seq<(Seq<char>, bool)>
    decreases items.len(),
{
    if items.len() == 0 {
        ev
    } else {
        let prev = addhist_fold(ev, items.drop_last(), k, no_dups);
        let it = items.last();
        if it.0 == Some(k) && it.1.len() > 0 {
            addhist_spec(prev, it.1, false, no_dups)
        } else {
            prev
        }
    }
}

/// The texts of the items of `items` that record marks.
pub open spec fn mark_lines(items: Seq<(Option<HistKind>, Seq<char>)>) -> Seq<Seq<char>>
    decreases items.len(),
{
    if items.len() == 0 {
        Seq::empty()
    } else {
        let prev = mark_lines(items.drop_last());
        if items.last().0 is None {
            prev.push(items.last().1)
        } else {
            prev
        }
    }
}

fn add_to(hists: &mut Histories, k: HistKind, cmd: &Vec<char>, no_dups: bool)
    requires
        old(hists).wf(),
    ensures
        final(hists).wf(),
        forall|j: HistKind|
            #![trigger crate::cmdbuf::hist_of(*final(hists), j)]
            j != k ==> crate::cmdbuf::hist_of(*final(hists), j) == crate::cmdbuf::hist_of(*old(hists), j),
        cmd@.len() == 0 ==> entry_views(crate::cmdbuf::hist_of(*final(hists), k).entries@) == entry_views(
            crate::cmdbuf::hist_of(*old(hists), k).entries@,
        ),
        cmd@.len() > 0 ==> entry_views(crate::cmdbuf::hist_of(*final(hists), k).entries@) == addhist_spec(
            entry_views(crate::cmdbuf::hist_of(*old(hists), k).entries@),
            cmd@,
            false,
            no_dups,
        ),
        crate::cmdbuf::hist_of(*final(hists), k).modified == crate::cmdbuf::hist_of(*old(hists), k).modified,
{
    match k {
        HistKind::Search => cmd_addhist(&mut hists.search, cmd, false, no_dups),
        HistKind::Examine => cmd_addhist(&mut hists.examine, cmd, false, no_dups),
        HistKind::Shell => cmd_addhist(&mut hists.shell, cmd, false, no_dups),
    }
}

/// Fill the histories from the items of a history file (see `read_cmdhist2`):
/// each entry is added to its history, as not modified in this session. Gives
/// the lines that record marks, in order.
pub fn init_cmdhist(hists: &mut Histories, events: &Vec<HistEvent>, no_hist_dups: bool) -> (marks: Vec<String>)
    requires
        old(hists).wf(),
    ensures
        final(hists).wf(),
        forall|k: HistKind|
            #![trigger crate::cmdbuf::hist_of(*final(hists), k)]
            entry_views(crate::cmdbuf::hist_of(*final(hists), k).entries@) == addhist_fold(
                entry_views(crate::cmdbuf::hist_of(*old(hists), k).entries@),
                events_view(events@),
                k,
                no_hist_dups,
            ) && crate::cmdbuf::hist_of(*final(hists), k).modified == crate::cmdbuf::hist_of(
                *old(hists),
                k,
            ).modified,
        lines_view(marks@) == mark_lines(events_view(events@)),
{
    let mut marks: Vec<String> = Vec::new();
    let mut i: usize = 0;
    let ghost items = events_view(events@);
    while i < events.len()
        invariant
            0 <= i <= events@.len(),
            items == events_view(events@),
            hists.wf(),
            forall|k: HistKind|
                #![trigger crate::cmdbuf::hist_of(*hists, k)]
                entry_views(crate::cmdbuf::hist_of(*hists, k).entries@) == addhist_fold(
                    entry_views(crate::cmdbuf::hist_of(*old(hists), k).entries@),
                    items.subrange(0, i as int),
                    k,
                    no_hist_dups,
                ) && crate::cmdbuf::hist_of(*hists, k).modified == crate::cmdbuf::hist_of(*old(hists), k).modified,
            lines_view(marks@) == mark_lines(items.subrange(0, i as int)),
        decreases events@.len() - i,
    {
        assert(items.subrange(0, i + 1).drop_last() =~= items.subrange(0, i as int));
        assert(items.subrange(0, i + 1).last() == items[i as int]);
        let e = &events[i];
        match e.kind {
            None => {
                let ghost before = lines_view(marks@);
                marks.push(e.text.clone());
                assert(lines_view(marks@) =~= before.push(e.text@));
            },
            Some(k) => {
                let cmd = str_to_chars(e.text.as_str());
                add_to(hists, k, &cmd, no_hist_dups);
            },
        }
        i = i + 1;
    }
    assert(items.subrange(0, events@.len() as int) =~= items);
    marks
}


/// `s` without a leading sign.
pub open spec fn digits_part(s: Seq<char>) -> Seq<char> {
    if s.len() > 0 && (s[0] == '-' || s[0] == '+') {
        s.skip(1)
    } else {
        s
    }
}

/// Are all the characters of `d` decimal digits?
pub open spec fn all_digits(d: Seq<char>) -> bool {
    forall|i: int| 0 <= i < d.len() ==> is_digit_char(#[trigger] d[i])
}

/// The number that `s` writes in decimal, with an optional sign, if all of `s`
/// is such a number and it fits in an `i32`.
pub open spec fn i32_text_value(s: Seq<char>) -> Option<int> {
    let d = digits_part(s);
    let v = if s.len() > 0 && s[0] == '-' { -char_digits_value(d) } else { char_digits_value(d) };
    if d.len() > 0 && all_digits(d) && i32::MIN <= v <= i32::MAX {
        Some(v)
    } else {
        None
    }
}

/// The number of entries of each history that the history file keeps: the
/// value of `LESSHISTSIZE` if it is a positive number, else 100.
pub open spec fn histsize_spec(env: Option<Seq<char>>) -> int {
    match env {
        Some(s) => match i32_text_value(s) {
            Some(v) => if v > 0 { v } else { 100 },
            None => 100,
        },
        None => 100,
    }
}

proof fn lemma_digits_value_nonneg(d: Seq<char>)
    requires
        forall|i: int| 0 <= i < d.len() ==> is_digit_char(#[trigger] d[i]),
    ensures
        char_digits_value(d) >= 0,
    decreases d.len(),
{
    if d.len() > 0 {
        lemma_digits_value_nonneg(d.drop_last());
        assert(is_digit_char(d[d.len() - 1]));
    }
}

/// How many entries of each history the history file keeps (see `histsize_spec`).
pub fn histsize(env: Option<&str>) -> (r: i32)
    ensures
        env is None ==> r == 100,
        env matches Some(s) ==> r as int == histsize_spec(Some(s@)),
        r > 0,
{
    let s = match env {
        None => return 100,
        Some(s) => s,
    };
    let n = s.unicode_len();
    if n == 0 {
        return 100;
    }
    let c0 = s.get_char(0);
    let neg = c0 == '-';
    let start: usize = if c0 == '-' || c0 == '+' {
        1
    } else {
        0
    };
    if start >= n {
        return 100;
    }
    let ghost d = digits_part(s@);
    assert(start == 0 ==> s@.skip(0) =~= s@);
    let mut v: i64 = 0;
    let mut i: usize = start;
    while i < n
        invariant
            start <= i <= n,
            n == s@.len(),
            start == 0 || start == 1,
            d == s@.skip(start as int),
            d == digits_part(s@),
            env == Some(s),
            0 <= v <= 0x8000_0000,
            forall|k: int| 0 <= k < i - start ==> is_digit_char(#[trigger] d[k]),
            v == char_digits_value(d.subrange(0, i - start)),
        decreases n - i,
    {
        let c = s.get_char(i);
        assert(d[i - start] == s@[i as int]);
        if !('0' <= c && c <= '9') {
            assert(!is_digit_char(d[i - start]));
            assert(!all_digits(d));
            assert(i32_text_value(s@) is None);
            return 100;
        }
        let ghost pre = d.subrange(0, i - start);
        assert(d.subrange(0, i + 1 - start).drop_last() =~= pre);
        v = v * 10 + (c as u32 - '0' as u32) as i64;
        i = i + 1;
        if v > 0x8000_0000 {
            proof {
                if all_digits(d) {
                    lemma_digits_prefix_monotone(d, i - start);
                }
                assert(i32_text_value(s@) is None);
            }
            return 100;
        }
    }
    assert(d.subrange(0, n - start) =~= d);
    if neg || v == 0 || v > 0x7fff_ffff {
        return 100;
    }
    v as i32
}

proof fn lemma_digits_prefix_monotone(d: Seq<char>, j: int)
    requires
        0 <= j <= d.len(),
        forall|i: int| 0 <= i < d.len() ==> is_digit_char(#[trigger] d[i]),
    ensures
        char_digits_value(d) >= char_digits_value(d.subrange(0, j)),
    decreases d.len() - j,
{
    if j < d.len() {
        lemma_digits_prefix_monotone(d, j + 1);
        let q = d.subrange(0, j + 1);
        assert(q.drop_last() =~= d.subrange(0, j));
        assert(is_digit_char(q.last()));
        assert forall|i: int| 0 <= i < j implies is_digit_char(#[trigger] d.subrange(0, j)[i]) by {
            assert(d.subrange(0, j)[i] == d[i]);
        }
        lemma_digits_value_nonneg(d.subrange(0, j));
    } else {
        assert(d.subrange(0, j) =~= d);
    }
}


/// A history as the history file sees it: its entries (text, added in this
/// session) and whether anything was added.
pub open spec fn list_view(ml: MList) -> (Seq<(Seq<char>, bool)>, bool) {
    (entry_views(ml.entries@), ml.modified)
}

/// The line of the history file for an entry.
pub open spec fn quoted(t: Seq<char>) -> Seq<char> {
    seq!['"'] + t
}

/// The lines for the entries of a history that were added in this session.
pub open spec fn mlist_out(ev: Seq<(Seq<char>, bool)>) -> Seq<Seq<char>>
    decreases ev.len(),
{
    if ev.len() == 0 {
        Seq::empty()
    } else {
        let p = mlist_out(ev.drop_last());
        if ev.last().1 {
            p.push(quoted(ev.last().0))
        } else {
            p
        }
    }
}

/// The entries, all marked as saved.
pub open spec fn cleared(ev: Seq<(Seq<char>, bool)>) -> Seq<(Seq<char>, bool)> {
    ev.map_values(|e: (Seq<char>, bool)| (e.0, false))
}

/// The line that begins the section of history `k` (the file names to examine
/// have none).
pub open spec fn section_header(k: HistKind) -> Seq<Seq<char>> {
    match k {
        HistKind::Search => seq![".search"@],
        HistKind::Shell => seq![".shell"@],
        HistKind::Examine => Seq::empty(),
    }
}

/// Write out the new entries of the history `ctx` (search `s` or shell `h`),
/// which are then saved.
pub open spec fn flush(
    ctx: Option<HistKind>,
    s: (Seq<(Seq<char>, bool)>, bool),
    h: (Seq<(Seq<char>, bool)>, bool),
) -> (Seq<Seq<char>>, (Seq<(Seq<char>, bool)>, bool), (Seq<(Seq<char>, bool)>, bool)) {
    match ctx {
        Some(HistKind::Search) => (mlist_out(s.0), (cleared(s.0), false), h),
        Some(HistKind::Shell) => (mlist_out(h.0), s, (cleared(h.0), false)),
        _ => (Seq::empty(), s, h),
    }
}

/// The lines written for the items of the old history file from `i` on, and
/// the search and shell histories after: each entry is copied into its section,
/// and the new entries of a history follow its section; a history with new
/// entries that had no section gets one at the end. Marks are not copied.
pub open spec fn save_scan(
    items: Seq<(Option<HistKind>, Seq<char>)>,
    i: int,
    ctx: Option<HistKind>,
    s: (Seq<(Seq<char>, bool)>, bool),
    h: (Seq<(Seq<char>, bool)>, bool),
) -> (Seq<Seq<char>>, (Seq<(Seq<char>, bool)>, bool), (Seq<(Seq<char>, bool)>, bool))
    decreases items.len() - i,
{
    if i < 0 || i >= items.len() {
        let a: (Seq<Seq<char>>, (Seq<(Seq<char>, bool)>, bool)) = if s.1 {
            (section_header(HistKind::Search) + mlist_out(s.0), (cleared(s.0), false))
        } else {
            (Seq::empty(), s)
        };
        let b: (Seq<Seq<char>>, (Seq<(Seq<char>, bool)>, bool)) = if h.1 {
            (section_header(HistKind::Shell) + mlist_out(h.0), (cleared(h.0), false))
        } else {
            (Seq::empty(), h)
        };
        (a.0 + b.0, a.1, b.1)
    } else {
        let it = items[i];
        match it.0 {
            None => save_scan(items, i + 1, ctx, s, h),
            Some(k) => {
                let sw = if Some(k) != ctx {
                    let f = flush(ctx, s, h);
                    (f.0 + section_header(k), f.1, f.2)
                } else {
                    (Seq::empty(), s, h)
                };
                let rest = save_scan(items, i + 1, Some(k), sw.1, sw.2);
                (sw.0 + seq![quoted(it.1)] + rest.0, rest.1, rest.2)
            },
        }
    }
}

fn quote_line(t: &Vec<char>) -> (r: String)
    ensures
        r@ == quoted(t@),
{
    let mut v: Vec<char> = Vec::new();
    v.push('"');
    let mut i: usize = 0;
    while i < t.len()
        invariant
            0 <= i <= t@.len(),
            v@ == quoted(t@.subrange(0, i as int)),
        decreases t@.len() - i,
    {
        v.push(t[i]);
        i = i + 1;
        assert(v@ =~= quoted(t@.subrange(0, i as int)));
    }
    assert(t@.subrange(0, t@.len() as int) =~= t@);
    chars_to_string(v.as_slice())
}

proof fn lemma_cleared_step(ev: Seq<(Seq<char>, bool)>, i: int)
    requires
        0 <= i < ev.len(),
    ensures
        cleared(ev.subrange(0, i + 1)) == cleared(ev.subrange(0, i)).push((ev[i].0, false)),
        mlist_out(ev.subrange(0, i + 1)) == if ev[i].1 {
            mlist_out(ev.subrange(0, i)).push(quoted(ev[i].0))
        } else {
            mlist_out(ev.subrange(0, i))
        },
{
    assert(ev.subrange(0, i + 1).drop_last() =~= ev.subrange(0, i));
    assert(cleared(ev.subrange(0, i + 1)) =~= cleared(ev.subrange(0, i)).push((ev[i].0, false)));
}

/// Write the entries of `ml` added in this session, as lines of the history file,
/// and mark them (and the history) as saved.
fn write_mlist(ml: &mut MList, out: &mut Vec<String>)
    requires
        old(ml).wf(),
    ensures
        final(ml).wf(),
        lines_view(final(out)@) == lines_view(old(out)@) + mlist_out(entry_views(old(ml).entries@)),
        list_view(*final(ml)) == (cleared(entry_views(old(ml).entries@)), false),
        final(ml).curr == old(ml).curr,
{
    let ghost ev0 = entry_views(ml.entries@);
    let ghost o0 = lines_view(out@);
    let n = ml.entries.len();
    let mut i: usize = 0;
    while i < n
        invariant
            0 <= i <= n,
            n == ml.entries@.len(),
            ev0.len() == n,
            ml.curr == old(ml).curr,
            ml.curr <= n,
            ev0 == entry_views(old(ml).entries@),
            entry_views(ml.entries@) == cleared(ev0.subrange(0, i as int)) + ev0.subrange(i as int, n as int),
            lines_view(out@) == o0 + mlist_out(ev0.subrange(0, i as int)),
        decreases n - i,
    {
        proof {
            lemma_cleared_step(ev0, i as int);
            assert(entry_views(ml.entries@)[i as int] == ev0[i as int]);
        }
        let ghost before = entry_views(ml.entries@);
        let ghost obefore = lines_view(out@);
        if ml.entries[i].modified {
            let line = quote_line(&ml.entries[i].text);
            out.push(line);
            assert(lines_view(out@) =~= obefore.push(quoted(ev0[i as int].0)));
        }
        let t = ml.entries[i].text.clone();
        assert(t@ =~= ev0[i as int].0);
        ml.entries.set(i, HistEntry { text: t, modified: false });
        assert(entry_views(ml.entries@) =~= before.update(i as int, (ev0[i as int].0, false)));
        assert(cleared(ev0.subrange(0, i + 1)).len() == i + 1);
        assert forall|k: int| 0 <= k < n implies #[trigger] entry_views(ml.entries@)[k] == (cleared(
            ev0.subrange(0, i + 1),
        ) + ev0.subrange(i + 1, n as int))[k] by {
            if k < i {
                assert(before[k] == cleared(ev0.subrange(0, i as int))[k]);
            } else if k > i {
                assert(before[k] == ev0.subrange(i as int, n as int)[k - i]);
            }
        }
        assert(entry_views(ml.entries@) =~= cleared(ev0.subrange(0, i + 1)) + ev0.subrange(i + 1, n as int));
        i = i + 1;
    }
    assert(ev0.subrange(0, n as int) =~= ev0);
    assert(entry_views(ml.entries@) =~= cleared(ev0));
    ml.modified = false;
}


fn header_exec(k: HistKind, out: &mut Vec<String>)
    ensures
        lines_view(final(out)@) == lines_view(old(out)@) + section_header(k),
{
    let ghost o0 = lines_view(out@);
    match k {
        HistKind::Search => {
            out.push(".search".to_string());
            assert(lines_view(out@) =~= o0 + section_header(k));
        },
        HistKind::Shell => {
            out.push(".shell".to_string());
            assert(lines_view(out@) =~= o0 + section_header(k));
        },
        HistKind::Examine => {
            assert(lines_view(out@) =~= o0 + section_header(k));
        },
    }
}

fn flush_exec(ctx: Option<HistKind>, hists: &mut Histories, out: &mut Vec<String>)
    requires
        old(hists).wf(),
    ensures
        final(hists).wf(),
        ({
            let f = flush(ctx, list_view(old(hists).search), list_view(old(hists).shell));
            &&& lines_view(final(out)@) == lines_view(old(out)@) + f.0
            &&& list_view(final(hists).search) == f.1
            &&& list_view(final(hists).shell) == f.2
        }),
        final(hists).examine == old(hists).examine,
{
    match ctx {
        Some(HistKind::Search) => write_mlist(&mut hists.search, out),
        Some(HistKind::Shell) => write_mlist(&mut hists.shell, out),
        _ => {
            assert(lines_view(out@) =~= lines_view(out@) + Seq::<Seq<char>>::empty());
        },
    }
}

fn is_kind(a: Option<HistKind>, k: HistKind) -> (r: bool)
    ensures
        r == (a == Some(k)),
{
    match a {
        Some(x) => x == k,
        None => false,
    }
}

/// The lines of the new history file, made from the items of the old one (see
/// `read_cmdhist2`) and the histories (see `save_scan`), and the histories after:
/// what they held is then saved. The lines for marks are not among them.
pub fn save_cmdhist(events: &Vec<HistEvent>, hists: &mut Histories) -> (out: Vec<String>)
    requires
        old(hists).wf(),
    ensures
        final(hists).wf(),
        ({
            let r = save_scan(
                events_view(events@),
                0,
                None,
                list_view(old(hists).search),
                list_view(old(hists).shell),
            );
            &&& lines_view(out@) == seq![".less-history-file:"@] + r.0
            &&& list_view(final(hists).search) == r.1
            &&& list_view(final(hists).shell) == r.2
        }),
        final(hists).examine == old(hists).examine,
{
    let ghost items = events_view(events@);
    let ghost total = save_scan(items, 0, None, list_view(hists.search), list_view(hists.shell));
    let mut out: Vec<String> = Vec::new();
    out.push(".less-history-file:".to_string());
    let ghost o0 = lines_view(out@);
    assert(o0 =~= seq![".less-history-file:"@]);
    let mut ctx: Option<HistKind> = None;
    let mut i: usize = 0;
    while i < events.len()
        invariant
            0 <= i <= events@.len(),
            items == events_view(events@),
            hists.wf(),
            hists.examine == old(hists).examine,
            ({
                let rest = save_scan(items, i as int, ctx, list_view(hists.search), list_view(hists.shell));
                &&& lines_view(out@) + rest.0 == o0 + total.0
                &&& rest.1 == total.1
                &&& rest.2 == total.2
            }),
        decreases events@.len() - i,
    {
        let ghost outb = lines_view(out@);
        let e = &events[i];
        assert(items[i as int] == (e.kind, e.text@));
        match e.kind {
            None => {},
            Some(k) => {
                if !is_kind(ctx, k) {
                    flush_exec(ctx, hists, &mut out);
                    header_exec(k, &mut out);
                    ctx = Some(k);
                }
                let chars = str_to_chars(e.text.as_str());
                let line = quote_line(&chars);
                let ghost outm = lines_view(out@);
                out.push(line);
                assert(lines_view(out@) =~= outm.push(quoted(e.text@)));
            },
        }
        i = i + 1;
        proof {
            let rest = save_scan(items, i as int, ctx, list_view(hists.search), list_view(hists.shell));
            assert(lines_view(out@) + rest.0 =~= o0 + total.0) by {
                assert((outb + (lines_view(out@).subrange(outb.len() as int, lines_view(out@).len() as int)
                    + rest.0)) =~= lines_view(out@) + rest.0);
            }
        }
    }
    if hists.search.modified {
        header_exec(HistKind::Search, &mut out);
        write_mlist(&mut hists.search, &mut out);
    }
    if hists.shell.modified {
        header_exec(HistKind::Shell, &mut out);
        write_mlist(&mut hists.shell, &mut out);
    }
    assert(lines_view(out@) =~= o0 + total.0);
    out
}


/// A name for a temporary file beside `filename`: its last character becomes
/// `Q` (or `Z` if it was `Q`).
pub fn make_tempname(filename: &str) -> (r: String)
    requires
        filename@.len() > 0,
    ensures
        r@ == filename@.drop_last().push(if filename@.last() == 'Q' { 'Z' } else { 'Q' }),
{
    let mut v = str_to_chars(filename);
    let last = v.pop().unwrap();
    v.push(if last == 'Q' {
        'Z'
    } else {
        'Q'
    });
    chars_to_string(v.as_slice())
}

/// Does the history file need to be written: was anything added to the search
/// or shell history, or were marks changed?
pub fn histfile_modified(hists: &Histories, marks_modified: bool) -> (r: bool)
    ensures
        r == (hists.search.modified || hists.shell.modified || marks_modified),
{
    hists.search.modified || hists.shell.modified || marks_modified
}

/// How many entries of the search and of the shell history the old history file
/// may have before its entries are dropped, oldest first, to keep `histsize`.
pub fn hist_skips(hists: &Histories, histsize: i32) -> (r: (i64, i64))
    requires
        hists.search.entries@.len() <= i64::MAX,
        hists.shell.entries@.len() <= i64::MAX,
        histsize > 0,
    ensures
        r.0 == hists.search.entries@.len() - histsize,
        r.1 == hists.shell.entries@.len() - histsize,
{
    let a = hists.search.entries.len() as i64;
    let b = hists.shell.entries.len() as i64;
    (a - histsize as i64, b - histsize as i64)
}

/// Where the history is kept, as `LESSHISTFILE` says.
#[derive(Debug)]
pub enum HistFileChoice {
    /// No history file.
    Disabled,
    /// This file.
    Named(String),
    /// The usual places (the state or data directory, or the home directory).
    Usual,
}

/// Where the history is kept: nowhere if `LESSHISTFILE` is `-` or `/dev/null`;
/// the file it names; the usual places when it is not set.
pub fn histfile_choice(env: Option<&str>) -> (r: HistFileChoice)
    ensures
        env is None ==> r is Usual,
        env matches Some(e) ==> (e@ == "-"@ || e@ == "/dev/null"@ ==> r is Disabled),
        env matches Some(e) ==> (!(e@ == "-"@ || e@ == "/dev/null"@) ==> (r matches HistFileChoice::Named(n)
            && n@ == e@)),
{
    match env {
        None => HistFileChoice::Usual,
        Some(e) => {
            if str_eq(e, "-") || str_eq(e, "/dev/null") {
                HistFileChoice::Disabled
            } else {
                HistFileChoice::Named(e.to_string())
            }
        },
    }
}


/// The path of `file` in the directory `dir`: none when the directory is not
/// given or is empty.
pub open spec fn dirfile_spec(dir: Option<Seq<char>>, file: Seq<char>) -> Option<Seq<char>> {
    match dir {
        Some(d) => if d.len() > 0 { Some(d + seq!['/'] + file) } else { None },
        None => None,
    }
}

fn dirfile(dir: Option<&str>, file: &str) -> (r: Option<String>)
    ensures
        r is Some <==> dirfile_spec(opt_view(dir), file@) is Some,
        r matches Some(p) ==> dirfile_spec(opt_view(dir), file@) == Some(p@),
{
    match dir {
        Some(d) => {
            if d.unicode_len() == 0 {
                None
            } else {
                let mut p = d.to_string();
                crate::text::push_str(&mut p, "/");
                crate::text::push_str(&mut p, file);
                proof {
                    reveal_strlit("/");
                }
                assert(p@ =~= d@ + seq!['/'] + file@);
                Some(p)
            }
        },
        None => None,
    }
}

/// The text of an optional string.
pub open spec fn opt_view(s: Option<&str>) -> Option<Seq<char>> {
    match s {
        Some(t) => Some(t@),
        None => None,
    }
}

/// A place where the history file may be: the path, and the directory that must
/// exist for it to be used (besides the file itself, when it must exist).
#[derive(Debug)]
pub struct HistCandidate {
    pub path: String,
    pub dir: Option<String>,
}

/// The places where the history file is looked for, in order: in
/// `$XDG_STATE_HOME`, in `$HOME/.local/state` (if that directory exists), in
/// `$XDG_DATA_HOME` (all as `lesshst`), and in `$HOME` (as `.lesshst`).
pub open spec fn histfile_places(home: Option<Seq<char>>, xdg_state: Option<Seq<char>>, xdg_data: Option<Seq<char>>) -> Seq<(Seq<char>, Option<Seq<char>>)> {
    let a: Seq<(Seq<char>, Option<Seq<char>>)> = match dirfile_spec(xdg_state, "lesshst"@) {
        Some(p) => seq![(p, None::<Seq<char>>)],
        None => Seq::empty(),
    };
    let b: Seq<(Seq<char>, Option<Seq<char>>)> = match dirfile_spec(home, ".local/state"@) {
        Some(d) => seq![(d + seq!['/'] + "lesshst"@, Some(d))],
        None => Seq::empty(),
    };
    let c: Seq<(Seq<char>, Option<Seq<char>>)> = match dirfile_spec(xdg_data, "lesshst"@) {
        Some(p) => seq![(p, None::<Seq<char>>)],
        None => Seq::empty(),
    };
    let d: Seq<(Seq<char>, Option<Seq<char>>)> = match dirfile_spec(home, ".lesshst"@) {
        Some(p) => seq![(p, None::<Seq<char>>)],
        None => Seq::empty(),
    };
    a + b + c + d
}

/// The places where the history file is looked for (see `histfile_places`),
/// given `$HOME`, `$XDG_STATE_HOME` and `$XDG_DATA_HOME`. The file is the first
/// of them whose directory exists, and which exists if it must.
pub fn histfile_find(home: Option<&str>, xdg_state: Option<&str>, xdg_data: Option<&str>) -> (r: Vec<HistCandidate>)
    ensures
        r@.len() == histfile_places(opt_view(home), opt_view(xdg_state), opt_view(xdg_data)).len(),
        forall|i: int|
            0 <= i < r@.len() ==> {
                let p = histfile_places(opt_view(home), opt_view(xdg_state), opt_view(xdg_data))[i];
                &&& (#[trigger] r@[i]).path@ == p.0
                &&& match r@[i].dir {
                    Some(d) => p.1 == Some(d@),
                    None => p.1 is None,
                }
            },
{
    let ghost places = histfile_places(opt_view(home), opt_view(xdg_state), opt_view(xdg_data));
    let mut out: Vec<HistCandidate> = Vec::new();
    let ghost a: Seq<(Seq<char>, Option<Seq<char>>)> = match dirfile_spec(opt_view(xdg_state), "lesshst"@) {
        Some(p) => seq![(p, None::<Seq<char>>)],
        None => Seq::empty(),
    };
    let ghost b: Seq<(Seq<char>, Option<Seq<char>>)> = match dirfile_spec(opt_view(home), ".local/state"@) {
        Some(d) => seq![(d + seq!['/'] + "lesshst"@, Some(d))],
        None => Seq::empty(),
    };
    let ghost c: Seq<(Seq<char>, Option<Seq<char>>)> = match dirfile_spec(opt_view(xdg_data), "lesshst"@) {
        Some(p) => seq![(p, None::<Seq<char>>)],
        None => Seq::empty(),
    };
    if let Some(p) = dirfile(xdg_state, "lesshst") {
        out.push(HistCandidate { path: p, dir: None });
    }
    assert(out@.len() == a.len());
    if let Some(d) = dirfile(home, ".local/state") {
        let p = dirfile(Some(d.as_str()), "lesshst");
        proof {
            reveal_strlit(".local/state");
        }
        match p {
            Some(pp) => {
                out.push(HistCandidate { path: pp, dir: Some(d) });
            },
            None => {},
        }
    }
    assert(out@.len() == a.len() + b.len());
    if let Some(p) = dirfile(xdg_data, "lesshst") {
        out.push(HistCandidate { path: p, dir: None });
    }
    if let Some(p) = dirfile(home, ".lesshst") {
        out.push(HistCandidate { path: p, dir: None });
    }
    assert(places == a + b + c + match dirfile_spec(opt_view(home), ".lesshst"@) {
        Some(p) => seq![(p, None::<Seq<char>>)],
        None => Seq::<(Seq<char>, Option<Seq<char>>)>::empty(),
    });
    out
}

} // verus!
