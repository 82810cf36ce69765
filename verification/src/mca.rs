use vstd::prelude::*;
use vstd::string::StrSliceExecFns;

use crate::cmdbuf::{char_result, CmdBuf, CompletionList, Histories, Quoting};
use crate::command::{
    exec_mca, exec_mca_matches, ignore_check, is_erase_char, is_newline_char, mca_opt_first_char,
    mca_opt_toggle, mca_search_char, opt_first_char_spec, opt_toggle_prompt_spec, search_char_spec,
    search_mca_spec, search_prompt_spec, ExecMca, Mca, McaResult, PasteState,
};
use crate::defs::{A_INVALID, A_NOACTION, SRCH_BACK, SRCH_FORW, SRCH_INCR, SRCH_NO_MATCH, SRCH_NO_MOVE, SRCH_NO_REGEX, SRCH_SUBSEARCH_ALL, SRCH_WRAP};
use crate::defs::{CC_QUIT, CF_OPTION, OPT_NO_PROMPT, OPT_TOGGLE};
use crate::option::{events_view, opt_has_param, opt_prompt, toggle_option, toggle_spec, OptEvent, OptEventV};
use crate::opttbl::{findopt_name_result, first_with_letter, is_ascii_lower, FoundOpt, Options, ToggleHow};

verus! {

/// The state of an option command being entered: the option found so far, whether
/// its letter was lower case, how it is to be changed (`OPT_TOGGLE`,
/// `OPT_UNSET`, `OPT_SET`, or none to query, with `OPT_NO_PROMPT`), and whether
/// a long name is being read.
#[derive(Clone, Copy, Debug, PartialEq, Eq, Structural)]
pub struct OptEntry {
    pub curropt: Option<usize>,
    pub opt_lower: bool,
    pub optflag: i32,
    pub optgetname: bool,
}

/// The erase and kill characters.
#[derive(Clone, Copy, Debug)]
pub struct EraseKeys {
    pub erase: char,
    pub erase2: char,
    pub kill: char,
}

/// What a key typed in a command brings with it: the character, what it stands
/// for as an editing key, the time, and the completion offered for it.
pub struct KeyIn {
    pub c: char,
    pub action: i32,
    pub now: i64,
    pub list: Option<CompletionList>,
}

/// How an option is changed, by the flag of the option command.
pub open spec fn how_of(optflag: i32) -> ToggleHow {
    let f = optflag & !OPT_NO_PROMPT;
    if f == 0 {
        ToggleHow::NoToggle
    } else if f == OPT_TOGGLE {
        ToggleHow::Toggle
    } else if f == crate::defs::OPT_UNSET {
        ToggleHow::Unset
    } else {
        ToggleHow::SetInverse
    }
}

fn how_exec(optflag: i32) -> (r: ToggleHow)
    ensures
        r == how_of(optflag),
{
    let f = optflag & !OPT_NO_PROMPT;
    if f == 0 {
        ToggleHow::NoToggle
    } else if f == OPT_TOGGLE {
        ToggleHow::Toggle
    } else if f == crate::defs::OPT_UNSET {
        ToggleHow::Unset
    } else {
        ToggleHow::SetInverse
    }
}

/// What a character of an option command brought about.
pub struct OptCharOutcome {
    pub result: McaResult,
    /// An error to show.
    pub error: Option<String>,
    /// The prompt the command now shows, if it changed.
    pub prompt: Option<String>,
    /// What changing the option gave (see `toggle_option`).
    pub events: Vec<OptEvent>,
    /// Ring the bell.
    pub bell: bool,
    /// The key, when it was not part of the option command (`NoMca`).
    pub key: Option<KeyIn>,
}

fn outcome(result: McaResult) -> (r: OptCharOutcome)
    ensures
        r.result == result,
        r.error is None,
        r.prompt is None,
        r.events@.len() == 0,
        !r.bell,
        r.key is None,
{
    OptCharOutcome { result, error: None, prompt: None, events: Vec::new(), bell: false, key: None }
}

/// Begin showing a new prompt of an option command: the command line takes
/// no history and is for an option.
fn start_opt_prompt(cb: &mut CmdBuf, hists: &mut Histories)
    requires
        old(cb).wf(),
    ensures
        final(cb).wf(),
        final(cb).text() == old(cb).text(),
        final(cb).cursor() == old(cb).cursor(),
        final(cb).partial_len() == 0,
        final(cb).history() is None,
        final(cb).flags() == CF_OPTION,
        *final(hists) == *old(hists),
{
    cb.clear_cmd();
    cb.set_mlist(hists, None, CF_OPTION);
}

/// What `finish_opt` does once the option of `e` is known: with the option
/// table `tbl` and the text `t0` before, the table `tbl2`, the command line `b`
/// after, and its outcome `r`.
pub open spec fn finish_result(
    e: OptEntry,
    tbl: Seq<crate::opttbl::LOption>,
    t0: Seq<char>,
    tbl2: Seq<crate::opttbl::LOption>,
    b: CmdBuf,
    r: OptCharOutcome,
) -> bool {
    let i = e.curropt.unwrap();
    let o = tbl[i as int];
    let takes = (e.optflag & !OPT_NO_PROMPT) == OPT_TOGGLE && opt_has_param_spec(o);
    &&& !takes ==> {
        let t = toggle_spec(
            tbl,
            e.curropt,
            e.opt_lower,
            Seq::empty(),
            how_of(e.optflag),
            (e.optflag & OPT_NO_PROMPT) != 0,
        );
        &&& r.result == McaResult::McaDone
        &&& tbl2 == t.0
        &&& events_view(r.events@) == t.1
        &&& r.prompt is None
        &&& b.text() == t0
    }
    &&& takes ==> {
        &&& r.result == McaResult::McaMore
        &&& tbl2 == tbl
        &&& r.events@.len() == 0
        &&& r.prompt matches Some(p) && p@ == opt_prompt_spec(o)
        &&& b.text() == t0
        &&& b.flags() == CF_OPTION
    }
    &&& r.error is None
    &&& !r.bell
    &&& r.key is None
}

/// Once the option is known: an option that takes no value (or a command that
/// does not just toggle) is changed at once; else its prompt is shown and its
/// value is asked for.
fn finish_opt(e: &mut OptEntry, cb: &mut CmdBuf, hists: &mut Histories, opts: &mut Options) -> (r: OptCharOutcome)
    requires
        old(cb).wf(),
        old(e).curropt matches Some(i) && i < old(opts).option_table@.len(),
    ensures
        final(cb).wf(),
        *final(e) == *old(e),
        *final(hists) == *old(hists),
        final(opts).less_is_more == old(opts).less_is_more,
        finish_result(*old(e), old(opts).option_table@, old(cb).text(), final(opts).option_table@, *final(cb), r),
{
    let i = e.curropt.unwrap();
    let o = opts.option_table[i];
    if (e.optflag & !OPT_NO_PROMPT) != OPT_TOGGLE || !opt_has_param(Some(&o)) {
        let evs = toggle_option(opts, e.curropt, e.opt_lower, "", how_exec(e.optflag), (e.optflag & OPT_NO_PROMPT) != 0);
        assert(""@ =~= Seq::<char>::empty()) by {
            reveal_strlit("");
        }
        return OptCharOutcome { result: McaResult::McaDone, error: None, prompt: None, events: evs, bell: false, key: None };
    }
    let p = opt_prompt(Some(&o));
    start_opt_prompt(cb, hists);
    OptCharOutcome { result: McaResult::McaMore, error: None, prompt: Some(p), events: Vec::new(), bell: false, key: None }
}

/// Does the option take a value?
pub open spec fn opt_has_param_spec(o: crate::opttbl::LOption) -> bool {
    !o.otype.any(crate::opttbl::O_BOOL | crate::opttbl::O_TRIPLE | crate::opttbl::O_NOVAR | crate::opttbl::O_NO_TOGGLE)
}

/// The prompt for the value of the option.
pub open spec fn opt_prompt_spec(o: crate::opttbl::LOption) -> Seq<char> {
    if o.otype.any(crate::opttbl::O_STRING | crate::opttbl::O_NUMBER) {
        o.odesc@[0]@
    } else {
        seq!['?']
    }
}


/// What `mca_opt_nonfirst_char` does with the character `c` (editing action
/// `action`): the entry `e0`, command line `a`, histories `ha` and paste state
/// `pa` before; `e1`, `b`, `hb`, `pb` after; `r` its outcome.
pub open spec fn nonfirst_result(
    e0: OptEntry,
    a: CmdBuf,
    ha: Histories,
    pa: PasteState,
    tbl: Seq<crate::opttbl::LOption>,
    c: char,
    action: i32,
    now: i64,
    list: Option<CompletionList>,
    keys: EraseKeys,
    no_paste: bool,
    q: Quoting,
    e1: OptEntry,
    b: CmdBuf,
    hb: Histories,
    pb: PasteState,
    r: OptCharOutcome,
) -> bool {
    let erase = c == keys.erase || c == keys.erase2 || c == keys.kill;
    &&& r.error is None
    &&& r.key is None
    &&& r.events@.len() == 0
    &&& if e0.curropt is Some && (erase || c != '\t') {
        &&& r.result == if erase { McaResult::McaDone } else { McaResult::McaMore }
        &&& e1 == e0
        &&& b == a
        &&& hb == ha
        &&& pb == pa
        &&& r.prompt is None
        &&& !r.bell
    } else {
        exists|m: CmdBuf, hm: Histories, pm: PasteState, r1: i32|
            #![trigger char_result(a, ha, pa, c, true, action, no_paste, now, list, q, m, hm, pm, r1)]
            {
                &&& char_result(a, ha, pa, c, true, action, no_paste, now, list, q, m, hm, pm, r1)
                &&& pb == pm
                &&& r1 == CC_QUIT ==> {
                    &&& r.result == McaResult::McaDone
                    &&& b == m && hb == hm && e1 == e0
                    &&& r.prompt is None && !r.bell
                }
                &&& r1 != CC_QUIT ==> r.result == McaResult::McaMore
                &&& r1 != CC_QUIT && (m.partial_len() > 0 || m.text().len() == 0) ==> {
                    &&& b == m && hb == hm && e1 == e0
                    &&& r.prompt is None && !r.bell
                }
                &&& r1 != CC_QUIT && m.partial_len() == 0 && m.text().len() > 0 ==> {
                    let lower = is_ascii_lower(m.text()[0]);
                    exists|f: FoundOpt|
                        #![trigger findopt_name_result(tbl, m.text(), f)]
                        {
                            &&& findopt_name_result(tbl, m.text(), f)
                            &&& e1 == OptEntry { curropt: f.index, opt_lower: lower, ..e0 }
                            &&& r.bell == (f.index is None && !f.ambig)
                            &&& (f.index is Some && e0.curropt is None) ==> {
                                let name = f.oname.unwrap()@;
                                let u = if !lower { crate::opttbl::upper_name(name) } else { name };
                                &&& r.prompt matches Some(p) && p@ == opt_toggle_prompt_spec(
                                    e0.optflag,
                                    e0.optgetname,
                                )
                                &&& b.text() == crate::cmdbuf::istr_line(Seq::empty(), 0, u).0
                                &&& b.flags() == CF_OPTION
                                &&& b.history() is None
                                &&& hb == hm
                            }
                            &&& !(f.index is Some && e0.curropt is None) ==> {
                                &&& b == m && hb == hm && r.prompt is None
                            }
                        }
                }
            }
    }
}

/// The text of the command line, when no multi-byte character is partly entered.
fn line_text(cb: &CmdBuf) -> (r: Option<String>)
    ensures
        cb.partial_len() > 0 ==> r is None,
        cb.partial_len() == 0 ==> (r matches Some(t) && t@ == cb.text()),
{
    cb.get_cmdbuf()
}

/// Add a character to the long name of an option being entered, and look the
/// name up. Once an option is found, only an erase character (which ends the
/// command) or a tab (which goes on completing) counts. When the name first
/// matches an option, the line shows the full name (in upper case if the first
/// letter was); when it matches none (and is not ambiguous), the bell rings.
pub fn mca_opt_nonfirst_char(
    e: &mut OptEntry,
    cb: &mut CmdBuf,
    hists: &mut Histories,
    paste: &mut PasteState,
    opts: &Options,
    k: KeyIn,
    keys: EraseKeys,
    no_paste: bool,
    q: &Quoting,
) -> (r: OptCharOutcome)
    requires
        old(cb).wf(),
        old(hists).wf(),
    ensures
        final(cb).wf(),
        final(hists).wf(),
        nonfirst_result(*old(e), *old(cb), *old(hists), *old(paste), opts.option_table@, k.c, k.action, k.now, k.list, keys,
            no_paste, *q, *final(e), *final(cb), *final(hists), *final(paste), r),
{
    let erase = is_erase_char(k.c, keys.erase, keys.erase2, keys.kill);
    if e.curropt.is_some() {
        if erase {
            return outcome(McaResult::McaDone);
        }
        if k.c != '\t' {
            return outcome(McaResult::McaMore);
        }
    }
    let ghost a = *cb;
    let ghost ha = *hists;
    let ghost pa = *paste;
    let c = k.c;
    let action = k.action;
    let now = k.now;
    let r1 = cb.cmd_char(hists, paste, c, true, action, no_paste, now, k.list, q);
    let ghost m = *cb;
    let ghost hm = *hists;
    let ghost pm = *paste;
    assert(char_result(a, ha, pa, c, true, action, no_paste, now, k.list, *q, m, hm, pm, r1));
    if r1 == CC_QUIT {
        return outcome(McaResult::McaDone);
    }
    let t = match line_text(cb) {
        None => {
            return outcome(McaResult::McaMore);
        },
        Some(t) => t,
    };
    if t.unicode_len() == 0 {
        return outcome(McaResult::McaMore);
    }
    let c0 = t.get_char(0);
    let lower = 'a' <= c0 && c0 <= 'z';
    let was = e.curropt;
    let f = opts.findopt_name(t.as_str());
    assert(findopt_name_result(opts.option_table@, m.text(), f));
    e.curropt = f.index;
    e.opt_lower = lower;
    let mut res = outcome(McaResult::McaMore);
    if f.index.is_some() {
        if was.is_none() {
            cb.cmd_reset();
            let p = mca_opt_toggle(e.optflag, e.optgetname);
            start_opt_prompt(cb, hists);
            cb.cmd_setstring(f.oname.unwrap(), !lower);
            res.prompt = Some(p);
        }
    } else if !f.ambig {
        res.bell = true;
    }
    res
}


/// What `mca_opt_char` does with the key `k`: the option entry `e0`, command
/// line `a`, histories `ha`, paste state `pa` and option table `tbl0` before;
/// `e1`, `b`, `hb`, `pb`, `tbl1` after; `r` its outcome.
pub open spec fn opt_char_result(
    e0: OptEntry,
    a: CmdBuf,
    ha: Histories,
    pa: PasteState,
    tbl0: Seq<crate::opttbl::LOption>,
    k: KeyIn,
    keys: EraseKeys,
    no_paste: bool,
    q: Quoting,
    e1: OptEntry,
    b: CmdBuf,
    hb: Histories,
    pb: PasteState,
    tbl1: Seq<crate::opttbl::LOption>,
    r: OptCharOutcome,
) -> bool {
    &&& r.result != McaResult::NoMca ==> r.key is None
    &&& r.result == McaResult::NoMca ==> {
        &&& b == a && e1 == e0 && hb == ha
        &&& pb == pa && r.key == Some(k)
        &&& tbl1 == tbl0
    }
    &&& {
        let c = k.c;
        let first = e0.curropt is None && a.text().len() == 0 && a.partial_len() == 0;
        let fc = opt_first_char_spec(e0.optflag, e0.optgetname, c);
        let erase = c == keys.erase || c == keys.erase2 || c == keys.kill;
        if first && fc is Some {
            let v = fc.unwrap();
            &&& r.result == McaResult::McaMore
            &&& e1 == OptEntry { optflag: v.0, optgetname: v.1, ..e0 }
            &&& r.prompt matches Some(p) && p@ == opt_toggle_prompt_spec(v.0, v.1)
            &&& r.error is None && r.events@.len() == 0 && !r.bell
            &&& b.text() == a.text()
            &&& b.flags() == CF_OPTION
            &&& hb == ha
            &&& tbl1 == tbl0
        } else if e0.optgetname && !(c == '\n' || c == '\r' || c == '=') {
            &&& nonfirst_result(e0, a, ha, pa, tbl0, c, k.action,
                k.now, k.list, keys, no_paste, q, e1, b, hb, pb, r)
            &&& tbl1 == tbl0
        } else if e0.optgetname && e0.curropt is None {
            &&& a.partial_len() > 0 ==> r.result == McaResult::McaMore && r.error is None
            &&& a.partial_len() == 0 ==> r.result == McaResult::McaDone && (r.error matches Some(m) && m@
                == "There is no --"@ + a.text() + " option"@)
            &&& e1 == e0 && b == a && hb == ha
            &&& tbl1 == tbl0
            &&& r.prompt is None && r.events@.len() == 0 && !r.bell
        } else if e0.optgetname {
            &&& e0.curropt.unwrap() < tbl0.len() ==> {
                &&& e1 == OptEntry { optgetname: false, ..e0 }
                &&& finish_result(e1, tbl0, Seq::empty(), tbl1,
                    b, r)
            }
            &&& e0.curropt.unwrap() >= tbl0.len() ==> {
                &&& r.result == McaResult::McaDone
                &&& e1 == OptEntry { optgetname: false, ..e0 }
                &&& b.text() == Seq::<char>::empty() && b.cursor() == 0 && b.partial_len() == 0
                &&& b.flags() == a.flags() && b.history() == a.history() && b.rang() == a.rang()
                &&& hb == ha && tbl1 == tbl0
                &&& r.error is None && r.prompt is None && r.events@.len() == 0 && !r.bell
            }
        } else if erase || e0.curropt is Some {
            &&& r.result == McaResult::NoMca
            &&& e1 == e0 && b == a && hb == ha
            &&& tbl1 == tbl0
            &&& r.prompt is None && r.events@.len() == 0 && !r.bell && r.error is None
            &&& r.key == Some(k)
        } else {
            match first_with_letter(tbl0, c, 0) {
                None => {
                    &&& r.result == McaResult::McaDone
                    &&& r.error matches Some(m) && m@ == "There is no "@ + seq!['-', c] + " option"@
                    &&& e1 == e0 && b == a && hb == ha
                    &&& tbl1 == tbl0
                    &&& r.prompt is None && r.events@.len() == 0 && !r.bell
                },
                Some(i) => {
                    &&& e1 == OptEntry { curropt: Some(i as usize), opt_lower: is_ascii_lower(c), ..e0 }
                    &&& finish_result(e1, tbl0, a.text(), tbl1,
                        b, r)
                },
            }
        }
    }
}

/// Handle a character of an option command: the first one may change the kind
/// of command (see `mca_opt_first_char`); then a long name is read (see
/// `mca_opt_nonfirst_char`) up to a newline or `=`, or a letter names the option.
/// An option that takes no value is changed at once; else its value is asked for.
/// An erase character, or any character once the option is known, is not part
/// of this command (`NoMca`). An unknown option is an error.
pub fn mca_opt_char(
    e: &mut OptEntry,
    cb: &mut CmdBuf,
    hists: &mut Histories,
    paste: &mut PasteState,
    opts: &mut Options,
    k: KeyIn,
    keys: EraseKeys,
    no_paste: bool,
    q: &Quoting,
) -> (r: OptCharOutcome)
    requires
        old(cb).wf(),
        old(hists).wf(),
    ensures
        final(cb).wf(),
        final(hists).wf(),
        final(opts).less_is_more == old(opts).less_is_more,
        opt_char_result(*old(e), *old(cb), *old(hists), *old(paste), old(opts).option_table@, k, keys, no_paste, *q,
            *final(e), *final(cb), *final(hists), *final(paste), final(opts).option_table@, r),

{
    let c = k.c;
    if e.curropt.is_none() && cb.cmdbuf_empty() {
        let (res, p) = mca_opt_first_char(&mut e.optflag, &mut e.optgetname, c);
        if res != McaResult::NoMca {
            start_opt_prompt(cb, hists);
            return OptCharOutcome { result: res, error: None, prompt: p, events: Vec::new(), bell: false, key: None };
        }
    }
    if e.optgetname {
        if !is_newline_char(c) && c != '=' {
            return mca_opt_nonfirst_char(e, cb, hists, paste, opts, k, keys, no_paste, q);
        }
        if e.curropt.is_none() {
            match line_text(cb) {
                None => {
                    return outcome(McaResult::McaMore);
                },
                Some(t) => {
                    let mut m = "There is no --".to_string();
                    crate::text::push_str(&mut m, t.as_str());
                    crate::text::push_str(&mut m, " option");
                    let mut res = outcome(McaResult::McaDone);
                    res.error = Some(m);
                    return res;
                },
            }
        }
        e.optgetname = false;
        cb.cmd_reset();
        if e.curropt.unwrap() >= opts.option_table.len() {
            return outcome(McaResult::McaDone);
        }
        return finish_opt(e, cb, hists, opts);
    }
    if is_erase_char(c, keys.erase, keys.erase2, keys.kill) || e.curropt.is_some() {
        let mut o = outcome(McaResult::NoMca);
        o.key = Some(k);
        return o;
    }
    match opts.findopt(c) {
        None => {
            let mut m = "There is no ".to_string();
            let d = crate::option::propt(c);
            crate::text::push_str(&mut m, d.as_str());
            crate::text::push_str(&mut m, " option");
            let mut res = outcome(McaResult::McaDone);
            res.error = Some(m);
            res
        },
        Some(i) => {
            e.curropt = Some(i);
            e.opt_lower = 'a' <= c && c <= 'z';
            proof {
                crate::opttbl::lemma_first_with_letter_in_range(opts.option_table@, c, 0);
            }
            finish_opt(e, cb, hists, opts)
        },
    }
}


/// The state of the command being entered: which command, the search type,
/// whether the next character of a pattern is literal, the number typed before
/// it (and its fraction), the mark character of a pipe, and the option command.
#[derive(Clone, Copy, Debug, PartialEq, Eq, Structural)]
pub struct CmdState {
    pub mca: Mca,
    pub search_type: i32,
    pub literal_char: bool,
    pub number: i64,
    pub fraction: i64,
    pub pipec: char,
    pub opt: OptEntry,
}

/// What a character of a multi-character command brought about.
pub struct McaOutcome {
    pub result: McaResult,
    /// What the completed command asks to be done.
    pub run: Option<ExecMca>,
    /// What a character of an option command did.
    pub opt: Option<OptCharOutcome>,
    /// The search command and prompt shown, if they changed.
    pub search_prompt: Option<(Mca, String)>,
    /// Input is to be ignored from now (a pasted newline).
    pub start_ignoring: bool,
    /// An incremental search to run: the pattern and the search type.
    pub incr_search: Option<(String, i32)>,
    /// An error to show.
    pub error: Option<String>,
}

fn mca_outcome(result: McaResult) -> (r: McaOutcome)
    ensures
        r.result == result,
        r.run is None,
        r.opt is None,
        r.search_prompt is None,
        !r.start_ignoring,
        r.incr_search is None,
        r.error is None,
{
    McaOutcome {
        result,
        run: None,
        opt: None,
        search_prompt: None,
        start_ignoring: false,
        incr_search: None,
        error: None,
    }
}

/// The search type of an incremental search made from the search type `st`.
pub open spec fn incr_search_type(st: i32) -> i32 {
    (st & (SRCH_FORW | SRCH_BACK | SRCH_NO_MATCH | SRCH_NO_REGEX | SRCH_NO_MOVE | SRCH_WRAP | SRCH_SUBSEARCH_ALL))
        | SRCH_INCR
}

/// What the end of `mca_char` (`mca_char_rest`) does with the key `k` of the
/// command `cs0`: the command line `a`, histories `ha`, paste state `pa` before;
/// `cs1`, `b`, `hb`, `pb` after; `r` its outcome. A newline completes the
/// command (see `exec_mca`) unless a paste is to be ignored; any other key goes
/// into the command line (see `char_result`), and then a bracket command is
/// complete after two characters and an incremental search searches.
pub open spec fn rest_result(
    cs0: CmdState,
    a: CmdBuf,
    ha: Histories,
    pa: PasteState,
    k: KeyIn,
    no_paste: bool,
    incr: bool,
    q: Quoting,
    cs1: CmdState,
    b: CmdBuf,
    hb: Histories,
    pb: PasteState,
    r: McaOutcome,
) -> bool {
    let c = k.c;
    &&& r.search_prompt is None
    &&& r.error is None
    &&& if c == '\n' || c == '\r' {
        if pa.pasting && no_paste {
            &&& r.result == McaResult::McaMore
            &&& r.start_ignoring
            &&& r.run is None && r.incr_search is None
            &&& pb == PasteState { ignoring: true, since: k.now, ..pa }
            &&& b == a && hb == ha && cs1 == cs0
        } else {
            &&& r.result == McaResult::McaDone
            &&& !r.start_ignoring && r.incr_search is None
            &&& b == a && hb == ha && pb == pa
            &&& a.partial_len() > 0 ==> r.run is None && cs1 == cs0
            &&& a.partial_len() == 0 ==> {
                &&& r.run matches Some(x) && exec_mca_matches(cs0.mca, a.text(), cs0.number, cs0.search_type,
                    cs0.pipec, x)
                &&& cs1 == if cs0.mca == Mca::Filter {
                    CmdState { search_type: cs0.search_type ^ SRCH_NO_MATCH, ..cs0 }
                } else {
                    cs0
                }
            }
        }
    } else {
        &&& cs1 == cs0
        &&& !r.start_ignoring
        &&& exists|r1: i32|
            #![trigger char_result(a, ha, pa, c, true, k.action, no_paste, k.now, k.list, q, b, hb, pb, r1)]
            {
                &&& char_result(a, ha, pa, c, true, k.action, no_paste, k.now, k.list, q, b, hb, pb, r1)
                &&& if r1 == CC_QUIT {
                    r.result == McaResult::McaDone && r.run is None && r.incr_search is None
                } else if (cs0.mca == Mca::FBracket || cs0.mca == Mca::BBracket) && b.text().len() >= 2 {
                    &&& r.result == McaResult::McaDone
                    &&& r.incr_search is None
                    &&& b.partial_len() > 0 ==> r.run is None
                    &&& b.partial_len() == 0 ==> (r.run matches Some(x) && exec_mca_matches(cs0.mca, b.text(),
                        cs0.number, cs0.search_type, cs0.pipec, x))
                } else {
                    let searching = (cs0.mca == Mca::FSearch || cs0.mca == Mca::BSearch) && incr && b.partial_len()
                        == 0;
                    &&& r.result == McaResult::McaMore
                    &&& r.run is None
                    &&& searching ==> (r.incr_search matches Some(t) && t.0@ == b.text() && t.1 == incr_search_type(
                        cs0.search_type))
                    &&& !searching ==> r.incr_search is None
                }
            }
    }
}

/// An outcome with nothing in it but its result.
pub open spec fn bare(r: McaOutcome, result: McaResult) -> bool {
    &&& r.result == result
    &&& r.run is None && r.opt is None && r.search_prompt is None && r.error is None && r.incr_search is None
    &&& !r.start_ignoring
}

/// What `mca_char` does with the key `k`: the command state `cs0`, command line
/// `a`, histories `ha`, paste state `pa` and option table `tbl0` before; `cs1`,
/// `b`, `hb`, `pb`, `tbl1` after; `r` its outcome.
pub open spec fn mca_char_result(
    cs0: CmdState,
    a: CmdBuf,
    ha: Histories,
    pa: PasteState,
    tbl0: Seq<crate::opttbl::LOption>,
    k: KeyIn,
    digit_action: i32,
    sub: char,
    keys: EraseKeys,
    no_paste: bool,
    incr: bool,
    no_hist_dups: bool,
    q: Quoting,
    cs1: CmdState,
    b: CmdBuf,
    hb: Histories,
    pb: PasteState,
    tbl1: Seq<crate::opttbl::LOption>,
    r: McaOutcome,
) -> bool {
    let c = k.c;
    let unchanged = cs1 == cs0 && b == a && hb == ha && pb == pa && tbl1 == tbl0;
    match cs0.mca {
        Mca::Null | Mca::Prefix => unchanged && bare(r, McaResult::NoMca),
        Mca::Digit => if ('0' <= c <= '9' || c == '.') || !(digit_action == A_NOACTION || digit_action
            == A_INVALID) {
            tbl1 == tbl0 && r.opt is None && rest_result(cs0, a, ha, pa, k, no_paste, incr, q, cs1, b, hb, pb, r)
        } else if digit_action == A_NOACTION {
            unchanged && bare(r, McaResult::McaMore)
        } else {
            &&& r.result == McaResult::NoMca
            &&& r.run is None && r.opt is None && r.search_prompt is None && r.incr_search is None
            &&& !r.start_ignoring
            &&& b == a && pb == pa && tbl1 == tbl0
            &&& crate::cmdbuf::accept_result(a, ha, no_hist_dups, hb)
            &&& match crate::cmdbuf::cmd_int_spec(a.text()) {
                Some(v) => cs1 == CmdState { mca: Mca::Null, number: v.0, fraction: v.1, ..cs0 } && r.error is None,
                None => cs1 == CmdState { mca: Mca::Null, number: 0, ..cs0 } && (r.error matches Some(m) && m@
                    == "Integer is too big"@),
            }
        },
        Mca::OptToggle => r.opt matches Some(o) && if o.result != McaResult::NoMca {
            &&& opt_char_result(cs0.opt, a, ha, pa, tbl0, k, keys, no_paste, q, cs1.opt, b, hb, pb, tbl1, o)
            &&& cs1 == CmdState { opt: cs1.opt, ..cs0 }
            &&& r.result == o.result
            &&& r.run is None && r.search_prompt is None && r.error is None && r.incr_search is None
            &&& !r.start_ignoring
        } else {
            tbl1 == tbl0 && rest_result(cs0, a, ha, pa, k, no_paste, incr, q, cs1, b, hb, pb, r)
        },
        Mca::FSearch | Mca::BSearch | Mca::Filter => {
            let empty = a.text().len() == 0 && a.partial_len() == 0;
            let x = search_char_spec(cs0.mca, cs0.search_type, c, sub);
            if empty && !cs0.literal_char && x.0 != 0 {
                let st = if x.0 == -1 {
                    x.1
                } else {
                    crate::command::norm_search_type_spec(x.1 ^ x.0)
                };
                &&& r.result == McaResult::McaMore
                &&& cs1 == CmdState { search_type: st, literal_char: x.2, mca: search_mca_spec(st), ..cs0 }
                &&& b == a && hb == ha && pb == pa && tbl1 == tbl0
                &&& r.search_prompt matches Some(p) && p.0 == search_mca_spec(st) && p.1@ == search_prompt_spec(
                    st,
                    x.2,
                )
                &&& r.run is None && r.opt is None && r.error is None && r.incr_search is None
                &&& !r.start_ignoring
            } else {
                let mid = CmdState {
                    literal_char: false,
                    search_type: if empty && !cs0.literal_char {
                        x.1
                    } else {
                        cs0.search_type
                    },
                    ..cs0
                };
                tbl1 == tbl0 && r.opt is None && rest_result(mid, a, ha, pa, k, no_paste, incr, q, cs1, b, hb, pb, r)
            }
        },
        _ => tbl1 == tbl0 && r.opt is None && rest_result(cs0, a, ha, pa, k, no_paste, incr, q, cs1, b, hb, pb, r),
    }
}

/// Take a character `k.c` of the multi-character command `cs.mca`. A number
/// ends at a character that is neither a digit nor `.` (unless the key is to be
/// ignored: `digit_action` is what it stands for): the number is taken and the
/// character is a command of its own. Characters of option and search commands
/// are handled by `mca_opt_char` and `mca_search_char` (`sub` is the digit read
/// after control-S). A newline completes the command (see `exec_mca`), unless a
/// paste is to be ignored. Any other character goes into the command line; a
/// bracket command is complete after two; an incremental search searches after
/// each.
pub fn mca_char(
    cs: &mut CmdState,
    cb: &mut CmdBuf,
    hists: &mut Histories,
    paste: &mut PasteState,
    opts: &mut Options,
    k: KeyIn,
    digit_action: i32,
    sub: char,
    keys: EraseKeys,
    no_paste: bool,
    no_hist_dups: bool,
    incr_search: bool,
    q: &Quoting,
) -> (r: McaOutcome)
    requires
        old(cb).wf(),
        old(hists).wf(),
    ensures
        final(cb).wf(),
        final(hists).wf(),
        final(opts).less_is_more == old(opts).less_is_more,
        mca_char_result(*old(cs), *old(cb), *old(hists), *old(paste), old(opts).option_table@, k, digit_action, sub,
            keys, no_paste, incr_search, no_hist_dups, *q, *final(cs), *final(cb), *final(hists), *final(paste),
            final(opts).option_table@, r),
{
    let c = k.c;
    match cs.mca {
        Mca::Null | Mca::Prefix => {
            return mca_outcome(McaResult::NoMca);
        },
        Mca::Digit => {
            if !(('0' <= c && c <= '9') || c == '.') {
                if digit_action == A_NOACTION {
                    return mca_outcome(McaResult::McaMore);
                }
                if digit_action == A_INVALID {
                    let mut res = mca_outcome(McaResult::NoMca);
                    match cb.cmd_int() {
                        Some((n, f)) => {
                            cs.number = n;
                            cs.fraction = f;
                        },
                        None => {
                            cs.number = 0;
                            res.error = Some("Integer is too big".to_string());
                        },
                    }
                    cs.mca = Mca::Null;
                    cb.cmd_accept(hists, no_hist_dups);
                    return res;
                }
            }
        },
        Mca::OptToggle => {
            let mut o = mca_opt_char(&mut cs.opt, cb, hists, paste, opts, k, keys, no_paste, q);
            if o.result != McaResult::NoMca {
                let res0 = o.result;
                let mut res = mca_outcome(res0);
                res.opt = Some(o);
                return res;
            }
            let kk = o.key.take();
            let mut res = mca_outcome(McaResult::McaMore);
            res.opt = Some(o);
            return match kk {
                Some(k2) => mca_char_rest(cs, cb, hists, paste, k2, no_paste, incr_search, q, res),
                None => res,
            };
        },
        Mca::FSearch | Mca::BSearch | Mca::Filter => {
            let empty = cb.cmdbuf_empty();
            let (sr, sp) = mca_search_char(cs.mca, &mut cs.search_type, &mut cs.literal_char, empty, c, sub);
            if sr != McaResult::NoMca {
                let mut res = mca_outcome(sr);
                res.search_prompt = sp;
                if let Some((m, _)) = &res.search_prompt {
                    cs.mca = *m;
                }
                return res;
            }
        },
        _ => {},
    }
    let res = mca_outcome(McaResult::McaMore);
    mca_char_rest(cs, cb, hists, paste, k, no_paste, incr_search, q, res)
}

/// The end of `mca_char`: a newline completes the command; any other character
/// goes into the command line.
fn mca_char_rest(
    cs: &mut CmdState,
    cb: &mut CmdBuf,
    hists: &mut Histories,
    paste: &mut PasteState,
    k: KeyIn,
    no_paste: bool,
    incr_search: bool,
    q: &Quoting,
    res0: McaOutcome,
) -> (r: McaOutcome)
    requires
        old(cb).wf(),
        old(hists).wf(),
        res0.result == McaResult::McaMore,
        res0.run is None,
        !res0.start_ignoring,
        res0.search_prompt is None,
        res0.error is None,
        res0.incr_search is None,
    ensures
        final(cb).wf(),
        final(hists).wf(),
        rest_result(*old(cs), *old(cb), *old(hists), *old(paste), k, no_paste, incr_search, *q, *final(cs),
            *final(cb), *final(hists), *final(paste), r),
        r.opt == res0.opt,
{
    let c = k.c;
    let mut res = res0;
    if is_newline_char(c) {
        if paste.pasting && no_paste {
            paste.start_ignoring_input(k.now);
            res.start_ignoring = true;
            return res;
        }
        match cb.get_cmdbuf() {
            None => {},
            Some(t) => {
                let x = exec_mca(cs.mca, t.as_str(), cs.number, cs.search_type, cs.pipec);
                if let ExecMca::Filter { search_type, .. } = &x {
                    cs.search_type = *search_type;
                }
                res.run = Some(x);
            },
        }
        res.result = McaResult::McaDone;
        return res;
    }
    let action = k.action;
    let now = k.now;
    let r1 = cb.cmd_char(hists, paste, c, true, action, no_paste, now, k.list, q);
    if r1 == CC_QUIT {
        res.result = McaResult::McaDone;
        return res;
    }
    if cs.mca == Mca::FBracket || cs.mca == Mca::BBracket {
        if cb.len_cmdbuf() >= 2 {
            if let Some(t) = cb.get_cmdbuf() {
                res.run = Some(exec_mca(cs.mca, t.as_str(), cs.number, cs.search_type, cs.pipec));
            }
            res.result = McaResult::McaDone;
            return res;
        }
    } else if (cs.mca == Mca::FSearch || cs.mca == Mca::BSearch) && incr_search {
        if let Some(t) = cb.get_cmdbuf() {
            let st = (cs.search_type & (SRCH_FORW | SRCH_BACK | SRCH_NO_MATCH | SRCH_NO_REGEX | SRCH_NO_MOVE | SRCH_WRAP
                | SRCH_SUBSEARCH_ALL)) | SRCH_INCR;
            res.incr_search = Some((t, st));
        }
    }
    res
}

} // verus!
