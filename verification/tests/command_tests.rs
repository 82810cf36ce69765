use less::cmdbuf::{CmdBuf, Histories, Quoting};
use less::command::{
    dispversion, exec_mca, getcc_end_command, in_mca, is_erase_char, is_newline_char, mca_opt_first_char,
    mca_opt_toggle, mca_search1, mca_search_char, multi_search_edited, multi_search_searched, multi_search_start,
    norm_search_type, Char, ExecMca, GetccStep, Mca, McaResult, PasteState, SearchPhase, SearchStep, Ungot,
};
use less::defs::{
    A_END_PASTE, A_INVALID, A_NOACTION, A_PREFIX, OPT_NO_PROMPT, OPT_SET, OPT_TOGGLE, OPT_UNSET, SRCH_BACK,
    SRCH_FILTER, SRCH_FIRST_FILE, SRCH_FORW, SRCH_INCR, SRCH_NO_MATCH, SRCH_NO_MOVE, SRCH_NO_REGEX,
    SRCH_PAST_EOF, SRCH_WRAP,
};
use less::mca::{mca_char, mca_opt_char, CmdState, EraseKeys, KeyIn, OptEntry};
use less::option::OptEvent;
use less::optfunc::srch_subsearch;
use less::opttbl::Options;

fn quoting() -> Quoting {
    Quoting { esc: vec!['\\'], openquote: '"', closequote: '"', sep: vec!['/'] }
}

fn keys() -> EraseKeys {
    EraseKeys { erase: '\u{8}', erase2: '\u{7f}', kill: '\u{15}' }
}

fn key(c: char) -> KeyIn {
    KeyIn { c, action: A_INVALID, now: 0, list: None }
}

fn read_all(u: &mut Ungot) -> String {
    let mut s = String::new();
    while !u.is_empty() {
        s.push(u.get_ungot().ch);
    }
    s
}

#[test]
fn ungot_reads_last_first() {
    let mut u = Ungot::new();
    u.ungetcc('a');
    u.ungetcc('b');
    assert_eq!(u.peekcc(), Some('b'));
    assert_eq!(read_all(&mut u), "ba");
}

#[test]
fn ungetsc_reads_in_order() {
    let mut u = Ungot::new();
    u.ungetsc("abc");
    assert_eq!(read_all(&mut u), "abc");
}

#[test]
fn ungetsc_after_ungotten_chars() {
    let mut u = Ungot::new();
    u.ungetcc('x');
    u.ungetsc("yz");
    assert_eq!(read_all(&mut u), "xyz");
}

#[test]
fn unget_end_command_mark() {
    let mut u = Ungot::new();
    u.ungetsc("G");
    u.ungetcc_end_command();
    let first = u.get_ungot();
    assert_eq!(first, Char { ch: 'G', end_command: false });
    let mark = u.get_ungot();
    assert!(mark.end_command);
    assert!(u.is_empty());
    u.ungetcc('q');
    u.getcc_clear();
    assert!(u.is_empty());
}

#[test]
fn search_type_normalised() {
    let both = SRCH_PAST_EOF | SRCH_WRAP | SRCH_FORW;
    assert_eq!(norm_search_type(both), SRCH_WRAP | SRCH_FORW);
    assert_eq!(norm_search_type(SRCH_PAST_EOF | SRCH_FORW), SRCH_PAST_EOF | SRCH_FORW);
    assert_eq!(norm_search_type(norm_search_type(both)), norm_search_type(both));
}

#[test]
fn paste_ignores_input_for_a_while() {
    let mut p = PasteState::new();
    assert!(!p.is_ignoring_input(A_INVALID, 0));
    p.start_ignoring_input(100);
    assert!(p.is_ignoring_input(A_INVALID, 101));
    assert!(!p.is_ignoring_input(A_PREFIX, 102));
    assert!(p.ignoring);
    assert!(p.is_ignoring_input(A_INVALID, 105));
    assert!(!p.ignoring);
    p.start_ignoring_input(200);
    assert!(p.is_ignoring_input(A_END_PASTE, 201));
    assert!(!p.ignoring);
    p.start_ignoring_input(300);
    p.stop_ignoring_input();
    assert!(!p.ignoring && !p.pasting);
}

#[test]
fn mca_helpers() {
    assert!(!in_mca(Mca::Null));
    assert!(!in_mca(Mca::Prefix));
    assert!(in_mca(Mca::FSearch));
    assert!(is_erase_char('\u{8}', '\u{8}', '\u{7f}', '\u{15}'));
    assert!(!is_erase_char('a', '\u{8}', '\u{7f}', '\u{15}'));
    assert!(is_newline_char('\n') && is_newline_char('\r') && !is_newline_char(' '));
}

#[test]
fn search_prompts() {
    assert_eq!(mca_search1(SRCH_FORW, false), (Mca::FSearch, "/".to_string()));
    assert_eq!(mca_search1(SRCH_BACK, false), (Mca::BSearch, "?".to_string()));
    assert_eq!(mca_search1(SRCH_FILTER | SRCH_FORW, false), (Mca::Filter, "&/".to_string()));
    assert_eq!(
        mca_search1(SRCH_FORW | SRCH_NO_MATCH | SRCH_WRAP, true),
        (Mca::FSearch, "Non-match Wrap Lit /".to_string())
    );
    assert_eq!(mca_search1(SRCH_FORW | srch_subsearch(2), false).1, "Sub-2 /");
}

#[test]
fn search_modifier_characters() {
    let mut st = SRCH_FORW;
    let mut lit = false;
    let (r, p) = mca_search_char(Mca::FSearch, &mut st, &mut lit, true, '!', '\0');
    assert_eq!(r, McaResult::McaMore);
    assert_eq!(st, SRCH_FORW | SRCH_NO_MATCH);
    assert_eq!(p.unwrap().1, "Non-match /");
    let (r, _) = mca_search_char(Mca::FSearch, &mut st, &mut lit, true, '!', '\0');
    assert_eq!(r, McaResult::McaMore);
    assert_eq!(st, SRCH_FORW);
    let (r, _) = mca_search_char(Mca::FSearch, &mut st, &mut lit, true, '*', '\0');
    assert_eq!(r, McaResult::McaMore);
    assert_eq!(st, SRCH_FORW | SRCH_PAST_EOF);
    let (_, _) = mca_search_char(Mca::FSearch, &mut st, &mut lit, true, '\u{17}', '\0');
    // Wrapping turns "past end of file" off.
    assert_eq!(st, SRCH_FORW | SRCH_WRAP);
    let (_, _) = mca_search_char(Mca::FSearch, &mut st, &mut lit, true, '\u{12}', '\0');
    assert_eq!(st, SRCH_FORW | SRCH_WRAP | SRCH_NO_REGEX);
    let (_, _) = mca_search_char(Mca::FSearch, &mut st, &mut lit, true, '\u{b}', '\0');
    assert_eq!(st, SRCH_FORW | SRCH_WRAP | SRCH_NO_REGEX | SRCH_NO_MOVE);
}

#[test]
fn search_literal_and_plain_characters() {
    let mut st = SRCH_FORW;
    let mut lit = false;
    let (r, p) = mca_search_char(Mca::FSearch, &mut st, &mut lit, true, '\u{c}', '\0');
    assert_eq!(r, McaResult::McaMore);
    assert!(lit);
    assert_eq!(p.unwrap().1, "Lit /");
    let (r, p) = mca_search_char(Mca::FSearch, &mut st, &mut lit, true, '!', '\0');
    assert_eq!(r, McaResult::NoMca);
    assert!(p.is_none());
    assert!(!lit);
    assert_eq!(st, SRCH_FORW);
    let (r, _) = mca_search_char(Mca::FSearch, &mut st, &mut lit, false, '!', '\0');
    assert_eq!(r, McaResult::NoMca);
    let (r, _) = mca_search_char(Mca::FSearch, &mut st, &mut lit, true, 'a', '\0');
    assert_eq!(r, McaResult::NoMca);
}

#[test]
fn search_sub_pattern_and_filter() {
    let mut st = SRCH_FORW;
    let mut lit = false;
    let (r, _) = mca_search_char(Mca::FSearch, &mut st, &mut lit, true, '\u{13}', '3');
    assert_eq!(r, McaResult::McaMore);
    assert_eq!(st, SRCH_FORW | srch_subsearch(3));
    let mut fst = SRCH_FILTER | SRCH_FORW;
    let (r, _) = mca_search_char(Mca::Filter, &mut fst, &mut lit, true, '*', '\0');
    assert_eq!(r, McaResult::NoMca);
    assert_eq!(fst, SRCH_FILTER | SRCH_FORW);
}

#[test]
fn option_prompts() {
    assert_eq!(mca_opt_toggle(OPT_TOGGLE, false), "-");
    assert_eq!(mca_opt_toggle(0, false), "_");
    assert_eq!(mca_opt_toggle(OPT_UNSET, false), "-+");
    assert_eq!(mca_opt_toggle(OPT_SET, true), "--!");
    assert_eq!(mca_opt_toggle(OPT_TOGGLE | OPT_NO_PROMPT, false), "-(P)");
}

#[test]
fn option_first_characters() {
    let mut flag = OPT_TOGGLE;
    let mut getname = false;
    assert_eq!(mca_opt_first_char(&mut flag, &mut getname, '+'), (McaResult::McaMore, Some("-+".to_string())));
    assert_eq!(flag, OPT_UNSET);
    assert_eq!(mca_opt_first_char(&mut flag, &mut getname, '+').0, McaResult::McaMore);
    assert_eq!(flag, OPT_TOGGLE);
    mca_opt_first_char(&mut flag, &mut getname, '!');
    assert_eq!(flag, OPT_SET);
    mca_opt_first_char(&mut flag, &mut getname, '-');
    assert!(getname);
    assert_eq!(mca_opt_first_char(&mut flag, &mut getname, 'x'), (McaResult::NoMca, None));
    let mut q = 0;
    let mut g = false;
    assert_eq!(mca_opt_first_char(&mut q, &mut g, '+'), (McaResult::NoMca, None));
    assert_eq!(mca_opt_first_char(&mut q, &mut g, '_').0, McaResult::McaMore);
    assert!(g);
}

#[test]
fn completed_commands() {
    assert!(matches!(exec_mca(Mca::FSearch, "pat", 2, SRCH_FORW, '\0'),
        ExecMca::Search { pattern, n: 2 } if pattern == "pat"));
    assert!(matches!(exec_mca(Mca::Filter, "x", 0, SRCH_FILTER | SRCH_FORW, '\0'),
        ExecMca::Filter { pattern, search_type } if pattern == "x" && search_type == SRCH_FILTER | SRCH_FORW | SRCH_NO_MATCH));
    assert!(matches!(exec_mca(Mca::FirstCmd, "++ G", 0, 0, '\0'), ExecMca::FirstCmd(Some(c)) if c == "G"));
    assert!(matches!(exec_mca(Mca::FirstCmd, "+ ", 0, 0, '\0'), ExecMca::FirstCmd(None)));
    assert!(matches!(exec_mca(Mca::FBracket, "{}", 1, 0, '\0'),
        ExecMca::Bracket { open: '{', close: '}', forward: true, n: 1 }));
    assert!(matches!(exec_mca(Mca::BBracket, "{}", 1, 0, '\0'),
        ExecMca::Bracket { open: '}', close: '{', forward: false, n: 1 }));
    assert!(matches!(exec_mca(Mca::Examine, "a b", 0, 0, '\0'), ExecMca::Examine(f) if f == "a b"));
    assert!(matches!(exec_mca(Mca::Shell, "ls", 0, 0, '\0'),
        ExecMca::Shell { cmd: Some(c), done_msg: true } if c == "ls"));
    assert!(matches!(exec_mca(Mca::Shell, "!", 0, 0, '\0'), ExecMca::Shell { cmd: None, done_msg: true }));
    assert!(matches!(exec_mca(Mca::Shell, "\u{10}ls", 0, 0, '\0'),
        ExecMca::Shell { cmd: Some(c), done_msg: false } if c == "ls"));
    assert!(matches!(exec_mca(Mca::PShell, "%f", 0, 0, '\0'),
        ExecMca::PShell { proto, done_msg: true } if proto == "%f"));
    assert!(matches!(exec_mca(Mca::Pipe, "wc", 0, 0, 'a'),
        ExecMca::Pipe { mark: 'a', cmd, done_msg: true } if cmd == "wc"));
    assert!(matches!(exec_mca(Mca::OptToggle, "4", 0, 0, '\0'), ExecMca::OptToggle(v) if v == "4"));
    assert!(matches!(exec_mca(Mca::Null, "", 0, 0, '\0'), ExecMca::Nothing));
}

#[test]
fn end_command_characters() {
    assert_eq!(getcc_end_command(Mca::Digit, true), Some('g'));
    assert_eq!(getcc_end_command(Mca::FSearch, true), Some('\n'));
    assert_eq!(getcc_end_command(Mca::Filter, false), Some('\n'));
    assert_eq!(getcc_end_command(Mca::Examine, true), None);
    assert_eq!(getcc_end_command(Mca::Examine, false), Some('\0'));
}

#[test]
fn search_in_one_file() {
    let (mut ms, step) = multi_search_start(0, 1);
    assert_eq!(ms.search_type, SRCH_FORW);
    assert_eq!(step, SearchStep::Search { search_type: SRCH_FORW, n: 1 });
    let step = multi_search_searched(&mut ms, 0, false);
    assert_eq!(step, SearchStep::Finish { not_found: false, reedit: false });
    assert_eq!(ms.phase, SearchPhase::Finished);
}

#[test]
fn search_not_found() {
    let (mut ms, _) = multi_search_start(SRCH_BACK | SRCH_NO_MOVE, 2);
    let step = multi_search_searched(&mut ms, 1, false);
    assert_eq!(step, SearchStep::Finish { not_found: true, reedit: false });
    assert_eq!(ms.search_type, SRCH_BACK);
}

#[test]
fn search_across_files() {
    let (mut ms, step) = multi_search_start(SRCH_FORW | SRCH_FIRST_FILE | SRCH_PAST_EOF, 1);
    assert_eq!(step, SearchStep::EditFirst);
    let step = multi_search_edited(&mut ms, false, false);
    assert_eq!(step, SearchStep::Search { search_type: SRCH_FORW | SRCH_PAST_EOF, n: 1 });
    assert!(ms.changed_file);
    let step = multi_search_searched(&mut ms, 1, false);
    assert_eq!(step, SearchStep::EditNext);
    assert_eq!(ms.phase, SearchPhase::NextFile);
    let step = multi_search_edited(&mut ms, true, false);
    assert_eq!(step, SearchStep::Finish { not_found: true, reedit: true });
    let (_, back) = multi_search_start(SRCH_BACK | SRCH_FIRST_FILE, 1);
    assert_eq!(back, SearchStep::EditLast);
}

#[test]
fn version_message() {
    assert_eq!(dispversion("668"), "less 668");
}

fn opt_state() -> (OptEntry, CmdBuf, Histories, PasteState, Options) {
    let mut opts = Options::new();
    let _ = opts.init_option(None);
    (
        OptEntry { curropt: None, opt_lower: false, optflag: OPT_TOGGLE, optgetname: false },
        CmdBuf::new(),
        Histories::new(),
        PasteState::new(),
        opts,
    )
}

#[test]
fn option_command_by_letter() {
    let (mut e, mut cb, mut h, mut p, mut opts) = opt_state();
    let s = opts.findopt('s').unwrap();
    let o = mca_opt_char(&mut e, &mut cb, &mut h, &mut p, &mut opts, key('s'), keys(), false, &quoting());
    assert_eq!(o.result, McaResult::McaDone);
    assert_eq!(opts.option_table[s].ovar, Some(1));
    assert!(o.events.iter().any(|ev| matches!(ev, OptEvent::Message(m) if m == "Squeeze multiple blank lines")));
}

#[test]
fn option_command_unknown_letter() {
    let (mut e, mut cb, mut h, mut p, mut opts) = opt_state();
    let o = mca_opt_char(&mut e, &mut cb, &mut h, &mut p, &mut opts, key('!'), keys(), false, &quoting());
    assert_eq!(o.result, McaResult::McaMore);
    assert_eq!(e.optflag, OPT_SET);
    let o = mca_opt_char(&mut e, &mut cb, &mut h, &mut p, &mut opts, key('%'), keys(), false, &quoting());
    assert_eq!(o.result, McaResult::McaDone);
    assert_eq!(o.error, Some("There is no -% option".to_string()));
}

#[test]
fn option_command_with_value() {
    let (mut e, mut cb, mut h, mut p, mut opts) = opt_state();
    let o = mca_opt_char(&mut e, &mut cb, &mut h, &mut p, &mut opts, key('x'), keys(), false, &quoting());
    assert_eq!(o.result, McaResult::McaMore);
    assert_eq!(o.prompt, Some("Tab stops: ".to_string()));
    assert_eq!(e.curropt, opts.findopt('x'));
}

#[test]
fn option_command_long_name() {
    let (mut e, mut cb, mut h, mut p, mut opts) = opt_state();
    let o = mca_opt_char(&mut e, &mut cb, &mut h, &mut p, &mut opts, key('-'), keys(), false, &quoting());
    assert_eq!(o.result, McaResult::McaMore);
    assert!(e.optgetname);
    for c in "squeeze".chars() {
        let o = mca_opt_char(&mut e, &mut cb, &mut h, &mut p, &mut opts, key(c), keys(), false, &quoting());
        assert_eq!(o.result, McaResult::McaMore);
    }
    assert_eq!(cb.get_cmdbuf(), Some("squeeze-blank-lines".to_string()));
    let s = opts.findopt('s').unwrap();
    assert_eq!(e.curropt, Some(s));
    let o = mca_opt_char(&mut e, &mut cb, &mut h, &mut p, &mut opts, key('\n'), keys(), false, &quoting());
    assert_eq!(o.result, McaResult::McaDone);
    assert_eq!(opts.option_table[s].ovar, Some(1));
}

#[test]
fn option_command_unknown_long_name() {
    let (mut e, mut cb, mut h, mut p, mut opts) = opt_state();
    mca_opt_char(&mut e, &mut cb, &mut h, &mut p, &mut opts, key('-'), keys(), false, &quoting());
    let o = mca_opt_char(&mut e, &mut cb, &mut h, &mut p, &mut opts, key('z'), keys(), false, &quoting());
    assert!(o.bell);
    let o = mca_opt_char(&mut e, &mut cb, &mut h, &mut p, &mut opts, key('\n'), keys(), false, &quoting());
    assert_eq!(o.result, McaResult::McaDone);
    assert_eq!(o.error, Some("There is no --z option".to_string()));
}

fn cmd_state(mca: Mca, search_type: i32) -> CmdState {
    CmdState {
        mca,
        search_type,
        literal_char: false,
        number: 0,
        fraction: 0,
        pipec: '\0',
        opt: OptEntry { curropt: None, opt_lower: false, optflag: OPT_TOGGLE, optgetname: false },
    }
}

fn feed(cs: &mut CmdState, cb: &mut CmdBuf, h: &mut Histories, opts: &mut Options, c: char, incr: bool) -> less::mca::McaOutcome {
    let mut p = PasteState::new();
    mca_char(cs, cb, h, &mut p, opts, key(c), A_INVALID, '\0', keys(), false, false, incr, &quoting())
}

#[test]
fn search_command_typed() {
    let mut cs = cmd_state(Mca::FSearch, SRCH_FORW);
    let mut cb = CmdBuf::new();
    let mut h = Histories::new();
    let mut opts = Options::new();
    let r = feed(&mut cs, &mut cb, &mut h, &mut opts, '!', false);
    assert_eq!(r.result, McaResult::McaMore);
    assert_eq!(r.search_prompt, Some((Mca::FSearch, "Non-match /".to_string())));
    feed(&mut cs, &mut cb, &mut h, &mut opts, 'a', false);
    feed(&mut cs, &mut cb, &mut h, &mut opts, 'b', false);
    let r = feed(&mut cs, &mut cb, &mut h, &mut opts, '\n', false);
    assert_eq!(r.result, McaResult::McaDone);
    assert!(matches!(r.run, Some(ExecMca::Search { pattern, n: 0 }) if pattern == "ab"));
}

#[test]
fn incremental_search_runs_each_character() {
    let mut cs = cmd_state(Mca::FSearch, SRCH_FORW | SRCH_FIRST_FILE);
    let mut cb = CmdBuf::new();
    let mut h = Histories::new();
    let mut opts = Options::new();
    let r = feed(&mut cs, &mut cb, &mut h, &mut opts, 'q', true);
    assert_eq!(r.incr_search, Some(("q".to_string(), SRCH_FORW | SRCH_INCR)));
}

#[test]
fn number_then_command() {
    let mut cs = cmd_state(Mca::Digit, 0);
    let mut cb = CmdBuf::new();
    let mut h = Histories::new();
    let mut opts = Options::new();
    feed(&mut cs, &mut cb, &mut h, &mut opts, '1', false);
    feed(&mut cs, &mut cb, &mut h, &mut opts, '2', false);
    let r = feed(&mut cs, &mut cb, &mut h, &mut opts, 'g', false);
    assert_eq!(r.result, McaResult::NoMca);
    assert_eq!(cs.number, 12);
    assert_eq!(cs.mca, Mca::Null);
    let mut p = PasteState::new();
    let mut cs2 = cmd_state(Mca::Digit, 0);
    let r = mca_char(&mut cs2, &mut cb, &mut h, &mut p, &mut opts, key('x'), A_NOACTION, '\0', keys(), false, false, false, &quoting());
    assert_eq!(r.result, McaResult::McaMore);
}

#[test]
fn bracket_command_takes_two() {
    let mut cs = cmd_state(Mca::FBracket, 0);
    let mut cb = CmdBuf::new();
    let mut h = Histories::new();
    let mut opts = Options::new();
    assert_eq!(feed(&mut cs, &mut cb, &mut h, &mut opts, '(', false).result, McaResult::McaMore);
    let r = feed(&mut cs, &mut cb, &mut h, &mut opts, ')', false);
    assert_eq!(r.result, McaResult::McaDone);
    assert!(matches!(r.run, Some(ExecMca::Bracket { open: '(', close: ')', forward: true, .. })));
}

#[test]
fn no_command_no_characters() {
    let mut cs = cmd_state(Mca::Null, 0);
    let mut cb = CmdBuf::new();
    let mut h = Histories::new();
    let mut opts = Options::new();
    assert_eq!(feed(&mut cs, &mut cb, &mut h, &mut opts, 'j', false).result, McaResult::NoMca);
}

#[test]
fn getccu_steps() {
    let mut u = Ungot::new();
    assert_eq!(u.getccu_step(Mca::Null), GetccStep::ReadKey);
    u.ungetcc_end_command();
    u.ungetcc('x');
    assert_eq!(u.getccu_step(Mca::Digit), GetccStep::Got('x'));
    // The end-of-command mark completes a number with `g`.
    assert_eq!(u.getccu_step(Mca::Digit), GetccStep::Got('g'));
    assert!(u.is_empty());
    // For another command the user completes it.
    u.ungetcc_end_command();
    assert_eq!(u.getccu_step(Mca::Examine), GetccStep::ReadKey);
    // The mark lies under the characters given with it.
    u.ungetcc('a');
    u.ungetcc_end_command();
    assert_eq!(u.getccu_step(Mca::FSearch), GetccStep::Got('a'));
    assert_eq!(u.getccu_step(Mca::FSearch), GetccStep::Got('\n'));
    assert!(u.is_empty());
}
