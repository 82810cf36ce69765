use less::cmdbuf::HistKind;
use less::command::{getcc_repl_step, Mca, ReplStep};
use less::commands::{
    commands, file_failed, forw_loop_end, forw_loop_goes_on, pipe_mark, prompt_plan, Action, CommandEnv,
    CommandState, FileFailure, MarkCmd, Step,
};
use less::defs::{
    CF_QUIT_ON_ERASE, OPT_ONPLUS, OPT_TOGGLE, SF_EDIT, SF_EXAMINE, SF_PIPE, SF_SHELL, SRCH_BACK, SRCH_FILTER,
    SRCH_FORW, SRCH_NO_MATCH, SRCH_PAST_EOF, S_INTERRUPT, S_WINCH,
};

fn state() -> CommandState {
    CommandState {
        number: 0,
        fraction: -1,
        search_type: SRCH_FORW,
        last_search_type: SRCH_FORW,
        literal_char: false,
        wscroll: 12,
        swindow: 0,
        shift_count: 0,
        hshift: 0,
        save_hshift: 0,
        optflag: 0,
        optgetname: false,
        mca: Mca::Null,
    }
}

fn env() -> CommandEnv {
    CommandEnv {
        sc_width: 80,
        sc_height: 25,
        header_lines: 0,
        show_attn: 0,
        chopline: false,
        wheel_lines: 3,
        def_search_type: 0,
        helpfile: false,
        ntags: 0,
        no_paste: false,
        allowed: SF_EDIT | SF_EXAMINE | SF_PIPE | SF_SHELL,
        via_lessopen: false,
        is_stdin: false,
        no_edit_warn: false,
    }
}

fn with_number(n: i64) -> CommandState {
    let mut s = state();
    s.number = n;
    s
}

#[test]
fn line_moves_default_to_one() {
    let mut s = state();
    let r = commands(&mut s, &env(), Action::FLine);
    assert!(matches!(r, Step::Forward { n: 1, force: false, only_last: false, nblank: false, attn: false }));
    let mut s = with_number(5);
    let r = commands(&mut s, &env(), Action::BNewline);
    assert!(matches!(r, Step::Backward { n: 5, force: false, only_last: false, nblank: true }));
    let mut e = env();
    e.show_attn = 2;
    let mut s = with_number(3);
    let r = commands(&mut s, &e, Action::FFLine);
    assert!(matches!(r, Step::Forward { n: 3, force: true, attn: true, .. }));
}

#[test]
fn screen_moves_use_window() {
    let mut s = state();
    let r = commands(&mut s, &env(), Action::FScreen);
    assert!(matches!(r, Step::Forward { n: 25, only_last: true, .. }));
    let mut s = with_number(10);
    let r = commands(&mut s, &env(), Action::FWindow);
    assert!(matches!(r, Step::Forward { n: 10, .. }));
    assert_eq!(s.swindow, 10);
    s.number = 0;
    let r = commands(&mut s, &env(), Action::BScreen);
    assert!(matches!(r, Step::Backward { n: 10, only_last: true, .. }));
    let mut s2 = state();
    s2.swindow = -2;
    let r = commands(&mut s2, &env(), Action::BFScreen);
    assert!(matches!(r, Step::Backward { n: 23, force: true, .. }));
}

#[test]
fn scroll_remembers_count() {
    let mut s = with_number(4);
    let r = commands(&mut s, &env(), Action::FScroll);
    assert!(matches!(r, Step::Forward { n: 4, .. }));
    assert_eq!(s.wscroll, 4);
    s.number = 0;
    let r = commands(&mut s, &env(), Action::BScroll);
    assert!(matches!(r, Step::Backward { n: 4, .. }));
    let mut m = state();
    assert!(matches!(commands(&mut m, &env(), Action::FMouse), Step::Forward { n: 3, .. }));
}

#[test]
fn jumps() {
    let mut s = state();
    assert!(matches!(commands(&mut s, &env(), Action::GoLine), Step::JumpBack { line: 1, no_jump_sline: true }));
    let mut s = with_number(40);
    assert!(matches!(commands(&mut s, &env(), Action::GoLine), Step::JumpBack { line: 40, no_jump_sline: false }));
    let mut s = state();
    assert!(matches!(commands(&mut s, &env(), Action::GoEnd), Step::JumpForw));
    let mut s = with_number(7);
    assert!(matches!(commands(&mut s, &env(), Action::GoEnd), Step::JumpBack { line: 7, .. }));
    let mut s = state();
    assert!(matches!(commands(&mut s, &env(), Action::GoEndBuf), Step::JumpForwBuffered));
    let mut s = with_number(-4);
    assert!(matches!(commands(&mut s, &env(), Action::GoPos), Step::JumpLineLoc { pos: 0 }));
}

#[test]
fn percent_is_clamped() {
    let mut s = with_number(150);
    assert!(matches!(commands(&mut s, &env(), Action::Percent), Step::JumpPercent { percent: 100, fraction: 0 }));
    let mut s = with_number(100);
    s.fraction = 500000;
    assert!(matches!(commands(&mut s, &env(), Action::Percent), Step::JumpPercent { percent: 100, fraction: 0 }));
    let mut s = with_number(-1);
    assert!(matches!(commands(&mut s, &env(), Action::Percent), Step::JumpPercent { percent: 0, fraction: 0 }));
    let mut s = with_number(50);
    s.fraction = 250000;
    assert!(matches!(commands(&mut s, &env(), Action::Percent), Step::JumpPercent { percent: 50, fraction: 250000 }));
}

#[test]
fn search_commands_start() {
    let mut e = env();
    e.def_search_type = SRCH_NO_MATCH;
    let mut s = state();
    let r = commands(&mut s, &e, Action::BSearch);
    assert!(matches!(&r, Step::StartMca { mca: Mca::BSearch, prompt, history: Some(HistKind::Search), flags: 0, first_key: false }
        if prompt == "Non-match ?"));
    assert_eq!(s.search_type, SRCH_BACK | SRCH_NO_MATCH);
    assert_eq!(s.number, 1);
    assert_eq!(s.mca, Mca::BSearch);
    let mut s = state();
    let r = commands(&mut s, &env(), Action::Filter);
    assert!(matches!(&r, Step::StartMca { mca: Mca::Filter, prompt, .. } if prompt == "&/"));
    assert_eq!(s.search_type, SRCH_FORW | SRCH_FILTER);
}

#[test]
fn repeated_searches() {
    let mut s = state();
    s.last_search_type = SRCH_FORW | SRCH_NO_MATCH;
    let r = commands(&mut s, &env(), Action::AgainSearch);
    assert!(matches!(r, Step::Search { search_type, n: 1, restore_last: None } if search_type == SRCH_FORW | SRCH_NO_MATCH));
    let r = commands(&mut s, &env(), Action::TAgainSearch);
    assert!(matches!(r, Step::Search { search_type, .. } if search_type == SRCH_FORW | SRCH_NO_MATCH | SRCH_PAST_EOF));
    let r = commands(&mut s, &env(), Action::ReverseSearch);
    assert!(matches!(r, Step::Search { search_type, restore_last: Some(l), .. }
        if search_type == SRCH_BACK | SRCH_NO_MATCH && l == SRCH_FORW | SRCH_NO_MATCH));
    let r = commands(&mut s, &env(), Action::TReverseSearch);
    assert!(matches!(r, Step::Search { search_type, .. } if search_type == SRCH_BACK | SRCH_NO_MATCH | SRCH_PAST_EOF));
    assert_eq!(s.last_search_type, SRCH_FORW | SRCH_NO_MATCH);
}

#[test]
fn multi_character_commands() {
    let mut s = state();
    assert!(matches!(&commands(&mut s, &env(), Action::Digit),
        Step::StartMca { mca: Mca::Digit, prompt, history: None, flags: CF_QUIT_ON_ERASE, first_key: true } if prompt == ":"));
    let mut s = state();
    assert!(matches!(&commands(&mut s, &env(), Action::Examine),
        Step::StartMca { mca: Mca::Examine, prompt, history: Some(HistKind::Examine), .. } if prompt == "Examine: "));
    let mut s = state();
    assert!(matches!(&commands(&mut s, &env(), Action::PShell),
        Step::StartMca { mca: Mca::PShell, prompt, history: Some(HistKind::Shell), .. } if prompt == "#"));
    let mut s = state();
    assert!(matches!(&commands(&mut s, &env(), Action::FirstCmd), Step::StartMca { mca: Mca::FirstCmd, prompt, .. } if prompt == "+"));
    let mut s = state();
    assert!(matches!(&commands(&mut s, &env(), Action::BBracket), Step::StartMca { mca: Mca::BBracket, prompt, .. } if prompt == "Brackets: "));
    let mut s = state();
    assert!(matches!(&commands(&mut s, &env(), Action::Prefix), Step::StartMca { mca: Mca::Prefix, first_key: true, .. }));
    assert!(matches!(commands(&mut s, &env(), Action::Prefix), Step::NextKey));
}

#[test]
fn option_commands() {
    let mut s = state();
    assert!(matches!(&commands(&mut s, &env(), Action::OptToggle), Step::StartOption { prompt, change: true } if prompt == "-"));
    assert_eq!(s.optflag, OPT_TOGGLE);
    assert_eq!(s.mca, Mca::OptToggle);
    let mut s = state();
    assert!(matches!(&commands(&mut s, &env(), Action::DispOption), Step::StartOption { prompt, change: false } if prompt == "_"));
}

#[test]
fn secure_mode_refuses() {
    let mut e = env();
    e.allowed = 0;
    for a in [Action::Examine, Action::Shell, Action::PShell, Action::Pipe, Action::Visual, Action::Osc8Open] {
        let mut s = state();
        assert!(matches!(&commands(&mut s, &e, a), Step::Error(m) if m == "Command not available"));
        assert_eq!(s, state());
    }
}

#[test]
fn files_and_tags() {
    let mut e = env();
    let mut s = with_number(2);
    assert!(matches!(commands(&mut s, &e, Action::NextFile), Step::NextFile { n: 2 }));
    let mut s = state();
    assert!(matches!(commands(&mut s, &e, Action::PrevFile), Step::PrevFile { n: 1 }));
    assert!(matches!(commands(&mut s, &e, Action::NextTag), Step::NextTag { n: 1 }));
    assert!(matches!(commands(&mut s, &e, Action::IndexFile), Step::IndexFile { n: 1 }));
    e.ntags = 2;
    let mut s = state();
    assert!(matches!(&commands(&mut s, &e, Action::NextFile), Step::Error(m) if m == "No next file"));
    assert!(matches!(&commands(&mut s, &e, Action::PrevFile), Step::Error(m) if m == "No previous file"));
}

#[test]
fn editing_the_file() {
    let mut e = env();
    let mut s = state();
    assert!(matches!(commands(&mut s, &e, Action::Visual), Step::Visual { warn: false }));
    e.via_lessopen = true;
    let mut s = state();
    assert!(matches!(commands(&mut s, &e, Action::Visual), Step::Visual { warn: true }));
    e.is_stdin = true;
    let mut s = state();
    assert!(matches!(&commands(&mut s, &e, Action::Visual), Step::Error(m) if m == "Cannot edit standard input"));
    e.helpfile = true;
    let mut s = state();
    assert!(matches!(commands(&mut s, &e, Action::Visual), Step::Nothing));
}

#[test]
fn help_and_quit() {
    let mut s = state();
    s.hshift = 8;
    assert!(matches!(commands(&mut s, &env(), Action::Help), Step::Help));
    assert_eq!((s.hshift, s.save_hshift), (0, 8));
    let mut e = env();
    e.helpfile = true;
    assert!(matches!(commands(&mut s, &e, Action::Quit), Step::LeaveHelp));
    assert_eq!(s.hshift, 8);
    assert!(matches!(commands(&mut s, &e, Action::Help), Step::Nothing));
    assert!(matches!(commands(&mut s, &e, Action::Stat), Step::Nothing));
    assert!(matches!(commands(&mut s, &env(), Action::Quit), Step::Quit));
    assert!(matches!(commands(&mut s, &env(), Action::Stat), Step::Stat));
}

#[test]
fn marks() {
    let mut s = state();
    assert!(matches!(&commands(&mut s, &env(), Action::SetMarkBot), Step::Mark { cmd: MarkCmd::SetBottom, prompt } if prompt == "set mark: "));
    assert!(matches!(&commands(&mut s, &env(), Action::GoMark), Step::Mark { cmd: MarkCmd::Go, prompt } if prompt == "goto mark: "));
    assert!(matches!(&commands(&mut s, &env(), Action::ClrMark), Step::Mark { cmd: MarkCmd::Clear, prompt } if prompt == "clear mark: "));
    assert!(matches!(&commands(&mut s, &env(), Action::Pipe), Step::Mark { cmd: MarkCmd::Pipe, prompt } if prompt == "|mark: "));
    let mut e = env();
    e.helpfile = true;
    assert!(matches!(commands(&mut s, &e, Action::SetMark), Step::SkipChar));
}

#[test]
fn horizontal_shifts() {
    let mut s = state();
    assert!(matches!(commands(&mut s, &env(), Action::RShift), Step::Rehead));
    assert_eq!(s.hshift, 40);
    s.number = 8;
    commands(&mut s, &env(), Action::RShift);
    assert_eq!((s.hshift, s.shift_count), (48, 8));
    s.number = 0;
    commands(&mut s, &env(), Action::LShift);
    assert_eq!(s.hshift, 40);
    s.number = 100;
    commands(&mut s, &env(), Action::LShift);
    assert_eq!(s.hshift, 0);
    s.hshift = 30;
    assert!(matches!(commands(&mut s, &env(), Action::LLShift), Step::Rehead));
    assert_eq!(s.hshift, 0);
    assert!(matches!(commands(&mut s, &env(), Action::RRShift), Step::RRShift));
}

#[test]
fn other_commands() {
    let mut s = state();
    let mut e = env();
    assert!(matches!(commands(&mut s, &e, Action::FRepaint), Step::Repaint { flush: true }));
    assert!(matches!(commands(&mut s, &e, Action::Repaint), Step::Repaint { flush: false }));
    assert!(matches!(commands(&mut s, &e, Action::Version), Step::Version));
    assert!(matches!(commands(&mut s, &e, Action::ClrSearch), Step::UndoSearch { clear: true }));
    assert!(matches!(commands(&mut s, &e, Action::Invalid), Step::Bell));
    assert!(matches!(commands(&mut s, &e, Action::NoAction), Step::Nothing));
    assert!(matches!(commands(&mut s, &e, Action::StartPaste), Step::Nothing));
    e.no_paste = true;
    assert!(matches!(commands(&mut s, &e, Action::StartPaste), Step::StartIgnoringInput));
    assert!(matches!(commands(&mut s, &e, Action::FForever), Step::ForwLoop { until_hilite: false, .. }));
    assert!(matches!(commands(&mut s, &e, Action::Osc8BSearch), Step::Osc8Search { search_type: SRCH_BACK, n: 1 }));
}

#[test]
fn file_failures() {
    assert!(matches!(file_failed(1, true, OPT_ONPLUS, true, false), FileFailure::Quit));
    assert!(matches!(&file_failed(1, true, 0, true, false), FileFailure::Message(m) if m == "No next file"));
    assert!(matches!(&file_failed(3, false, 1, true, false), FileFailure::Message(m) if m == "No (N-th) previous file"));
    assert!(matches!(&file_failed(2, true, 1, true, true), FileFailure::Message(m) if m == "No (N-th) next file"));
}

#[test]
fn pipe_marks() {
    assert_eq!(pipe_mark('a', '\u{8}', '\u{7f}', '\u{15}'), Some('a'));
    assert_eq!(pipe_mark('\n', '\u{8}', '\u{7f}', '\u{15}'), Some('.'));
    assert_eq!(pipe_mark('\u{15}', '\u{8}', '\u{7f}', '\u{15}'), None);
}

#[test]
fn following_the_file() {
    assert!(forw_loop_goes_on(false, 100, 10, 0));
    assert!(!forw_loop_goes_on(true, 100, 10, 0));
    assert!(!forw_loop_goes_on(false, 0, 10, S_WINCH));
    assert_eq!(forw_loop_end(false, S_WINCH), Action::FForever);
    assert_eq!(forw_loop_end(true, S_WINCH), Action::FUntilHilite);
    assert_eq!(forw_loop_end(false, S_INTERRUPT), Action::NoAction);
    assert_eq!(forw_loop_end(false, 0), Action::NoAction);
}

#[test]
fn prompt_plans() {
    let p = prompt_plan(OPT_ONPLUS, true, false, false, false, false, false, false, false, 0, None, "x".to_string());
    assert!(p.quit);
    let p = prompt_plan(OPT_ONPLUS, true, false, false, false, true, true, true, true, SRCH_BACK, Some("u"), String::new());
    assert!(!p.quit);
    assert!(!p.clear_bot);
    assert!(p.filter_mark);
    assert_eq!(p.messages, vec!["Search hit top; continuing at bottom".to_string(), "Link: u".to_string()]);
    assert_eq!(p.text, None);
    let p = prompt_plan(0, false, true, true, false, false, false, false, true, SRCH_FORW, None, "file".to_string());
    assert!(p.quit);
    assert_eq!(p.messages, vec!["Search hit bottom; continuing at top".to_string()]);
    assert_eq!(p.text, Some("file".to_string()));
}

#[test]
fn key_replacement() {
    let orig = vec!['\u{1b}', 'O', 'M'];
    let repl = vec!['\n'];
    assert!(matches!(getcc_repl_step(&orig, &repl, &vec!['\u{1b}']), ReplStep::More));
    assert!(matches!(getcc_repl_step(&orig, &repl, &vec!['\u{1b}', 'O']), ReplStep::More));
    assert!(matches!(getcc_repl_step(&orig, &repl, &vec!['\u{1b}', 'O', 'M']),
        ReplStep::Done { first: '\n', rest } if rest.is_empty()));
    assert!(matches!(getcc_repl_step(&orig, &repl, &vec!['\u{1b}', 'x']),
        ReplStep::Done { first: '\u{1b}', rest } if rest == vec!['x']));
    assert!(matches!(getcc_repl_step(&orig, &repl, &vec!['q']), ReplStep::Done { first: 'q', rest } if rest.is_empty()));
}

#[test]
fn left_shift_amounts() {
    let mut s = state();
    s.hshift = 50;
    s.shift_count = 0;
    s.number = 0;
    assert!(matches!(commands(&mut s, &env(), Action::LShift), Step::Rehead));
    assert_eq!(s.hshift, 10);
    s.shift_count = 4;
    s.number = 0;
    commands(&mut s, &env(), Action::LShift);
    assert_eq!(s.hshift, 6);
    s.number = 9;
    commands(&mut s, &env(), Action::LShift);
    assert_eq!((s.hshift, s.shift_count), (0, 9));
}
