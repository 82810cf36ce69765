use less::defs::{CH_CANSEEK, OPT_OFF, OPT_ON, OPT_ONPLUS};
use less::option::{
    flip_triple, format_number_desc, get_quit_at_eof, getfraction, getnum, getnumc, init_unsupport,
    isoptpending, nopendopt, nostring, opt_desc, opt_has_param, opt_prompt, opt_toggle_disallowed,
    optstring, propt, scan_option, toggle_option, OptEvent, ScanContext,
};
use less::opttbl::{
    is_optchar, sprefix, to_ascii_lower, to_ascii_upper, OptAction, Options, ToggleHow,
    O_UNSUPPORTED,
};

const IDX_E: usize = 6;
const IDX_H: usize = 9;
const IDX_X: usize = 22;
const IDX_J: usize = 11;
const IDX_S: usize = 19;

fn fresh() -> Options {
    let mut opts = Options::new();
    let _ = opts.init_option(None);
    opts
}

#[test]
fn findopt_by_letter() {
    let opts = Options::new();
    assert_eq!(opts.findopt('e'), Some(IDX_E));
    assert_eq!(opts.findopt('x'), Some(IDX_X));
    assert_eq!(opts.findopt('s'), Some(IDX_S));
    assert_eq!(opts.findopt('!'), None);
}

#[test]
fn findopt_triple_upper_case_letter() {
    let opts = Options::new();
    // 'E' is the upper-case form of the triple-valued option 'e'.
    assert_eq!(opts.findopt('E'), Some(IDX_E));
}

#[test]
fn findopt_name_exact_and_prefix() {
    let opts = Options::new();
    let f = opts.findopt_name("quit-at-eof");
    assert_eq!(f.index, Some(IDX_E));
    assert_eq!(f.len, 11);
    assert!(!f.ambig);
    let g = opts.findopt_name("quit-at");
    assert_eq!(g.index, Some(IDX_E));
    assert_eq!(g.len, 7);
}

#[test]
fn findopt_name_ambiguous_prefix() {
    let opts = Options::new();
    let f = opts.findopt_name("no-");
    assert!(f.ambig);
    assert_eq!(f.index, None);
}

#[test]
fn findopt_name_unknown() {
    let opts = Options::new();
    let f = opts.findopt_name("zzz");
    assert_eq!(f.index, None);
    assert!(!f.ambig);
}

#[test]
fn findopt_name_second_name() {
    let opts = Options::new();
    let q = opts.findopt('q').unwrap();
    let f = opts.findopt_name("silent");
    assert_eq!(f.index, Some(q));
    assert_eq!(f.oname, Some("silent"));
}

#[test]
fn sprefix_counts_common_prefix() {
    assert_eq!(sprefix("quit", "quit-at-eof", false), 4);
    assert_eq!(sprefix("QUIT", "quit-at-eof", true), 4);
    assert_eq!(sprefix("QUIT", "quit-at-eof", false), 0);
    assert_eq!(sprefix("quix", "quit", false), 3);
}

#[test]
fn option_chars() {
    assert!(is_optchar('a'));
    assert!(is_optchar('Z'));
    assert!(is_optchar('-'));
    assert!(!is_optchar(' '));
    assert!(!is_optchar('='));
    assert_eq!(to_ascii_upper('q'), 'Q');
    assert_eq!(to_ascii_lower('Q'), 'q');
    assert_eq!(to_ascii_upper('#'), '#');
}

#[test]
fn flip_triple_values() {
    assert_eq!(flip_triple(OPT_OFF, true), OPT_ON);
    assert_eq!(flip_triple(OPT_ON, true), OPT_OFF);
    assert_eq!(flip_triple(OPT_ONPLUS, true), OPT_ON);
    assert_eq!(flip_triple(OPT_OFF, false), OPT_ONPLUS);
    assert_eq!(flip_triple(OPT_ONPLUS, false), OPT_OFF);
}

#[test]
fn option_descriptions() {
    let opts = Options::new();
    assert_eq!(propt('x'), "-x");
    assert_eq!(opt_desc(&opts.option_table[IDX_E]), "-e (--quit-at-eof)");
    let k = opts.findopt_name("no-keypad").index.unwrap();
    assert_eq!(opt_desc(&opts.option_table[k]), "--no-keypad");
    assert_eq!(nostring("-x"), "Value is required after -x");
}

#[test]
fn option_parameters_and_prompts() {
    let opts = Options::new();
    assert!(opt_has_param(Some(&opts.option_table[IDX_X])));
    assert!(!opt_has_param(Some(&opts.option_table[IDX_E])));
    assert!(!opt_has_param(None));
    assert_eq!(opt_prompt(Some(&opts.option_table[IDX_X])), "Tab stops: ");
    assert_eq!(opt_prompt(Some(&opts.option_table[IDX_E])), "?");
    assert_eq!(opt_prompt(None), "?");
}

#[test]
fn log_file_option_needs_pipe() {
    assert!(opt_toggle_disallowed('o', CH_CANSEEK).is_some());
    assert!(opt_toggle_disallowed('o', 0).is_none());
    assert!(opt_toggle_disallowed('e', CH_CANSEEK).is_none());
}

#[test]
fn quit_at_eof_in_more_mode() {
    assert_eq!(get_quit_at_eof(0, OPT_ON), OPT_ON);
    assert_eq!(get_quit_at_eof(1, 0), OPT_ON);
    assert_eq!(get_quit_at_eof(1, 1), OPT_ONPLUS);
}

#[test]
fn getnumc_reads_number_after_spaces() {
    let (v, rest) = getnumc("  -25xyz", None);
    assert_eq!(v, Some(-25));
    assert_eq!(rest, "xyz");
    let (w, _) = getnumc("abc", Some("-h"));
    assert_eq!(w, None);
}

#[test]
fn getnum_moves_past_number() {
    let mut s: &str = "12,5";
    let v = getnum(&mut s, None);
    assert_eq!(v, Some(12));
    assert_eq!(s, ",5");
}

#[test]
fn getfraction_millionths() {
    let (v, rest) = getfraction("5");
    assert_eq!(v, Some(500000));
    assert_eq!(rest, "");
    let (w, rest2) = getfraction(" 1234567x");
    assert_eq!(w, Some(123456));
    assert_eq!(rest2, "x");
    let (z, rest3) = getfraction("x");
    assert_eq!(z, None);
    assert_eq!(rest3, "x");
}

#[test]
fn optstring_stops_at_dollar() {
    let (val, rest) = optstring("abc$def", None, false).unwrap();
    assert_eq!(val, "abc");
    assert_eq!(rest, "$def");
    assert!(optstring("", None, false).is_none());
}

#[test]
fn optstring_valid_chars() {
    let (val, rest) = optstring("4,8 -S", Some("d,"), false).unwrap();
    assert_eq!(val, "4,8");
    assert_eq!(rest, " -S");
}

#[test]
fn number_description() {
    assert_eq!(format_number_desc("Scroll window size is %d lines", 12), "Scroll window size is 12 lines");
    assert_eq!(format_number_desc("no number", 3), "no number");
}

#[test]
fn init_option_sets_defaults() {
    let mut opts = Options::new();
    let evs = opts.init_option(None);
    assert_eq!(opts.less_is_more, 0);
    assert_eq!(opts.option_table[IDX_H].ovar, Some(-1));
    assert_eq!(opts.option_table[IDX_E].ovar, Some(OPT_OFF));
    // -b has an initialisation handler.
    assert!(evs.iter().any(|e| matches!(e, OptEvent::Handler { index: 1, action: OptAction::Init, arg: None })));
}

#[test]
fn init_option_more_mode() {
    let mut opts = Options::new();
    let _ = opts.init_option(Some("1"));
    assert_eq!(opts.less_is_more, 1);
    let mut opts2 = Options::new();
    let _ = opts2.init_option(Some("0"));
    assert_eq!(opts2.less_is_more, 0);
}

#[test]
fn toggle_bool_option() {
    let mut opts = fresh();
    let evs = toggle_option(&mut opts, Some(IDX_S), true, "", ToggleHow::Toggle, false);
    assert_eq!(opts.option_table[IDX_S].ovar, Some(1));
    assert_eq!(evs.len(), 2);
    assert!(matches!(&evs[0], OptEvent::Message(m) if m == "Squeeze multiple blank lines"));
    assert!(matches!(evs[1], OptEvent::Repaint));
    let _ = toggle_option(&mut opts, Some(IDX_S), true, "", ToggleHow::Toggle, false);
    assert_eq!(opts.option_table[IDX_S].ovar, Some(0));
}

#[test]
fn toggle_triple_upper_case() {
    let mut opts = fresh();
    let evs = toggle_option(&mut opts, Some(IDX_E), false, "", ToggleHow::Toggle, false);
    assert_eq!(opts.option_table[IDX_E].ovar, Some(OPT_ONPLUS));
    assert!(matches!(&evs[0], OptEvent::Message(m) if m == "Quit immediately at end-of-file"));
}

#[test]
fn toggle_query_only_reports() {
    let mut opts = fresh();
    let evs = toggle_option(&mut opts, Some(IDX_H), true, "", ToggleHow::NoToggle, false);
    assert_eq!(opts.option_table[IDX_H].ovar, Some(-1));
    assert_eq!(evs.len(), 1);
    assert!(matches!(&evs[0], OptEvent::Message(m) if m == "Backwards scroll limit is -1 lines"));
}

#[test]
fn toggle_number_option() {
    let mut opts = fresh();
    let _ = toggle_option(&mut opts, Some(IDX_H), true, "30", ToggleHow::Toggle, true);
    assert_eq!(opts.option_table[IDX_H].ovar, Some(30));
    let evs = toggle_option(&mut opts, Some(IDX_H), true, "x", ToggleHow::Toggle, true);
    assert!(matches!(&evs[0], OptEvent::Error(m) if m == "Value is required after -h (--max-back-scroll)"));
    assert_eq!(opts.option_table[IDX_H].ovar, Some(30));
    let _ = toggle_option(&mut opts, Some(IDX_H), true, "", ToggleHow::Unset, true);
    assert_eq!(opts.option_table[IDX_H].ovar, Some(-1));
}

#[test]
fn toggle_errors() {
    let mut opts = fresh();
    let evs = toggle_option(&mut opts, None, true, "", ToggleHow::Toggle, false);
    assert!(matches!(&evs[0], OptEvent::Error(m) if m == "No such option"));
    let d = opts.findopt('d').unwrap();
    let evs = toggle_option(&mut opts, Some(d), true, "", ToggleHow::Toggle, false);
    assert!(matches!(&evs[0], OptEvent::Error(m) if m == "Cannot change the -d (--dumb) option"));
    let evs = toggle_option(&mut opts, Some(IDX_X), true, "", ToggleHow::Unset, false);
    assert!(matches!(&evs[0], OptEvent::Error(m) if m == "Cannot use \"-+\" or \"-!\" for a string option"));
    let evs = toggle_option(&mut opts, Some(IDX_H), true, "", ToggleHow::SetInverse, false);
    assert!(matches!(&evs[0], OptEvent::Error(m) if m == "Can't use \"-!\" for a numeric option"));
    let big_d = opts.findopt('D').unwrap();
    let evs = toggle_option(&mut opts, Some(big_d), false, "", ToggleHow::NoToggle, false);
    assert!(matches!(&evs[0], OptEvent::Error(m) if m == "Cannot query the -D (--color) option"));
}

#[test]
fn toggle_string_option_calls_handler() {
    let mut opts = fresh();
    let evs = toggle_option(&mut opts, Some(IDX_X), true, "4", ToggleHow::Toggle, false);
    assert!(matches!(&evs[0], OptEvent::Handler { index: IDX_X, action: OptAction::Toggle, arg: Some(a) } if a == "4"));
    assert!(matches!(evs[1], OptEvent::Repaint));
}

#[test]
fn scan_letter_options() {
    let mut opts = fresh();
    let mut ctx = ScanContext::new();
    let evs = scan_option(&mut ctx, &mut opts, "-es", false);
    assert!(evs.is_empty());
    assert_eq!(opts.option_table[IDX_E].ovar, Some(OPT_ON));
    assert_eq!(opts.option_table[IDX_S].ovar, Some(1));
    let _ = scan_option(&mut ctx, &mut opts, "-E", false);
    assert_eq!(opts.option_table[IDX_E].ovar, Some(OPT_ONPLUS));
    let _ = scan_option(&mut ctx, &mut opts, "-+e", false);
    assert_eq!(opts.option_table[IDX_E].ovar, Some(OPT_OFF));
}

#[test]
fn scan_long_option() {
    let mut opts = fresh();
    let mut ctx = ScanContext::new();
    let _ = scan_option(&mut ctx, &mut opts, "--quit-at-eof", false);
    assert_eq!(opts.option_table[IDX_E].ovar, Some(OPT_ON));
}

#[test]
fn scan_number_option() {
    let mut opts = fresh();
    let mut ctx = ScanContext::new();
    let _ = scan_option(&mut ctx, &mut opts, "-h10", false);
    assert_eq!(opts.option_table[IDX_H].ovar, Some(10));
}

#[test]
fn scan_string_option_value() {
    let mut opts = fresh();
    let mut ctx = ScanContext::new();
    let evs = scan_option(&mut ctx, &mut opts, "-x4", false);
    assert!(matches!(&evs[0], OptEvent::Handler { index: IDX_X, action: OptAction::Init, arg: Some(a) } if a == "4"));
}

#[test]
fn scan_pending_string_option() {
    let mut opts = fresh();
    let mut ctx = ScanContext::new();
    let _ = scan_option(&mut ctx, &mut opts, "-j", false);
    assert!(isoptpending(&ctx));
    assert_eq!(nopendopt(&ctx, &opts).unwrap(), "Value is required after -j (--jump-target)");
    let evs = scan_option(&mut ctx, &mut opts, "5", false);
    assert!(!isoptpending(&ctx));
    assert!(nopendopt(&ctx, &opts).is_none());
    assert!(matches!(&evs[0], OptEvent::Handler { index: IDX_J, action: OptAction::Init, arg: Some(a) } if a == "5"));
}

#[test]
fn scan_plus_commands() {
    let mut opts = fresh();
    let mut ctx = ScanContext::new();
    let evs = scan_option(&mut ctx, &mut opts, "+G", false);
    assert!(matches!(&evs[0], OptEvent::Unget(c) if c == "G"));
    let evs = scan_option(&mut ctx, &mut opts, "++/foo", false);
    assert!(matches!(&evs[0], OptEvent::EveryFirstCmd(c) if c == "/foo"));
}

#[test]
fn scan_unknown_option() {
    let mut opts = fresh();
    let mut ctx = ScanContext::new();
    let evs = scan_option(&mut ctx, &mut opts, "-!", false);
    assert!(matches!(&evs[0], OptEvent::Error(_)));
}

#[test]
fn unsupported_options_are_marked() {
    let mut opts = fresh();
    init_unsupport(&mut opts, Some("-e --tabs"));
    assert!(opts.option_table[IDX_E].otype.bits & O_UNSUPPORTED != 0);
    assert!(opts.option_table[IDX_X].otype.bits & O_UNSUPPORTED != 0);
    assert!(opts.option_table[IDX_S].otype.bits & O_UNSUPPORTED == 0);
    let mut ctx = ScanContext::new();
    let _ = scan_option(&mut ctx, &mut opts, "-e", false);
    assert_eq!(opts.option_table[IDX_E].ovar, Some(OPT_OFF));
}

#[test]
fn findopts_name_lists_matches() {
    let opts = Options::new();
    let s = opts.findopts_name("quit");
    assert!(s.contains("quit-at-eof"));
    assert!(s.contains("quit-if-one-screen"));
    assert!(!s.contains("tabs"));
}
