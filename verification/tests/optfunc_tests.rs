use less::command::Ungot;
use less::defs::{
    AT_BOLD, AT_COLOR_BIN, AT_COLOR_SEARCH, INIT, QUERY, SRCH_FIRST_FILE, SRCH_NO_MATCH, SRCH_PAST_EOF, SRCH_WRAP,
    TOGGLE,
};
use less::optfunc::{
    calc_jump_sline, calc_match_shift, calc_shift_count, chop_line, color_from_namechar, do_nosearch_headers,
    format_str, get_swindow, next_cnum, opt_D, opt__P, opt_header, opt_intr, opt_j, opt_linenum_width,
    opt_match_shift, opt_nosearch_header_cols, opt_nosearch_header_lines, opt_nosearch_headers, opt_p, opt_query,
    opt_quote, opt_search_type, opt_shift, opt_status_col_width, opt_wheel_lines, opt_x, parse_header,
    parse_search_options, query_fraction, search_options_text, set_tabs, srch_subsearch, toggle_fraction, umuldiv,
    Cnum, FracSetting, FracValue, HeaderSetting, HeaderValue, Tabs,
};
use less::optfunc::{
    opt_b, opt_filesize, opt_i, opt_mousecap, opt_no_paste, opt__O, opt__S, opt__T, opt__V, opt_o, opt_t,
    lesskey_failure, opt_k, opt_kc, opt_ks, opt_rscroll, rscroll_setting, CatchUp, LesskeyKind, OptStep,
    VersionOut,
};
use less::prompt::init_prompt;

fn tabs8() -> Tabs {
    Tabs { stops: vec![0], tabdefault: 8 }
}

#[test]
fn umuldiv_rounds_to_nearest() {
    assert_eq!(umuldiv(10, 1, 3), 3);
    assert_eq!(umuldiv(10, 2, 3), 7);
    assert_eq!(umuldiv(5, 1, 2), 2);
    assert_eq!(umuldiv(7, 1, 2), 4);
    assert_eq!(umuldiv(u64::MAX, u64::MAX, 1), (u64::MAX as u128) * (u64::MAX as u128));
}

#[test]
fn screen_fractions() {
    // Half of a 25-line screen is line 12 (12.5 rounds to the even 12).
    assert_eq!(calc_jump_sline(25, 0, 1, 500000), 12);
    assert_eq!(calc_jump_sline(24, 0, 1, 500000), 12);
    // Kept below the header lines.
    assert_eq!(calc_jump_sline(24, 3, 1, 0), 4);
    // No fraction: the line set before.
    assert_eq!(calc_jump_sline(24, 0, 5, -1), 5);
    assert_eq!(calc_shift_count(80, 8, 250000), 20);
    assert_eq!(calc_shift_count(80, 8, -1), 8);
    assert_eq!(calc_match_shift(80, 3, 100000), 8);
}

#[test]
fn fraction_values() {
    assert_eq!(toggle_fraction("", "j"), FracValue::Recalc);
    assert_eq!(toggle_fraction(".5", "j"), FracValue::Fraction(500000));
    assert_eq!(toggle_fraction(".x", "j"), FracValue::InvalidFraction);
    assert_eq!(toggle_fraction("12", "j"), FracValue::Number(12));
    assert_eq!(toggle_fraction("-3", "j"), FracValue::Number(-3));
    assert_eq!(toggle_fraction("zz", "j"), FracValue::InvalidNumber);
    assert_eq!(toggle_fraction("99999999999", "j"), FracValue::InvalidNumber);
}

#[test]
fn fraction_queries() {
    assert_eq!(query_fraction(5, -1, "line %d", "position %s"), "line 5");
    assert_eq!(query_fraction(5, 500000, "line %d", "position %s"), "position .5");
    assert_eq!(query_fraction(5, 0, "line %d", "position %s"), "position .0");
    assert_eq!(query_fraction(5, 123000, "line %d", "position %s"), "position .123");
    assert_eq!(format_str("a %s b", &vec!['x', 'y']), "a xy b");
    assert_eq!(format_str("none", &vec!['x']), "none");
}

#[test]
fn jump_target_option() {
    let mut st = FracSetting { value: 1, fraction: -1 };
    assert_eq!(opt_j(INIT, ".5", &mut st, 24, 0), None);
    assert_eq!(st, FracSetting { value: 12, fraction: 500000 });
    assert_eq!(opt_j(QUERY, "", &mut st, 24, 0), Some("Position target at screen position .5".to_string()));
    // The screen grew: the fraction is taken again.
    assert_eq!(opt_j(INIT, "", &mut st, 40, 0), None);
    assert_eq!(st.value, 20);
    assert_eq!(opt_j(TOGGLE, "3", &mut st, 40, 0), None);
    assert_eq!(st, FracSetting { value: 3, fraction: -1 });
    assert_eq!(opt_j(QUERY, "", &mut st, 40, 0), Some("Position target at screen line 3".to_string()));
    assert_eq!(opt_j(TOGGLE, ".q", &mut st, 40, 0), Some("Invalid fraction".to_string()));
    assert_eq!(opt_j(TOGGLE, "q", &mut st, 40, 0), Some("Invalid number".to_string()));
    assert_eq!(st, FracSetting { value: 3, fraction: -1 });
}

#[test]
fn shift_options() {
    let mut st = FracSetting { value: 0, fraction: -1 };
    assert_eq!(opt_shift(INIT, ".25", &mut st, 80), None);
    assert_eq!(st, FracSetting { value: 20, fraction: 250000 });
    assert!(opt_shift(QUERY, "", &mut st, 80).is_some());
    let mut m = FracSetting { value: 0, fraction: -1 };
    assert_eq!(opt_match_shift(TOGGLE, "4", &mut m, 80), None);
    assert_eq!(m, FracSetting { value: 4, fraction: -1 });
}

#[test]
fn sub_pattern_flags() {
    assert_eq!(srch_subsearch(1), 1 << 18);
    assert_eq!(srch_subsearch(3), 1 << 20);
}

#[test]
fn search_options_parse_and_show() {
    assert_eq!(parse_search_options("EW"), Ok(SRCH_PAST_EOF | SRCH_WRAP));
    assert_eq!(parse_search_options("e^n"), Ok(SRCH_PAST_EOF | SRCH_NO_MATCH));
    assert_eq!(parse_search_options("F-N"), Ok(SRCH_NO_MATCH));
    assert_eq!(parse_search_options("2"), Ok(srch_subsearch(2)));
    assert_eq!(parse_search_options("Ex"), Err('x'));
    assert_eq!(search_options_text(0), vec!['-']);
    assert_eq!(search_options_text(SRCH_FIRST_FILE | SRCH_NO_MATCH | srch_subsearch(5)), vec!['F', 'N', '5']);
}

#[test]
fn search_options_round_trip() {
    for st in [SRCH_PAST_EOF, SRCH_NO_MATCH | SRCH_WRAP, srch_subsearch(1) | srch_subsearch(4), 0] {
        let t: String = search_options_text(st).iter().collect();
        assert_eq!(parse_search_options(&t), Ok(st));
    }
}

#[test]
fn search_type_option() {
    let mut st = 0;
    assert_eq!(opt_search_type(INIT, "EW", &mut st), None);
    // Wrapping and going past the end of the file do not go together.
    assert_eq!(st, SRCH_WRAP);
    assert_eq!(opt_search_type(QUERY, "", &mut st), Some("search options: W".to_string()));
    assert_eq!(opt_search_type(TOGGLE, "Q", &mut st), Some("invalid search option 'Q'".to_string()));
    assert_eq!(st, SRCH_WRAP);
}

#[test]
fn tab_stops() {
    let mut t = tabs8();
    set_tabs(&mut t, "4,8,16");
    assert_eq!(t.stops, vec![0, 4, 8, 16]);
    assert_eq!(t.tabdefault, 8);
    let mut u = tabs8();
    set_tabs(&mut u, "4");
    assert_eq!(u.stops, vec![0, 4]);
    assert_eq!(u.tabdefault, 4);
    let mut w = tabs8();
    set_tabs(&mut w, "9,5,12");
    // A stop that does not come after the last one is skipped.
    assert_eq!(w.stops, vec![0, 9, 12]);
    assert_eq!(w.tabdefault, 3);
    let mut x = tabs8();
    set_tabs(&mut x, "");
    assert_eq!(x.stops, vec![0]);
    assert_eq!(x.tabdefault, 8);
}

#[test]
fn tab_option_query() {
    let mut t = tabs8();
    assert_eq!(opt_x(QUERY, "", &mut t), Some("Tab stops every 8 spaces".to_string()));
    assert_eq!(opt_x(TOGGLE, "3,10", &mut t), None);
    assert_eq!(opt_x(QUERY, "", &mut t), Some("Tab stops 3,10 and then every 7 spaces".to_string()));
}

#[test]
fn quote_option() {
    let mut oq = '"';
    let mut cq = '"';
    assert_eq!(opt_quote(TOGGLE, "<>", &mut oq, &mut cq), None);
    assert_eq!((oq, cq), ('<', '>'));
    assert_eq!(opt_quote(QUERY, "", &mut oq, &mut cq), Some("quotes <>".to_string()));
    assert_eq!(opt_quote(TOGGLE, "'", &mut oq, &mut cq), None);
    assert_eq!((oq, cq), ('\'', '\''));
    assert_eq!(opt_quote(TOGGLE, "abc", &mut oq, &mut cq), Some("-\" must be followed by 1 or 2 chars".to_string()));
    assert_eq!((oq, cq), ('\'', '\''));
    assert_eq!(opt_quote(TOGGLE, "", &mut oq, &mut cq), None);
    assert_eq!(opt_quote(QUERY, "", &mut oq, &mut cq), Some("quotes ".to_string()));
}

#[test]
fn interrupt_option() {
    let mut c = '\u{3}';
    assert_eq!(opt_intr(TOGGLE, "^G", &mut c, "^C"), None);
    assert_eq!(c, '\u{7}');
    assert_eq!(opt_intr(TOGGLE, "x", &mut c, "^G"), None);
    assert_eq!(c, 'x');
    assert_eq!(opt_intr(QUERY, "", &mut c, "x"), Some("interrupt character is x".to_string()));
}

#[test]
fn comma_numbers() {
    assert_eq!(next_cnum("3,4", "header"), (Cnum::Num(3), "4"));
    assert_eq!(next_cnum(",4", "header"), (Cnum::Missing, "4"));
    assert_eq!(next_cnum("", "header"), (Cnum::Missing, ""));
    assert_eq!(next_cnum("x", "header"), (Cnum::Invalid, "x"));
}

#[test]
fn header_values() {
    assert_eq!(parse_header("2,3,10"), Ok(HeaderValue { lines: 2, cols: 3, start_line: 10 }));
    assert_eq!(parse_header("2"), Ok(HeaderValue { lines: 2, cols: 0, start_line: 0 }));
    assert_eq!(parse_header("3"), Ok(HeaderValue { lines: 3, cols: 0, start_line: 0 }));
    assert_eq!(parse_header("3,,"), Ok(HeaderValue { lines: 3, cols: 0, start_line: 0 }));
    assert_eq!(parse_header(",5"), Ok(HeaderValue { lines: 0, cols: 5, start_line: 0 }));
    assert_eq!(parse_header("-"), Ok(HeaderValue { lines: 0, cols: 0, start_line: 0 }));
    assert_eq!(parse_header("2,4,-3"), Ok(HeaderValue { lines: 2, cols: 4, start_line: 0 }));
    assert_eq!(parse_header("x"), Err("invalid number of lines".to_string()));
    assert_eq!(parse_header("1,y"), Err("invalid number of columns".to_string()));
    assert_eq!(parse_header("1,2,z"), Err("invalid line number".to_string()));
}

#[test]
fn header_option() {
    let mut h = HeaderSetting { lines: 0, cols: 0, start_line: 0 };
    let mut init = String::new();
    let mut jump = FracSetting { value: 1, fraction: -1 };
    assert_eq!(opt_header(INIT, "1,2", &mut h, &mut init, &mut jump, 24), None);
    assert_eq!(init, "1,2");
    assert_eq!(h, HeaderSetting { lines: 0, cols: 0, start_line: 0 });
    assert_eq!(jump, FracSetting { value: 1, fraction: -1 });
    // The jump line moves below the header.
    assert_eq!(opt_header(TOGGLE, "1,2,7", &mut h, &mut init, &mut jump, 24), None);
    assert_eq!(h, HeaderSetting { lines: 1, cols: 2, start_line: 7 });
    assert_eq!(jump, FracSetting { value: 2, fraction: -1 });
    // Parts left out give 0, and the header starts at the start of the file.
    h.cols = 5;
    assert_eq!(opt_header(TOGGLE, "3", &mut h, &mut init, &mut jump, 24), None);
    assert_eq!(h, HeaderSetting { lines: 3, cols: 0, start_line: 0 });
    assert_eq!(jump, FracSetting { value: 4, fraction: -1 });
    // A jump line set as a fraction of the screen is found again.
    let mut half = FracSetting { value: 3, fraction: 500_000 };
    assert_eq!(opt_header(TOGGLE, "4", &mut h, &mut init, &mut half, 24), None);
    assert_eq!(half, FracSetting { value: 12, fraction: 500_000 });
    assert_eq!(opt_header(TOGGLE, "20,1,9", &mut h, &mut init, &mut half, 24), None);
    assert_eq!(half, FracSetting { value: 21, fraction: 500_000 });
    assert_eq!(
        opt_header(TOGGLE, "q", &mut h, &mut init, &mut jump, 24),
        Some("invalid number of lines".to_string())
    );
    assert_eq!(h, HeaderSetting { lines: 20, cols: 1, start_line: 9 });
    assert_eq!(
        opt_header(QUERY, "", &mut h, &mut init, &mut jump, 24),
        Some("Header (lines,columns,line-number) is 20,1,9".to_string())
    );
}

#[test]
fn header_search_options() {
    let mut l = false;
    let mut c = false;
    assert_eq!(
        opt_nosearch_headers(TOGGLE, &mut l, &mut c),
        Some("Search does not include header lines or columns".to_string())
    );
    assert_eq!(
        opt_nosearch_header_lines(TOGGLE, &mut l, &mut c),
        Some("Search includes header columns but not header lines".to_string())
    );
    assert_eq!((l, c), (true, false));
    assert_eq!(
        opt_nosearch_header_cols(TOGGLE, &mut l, &mut c),
        Some("Search includes header lines but not header columns".to_string())
    );
    assert_eq!(opt_nosearch_header_cols(INIT, &mut l, &mut c), None);
    assert_eq!(
        do_nosearch_headers(QUERY, true, true, &mut l, &mut c),
        Some("Search includes header lines but not header columns".to_string())
    );
    assert_eq!(do_nosearch_headers(TOGGLE, false, false, &mut l, &mut c),
        Some("Search includes header lines and columns".to_string()));
}

#[test]
fn screen_geometry() {
    assert!(chop_line(false, 0, 1));
    assert!(!chop_line(false, 0, 0));
    assert!(chop_line(true, 0, 0));
    assert_eq!(get_swindow(10, 24, 2), 10);
    assert_eq!(get_swindow(0, 24, 2), 22);
    assert_eq!(get_swindow(-2, 24, 2), 20);
}

#[test]
fn color_letters() {
    assert_eq!(color_from_namechar('B'), AT_COLOR_BIN);
    assert_eq!(color_from_namechar('S'), AT_COLOR_SEARCH);
    assert_eq!(color_from_namechar('d'), AT_BOLD);
    assert_eq!(color_from_namechar('3'), 13 << 8);
    assert_eq!(color_from_namechar('z'), -1);
}

#[test]
fn color_option() {
    assert_eq!(opt_D("Sgb", true), Ok((AT_COLOR_SEARCH, "gb".to_string())));
    assert_eq!(opt_D("Sgb", false), Err("Set --use-color before changing colors".to_string()));
    assert_eq!(opt_D("dr", false), Ok((AT_BOLD, "r".to_string())));
    assert_eq!(opt_D("zz", true), Err("Invalid color specifier 'z'".to_string()));
}

#[test]
fn prompt_option() {
    let mut p = init_prompt(false);
    assert_eq!(opt__P(INIT, "mMedium %f", &mut p, 0), None);
    assert_eq!(p.prproto[1], "Medium %f");
    assert_eq!(opt__P(TOGGLE, "plain", &mut p, 0), None);
    assert_eq!(p.prproto[0], "plain");
    assert_eq!(opt__P(TOGGLE, "=eq", &mut p, 0), None);
    assert_eq!(p.eqproto, "eq");
    assert_eq!(opt__P(TOGGLE, "wwait", &mut p, 0), None);
    assert_eq!(p.wproto, "wait");
    assert_eq!(opt__P(QUERY, "", &mut p, 1), Some("Medium %f".to_string()));
}

#[test]
fn width_limits() {
    let mut w = 10;
    assert_eq!(opt_linenum_width(&mut w), None);
    assert_eq!(w, 10);
    let mut big = 1000;
    assert_eq!(opt_linenum_width(&mut big), Some("Line number width must not be larger than 16".to_string()));
    assert_eq!(big, 7);
    let mut sc = 50;
    assert_eq!(opt_status_col_width(&mut sc), Some("Status column width must not be larger than 4".to_string()));
    assert_eq!(sc, 2);
}

#[test]
fn help_option() {
    let mut help = false;
    assert_eq!(opt_query(TOGGLE, &mut help), Some("Use \"h\" for help".to_string()));
    assert!(!help);
    assert_eq!(opt_query(QUERY, &mut help), None);
    assert!(help);
}

#[test]
fn pattern_option_as_search() {
    let mut u = Ungot::new();
    let mut every = String::new();
    let mut plus = false;
    opt_p("foo", false, &mut u, &mut every, &mut plus);
    assert!(plus);
    let mut read = String::new();
    let mut ended = false;
    while !u.is_empty() {
        let c = u.get_ungot();
        if c.end_command {
            ended = true;
        } else {
            read.push(c.ch);
        }
    }
    assert_eq!(read, "/foo");
    assert!(ended);
    let mut u2 = Ungot::new();
    opt_p("bar", true, &mut u2, &mut every, &mut plus);
    assert_eq!(every, "bar");
    assert!(u2.is_empty());
}

#[test]
fn wheel_lines_default() {
    let mut w = 0;
    opt_wheel_lines(&mut w, 3);
    assert_eq!(w, 3);
    let mut v = 5;
    opt_wheel_lines(&mut v, 3);
    assert_eq!(v, 5);
}

#[test]
fn log_file_option() {
    assert!(matches!(opt_o(INIT, "log", false, 0, false, ""), OptStep::Error(m) if m == "log file support is not available"));
    assert!(matches!(opt_o(INIT, "log", true, 0, false, ""), OptStep::Store(v) if v == "log"));
    assert!(matches!(opt_o(TOGGLE, "  log", true, 0, false, ""), OptStep::Open(v) if v == "log"));
    assert!(matches!(opt_o(TOGGLE, "log", true, less::defs::CH_CANSEEK, false, ""), OptStep::Error(m) if m == "Input is not a pipe"));
    assert!(matches!(opt_o(TOGGLE, "log", true, 0, true, "old"), OptStep::Error(m) if m == "Log file is already in use"));
    assert!(matches!(opt_o(QUERY, "", true, 0, false, ""), OptStep::Error(m) if m == "No log file"));
    assert!(matches!(opt_o(QUERY, "", true, 0, true, "old"), OptStep::Message(m) if m == "Log file \"old\""));
}

#[test]
fn tag_options() {
    assert!(matches!(opt_t(INIT, "main", true), OptStep::Store(v) if v == "main"));
    assert!(matches!(opt_t(TOGGLE, " main", true), OptStep::Open(v) if v == "main"));
    assert!(matches!(opt_t(TOGGLE, "main", false), OptStep::Error(m) if m == "tags support is not available"));
    assert!(matches!(opt_t(QUERY, "", true), OptStep::Nothing));
    assert!(matches!(opt__T(TOGGLE, " TAGS", "tags"), OptStep::Open(v) if v == "TAGS"));
    assert!(matches!(opt__T(QUERY, "", "tags"), OptStep::Message(m) if m == "Tags file \"tags\""));
}

#[test]
fn version_option() {
    assert!(matches!(opt__V(QUERY, "668", "POSIX"), VersionOut::Message(m) if m == "less 668"));
    match opt__V(INIT, "668", "POSIX") {
        VersionOut::Banner(b) => {
            assert!(b.starts_with("less 668 (POSIX regular expressions)\nCopyright (C) 1984-2025  Mark Nudelman\n\n"));
            assert!(!b.contains("EXPERIMENTAL"));
            assert!(b.ends_with("Home page: https://greenwoodsoftware.com/less\n"));
        }
        _ => panic!("expected the banner"),
    }
    match opt__V(INIT, "669x", "PCRE2") {
        VersionOut::Banner(b) => assert!(b.contains("** This is an EXPERIMENTAL build")),
        _ => panic!("expected the banner"),
    }
}

#[test]
fn rscroll_values() {
    assert_eq!(rscroll_setting("-", 1), ('\0', None));
    assert_eq!(rscroll_setting("", 0), ('>', Some(less::defs::AT_COLOR_RSCROLL)));
    assert_eq!(rscroll_setting("*x", less::defs::AT_BOLD), ('*', Some(less::defs::AT_BOLD | less::defs::AT_COLOR_RSCROLL)));
}

#[test]
fn log_file_overwrite_handler() {
    let (force, step) = opt__O(TOGGLE, " new.log", true, 0, false, "");
    assert!(force);
    assert!(matches!(step, OptStep::Open(v) if v == "new.log"));
    let (force, step) = opt__O(QUERY, "", true, 0, true, "x");
    assert!(force);
    assert!(matches!(step, OptStep::Message(m) if m == "Log file \"x\""));
}

#[test]
fn catch_up_handlers() {
    assert_eq!(opt_b(INIT), CatchUp::SetBufSpace);
    assert_eq!(opt_b(TOGGLE), CatchUp::SetBufSpace);
    assert_eq!(opt_b(QUERY), CatchUp::Nothing);
    assert_eq!(opt_i(TOGGLE), CatchUp::ChangeCaseless);
    assert_eq!(opt_i(INIT), CatchUp::Nothing);
    assert_eq!(opt__S(TOGGLE), CatchUp::Rehead);
    assert_eq!(opt__S(QUERY), CatchUp::Nothing);
    assert_eq!(opt_mousecap(TOGGLE, 0), CatchUp::DeinitMouse);
    assert_eq!(opt_mousecap(TOGGLE, 2), CatchUp::InitMouse);
    assert_eq!(opt_mousecap(INIT, 2), CatchUp::Nothing);
    assert_eq!(opt_no_paste(TOGGLE, 1), CatchUp::InitPaste);
    assert_eq!(opt_no_paste(TOGGLE, 0), CatchUp::DeinitPaste);
    assert_eq!(opt_no_paste(QUERY, 1), CatchUp::Nothing);
    assert_eq!(opt_filesize(INIT, 1, true, false), CatchUp::ScanEof);
    assert_eq!(opt_filesize(TOGGLE, 1, true, true), CatchUp::Nothing);
    assert_eq!(opt_filesize(TOGGLE, 0, true, false), CatchUp::Nothing);
    assert_eq!(opt_filesize(TOGGLE, 1, false, false), CatchUp::Nothing);
    assert_eq!(opt_filesize(QUERY, 1, true, false), CatchUp::Nothing);
}

#[test]
fn rscroll_handler() {
    let r = opt_rscroll(INIT, "-", 0, 1, '>', ">");
    assert_eq!(r.ch, Some('\0'));
    assert_eq!(r.attr, None);
    assert!(r.msg.is_none());
    let r = opt_rscroll(TOGGLE, "", AT_BOLD, 1, '>', ">");
    assert_eq!(r.ch, Some('>'));
    assert_eq!(r.attr, Some(AT_BOLD | less::defs::AT_COLOR_RSCROLL));
    let r = opt_rscroll(TOGGLE, "|x", 0, 2, '>', ">");
    assert_eq!(r.ch, None);
    assert_eq!(r.attr, Some(less::defs::AT_COLOR_RSCROLL));
    assert_eq!(r.msg.as_deref(), Some("cannot set rscroll to a wide character"));
    let r = opt_rscroll(QUERY, "", 0, 1, '>', ">");
    assert_eq!(r.msg.as_deref(), Some("rscroll character is >"));
    let r = opt_rscroll(QUERY, "", 0, 1, '\0', "");
    assert_eq!(r.msg.as_deref(), Some("rscroll character is -"));
    assert_eq!(r.ch, None);
}

#[test]
fn lesskey_handlers() {
    assert_eq!(opt_k(INIT, "keys").as_deref(), Some("keys"));
    assert_eq!(opt_k(TOGGLE, "keys"), None);
    assert_eq!(opt_ks(INIT, "src").as_deref(), Some("src"));
    assert_eq!(opt_ks(QUERY, "src"), None);
    assert_eq!(opt_kc(INIT, "#command\nq quit").as_deref(), Some("#command\nq quit"));
    assert_eq!(opt_kc(TOGGLE, "x"), None);
    assert_eq!(lesskey_failure(LesskeyKind::File, "k"), "Cannot use lesskey file \"k\"");
    assert_eq!(lesskey_failure(LesskeyKind::Source, "s"), "Cannot use lesskey source file \"s\"");
    assert_eq!(lesskey_failure(LesskeyKind::Content, "c"), "Error in lesskey content");
}

#[test]
fn subsearch_bits_across_the_range() {
    assert_eq!(srch_subsearch(-17), 1);
    assert_eq!(srch_subsearch(0), 1 << 17);
    assert_eq!(srch_subsearch(13), 1 << 30);
    assert_eq!(srch_subsearch(14), i32::MIN);
}
