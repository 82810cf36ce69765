use less::opttbl::{OLETTER_NONE, O_BOOL, O_INIT_HANDLER, O_NUMBER, O_STRING, O_TRIPLE};
use less::cmdbuf::{cmd_addhist, CmdBuf, MList};
use less::command::Ungot;
use less::defs::{CC_OK, CC_PASS, SRCH_FORW, SRCH_NO_MATCH, SRCH_PAST_EOF, SRCH_WRAP};
use less::option::{toggle_option, OptEvent};
use less::optfunc::{calc_shift_count, parse_search_options, search_options_text, set_tabs, Tabs};
use less::opttbl::{Options, ToggleHow};
use less::prompt::{pr_expand, PromptEnv, PromptPlace};

#[test]
fn unget_then_read_gives_it_back() {
    let mut u = Ungot::new();
    u.ungetsc("ab");
    u.ungetcc('z');
    assert_eq!(u.get_ungot().ch, 'z');
    assert_eq!(u.get_ungot().ch, 'a');
    assert_eq!(u.get_ungot().ch, 'b');
}

#[test]
fn toggle_twice_restores_every_boolean() {
    let mut opts = Options::new();
    let _ = opts.init_option(None);
    let before: Vec<Option<i32>> = opts.option_table.iter().map(|o| o.ovar).collect();
    for c in ['B', 'f', 'F', 'K', 'L', 's', 'S', 'J', '~'] {
        let i = opts.findopt(c).unwrap();
        let _ = toggle_option(&mut opts, Some(i), true, "", ToggleHow::Toggle, true);
        assert_ne!(opts.option_table[i].ovar, before[i]);
        let _ = toggle_option(&mut opts, Some(i), true, "", ToggleHow::Toggle, true);
    }
    let after: Vec<Option<i32>> = opts.option_table.iter().map(|o| o.ovar).collect();
    assert_eq!(before, after);
}

#[test]
fn unset_and_set_boolean() {
    let mut opts = Options::new();
    let _ = opts.init_option(None);
    let l = opts.findopt('L').unwrap();
    let _ = toggle_option(&mut opts, Some(l), true, "", ToggleHow::SetInverse, true);
    assert_eq!(opts.option_table[l].ovar, Some(0));
    let evs = toggle_option(&mut opts, Some(l), true, "", ToggleHow::Unset, false);
    assert_eq!(opts.option_table[l].ovar, Some(1));
    assert!(matches!(&evs[0], OptEvent::Message(m) if m == "Use the LESSOPEN filter"));
}

#[test]
fn insert_then_erase_restores_text() {
    let mut cb = CmdBuf::new();
    cb.cmd_istr("hello");
    cb.cmd_left();
    cb.cmd_left();
    assert_eq!(cb.cmd_ichar('X'), CC_OK);
    assert_eq!(cb.get_cmdbuf().unwrap(), "helXlo");
    assert_eq!(cb.cmd_erase(), CC_OK);
    assert_eq!(cb.get_cmdbuf().unwrap(), "hello");
}

#[test]
fn normalising_search_type_is_stable() {
    for st in [SRCH_FORW, SRCH_FORW | SRCH_PAST_EOF | SRCH_WRAP, SRCH_NO_MATCH | SRCH_WRAP] {
        let once = less::command::norm_search_type(st);
        assert_eq!(less::command::norm_search_type(once), once);
    }
}

#[test]
fn fraction_never_exceeds_size() {
    for frac in [0i64, 1, 499999, 500000, 999999] {
        let n = calc_shift_count(80, 0, frac);
        assert!(0 <= n && n <= 80);
    }
    assert_eq!(calc_shift_count(80, 0, 999999), 80);
}

#[test]
fn tab_stops_are_increasing() {
    let mut t = Tabs { stops: vec![0], tabdefault: 8 };
    set_tabs(&mut t, "3, 2, 7,7 ,20");
    assert_eq!(t.stops, vec![0, 3, 7, 20]);
    assert!(t.stops.windows(2).all(|w| w[0] < w[1]));
}

#[test]
fn plain_prompt_is_itself() {
    let p = PromptPlace { byte: 0, line: 1, line_shown: 1 };
    let env = PromptEnv {
        top: p,
        middle: p,
        bottom: p,
        bottom_plus_one: p,
        jump: p,
        hshift: 0,
        eof_displayed: false,
        file_named: false,
        file_name: Vec::new(),
        file_last: Vec::new(),
        file_quoted: Vec::new(),
        linenums: false,
        file_len: 0,
        last_linenum: 0,
        last_byte_linenum: 0,
        last_line_shown: 0,
        ntags: 0,
        curr_tag: 0,
        nifile: 1,
        ifile_index: 1,
        new_file: false,
        next_file: None,
        editor: Vec::new(),
        osc8_path: None,
        sc_height: 24,
        header_lines: 0,
    };
    assert_eq!(pr_expand(&env, "Reading standard input "), "Reading standard input ");
}

#[test]
fn added_command_is_newest() {
    let mut ml = MList::new();
    cmd_addhist(&mut ml, &vec!['a'], false, false);
    cmd_addhist(&mut ml, &vec!['b'], true, false);
    let last = ml.entries.last().unwrap();
    assert_eq!(last.text, vec!['b']);
    assert!(last.modified);
}

#[test]
fn utf8_round_trip() {
    for c in ['é', 'ß', '߿', 'ࠀ', '€', '\u{ffff}'] {
        let mut buf = [0u8; 4];
        let bytes = c.encode_utf8(&mut buf).as_bytes().to_vec();
        let mut cb = CmdBuf::new();
        let mut got = None;
        for (k, b) in bytes.iter().enumerate() {
            let (r, ch) = cb.cmd_uchar(*b, true);
            if k + 1 < bytes.len() {
                assert_eq!((r, ch), (CC_OK, None));
            } else {
                assert_eq!(r, CC_PASS);
                got = ch;
            }
        }
        assert_eq!(got, Some(c));
    }
}

#[test]
fn search_options_read_back() {
    let st = SRCH_PAST_EOF | SRCH_NO_MATCH | SRCH_FORW;
    let t: String = search_options_text(st).iter().collect();
    // Only the flags that the letters can show come back.
    assert_eq!(parse_search_options(&t), Ok(SRCH_PAST_EOF | SRCH_NO_MATCH));
}

#[test]
fn reverse_search_twice_and_shift_back() {
    let st = SRCH_FORW | SRCH_NO_MATCH;
    let mut s = less::commands::CommandState {
        number: 0,
        fraction: -1,
        search_type: st,
        last_search_type: st,
        literal_char: false,
        wscroll: 1,
        swindow: 0,
        shift_count: 0,
        hshift: 0,
        save_hshift: 0,
        optflag: 0,
        optgetname: false,
        mca: less::command::Mca::Null,
    };
    let e = less::commands::CommandEnv {
        sc_width: 80,
        sc_height: 24,
        header_lines: 0,
        show_attn: 0,
        chopline: false,
        wheel_lines: 1,
        def_search_type: 0,
        helpfile: false,
        ntags: 0,
        no_paste: false,
        allowed: 0,
        via_lessopen: false,
        is_stdin: false,
        no_edit_warn: false,
    };
    let first = match less::commands::commands(&mut s, &e, less::commands::Action::ReverseSearch) {
        less::commands::Step::Search { search_type, .. } => search_type,
        _ => panic!("expected a search"),
    };
    s.last_search_type = first;
    let second = match less::commands::commands(&mut s, &e, less::commands::Action::ReverseSearch) {
        less::commands::Step::Search { search_type, .. } => search_type,
        _ => panic!("expected a search"),
    };
    assert_eq!(second, st);
    s.number = 7;
    s.hshift = 3;
    less::commands::commands(&mut s, &e, less::commands::Action::RShift);
    less::commands::commands(&mut s, &e, less::commands::Action::LShift);
    assert_eq!(s.hshift, 3);
    assert_eq!(s.shift_count, 7);
}

#[test]
fn updown_prefix_saved_and_restored() {
    let mut b = less::cmdbuf::CmdBuf::new();
    assert_eq!(b.save_updown_match(), -1);
    b.restore_updown_match(3);
    let saved = b.save_updown_match();
    assert_eq!(saved, 3);
    b.restore_updown_match(-1);
    assert_eq!(b.save_updown_match(), -1);
    b.restore_updown_match(saved);
    assert_eq!(b.save_updown_match(), 3);
}

#[test]
fn digits_set_the_window_like_z() {
    let run = |arg: &str| {
        let mut opts = Options::new();
        let _ = opts.init_option(None);
        let mut ctx = less::option::ScanContext::new();
        let evs = less::option::scan_option(&mut ctx, &mut opts, arg, false);
        let z = opts.findopt('z').unwrap();
        (opts.option_table[z].ovar, evs.len(), ctx.pending)
    };
    assert_eq!(run("-20"), run("-z20"));
    assert_eq!(run("-20").0, Some(20));
}

#[test]
fn string_option_waits_for_its_value() {
    let mut opts = Options::new();
    let _ = opts.init_option(None);
    let mut ctx = less::option::ScanContext::new();
    let evs = less::option::scan_option(&mut ctx, &mut opts, "-j", false);
    assert!(evs.is_empty());
    let j = opts.findopt('j').unwrap();
    assert_eq!(ctx.pending, Some(j));
    let evs = less::option::scan_option(&mut ctx, &mut opts, "3", false);
    assert_eq!(evs.len(), 1);
    assert!(matches!(&evs[0], OptEvent::Handler { index, action: less::opttbl::OptAction::Init, arg: Some(a) } if *index == j && a == "3"));
    assert_eq!(ctx.pending, None);
}

#[test]
fn option_table_rules() {
    let t = Options::new().option_table;
    for o in &t {
        let b = o.otype.bits;
        let kinds = [O_BOOL, O_TRIPLE, O_NUMBER, O_STRING].iter().filter(|k| b & **k == **k).count();
        assert_eq!(kinds, 1);
        if b & O_INIT_HANDLER != 0 {
            assert!(o.ofunc.is_some());
        }
        if b & O_STRING != 0 {
            assert!(o.ovar.is_none() && o.ofunc.is_some());
        }
        if b & O_NUMBER != 0 {
            assert_eq!(o.odesc[1].matches("%d").count(), 1);
        }
    }
    for (i, a) in t.iter().enumerate() {
        for (j, b) in t.iter().enumerate() {
            if i == j {
                continue;
            }
            if a.oletter != OLETTER_NONE {
                assert_ne!(a.oletter, b.oletter);
                if a.otype.bits & O_TRIPLE != 0 {
                    assert_ne!(a.oletter.to_ascii_uppercase(), b.oletter);
                }
            }
            for x in a.onames.iter().filter(|n| !n.is_empty()) {
                assert!(!b.onames.contains(x));
            }
        }
        if !a.onames[1].is_empty() {
            assert_ne!(a.onames[0], a.onames[1]);
        }
    }
}
