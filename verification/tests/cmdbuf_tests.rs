use less::cmdbuf::{
    char_utf8_len, cmd_addhist, split_textlist, CmdBuf, CompletionList, HistEntry, HistKind, Histories, MList,
    Quoting, CMDBUF_SIZE,
};
use less::command::PasteState;
use less::defs::{
    A_INVALID, A_NOACTION, CC_ERROR, CC_OK, CC_PASS, CC_QUIT, CF_OPTION, CF_QUIT_ON_ERASE, EC_ABORT, EC_BACKSPACE,
    EC_B_COMPLETE, EC_DELETE, EC_DOWN, EC_END, EC_EXPAND, EC_F_COMPLETE, EC_HOME, EC_LEFT, EC_LINEKILL,
    EC_LITERAL, EC_RIGHT, EC_UP, EC_W_BACKSPACE, EC_W_DELETE, EC_W_LEFT, EC_W_RIGHT, ECF_NOCOMPLETE,
    ECF_NOHISTORY,
};

fn chars(s: &str) -> Vec<char> {
    s.chars().collect()
}

fn text(cb: &CmdBuf) -> String {
    cb.get_cmdbuf().unwrap()
}

fn typed(s: &str) -> CmdBuf {
    let mut cb = CmdBuf::new();
    assert_eq!(cb.cmd_istr(s), CC_OK);
    cb
}

fn quoting() -> Quoting {
    Quoting { esc: chars("\\"), openquote: '"', closequote: '"', sep: chars("/") }
}

fn edit(cb: &mut CmdBuf, hists: &mut Histories, action: i32) -> i32 {
    let mut paste = PasteState::new();
    cb.cmd_edit(hists, &mut paste, action, false, false, 0, None, &quoting())
}

#[test]
fn new_buffer_is_empty() {
    let cb = CmdBuf::new();
    assert!(cb.cmdbuf_empty());
    assert_eq!(cb.len_cmdbuf(), 0);
    assert_eq!(text(&cb), "");
}

#[test]
fn insert_moves_cursor() {
    let mut cb = typed("ac");
    cb.cmd_left();
    assert_eq!(cb.cmd_ichar('b'), CC_OK);
    assert_eq!(text(&cb), "abc");
    cb.cmd_home();
    cb.cmd_ichar('>');
    assert_eq!(text(&cb), ">abc");
    cb.cmd_end();
    cb.cmd_ichar('<');
    assert_eq!(text(&cb), ">abc<");
}

#[test]
fn left_and_right_stop_at_ends() {
    let mut cb = typed("x");
    assert_eq!(cb.cmd_right(), CC_OK);
    cb.cmd_ichar('1');
    cb.cmd_home();
    assert_eq!(cb.cmd_left(), CC_OK);
    cb.cmd_ichar('0');
    assert_eq!(text(&cb), "0x1");
}

#[test]
fn erase_and_delete() {
    let mut cb = typed("abcd");
    assert_eq!(cb.cmd_erase(), CC_OK);
    assert_eq!(text(&cb), "abc");
    cb.cmd_home();
    assert_eq!(cb.cmd_delete(), CC_OK);
    assert_eq!(text(&cb), "bc");
    assert_eq!(cb.cmd_erase(), CC_QUIT);
    assert_eq!(text(&cb), "bc");
    cb.cmd_end();
    assert_eq!(cb.cmd_delete(), CC_OK);
    assert_eq!(text(&cb), "bc");
}

#[test]
fn erase_whole_line_quits_when_asked() {
    let mut cb = typed("a");
    let mut hists = Histories::new();
    cb.set_mlist(&mut hists, None, CF_QUIT_ON_ERASE);
    assert_eq!(cb.cmd_erase(), CC_QUIT);
    assert_eq!(text(&cb), "");
}

#[test]
fn word_erase_and_delete() {
    let mut cb = typed("one two  ");
    assert_eq!(cb.cmd_werase(), CC_OK);
    assert_eq!(text(&cb), "one two");
    cb.cmd_werase();
    assert_eq!(text(&cb), "one ");
    let mut cb2 = typed("one two three");
    cb2.cmd_home();
    assert_eq!(cb2.cmd_wdelete(), CC_OK);
    assert_eq!(text(&cb2), " two three");
    cb2.cmd_wdelete();
    assert_eq!(text(&cb2), "two three");
}

#[test]
fn kill_line() {
    let mut cb = typed("hello");
    assert_eq!(cb.cmd_kill(), CC_OK);
    assert_eq!(text(&cb), "");
    assert_eq!(cb.cmd_kill(), CC_QUIT);
}

#[test]
fn word_moves() {
    let mut cb = typed("ab cd ef");
    cb.cmd_home();
    cb.cmd_word_right();
    cb.cmd_ichar('|');
    assert_eq!(text(&cb), "ab |cd ef");
    cb.cmd_end();
    cb.cmd_word_left();
    cb.cmd_ichar('^');
    assert_eq!(text(&cb), "ab |cd ^ef");
}

#[test]
fn buffer_size_limit() {
    let mut cb = CmdBuf::new();
    let long: String = std::iter::repeat('x').take(CMDBUF_SIZE + 10).collect();
    assert_eq!(cb.cmd_istr(&long), CC_ERROR);
    assert_eq!(cb.len_cmdbuf(), CMDBUF_SIZE - 2);
    assert!(cb.take_bell());
    assert!(!cb.take_bell());
}

#[test]
fn utf8_lengths() {
    assert_eq!(char_utf8_len('a'), 1);
    assert_eq!(char_utf8_len('é'), 2);
    assert_eq!(char_utf8_len('€'), 3);
    assert_eq!(char_utf8_len('😀'), 4);
}

#[test]
fn multibyte_chars_count_bytes() {
    let mut cb = CmdBuf::new();
    let long: String = std::iter::repeat('€').take(1000).collect();
    assert_eq!(cb.cmd_istr(&long), CC_ERROR);
    // 682 three-byte characters take 2046 bytes: one more would not fit.
    assert_eq!(cb.len_cmdbuf(), 682);
}

#[test]
fn number_at_start() {
    let cb = typed("42");
    assert_eq!(cb.cmd_int(), Some((42, 0)));
    let cb2 = typed("7.25");
    assert_eq!(cb2.cmd_int(), Some((7, 250000)));
    let cb3 = typed("99999999999999999999");
    assert_eq!(cb3.cmd_int(), None);
    let cb4 = typed("x");
    assert_eq!(cb4.cmd_int(), Some((0, 0)));
}

#[test]
fn set_string_upper_case() {
    let mut cb = CmdBuf::new();
    assert_eq!(cb.cmd_setstring("quit", true), CC_OK);
    assert_eq!(text(&cb), "QUIT");
    assert_eq!(cb.cmd_setstring("-x", false), CC_OK);
    assert_eq!(text(&cb), "QUIT-x");
}

#[test]
fn utf8_decoding() {
    let mut cb = CmdBuf::new();
    assert_eq!(cb.cmd_uchar(b'a', true), (CC_PASS, Some('a')));
    assert_eq!(cb.cmd_uchar(0xC3, true), (CC_OK, None));
    assert_eq!(cb.get_cmdbuf(), None);
    assert_eq!(cb.cmd_uchar(0xA9, true), (CC_PASS, Some('é')));
    assert_eq!(cb.cmd_uchar(0xE2, true), (CC_OK, None));
    assert_eq!(cb.cmd_uchar(0x82, true), (CC_OK, None));
    assert_eq!(cb.cmd_uchar(0xAC, true), (CC_PASS, Some('€')));
}

#[test]
fn utf8_invalid_bytes() {
    let mut cb = CmdBuf::new();
    let (r, c) = cb.cmd_uchar(0x80, true);
    assert_eq!(r, CC_ERROR);
    assert_eq!(c, None);
    assert!(cb.take_bell());
    // Without UTF-8 every byte is a character.
    assert_eq!(cb.cmd_uchar(0xE9, false), (CC_PASS, Some('\u{e9}')));
}

#[test]
fn utf8_sequence_cut_short() {
    let mut cb = CmdBuf::new();
    assert_eq!(cb.cmd_uchar(0xC3, true), (CC_OK, None));
    // The unfinished sequence is dropped with a bell; the byte stands on its own.
    assert_eq!(cb.cmd_uchar(b'a', true), (CC_PASS, Some('a')));
    assert!(cb.take_bell());
}

#[test]
fn edit_flags_by_history() {
    let mut cb = CmdBuf::new();
    let mut hists = Histories::new();
    assert_eq!(cb.edit_flags(), ECF_NOHISTORY | ECF_NOCOMPLETE);
    cb.set_mlist(&mut hists, None, CF_OPTION);
    assert_eq!(cb.edit_flags(), ECF_NOHISTORY);
    cb.set_mlist(&mut hists, Some(HistKind::Search), 0);
    assert_eq!(cb.edit_flags(), ECF_NOCOMPLETE);
    cb.set_mlist(&mut hists, Some(HistKind::Examine), 0);
    assert_eq!(cb.edit_flags(), 0);
}

#[test]
fn edit_actions_on_line() {
    let mut hists = Histories::new();
    let mut cb = typed("ab cd");
    assert_eq!(edit(&mut cb, &mut hists, EC_LEFT), CC_OK);
    assert_eq!(edit(&mut cb, &mut hists, EC_BACKSPACE), CC_OK);
    assert_eq!(text(&cb), "ab d");
    assert_eq!(edit(&mut cb, &mut hists, EC_HOME), CC_OK);
    assert_eq!(edit(&mut cb, &mut hists, EC_DELETE), CC_OK);
    assert_eq!(text(&cb), "b d");
    assert_eq!(edit(&mut cb, &mut hists, EC_W_RIGHT), CC_OK);
    assert_eq!(edit(&mut cb, &mut hists, EC_W_DELETE), CC_OK);
    assert_eq!(text(&cb), "b ");
    assert_eq!(edit(&mut cb, &mut hists, EC_W_LEFT), CC_OK);
    assert_eq!(edit(&mut cb, &mut hists, EC_RIGHT), CC_OK);
    assert_eq!(edit(&mut cb, &mut hists, EC_END), CC_OK);
    assert_eq!(edit(&mut cb, &mut hists, EC_W_BACKSPACE), CC_OK);
    assert_eq!(text(&cb), "b");
    assert_eq!(edit(&mut cb, &mut hists, EC_LINEKILL), CC_OK);
    assert_eq!(text(&cb), "");
    assert_eq!(edit(&mut cb, &mut hists, EC_LINEKILL), CC_QUIT);
}

#[test]
fn edit_abort_and_unknown_actions() {
    let mut hists = Histories::new();
    let mut cb = typed("abc");
    assert_eq!(edit(&mut cb, &mut hists, 999), CC_PASS);
    assert_eq!(text(&cb), "abc");
    assert_eq!(edit(&mut cb, &mut hists, A_NOACTION), CC_OK);
    assert_eq!(edit(&mut cb, &mut hists, EC_ABORT), CC_QUIT);
    assert_eq!(text(&cb), "");
}

#[test]
fn literal_next_character() {
    let mut hists = Histories::new();
    let mut paste = PasteState::new();
    let q = quoting();
    let mut cb = CmdBuf::new();
    assert_eq!(edit(&mut cb, &mut hists, EC_LITERAL), CC_OK);
    // The next character is inserted though it stands for an editing key.
    let r = cb.cmd_char(&mut hists, &mut paste, '\u{8}', true, EC_BACKSPACE, false, 0, None, &q);
    assert_eq!(r, CC_OK);
    assert_eq!(text(&cb), "\u{8}");
    let r = cb.cmd_char(&mut hists, &mut paste, '\u{8}', true, EC_BACKSPACE, false, 0, None, &q);
    assert_eq!(r, CC_OK);
    assert_eq!(text(&cb), "");
    let r = cb.cmd_char(&mut hists, &mut paste, 'z', true, A_INVALID, false, 0, None, &q);
    assert_eq!(r, CC_OK);
    assert_eq!(text(&cb), "z");
}

#[test]
fn history_add_and_move() {
    let mut hists = Histories::new();
    cmd_addhist(&mut hists.search, &chars("foo"), false, false);
    cmd_addhist(&mut hists.search, &chars("bar"), false, false);
    cmd_addhist(&mut hists.search, &chars("fob"), false, false);
    cmd_addhist(&mut hists.search, &chars("fob"), false, false);
    assert_eq!(hists.search.mlist_size(), 3);
    let mut cb = CmdBuf::new();
    cb.set_mlist(&mut hists, Some(HistKind::Search), 0);
    cb.cmd_istr("fo");
    assert_eq!(cb.cmd_updown(&mut hists, EC_UP), CC_OK);
    assert_eq!(text(&cb), "fob");
    assert_eq!(cb.cmd_updown(&mut hists, EC_UP), CC_OK);
    assert_eq!(text(&cb), "foo");
    assert_eq!(cb.cmd_updown(&mut hists, EC_UP), CC_OK);
    assert!(cb.take_bell());
    assert_eq!(text(&cb), "foo");
    assert_eq!(cb.cmd_updown(&mut hists, EC_DOWN), CC_OK);
    assert_eq!(text(&cb), "fob");
}

#[test]
fn history_without_duplicates() {
    let mut ml = MList::new();
    cmd_addhist(&mut ml, &chars("a"), false, true);
    cmd_addhist(&mut ml, &chars("b"), false, true);
    cmd_addhist(&mut ml, &chars("a"), false, true);
    let texts: Vec<String> = ml.entries.iter().map(|e: &HistEntry| e.text.iter().collect()).collect();
    assert_eq!(texts, vec!["b".to_string(), "a".to_string()]);
    assert_eq!(ml.curr, 2);
    cmd_addhist(&mut ml, &chars(""), false, true);
    assert_eq!(ml.entries.len(), 2);
}

#[test]
fn history_accept_and_last_pattern() {
    let mut hists = Histories::new();
    let mut cb = CmdBuf::new();
    cb.set_mlist(&mut hists, Some(HistKind::Search), 0);
    assert_eq!(cb.cmd_lastpattern(&hists), None);
    cb.cmd_istr("pat");
    cb.cmd_accept(&mut hists, false);
    assert!(hists.search.modified);
    assert_eq!(hists.search.entries.len(), 1);
    assert_eq!(cb.cmd_lastpattern(&hists), Some("pat".to_string()));
    let mut ex = CmdBuf::new();
    ex.set_mlist(&mut hists, Some(HistKind::Examine), 0);
    ex.cmd_istr("file");
    ex.cmd_accept(&mut hists, false);
    assert_eq!(hists.examine.entries.len(), 0);
}

#[test]
fn history_moves_through_edit() {
    let mut hists = Histories::new();
    cmd_addhist(&mut hists.shell, &chars("ls"), false, false);
    let mut cb = CmdBuf::new();
    cb.set_mlist(&mut hists, Some(HistKind::Shell), 0);
    assert_eq!(edit(&mut cb, &mut hists, EC_UP), CC_OK);
    assert_eq!(text(&cb), "ls");
    let mut none = CmdBuf::new();
    assert_eq!(none.cmd_updown(&mut hists, EC_UP), CC_OK);
    assert!(none.take_bell());
}

#[test]
fn updown_match_saved_and_restored() {
    let mut cb = typed("x");
    assert_eq!(cb.save_updown_match(), -1);
    cb.restore_updown_match(1);
    assert_eq!(cb.save_updown_match(), 1);
    cb.restore_updown_match(-1);
    assert_eq!(cb.save_updown_match(), -1);
}

#[test]
fn delimit_word_finds_start() {
    let esc = chars("\\");
    let mut cb = typed("vi foo");
    assert_eq!(cb.delimit_word(&esc, '"', '"'), Some(3));
    let mut quoted = typed("vi \"a b");
    assert_eq!(quoted.delimit_word(&esc, '"', '"'), Some(3));
    let mut escaped = typed("vi a\\ b");
    assert_eq!(escaped.delimit_word(&esc, '"', '"'), Some(3));
    let mut empty = CmdBuf::new();
    assert_eq!(empty.delimit_word(&esc, '"', '"'), None);
}

#[test]
fn split_textlist_words() {
    let esc = chars("\\");
    let words = split_textlist(&chars("a.c \"b c.h\" d\\ e"), &esc, '"', '"');
    let strs: Vec<String> = words.iter().map(|w| w.iter().collect()).collect();
    assert_eq!(strs, vec!["a.c".to_string(), "\"b c.h\"".to_string(), "d\\ e".to_string()]);
}

#[test]
fn completion_steps_through_words() {
    let q = quoting();
    let mut hists = Histories::new();
    let mut cb = typed("vi fo");
    cb.set_mlist(&mut hists, Some(HistKind::Examine), 0);
    assert!(cb.completion_starts(EC_F_COMPLETE));
    let w = cb.completion_word(&q.esc, q.openquote, q.closequote).unwrap();
    assert_eq!(w, chars("fo"));
    let list = CompletionList { text: chars("foo.c foo.h"), text_is_dir: false, word_is_dir: vec![false, false] };
    assert_eq!(cb.cmd_complete(EC_F_COMPLETE, Some(list), &q.esc, '"', '"', &q.sep), CC_OK);
    assert_eq!(text(&cb), "vi foo.c");
    assert!(!cb.completion_starts(EC_F_COMPLETE));
    cb.cmd_complete(EC_F_COMPLETE, None, &q.esc, '"', '"', &q.sep);
    assert_eq!(text(&cb), "vi foo.h");
    cb.cmd_complete(EC_B_COMPLETE, None, &q.esc, '"', '"', &q.sep);
    assert_eq!(text(&cb), "vi foo.c");
    cb.cmd_complete(EC_B_COMPLETE, None, &q.esc, '"', '"', &q.sep);
    assert_eq!(text(&cb), "vi fo");
    assert!(cb.completion_starts(EC_F_COMPLETE));
}

#[test]
fn completion_expand_directory() {
    let q = quoting();
    let mut hists = Histories::new();
    let mut cb = typed("cd sr");
    cb.set_mlist(&mut hists, Some(HistKind::Examine), 0);
    cb.completion_word(&q.esc, q.openquote, q.closequote).unwrap();
    let list = CompletionList { text: chars("src"), text_is_dir: true, word_is_dir: vec![true] };
    assert_eq!(cb.cmd_complete(EC_EXPAND, Some(list), &q.esc, '"', '"', &q.sep), CC_OK);
    assert_eq!(text(&cb), "cd src/");
}

#[test]
fn completion_without_expansion_rings_bell() {
    let q = quoting();
    let mut cb = typed("x");
    cb.cmd_complete(EC_F_COMPLETE, None, &q.esc, '"', '"', &q.sep);
    assert!(cb.take_bell());
    assert_eq!(text(&cb), "x");
}

#[test]
fn completion_of_option_name_uses_whole_line() {
    let q = quoting();
    let mut hists = Histories::new();
    let mut cb = typed("quit");
    cb.set_mlist(&mut hists, None, CF_OPTION);
    let w = cb.completion_word(&q.esc, q.openquote, q.closequote).unwrap();
    assert_eq!(w, chars("quit"));
}
