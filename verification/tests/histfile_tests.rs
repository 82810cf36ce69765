use less::cmdbuf::{cmd_addhist, HistKind, Histories};
use less::histfile::{
    hist_skips, histfile_choice, histfile_modified, histsize, init_cmdhist, make_tempname, read_cmdhist2,
    save_cmdhist, HistEvent, HistFileChoice,
};

fn lines(v: &[&str]) -> Vec<String> {
    v.iter().map(|s| s.to_string()).collect()
}

fn sample_file() -> Vec<String> {
    lines(&[
        ".less-history-file:",
        ".search",
        "\"foo",
        "\"bar",
        ".shell",
        "\"ls -l",
        ".mark",
        "m a 1 10 /tmp/file",
    ])
}

fn texts(h: &less::cmdbuf::MList) -> Vec<String> {
    h.entries.iter().map(|e| e.text.iter().collect()).collect()
}

#[test]
fn read_history_file() {
    let ev = read_cmdhist2(&sample_file(), 0, 0);
    let got: Vec<(Option<HistKind>, String)> = ev.iter().map(|e| (e.kind, e.text.clone())).collect();
    assert_eq!(
        got,
        vec![
            (Some(HistKind::Search), "foo".to_string()),
            (Some(HistKind::Search), "bar".to_string()),
            (Some(HistKind::Shell), "ls -l".to_string()),
            (None, "m a 1 10 /tmp/file".to_string()),
        ]
    );
}

#[test]
fn read_history_skips_oldest() {
    let ev = read_cmdhist2(&sample_file(), 1, 1);
    let got: Vec<String> = ev.iter().map(|e| e.text.clone()).collect();
    assert_eq!(got, vec!["bar".to_string(), "m a 1 10 /tmp/file".to_string()]);
}

#[test]
fn read_history_needs_header() {
    let ev = read_cmdhist2(&lines(&["not a history", ".search", "\"x"]), 0, 0);
    assert!(ev.is_empty());
    let ev2 = read_cmdhist2(&lines(&[".less-history-file:\r", ".search", "\"x"]), 0, 0);
    assert_eq!(ev2.len(), 1);
    assert!(read_cmdhist2(&Vec::new(), 0, 0).is_empty());
}

#[test]
fn init_histories_from_file() {
    let ev = read_cmdhist2(&sample_file(), 0, 0);
    let mut h = Histories::new();
    let marks = init_cmdhist(&mut h, &ev, false);
    assert_eq!(texts(&h.search), vec!["foo".to_string(), "bar".to_string()]);
    assert_eq!(texts(&h.shell), vec!["ls -l".to_string()]);
    assert!(h.examine.entries.is_empty());
    assert!(h.search.entries.iter().all(|e| !e.modified));
    assert_eq!(marks, vec!["m a 1 10 /tmp/file".to_string()]);
}

#[test]
fn save_new_entries_after_old_ones() {
    let old = vec![HistEvent { kind: Some(HistKind::Search), text: "a".to_string() },
        HistEvent { kind: Some(HistKind::Shell), text: "ls".to_string() }];
    let mut h = Histories::new();
    let _ = init_cmdhist(&mut h, &old, false);
    cmd_addhist(&mut h.search, &vec!['b'], true, false);
    h.search.modified = true;
    assert!(histfile_modified(&h, false));
    let out = save_cmdhist(&old, &mut h);
    assert_eq!(out, lines(&[".less-history-file:", ".search", "\"a", "\"b", ".shell", "\"ls"]));
    assert!(!h.search.modified);
    assert!(h.search.entries.iter().all(|e| !e.modified));
    assert!(!histfile_modified(&h, false));
    assert!(histfile_modified(&h, true));
}

#[test]
fn save_section_missing_from_file() {
    let old = vec![HistEvent { kind: Some(HistKind::Search), text: "a".to_string() }];
    let mut h = Histories::new();
    cmd_addhist(&mut h.shell, &vec!['p', 'w', 'd'], true, false);
    h.shell.modified = true;
    let out = save_cmdhist(&old, &mut h);
    assert_eq!(out, lines(&[".less-history-file:", ".search", "\"a", ".shell", "\"pwd"]));
}

#[test]
fn save_then_read_back() {
    let mut h = Histories::new();
    cmd_addhist(&mut h.search, &vec!['x', 'y'], true, false);
    h.search.modified = true;
    let out = save_cmdhist(&Vec::new(), &mut h);
    let ev = read_cmdhist2(&out, 0, 0);
    assert_eq!(ev.len(), 1);
    assert_eq!(ev[0].kind, Some(HistKind::Search));
    assert_eq!(ev[0].text, "xy");
}

#[test]
fn history_size_from_environment() {
    assert_eq!(histsize(None), 100);
    assert_eq!(histsize(Some("250")), 250);
    assert_eq!(histsize(Some("+7")), 7);
    assert_eq!(histsize(Some("0")), 100);
    assert_eq!(histsize(Some("-5")), 100);
    assert_eq!(histsize(Some("12x")), 100);
    assert_eq!(histsize(Some("")), 100);
    assert_eq!(histsize(Some("99999999999")), 100);
}

#[test]
fn skips_keep_history_size() {
    let mut h = Histories::new();
    for i in 0..5u8 {
        cmd_addhist(&mut h.search, &vec![(b'a' + i) as char], true, false);
    }
    assert_eq!(hist_skips(&h, 3), (2, -3));
}

#[test]
fn temporary_file_names() {
    assert_eq!(make_tempname("/home/u/.lesshst"), "/home/u/.lesshsQ");
    assert_eq!(make_tempname("fileQ"), "fileZ");
}

#[test]
fn history_file_choice() {
    assert!(matches!(histfile_choice(None), HistFileChoice::Usual));
    assert!(matches!(histfile_choice(Some("-")), HistFileChoice::Disabled));
    assert!(matches!(histfile_choice(Some("/dev/null")), HistFileChoice::Disabled));
    assert!(matches!(histfile_choice(Some("/tmp/h")), HistFileChoice::Named(n) if n == "/tmp/h"));
}

#[test]
fn history_file_places() {
    let c = less::histfile::histfile_find(Some("/home/u"), Some("/state"), None);
    let got: Vec<(String, Option<String>)> = c.into_iter().map(|h| (h.path, h.dir)).collect();
    assert_eq!(
        got,
        vec![
            ("/state/lesshst".to_string(), None),
            ("/home/u/.local/state/lesshst".to_string(), Some("/home/u/.local/state".to_string())),
            ("/home/u/.lesshst".to_string(), None),
        ]
    );
    let none = less::histfile::histfile_find(None, Some(""), Some("/data"));
    assert_eq!(none.len(), 1);
    assert_eq!(none[0].path, "/data/lesshst");
}
