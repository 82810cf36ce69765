use less::defs::NULL_POSITION;
use less::prompt::{
    eq_message, init_prompt, page_num, percentage, pr_expand, pr_string, wait_message, PromptEnv, PromptPlace,
};

fn chars(s: &str) -> Vec<char> {
    s.chars().collect()
}

fn place(byte: i64, line: i64) -> PromptPlace {
    PromptPlace { byte, line, line_shown: line }
}

fn env() -> PromptEnv {
    PromptEnv {
        top: place(0, 1),
        middle: place(500, 12),
        bottom: place(900, 24),
        bottom_plus_one: place(1000, 25),
        jump: place(0, 1),
        hshift: 0,
        eof_displayed: false,
        file_named: true,
        file_name: chars("foo.txt"),
        file_last: chars("foo.txt"),
        file_quoted: chars("foo.txt"),
        linenums: true,
        file_len: 4000,
        last_linenum: 100,
        last_byte_linenum: 100,
        last_line_shown: 100,
        ntags: 0,
        curr_tag: 0,
        nifile: 2,
        ifile_index: 1,
        new_file: true,
        next_file: Some(chars("bar.txt")),
        editor: chars("vi"),
        osc8_path: None,
        sc_height: 25,
        header_lines: 0,
    }
}

#[test]
fn page_numbers_and_percentages() {
    assert_eq!(page_num(1, 25, 0), 1);
    assert_eq!(page_num(100, 25, 0), 5);
    assert_eq!(percentage(1000, 4000), 25);
    assert_eq!(percentage(3999, 4000), 99);
    assert_eq!(percentage(0, 7), 0);
}

#[test]
fn short_prompt_new_file() {
    let p = init_prompt(false);
    assert_eq!(pr_string(&p, &env(), 0, false, false), "foo.txt (file 1 of 2)");
}

#[test]
fn short_prompt_at_end() {
    let p = init_prompt(false);
    let mut e = env();
    e.new_file = false;
    e.eof_displayed = true;
    assert_eq!(pr_string(&p, &e, 0, false, false), "(END) - Next: bar.txt");
    e.next_file = None;
    assert_eq!(pr_string(&p, &e, 0, false, false), "(END)");
}

#[test]
fn medium_prompt_percent() {
    let p = init_prompt(false);
    let mut e = env();
    e.new_file = false;
    assert_eq!(pr_string(&p, &e, 1, false, false), "25%");
    e.file_len = NULL_POSITION;
    assert_eq!(pr_string(&p, &e, 1, false, false), "byte 1000");
}

#[test]
fn more_mode_prompts() {
    let p = init_prompt(true);
    let mut e = env();
    e.new_file = false;
    assert_eq!(pr_string(&p, &e, 0, true, false), "--More--(25%)");
}

#[test]
fn help_prompt() {
    let p = init_prompt(false);
    let e = env();
    assert_eq!(pr_string(&p, &e, 0, false, true), "HELP -- Press RETURN for more, or q when done");
}

#[test]
fn equals_and_wait_messages() {
    let p = init_prompt(false);
    let e = env();
    assert_eq!(eq_message(&p, &e), "foo.txt (file 1 of 2) lines 1-24/100 byte 1000/4000 25%");
    assert_eq!(wait_message(&p, &e), "Waiting for data");
}

#[test]
fn prompt_escapes() {
    let e = env();
    assert_eq!(pr_expand(&e, "%lt-%lb"), "1-24");
    assert_eq!(pr_expand(&e, "%dt/%D"), "1/5");
    assert_eq!(pr_expand(&e, "%bm %pm %Pb"), "500 12 24");
    assert_eq!(pr_expand(&e, "?c<%c>:flat."), "flat");
    assert_eq!(pr_expand(&e, "a\\?b\\%"), "a?b%");
    assert_eq!(pr_expand(&e, "%E %F %g %i %m %T %s %B"), "vi foo.txt foo.txt 1 2 file 4000 4000");
    assert_eq!(pr_expand(&e, "%o"), "?");
    assert_eq!(pr_expand(&e, "[%z]"), "[]");
    assert_eq!(pr_expand(&e, "x   %t"), "x");
    assert_eq!(pr_expand(&e, "?a:empty.?a non-empty."), "empty non-empty");
}

#[test]
fn prompt_unknown_values() {
    let mut e = env();
    e.file_len = NULL_POSITION;
    e.top = place(NULL_POSITION, 0);
    assert_eq!(pr_expand(&e, "%bt %lt %pt %L %s"), "? ? ? ? ?");
    e.ntags = 3;
    e.curr_tag = 2;
    assert_eq!(pr_expand(&e, "%T %i of %m ?x%x:no next."), "tag 2 of 3 no next");
}

#[test]
fn next_file_shown_in_a_tag_list() {
    let mut e = env();
    e.ntags = 3;
    assert_eq!(pr_expand(&e, "%x"), "bar.txt");
    e.next_file = None;
    assert_eq!(pr_expand(&e, "%x"), "?");
}

#[test]
fn pages_on_short_screens() {
    let mut e = env();
    // Pages of one line: the header fills all but two lines.
    e.sc_height = 5;
    e.header_lines = 3;
    assert_eq!(pr_expand(&e, "%D"), "100");
    // A header taller than the screen gives pages of a negative size.
    e.header_lines = 10;
    assert_eq!(pr_expand(&e, "%D"), "-15");
    // No room for pages at all: not known.
    e.header_lines = 4;
    assert_eq!(pr_expand(&e, "%D"), "?");
    assert_eq!(page_num(10, 5, 10), 0);
    assert_eq!(page_num(-5, 25, 0), 1);
    assert_eq!(page_num(-50, 25, 0), -1);
}
