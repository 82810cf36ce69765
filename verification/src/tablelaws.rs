use vstd::prelude::*;

use crate::option::{bool_not, toggle_spec};
use crate::opttbl::{
    ToggleHow, ascii_upper, descs_of, option_descs, option_row, row_of, LOption, OLETTER_NONE, O_BOOL, O_HL_REPAINT,
    O_INIT_HANDLER, O_NO_QUERY, O_NO_TOGGLE, O_NUMBER, O_OTYPE, O_REPAINT, O_STRING, O_TRIPLE,
};

verus! {

/// How many times `%d` occurs in `s` from `k` on.
pub open spec fn pct_d_count(s: Seq<char>, k: int) -> int
    decreases s.len() - k,
{
    if k < 0 || k + 1 >= s.len() {
        0
    } else {
        (if s[k] == '%' && s[k + 1] == 'd' { 1int } else { 0 }) + pct_d_count(s, k + 1)
    }
}

/// The type bits `b` name exactly one type of value: boolean, triple, number or
/// string.
pub open spec fn one_kind(b: u32) -> bool {
    (if b & O_BOOL == O_BOOL { 1int } else { 0 }) + (if b & O_TRIPLE == O_TRIPLE { 1int } else { 0 }) + (if b
        & O_NUMBER == O_NUMBER { 1int } else { 0 }) + (if b & O_STRING == O_STRING { 1int } else { 0 }) == 1
}

/// The row of the table whose letter is `c` (-1: none).
pub open spec fn letter_row(c: char) -> int {
    if c == 'a' {
        0
    } else if c == 'b' {
        1
    } else if c == 'B' {
        2
    } else if c == 'c' {
        3
    } else if c == 'd' {
        4
    } else if c == 'D' {
        5
    } else if c == 'e' {
        6
    } else if c == 'f' {
        7
    } else if c == 'F' {
        8
    } else if c == 'h' {
        9
    } else if c == 'i' {
        10
    } else if c == 'j' {
        11
    } else if c == 'J' {
        12
    } else if c == 'K' {
        13
    } else if c == 'L' {
        14
    } else if c == 'm' {
        15
    } else if c == 'n' {
        16
    } else if c == 'q' {
        17
    } else if c == 'r' {
        18
    } else if c == 's' {
        19
    } else if c == 'S' {
        20
    } else if c == 'u' {
        21
    } else if c == 'x' {
        22
    } else if c == 'X' {
        23
    } else if c == 'y' {
        24
    } else if c == 'z' {
        25
    } else if c == '"' {
        26
    } else if c == '~' {
        27
    } else if c == '#' {
        28
    } else {
        -1
    }
}

/// What row `i` of the table keeps to: one type; a handler where one is asked
/// for at initialization; a string option has a handler and no variable; a
/// number option's description has one place for the number; its letter
/// (if any) is found at this row, and a triple option's letter in upper case
/// is no other option's letter.
pub open spec fn row_rules(i: int) -> bool {
    let r = option_row(i);
    let d = option_descs(i);
    &&& one_kind(r.3)
    &&& r.3 & O_BOOL == O_BOOL ==> r.3 & O_OTYPE == O_BOOL
    &&& r.3 & O_TRIPLE == O_TRIPLE ==> r.3 & O_OTYPE == O_TRIPLE
    &&& r.3 & O_NUMBER == O_NUMBER ==> r.3 & O_OTYPE == O_NUMBER
    &&& r.3 & O_STRING == O_STRING ==> r.3 & O_OTYPE == O_STRING
    &&& r.3 & O_INIT_HANDLER == O_INIT_HANDLER ==> r.6 is Some
    &&& r.3 & O_STRING == O_STRING ==> !r.5 && r.6 is Some
    &&& r.3 & O_NUMBER == O_NUMBER ==> pct_d_count(d.1, 0) == 1
    &&& r.0 != OLETTER_NONE ==> letter_row(r.0) == i
    &&& r.0 != OLETTER_NONE && r.3 & O_TRIPLE == O_TRIPLE ==> (letter_row(ascii_upper(r.0)) == -1 || letter_row(
        ascii_upper(r.0),
    ) == i)
}

/// The rules hold of the first `n` rows.
pub open spec fn rows_rules(n: nat) -> bool
    decreases n,
{
    n == 0 || (rows_rules((n - 1) as nat) && row_rules(n - 1))
}

proof fn lemma_rows_rules(n: nat)
    requires
        rows_rules(n),
    ensures
        forall|i: int| 0 <= i < n ==> #[trigger] row_rules(i),
    decreases n,
{
    if n > 0 {
        lemma_rows_rules((n - 1) as nat);
    }
}

/// The bits of the option types that the table uses.
proof fn lemma_table_type_bits()
    by (bit_vector)
    ensures
        (O_BOOL) & O_OTYPE == O_BOOL,
        (O_BOOL | O_NO_TOGGLE) & O_OTYPE == O_BOOL,
        (O_BOOL | O_REPAINT) & O_OTYPE == O_BOOL,
        (O_NUMBER) & O_OTYPE == O_NUMBER,
        (O_NUMBER | O_INIT_HANDLER) & O_OTYPE == O_NUMBER,
        (O_NUMBER | O_REPAINT) & O_OTYPE == O_NUMBER,
        (O_STRING) & O_OTYPE == O_STRING,
        (O_STRING | O_INIT_HANDLER) & O_OTYPE == O_STRING,
        (O_STRING | O_REPAINT) & O_OTYPE == O_STRING,
        (O_STRING | O_REPAINT | O_INIT_HANDLER) & O_OTYPE == O_STRING,
        (O_STRING | O_REPAINT | O_NO_QUERY) & O_OTYPE == O_STRING,
        (O_TRIPLE) & O_OTYPE == O_TRIPLE,
        (O_TRIPLE | O_HL_REPAINT) & O_OTYPE == O_TRIPLE,
        (O_TRIPLE | O_REPAINT) & O_OTYPE == O_TRIPLE,
        (O_TRIPLE | O_REPAINT | O_HL_REPAINT) & O_OTYPE == O_TRIPLE,
        (O_BOOL) & O_BOOL == O_BOOL,
        (O_BOOL) & O_TRIPLE == 0u32,
        (O_BOOL) & O_NUMBER == 0u32,
        (O_BOOL) & O_STRING == 0u32,
        (O_BOOL) & O_INIT_HANDLER == 0u32,
        (O_BOOL | O_NO_TOGGLE) & O_BOOL == O_BOOL,
        (O_BOOL | O_NO_TOGGLE) & O_TRIPLE == 0u32,
        (O_BOOL | O_NO_TOGGLE) & O_NUMBER == 0u32,
        (O_BOOL | O_NO_TOGGLE) & O_STRING == 0u32,
        (O_BOOL | O_NO_TOGGLE) & O_INIT_HANDLER == 0u32,
        (O_BOOL | O_REPAINT) & O_BOOL == O_BOOL,
        (O_BOOL | O_REPAINT) & O_TRIPLE == 0u32,
        (O_BOOL | O_REPAINT) & O_NUMBER == 0u32,
        (O_BOOL | O_REPAINT) & O_STRING == 0u32,
        (O_BOOL | O_REPAINT) & O_INIT_HANDLER == 0u32,
        (O_NUMBER) & O_BOOL == 0u32,
        (O_NUMBER) & O_TRIPLE == 0u32,
        (O_NUMBER) & O_NUMBER == O_NUMBER,
        (O_NUMBER) & O_STRING == 0u32,
        (O_NUMBER) & O_INIT_HANDLER == 0u32,
        (O_NUMBER | O_INIT_HANDLER) & O_BOOL == 0u32,
        (O_NUMBER | O_INIT_HANDLER) & O_TRIPLE == 0u32,
        (O_NUMBER | O_INIT_HANDLER) & O_NUMBER == O_NUMBER,
        (O_NUMBER | O_INIT_HANDLER) & O_STRING == 0u32,
        (O_NUMBER | O_INIT_HANDLER) & O_INIT_HANDLER == O_INIT_HANDLER,
        (O_NUMBER | O_REPAINT) & O_BOOL == 0u32,
        (O_NUMBER | O_REPAINT) & O_TRIPLE == 0u32,
        (O_NUMBER | O_REPAINT) & O_NUMBER == O_NUMBER,
        (O_NUMBER | O_REPAINT) & O_STRING == 0u32,
        (O_NUMBER | O_REPAINT) & O_INIT_HANDLER == 0u32,
        (O_STRING) & O_BOOL == 0u32,
        (O_STRING) & O_TRIPLE == 0u32,
        (O_STRING) & O_NUMBER == 0u32,
        (O_STRING) & O_STRING == O_STRING,
        (O_STRING) & O_INIT_HANDLER == 0u32,
        (O_STRING | O_INIT_HANDLER) & O_BOOL == 0u32,
        (O_STRING | O_INIT_HANDLER) & O_TRIPLE == 0u32,
        (O_STRING | O_INIT_HANDLER) & O_NUMBER == 0u32,
        (O_STRING | O_INIT_HANDLER) & O_STRING == O_STRING,
        (O_STRING | O_INIT_HANDLER) & O_INIT_HANDLER == O_INIT_HANDLER,
        (O_STRING | O_REPAINT) & O_BOOL == 0u32,
        (O_STRING | O_REPAINT) & O_TRIPLE == 0u32,
        (O_STRING | O_REPAINT) & O_NUMBER == 0u32,
        (O_STRING | O_REPAINT) & O_STRING == O_STRING,
        (O_STRING | O_REPAINT) & O_INIT_HANDLER == 0u32,
        (O_STRING | O_REPAINT | O_INIT_HANDLER) & O_BOOL == 0u32,
        (O_STRING | O_REPAINT | O_INIT_HANDLER) & O_TRIPLE == 0u32,
        (O_STRING | O_REPAINT | O_INIT_HANDLER) & O_NUMBER == 0u32,
        (O_STRING | O_REPAINT | O_INIT_HANDLER) & O_STRING == O_STRING,
        (O_STRING | O_REPAINT | O_INIT_HANDLER) & O_INIT_HANDLER == O_INIT_HANDLER,
        (O_STRING | O_REPAINT | O_NO_QUERY) & O_BOOL == 0u32,
        (O_STRING | O_REPAINT | O_NO_QUERY) & O_TRIPLE == 0u32,
        (O_STRING | O_REPAINT | O_NO_QUERY) & O_NUMBER == 0u32,
        (O_STRING | O_REPAINT | O_NO_QUERY) & O_STRING == O_STRING,
        (O_STRING | O_REPAINT | O_NO_QUERY) & O_INIT_HANDLER == 0u32,
        (O_TRIPLE) & O_BOOL == 0u32,
        (O_TRIPLE) & O_TRIPLE == O_TRIPLE,
        (O_TRIPLE) & O_NUMBER == 0u32,
        (O_TRIPLE) & O_STRING == 0u32,
        (O_TRIPLE) & O_INIT_HANDLER == 0u32,
        (O_TRIPLE | O_HL_REPAINT) & O_BOOL == 0u32,
        (O_TRIPLE | O_HL_REPAINT) & O_TRIPLE == O_TRIPLE,
        (O_TRIPLE | O_HL_REPAINT) & O_NUMBER == 0u32,
        (O_TRIPLE | O_HL_REPAINT) & O_STRING == 0u32,
        (O_TRIPLE | O_HL_REPAINT) & O_INIT_HANDLER == 0u32,
        (O_TRIPLE | O_REPAINT) & O_BOOL == 0u32,
        (O_TRIPLE | O_REPAINT) & O_TRIPLE == O_TRIPLE,
        (O_TRIPLE | O_REPAINT) & O_NUMBER == 0u32,
        (O_TRIPLE | O_REPAINT) & O_STRING == 0u32,
        (O_TRIPLE | O_REPAINT) & O_INIT_HANDLER == 0u32,
        (O_TRIPLE | O_REPAINT | O_HL_REPAINT) & O_BOOL == 0u32,
        (O_TRIPLE | O_REPAINT | O_HL_REPAINT) & O_TRIPLE == O_TRIPLE,
        (O_TRIPLE | O_REPAINT | O_HL_REPAINT) & O_NUMBER == 0u32,
        (O_TRIPLE | O_REPAINT | O_HL_REPAINT) & O_STRING == 0u32,
        (O_TRIPLE | O_REPAINT | O_HL_REPAINT) & O_INIT_HANDLER == 0u32,
{
}

/// The descriptions of the number options each have one `%d`.
#[verifier::spinoff_prover]
proof fn lemma_number_descs()
    ensures
        pct_d_count("Max buffer space per file: %dK"@, 0) == 1,
        pct_d_count("Backwards scroll limit is %d lines"@, 0) == 1,
        pct_d_count("Forward scroll limit is %d lines"@, 0) == 1,
        pct_d_count("Scroll window size is %d lines"@, 0) == 1,
        pct_d_count("Scroll %d line(s) on mouse wheel"@, 0) == 1,
        pct_d_count("Line number width is %d chars"@, 0) == 1,
        pct_d_count("Status column width is %d chars"@, 0) == 1,
        pct_d_count("Read %d lines looking for modelines"@, 0) == 1,
{
    assert(pct_d_count("Max buffer space per file: %dK"@, 0) == 1) by {
        reveal_strlit("Max buffer space per file: %dK");
        reveal_with_fuel(pct_d_count, 40);
    }
    assert(pct_d_count("Backwards scroll limit is %d lines"@, 0) == 1) by {
        reveal_strlit("Backwards scroll limit is %d lines");
        reveal_with_fuel(pct_d_count, 40);
    }
    assert(pct_d_count("Forward scroll limit is %d lines"@, 0) == 1) by {
        reveal_strlit("Forward scroll limit is %d lines");
        reveal_with_fuel(pct_d_count, 40);
    }
    assert(pct_d_count("Scroll window size is %d lines"@, 0) == 1) by {
        reveal_strlit("Scroll window size is %d lines");
        reveal_with_fuel(pct_d_count, 40);
    }
    assert(pct_d_count("Scroll %d line(s) on mouse wheel"@, 0) == 1) by {
        reveal_strlit("Scroll %d line(s) on mouse wheel");
        reveal_with_fuel(pct_d_count, 40);
    }
    assert(pct_d_count("Line number width is %d chars"@, 0) == 1) by {
        reveal_strlit("Line number width is %d chars");
        reveal_with_fuel(pct_d_count, 40);
    }
    assert(pct_d_count("Status column width is %d chars"@, 0) == 1) by {
        reveal_strlit("Status column width is %d chars");
        reveal_with_fuel(pct_d_count, 40);
    }
    assert(pct_d_count("Read %d lines looking for modelines"@, 0) == 1) by {
        reveal_strlit("Read %d lines looking for modelines");
        reveal_with_fuel(pct_d_count, 40);
    }
}

#[verifier::spinoff_prover]
#[verifier::rlimit(100)]
proof fn lemma_all_row_rules()
    ensures
        forall|i: int| 0 <= i < 61 ==> #[trigger] row_rules(i),
{
    lemma_number_descs();
    lemma_table_type_bits();
    reveal_with_fuel(rows_rules, 62);
    assert(rows_rules(61));
    lemma_rows_rules(61);
}

/// Every option of the table (as `Options::new` gives it) has one type of
/// value, and no other bit of the type field (so the type it has is the one a
/// `toggle_option` or `scan_option` acts on); an option that asks for its handler at initialization has one; a
/// string option has a handler and no variable; and the description of a
/// number option has one `%d`, where the number goes.
pub proof fn law_option_rows(t: Seq<LOption>)
    requires
        t.len() == 61,
        forall|i: int| 0 <= i < 61 ==> #[trigger] row_of(t[i]) == option_row(i) && descs_of(t[i]) == option_descs(i),
    ensures
        forall|i: int|
            0 <= i < 61 ==> {
                let o = #[trigger] t[i];
                &&& one_kind(o.otype.bits)
        &&& o.otype.has(O_BOOL) ==> o.otype.kind() == O_BOOL
        &&& o.otype.has(O_TRIPLE) ==> o.otype.kind() == O_TRIPLE
        &&& o.otype.has(O_NUMBER) ==> o.otype.kind() == O_NUMBER
        &&& o.otype.has(O_STRING) ==> o.otype.kind() == O_STRING
                &&& o.otype.has(O_BOOL) ==> o.otype.kind() == O_BOOL
                &&& o.otype.has(O_TRIPLE) ==> o.otype.kind() == O_TRIPLE
                &&& o.otype.has(O_NUMBER) ==> o.otype.kind() == O_NUMBER
                &&& o.otype.has(O_STRING) ==> o.otype.kind() == O_STRING
                &&& o.otype.has(O_INIT_HANDLER) ==> o.ofunc is Some
                &&& o.otype.has(O_STRING) ==> o.ovar is None && o.ofunc is Some
                &&& o.otype.has(O_NUMBER) ==> pct_d_count(o.odesc@[1]@, 0) == 1
            },
{
    lemma_all_row_rules();
    assert forall|i: int| 0 <= i < 61 implies {
        let o = #[trigger] t[i];
        &&& one_kind(o.otype.bits)
        &&& o.otype.has(O_BOOL) ==> o.otype.kind() == O_BOOL
        &&& o.otype.has(O_TRIPLE) ==> o.otype.kind() == O_TRIPLE
        &&& o.otype.has(O_NUMBER) ==> o.otype.kind() == O_NUMBER
        &&& o.otype.has(O_STRING) ==> o.otype.kind() == O_STRING
        &&& o.otype.has(O_INIT_HANDLER) ==> o.ofunc is Some
        &&& o.otype.has(O_STRING) ==> o.ovar is None && o.ofunc is Some
        &&& o.otype.has(O_NUMBER) ==> pct_d_count(o.odesc@[1]@, 0) == 1
    } by {
        assert(row_of(t[i]) == option_row(i));
        assert(descs_of(t[i]) == option_descs(i));
        assert(row_rules(i));
    }
}

/// No two options of the table share a letter, and no triple option's letter
/// in upper case is the letter of another option.
pub proof fn law_option_letters(t: Seq<LOption>)
    requires
        t.len() == 61,
        forall|i: int| 0 <= i < 61 ==> #[trigger] row_of(t[i]) == option_row(i),
    ensures
        forall|i: int, j: int|
            0 <= i < 61 && 0 <= j < 61 && i != j && t[i].oletter != OLETTER_NONE ==> #[trigger] t[i].oletter
                != #[trigger] t[j].oletter,
        forall|i: int, j: int|
            0 <= i < 61 && 0 <= j < 61 && i != j && t[i].oletter != OLETTER_NONE && t[i].otype.has(O_TRIPLE)
                ==> ascii_upper(#[trigger] t[i].oletter) != #[trigger] t[j].oletter,
{
    lemma_all_row_rules();
    assert forall|i: int, j: int|
        0 <= i < 61 && 0 <= j < 61 && i != j && t[i].oletter != OLETTER_NONE implies #[trigger] t[i].oletter
            != #[trigger] t[j].oletter by {
        assert(row_of(t[i]) == option_row(i));
        assert(row_of(t[j]) == option_row(j));
        assert(row_rules(i));
        assert(row_rules(j));
    }
    assert forall|i: int, j: int|
        0 <= i < 61 && 0 <= j < 61 && i != j && t[i].oletter != OLETTER_NONE && t[i].otype.has(O_TRIPLE)
            implies ascii_upper(#[trigger] t[i].oletter) != #[trigger] t[j].oletter by {
        assert(row_of(t[i]) == option_row(i));
        assert(row_of(t[j]) == option_row(j));
        assert(row_rules(i));
        assert(row_rules(j));
        if ascii_upper(t[i].oletter) == t[j].oletter && t[j].oletter == OLETTER_NONE {
            assert(ascii_upper(t[i].oletter) == OLETTER_NONE);
        }
    }
}

/// Where the long name `n` is in the table: twice the row, plus one for a
/// second name (-1: nowhere).
pub open spec fn name_row(n: Seq<char>) -> int {
    if n == "search-skip-screen"@ {
        0
    } else if n == "buffers"@ {
        2
    } else if n == "auto-buffers"@ {
        4
    } else if n == "clear-screen"@ {
        6
    } else if n == "dumb"@ {
        8
    } else if n == "color"@ {
        10
    } else if n == "quit-at-eof"@ {
        12
    } else if n == "force"@ {
        14
    } else if n == "quit-if-one-screen"@ {
        16
    } else if n == "max-back-scroll"@ {
        18
    } else if n == "ignore-case"@ {
        20
    } else if n == "jump-target"@ {
        22
    } else if n == "status-column"@ {
        24
    } else if n == "quit-on-intr"@ {
        26
    } else if n == "no-lessopen"@ {
        28
    } else if n == "long-prompt"@ {
        30
    } else if n == "line-numbers"@ {
        32
    } else if n == "quiet"@ {
        34
    } else if n == "silent"@ {
        35
    } else if n == "raw-control-chars"@ {
        36
    } else if n == "squeeze-blank-lines"@ {
        38
    } else if n == "chop-long-lines"@ {
        40
    } else if n == "underline-special"@ {
        42
    } else if n == "tabs"@ {
        44
    } else if n == "no-init"@ {
        46
    } else if n == "max-forw-scroll"@ {
        48
    } else if n == "window"@ {
        50
    } else if n == "quotes"@ {
        52
    } else if n == "tilde"@ {
        54
    } else if n == "shift"@ {
        56
    } else if n == "no-keypad"@ {
        58
    } else if n == "old-bot"@ {
        60
    } else if n == "follow-name"@ {
        62
    } else if n == "use-backslash"@ {
        64
    } else if n == "rscroll"@ {
        66
    } else if n == "no-histdups"@ {
        68
    } else if n == "mouse"@ {
        70
    } else if n == "wheel-lines"@ {
        72
    } else if n == "save-marks"@ {
        74
    } else if n == "line-num-width"@ {
        76
    } else if n == "status-col-width"@ {
        78
    } else if n == "incsearch"@ {
        80
    } else if n == "use-color"@ {
        82
    } else if n == "file-size"@ {
        84
    } else if n == "status-line"@ {
        86
    } else if n == "header"@ {
        88
    } else if n == "no-paste"@ {
        90
    } else if n == "form-feed"@ {
        92
    } else if n == "no-edit-warn"@ {
        94
    } else if n == "no-warn-edit"@ {
        95
    } else if n == "no-number-headers"@ {
        96
    } else if n == "redraw-on-quit"@ {
        98
    } else if n == "search-options"@ {
        100
    } else if n == "exit-follow-on-close"@ {
        102
    } else if n == "no-vbell"@ {
        104
    } else if n == "modelines"@ {
        106
    } else if n == "intr"@ {
        108
    } else if n == "wordwrap"@ {
        110
    } else if n == "show-preproc-errors"@ {
        112
    } else if n == "proc-backspace"@ {
        114
    } else if n == "proc-tab"@ {
        116
    } else if n == "proc-return"@ {
        118
    } else if n == "match-shift"@ {
        120
    } else {
        -1
    }
}

/// Each long name of the table is found at its own row.
#[verifier::spinoff_prover]
#[verifier::rlimit(100)]
proof fn lemma_name_rows()
    ensures
        forall|i: int|
            0 <= i < 61 ==> name_row(#[trigger] option_row(i).1) == 2 * i && (option_row(i).2.len() == 0
                || name_row(option_row(i).2) == 2 * i + 1) && option_row(i).1.len() > 0,
{
    reveal_strlit("");
    reveal_strlit("search-skip-screen");
    reveal_strlit("buffers");
    reveal_strlit("auto-buffers");
    reveal_strlit("clear-screen");
    reveal_strlit("dumb");
    reveal_strlit("color");
    reveal_strlit("quit-at-eof");
    reveal_strlit("force");
    reveal_strlit("quit-if-one-screen");
    reveal_strlit("max-back-scroll");
    reveal_strlit("ignore-case");
    reveal_strlit("jump-target");
    reveal_strlit("status-column");
    reveal_strlit("quit-on-intr");
    reveal_strlit("no-lessopen");
    reveal_strlit("long-prompt");
    reveal_strlit("line-numbers");
    reveal_strlit("quiet");
    reveal_strlit("silent");
    reveal_strlit("raw-control-chars");
    reveal_strlit("squeeze-blank-lines");
    reveal_strlit("chop-long-lines");
    reveal_strlit("underline-special");
    reveal_strlit("tabs");
    reveal_strlit("no-init");
    reveal_strlit("max-forw-scroll");
    reveal_strlit("window");
    reveal_strlit("quotes");
    reveal_strlit("tilde");
    reveal_strlit("shift");
    reveal_strlit("no-keypad");
    reveal_strlit("old-bot");
    reveal_strlit("follow-name");
    reveal_strlit("use-backslash");
    reveal_strlit("rscroll");
    reveal_strlit("no-histdups");
    reveal_strlit("mouse");
    reveal_strlit("wheel-lines");
    reveal_strlit("save-marks");
    reveal_strlit("line-num-width");
    reveal_strlit("status-col-width");
    reveal_strlit("incsearch");
    reveal_strlit("use-color");
    reveal_strlit("file-size");
    reveal_strlit("status-line");
    reveal_strlit("header");
    reveal_strlit("no-paste");
    reveal_strlit("form-feed");
    reveal_strlit("no-edit-warn");
    reveal_strlit("no-warn-edit");
    reveal_strlit("no-number-headers");
    reveal_strlit("redraw-on-quit");
    reveal_strlit("search-options");
    reveal_strlit("exit-follow-on-close");
    reveal_strlit("no-vbell");
    reveal_strlit("modelines");
    reveal_strlit("intr");
    reveal_strlit("wordwrap");
    reveal_strlit("show-preproc-errors");
    reveal_strlit("proc-backspace");
    reveal_strlit("proc-tab");
    reveal_strlit("proc-return");
    reveal_strlit("match-shift");
    assert("search-skip-screen"@.len() == 18);
    assert("buffers"@.len() == 7);
    assert("auto-buffers"@.len() == 12);
    assert("clear-screen"@.len() == 12);
    assert("dumb"@.len() == 4);
    assert("color"@.len() == 5);
    assert("quit-at-eof"@.len() == 11);
    assert("force"@.len() == 5);
    assert("quit-if-one-screen"@.len() == 18);
    assert("max-back-scroll"@.len() == 15);
    assert("ignore-case"@.len() == 11);
    assert("jump-target"@.len() == 11);
    assert("status-column"@.len() == 13);
    assert("quit-on-intr"@.len() == 12);
    assert("no-lessopen"@.len() == 11);
    assert("long-prompt"@.len() == 11);
    assert("line-numbers"@.len() == 12);
    assert("quiet"@.len() == 5);
    assert("silent"@.len() == 6);
    assert("raw-control-chars"@.len() == 17);
    assert("squeeze-blank-lines"@.len() == 19);
    assert("chop-long-lines"@.len() == 15);
    assert("underline-special"@.len() == 17);
    assert("tabs"@.len() == 4);
    assert("no-init"@.len() == 7);
    assert("max-forw-scroll"@.len() == 15);
    assert("window"@.len() == 6);
    assert("quotes"@.len() == 6);
    assert("tilde"@.len() == 5);
    assert("shift"@.len() == 5);
    assert("no-keypad"@.len() == 9);
    assert("old-bot"@.len() == 7);
    assert("follow-name"@.len() == 11);
    assert("use-backslash"@.len() == 13);
    assert("rscroll"@.len() == 7);
    assert("no-histdups"@.len() == 11);
    assert("mouse"@.len() == 5);
    assert("wheel-lines"@.len() == 11);
    assert("save-marks"@.len() == 10);
    assert("line-num-width"@.len() == 14);
    assert("status-col-width"@.len() == 16);
    assert("incsearch"@.len() == 9);
    assert("use-color"@.len() == 9);
    assert("file-size"@.len() == 9);
    assert("status-line"@.len() == 11);
    assert("header"@.len() == 6);
    assert("no-paste"@.len() == 8);
    assert("form-feed"@.len() == 9);
    assert("no-edit-warn"@.len() == 12);
    assert("no-warn-edit"@.len() == 12);
    assert("no-number-headers"@.len() == 17);
    assert("redraw-on-quit"@.len() == 14);
    assert("search-options"@.len() == 14);
    assert("exit-follow-on-close"@.len() == 20);
    assert("no-vbell"@.len() == 8);
    assert("modelines"@.len() == 9);
    assert("intr"@.len() == 4);
    assert("wordwrap"@.len() == 8);
    assert("show-preproc-errors"@.len() == 19);
    assert("proc-backspace"@.len() == 14);
    assert("proc-tab"@.len() == 8);
    assert("proc-return"@.len() == 11);
    assert("match-shift"@.len() == 11);
    assert("search-skip-screen"@[0] != "quit-if-one-screen"@[0]);
    assert("buffers"@[0] != "no-init"@[0]);
    assert("buffers"@[0] != "old-bot"@[0]);
    assert("buffers"@[0] != "rscroll"@[0]);
    assert("auto-buffers"@[0] != "clear-screen"@[0]);
    assert("auto-buffers"@[0] != "quit-on-intr"@[0]);
    assert("auto-buffers"@[0] != "line-numbers"@[0]);
    assert("auto-buffers"@[0] != "no-edit-warn"@[0]);
    assert("auto-buffers"@[0] != "no-warn-edit"@[0]);
    assert("clear-screen"@[0] != "quit-on-intr"@[0]);
    assert("clear-screen"@[0] != "line-numbers"@[0]);
    assert("clear-screen"@[0] != "no-edit-warn"@[0]);
    assert("clear-screen"@[0] != "no-warn-edit"@[0]);
    assert("dumb"@[0] != "tabs"@[0]);
    assert("dumb"@[0] != "intr"@[0]);
    assert("color"@[0] != "force"@[0]);
    assert("color"@[0] != "quiet"@[0]);
    assert("color"@[0] != "tilde"@[0]);
    assert("color"@[0] != "shift"@[0]);
    assert("color"@[0] != "mouse"@[0]);
    assert("quit-at-eof"@[0] != "ignore-case"@[0]);
    assert("quit-at-eof"@[0] != "jump-target"@[0]);
    assert("quit-at-eof"@[0] != "no-lessopen"@[0]);
    assert("quit-at-eof"@[0] != "long-prompt"@[0]);
    assert("quit-at-eof"@[0] != "follow-name"@[0]);
    assert("quit-at-eof"@[0] != "no-histdups"@[0]);
    assert("quit-at-eof"@[0] != "wheel-lines"@[0]);
    assert("quit-at-eof"@[0] != "status-line"@[0]);
    assert("quit-at-eof"@[0] != "proc-return"@[0]);
    assert("quit-at-eof"@[0] != "match-shift"@[0]);
    assert("force"@[0] != "quiet"@[0]);
    assert("force"@[0] != "tilde"@[0]);
    assert("force"@[0] != "shift"@[0]);
    assert("force"@[0] != "mouse"@[0]);
    assert("max-back-scroll"@[0] != "chop-long-lines"@[0]);
    assert("max-back-scroll"@[4] != "max-forw-scroll"@[4]);
    assert("ignore-case"@[0] != "jump-target"@[0]);
    assert("ignore-case"@[0] != "no-lessopen"@[0]);
    assert("ignore-case"@[0] != "long-prompt"@[0]);
    assert("ignore-case"@[0] != "follow-name"@[0]);
    assert("ignore-case"@[0] != "no-histdups"@[0]);
    assert("ignore-case"@[0] != "wheel-lines"@[0]);
    assert("ignore-case"@[0] != "status-line"@[0]);
    assert("ignore-case"@[0] != "proc-return"@[0]);
    assert("ignore-case"@[0] != "match-shift"@[0]);
    assert("jump-target"@[0] != "no-lessopen"@[0]);
    assert("jump-target"@[0] != "long-prompt"@[0]);
    assert("jump-target"@[0] != "follow-name"@[0]);
    assert("jump-target"@[0] != "no-histdups"@[0]);
    assert("jump-target"@[0] != "wheel-lines"@[0]);
    assert("jump-target"@[0] != "status-line"@[0]);
    assert("jump-target"@[0] != "proc-return"@[0]);
    assert("jump-target"@[0] != "match-shift"@[0]);
    assert("status-column"@[0] != "use-backslash"@[0]);
    assert("quit-on-intr"@[0] != "line-numbers"@[0]);
    assert("quit-on-intr"@[0] != "no-edit-warn"@[0]);
    assert("quit-on-intr"@[0] != "no-warn-edit"@[0]);
    assert("no-lessopen"@[0] != "long-prompt"@[0]);
    assert("no-lessopen"@[0] != "follow-name"@[0]);
    assert("no-lessopen"@[3] != "no-histdups"@[3]);
    assert("no-lessopen"@[0] != "wheel-lines"@[0]);
    assert("no-lessopen"@[0] != "status-line"@[0]);
    assert("no-lessopen"@[0] != "proc-return"@[0]);
    assert("no-lessopen"@[0] != "match-shift"@[0]);
    assert("long-prompt"@[0] != "follow-name"@[0]);
    assert("long-prompt"@[0] != "no-histdups"@[0]);
    assert("long-prompt"@[0] != "wheel-lines"@[0]);
    assert("long-prompt"@[0] != "status-line"@[0]);
    assert("long-prompt"@[0] != "proc-return"@[0]);
    assert("long-prompt"@[0] != "match-shift"@[0]);
    assert("line-numbers"@[0] != "no-edit-warn"@[0]);
    assert("line-numbers"@[0] != "no-warn-edit"@[0]);
    assert("quiet"@[0] != "tilde"@[0]);
    assert("quiet"@[0] != "shift"@[0]);
    assert("quiet"@[0] != "mouse"@[0]);
    assert("silent"@[0] != "window"@[0]);
    assert("silent"@[0] != "quotes"@[0]);
    assert("silent"@[0] != "header"@[0]);
    assert("raw-control-chars"@[0] != "underline-special"@[0]);
    assert("raw-control-chars"@[0] != "no-number-headers"@[0]);
    assert("squeeze-blank-lines"@[1] != "show-preproc-errors"@[1]);
    assert("chop-long-lines"@[0] != "max-forw-scroll"@[0]);
    assert("underline-special"@[0] != "no-number-headers"@[0]);
    assert("tabs"@[0] != "intr"@[0]);
    assert("no-init"@[0] != "old-bot"@[0]);
    assert("no-init"@[0] != "rscroll"@[0]);
    assert("window"@[0] != "quotes"@[0]);
    assert("window"@[0] != "header"@[0]);
    assert("quotes"@[0] != "header"@[0]);
    assert("tilde"@[0] != "shift"@[0]);
    assert("tilde"@[0] != "mouse"@[0]);
    assert("shift"@[0] != "mouse"@[0]);
    assert("no-keypad"@[0] != "incsearch"@[0]);
    assert("no-keypad"@[0] != "use-color"@[0]);
    assert("no-keypad"@[0] != "file-size"@[0]);
    assert("no-keypad"@[0] != "form-feed"@[0]);
    assert("no-keypad"@[0] != "modelines"@[0]);
    assert("old-bot"@[0] != "rscroll"@[0]);
    assert("follow-name"@[0] != "no-histdups"@[0]);
    assert("follow-name"@[0] != "wheel-lines"@[0]);
    assert("follow-name"@[0] != "status-line"@[0]);
    assert("follow-name"@[0] != "proc-return"@[0]);
    assert("follow-name"@[0] != "match-shift"@[0]);
    assert("no-histdups"@[0] != "wheel-lines"@[0]);
    assert("no-histdups"@[0] != "status-line"@[0]);
    assert("no-histdups"@[0] != "proc-return"@[0]);
    assert("no-histdups"@[0] != "match-shift"@[0]);
    assert("wheel-lines"@[0] != "status-line"@[0]);
    assert("wheel-lines"@[0] != "proc-return"@[0]);
    assert("wheel-lines"@[0] != "match-shift"@[0]);
    assert("line-num-width"@[0] != "redraw-on-quit"@[0]);
    assert("line-num-width"@[0] != "search-options"@[0]);
    assert("line-num-width"@[0] != "proc-backspace"@[0]);
    assert("incsearch"@[0] != "use-color"@[0]);
    assert("incsearch"@[0] != "file-size"@[0]);
    assert("incsearch"@[0] != "form-feed"@[0]);
    assert("incsearch"@[0] != "modelines"@[0]);
    assert("use-color"@[0] != "file-size"@[0]);
    assert("use-color"@[0] != "form-feed"@[0]);
    assert("use-color"@[0] != "modelines"@[0]);
    assert("file-size"@[1] != "form-feed"@[1]);
    assert("file-size"@[0] != "modelines"@[0]);
    assert("status-line"@[0] != "proc-return"@[0]);
    assert("status-line"@[0] != "match-shift"@[0]);
    assert("no-paste"@[3] != "no-vbell"@[3]);
    assert("no-paste"@[0] != "wordwrap"@[0]);
    assert("no-paste"@[0] != "proc-tab"@[0]);
    assert("form-feed"@[0] != "modelines"@[0]);
    assert("no-edit-warn"@[3] != "no-warn-edit"@[3]);
    assert("redraw-on-quit"@[0] != "search-options"@[0]);
    assert("redraw-on-quit"@[0] != "proc-backspace"@[0]);
    assert("search-options"@[0] != "proc-backspace"@[0]);
    assert("no-vbell"@[0] != "wordwrap"@[0]);
    assert("no-vbell"@[0] != "proc-tab"@[0]);
    assert("wordwrap"@[0] != "proc-tab"@[0]);
    assert("proc-return"@[0] != "match-shift"@[0]);
    assert(name_row("search-skip-screen"@) == 0);
    assert(name_row("buffers"@) == 2);
    assert(name_row("auto-buffers"@) == 4);
    assert(name_row("clear-screen"@) == 6);
    assert(name_row("dumb"@) == 8);
    assert(name_row("color"@) == 10);
    assert(name_row("quit-at-eof"@) == 12);
    assert(name_row("force"@) == 14);
    assert(name_row("quit-if-one-screen"@) == 16);
    assert(name_row("max-back-scroll"@) == 18);
    assert(name_row("ignore-case"@) == 20);
    assert(name_row("jump-target"@) == 22);
    assert(name_row("status-column"@) == 24);
    assert(name_row("quit-on-intr"@) == 26);
    assert(name_row("no-lessopen"@) == 28);
    assert(name_row("long-prompt"@) == 30);
    assert(name_row("line-numbers"@) == 32);
    assert(name_row("quiet"@) == 34);
    assert(name_row("silent"@) == 35);
    assert(name_row("raw-control-chars"@) == 36);
    assert(name_row("squeeze-blank-lines"@) == 38);
    assert(name_row("chop-long-lines"@) == 40);
    assert(name_row("underline-special"@) == 42);
    assert(name_row("tabs"@) == 44);
    assert(name_row("no-init"@) == 46);
    assert(name_row("max-forw-scroll"@) == 48);
    assert(name_row("window"@) == 50);
    assert(name_row("quotes"@) == 52);
    assert(name_row("tilde"@) == 54);
    assert(name_row("shift"@) == 56);
    assert(name_row("no-keypad"@) == 58);
    assert(name_row("old-bot"@) == 60);
    assert(name_row("follow-name"@) == 62);
    assert(name_row("use-backslash"@) == 64);
    assert(name_row("rscroll"@) == 66);
    assert(name_row("no-histdups"@) == 68);
    assert(name_row("mouse"@) == 70);
    assert(name_row("wheel-lines"@) == 72);
    assert(name_row("save-marks"@) == 74);
    assert(name_row("line-num-width"@) == 76);
    assert(name_row("status-col-width"@) == 78);
    assert(name_row("incsearch"@) == 80);
    assert(name_row("use-color"@) == 82);
    assert(name_row("file-size"@) == 84);
    assert(name_row("status-line"@) == 86);
    assert(name_row("header"@) == 88);
    assert(name_row("no-paste"@) == 90);
    assert(name_row("form-feed"@) == 92);
    assert(name_row("no-edit-warn"@) == 94);
    assert(name_row("no-warn-edit"@) == 95);
    assert(name_row("no-number-headers"@) == 96);
    assert(name_row("redraw-on-quit"@) == 98);
    assert(name_row("search-options"@) == 100);
    assert(name_row("exit-follow-on-close"@) == 102);
    assert(name_row("no-vbell"@) == 104);
    assert(name_row("modelines"@) == 106);
    assert(name_row("intr"@) == 108);
    assert(name_row("wordwrap"@) == 110);
    assert(name_row("show-preproc-errors"@) == 112);
    assert(name_row("proc-backspace"@) == 114);
    assert(name_row("proc-tab"@) == 116);
    assert(name_row("proc-return"@) == 118);
    assert(name_row("match-shift"@) == 120);
    assert forall|i: int|
        0 <= i < 61 implies name_row(#[trigger] option_row(i).1) == 2 * i && (option_row(i).2.len() == 0
            || name_row(option_row(i).2) == 2 * i + 1) && option_row(i).1.len() > 0 by {
        assert(0 <= i < 61);
    }
}

/// No two long names of the table are the same (the second name of an option
/// included).
pub proof fn law_option_names(t: Seq<LOption>)
    requires
        t.len() == 61,
        forall|i: int| 0 <= i < 61 ==> #[trigger] row_of(t[i]) == option_row(i),
    ensures
        forall|i: int, a: int, j: int, b: int|
            0 <= i < 61 && 0 <= j < 61 && 0 <= a < 2 && 0 <= b < 2 && (i != j || a != b) && (#[trigger] t[i].onames@[a])@.len() > 0
                ==> t[i].onames@[a]@ != (#[trigger] t[j].onames@[b])@,
{
    lemma_name_rows();
    assert forall|i: int, a: int, j: int, b: int|
        0 <= i < 61 && 0 <= j < 61 && 0 <= a < 2 && 0 <= b < 2 && (i != j || a != b) && (#[trigger] t[i].onames@[a])@.len() > 0
            implies t[i].onames@[a]@ != (#[trigger] t[j].onames@[b])@ by {
        assert(row_of(t[i]) == option_row(i));
        assert(row_of(t[j]) == option_row(j));
        let x = option_row(i);
        let y = option_row(j);
        assert(name_row(x.1) == 2 * i);
        assert(name_row(y.1) == 2 * j);
    }
}


/// In the table, an option whose type has the boolean bit is toggled as a
/// boolean: toggling it turns 0 into 1 and 1 into 0, so toggling twice gives
/// the table back.
pub proof fn law_toggle_table_bool(t: Seq<LOption>, i: usize, lower: bool, s: Seq<char>, no_prompt: bool)
    requires
        t.len() == 61,
        forall|k: int| 0 <= k < 61 ==> #[trigger] row_of(t[k]) == option_row(k) && descs_of(t[k]) == option_descs(k),
        (i as int) < 61,
        t[i as int].otype.has(O_BOOL),
        !t[i as int].otype.any(O_NO_TOGGLE),
        t[i as int].ovar matches Some(v) && (v == 0 || v == 1),
    ensures
        toggle_spec(t, Some(i), lower, s, ToggleHow::Toggle, no_prompt).0[i as int].ovar == Some(
            (1 - t[i as int].ovar.unwrap()) as i32,
        ),
        toggle_spec(
            toggle_spec(t, Some(i), lower, s, ToggleHow::Toggle, no_prompt).0,
            Some(i),
            lower,
            s,
            ToggleHow::Toggle,
            no_prompt,
        ).0 == t,
{
    law_option_rows(t);
    assert(t[i as int].otype.kind() == O_BOOL);
    crate::laws::law_toggle_bool_twice(t, i, lower, s, no_prompt);
    let v = t[i as int].ovar.unwrap();
    assert(O_BOOL & crate::opttbl::O_OTYPE == O_BOOL) by (bit_vector);
    assert(toggle_spec(t, Some(i), lower, s, ToggleHow::Toggle, no_prompt).0 == t.update(
        i as int,
        LOption { ovar: Some(bool_not(v)), ..t[i as int] },
    ));
}

} // verus!
