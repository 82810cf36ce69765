use vstd::prelude::*;

verus! {

/// Byte offset in a file.
pub type POSITION = i64;

/// Line number in a file.
pub type LINENUM = i64;

/// A wide character.
pub type LWCHAR = i32;

pub const NULL_POSITION: i64 = -1;

pub const EOI: i32 = -1;

pub const OPT_OFF: i32 = 0;

pub const OPT_ON: i32 = 1;

pub const OPT_ONPLUS: i32 = 2;

pub const S_INTERRUPT: i32 = 1 << 0;

pub const S_SWINTERRUPT: i32 = 1 << 1;

pub const S_STOP: i32 = 1 << 2;

pub const S_WINCH: i32 = 1 << 3;

/* filestate flags */
pub const CH_CANSEEK: i32 = 0o1;

pub const CH_KEEPOPEN: i32 = 0o2;

pub const CH_POPENED: i32 = 0o4;

pub const CH_HELPFILE: i32 = 0o10;

pub const CH_NODATA: i32 = 0o20;

pub const CH_NOTRUSTSIZE: i32 = 0o40;

pub const NUM_LOG_FRAC_DENOM: i32 = 6;

/// Denominator of a fraction read by `getfraction`.
pub const NUM_FRAC_DENOM: i64 = 1000000;


/* Security features. */
pub const SF_EDIT: i32 = 1 << 1;

pub const SF_EXAMINE: i32 = 1 << 2;

pub const SF_GLOB: i32 = 1 << 3;

pub const SF_HISTORY: i32 = 1 << 4;

pub const SF_LESSKEY: i32 = 1 << 5;

pub const SF_LESSOPEN: i32 = 1 << 6;

pub const SF_LOGFILE: i32 = 1 << 7;

pub const SF_PIPE: i32 = 1 << 8;

pub const SF_SHELL: i32 = 1 << 9;

pub const SF_STOP: i32 = 1 << 10;

pub const SF_TAGS: i32 = 1 << 11;

pub const SF_OSC8_OPEN: i32 = 1 << 12;

/* Screen positions. */
pub const TOP: i32 = 0;

pub const TOP_PLUS_ONE: i32 = 1;

pub const BOTTOM: i32 = -1;

pub const BOTTOM_PLUS_ONE: i32 = -2;

pub const MIDDLE: i32 = -3;

pub const BOTTOM_OFFSET: i32 = -4;

/* How should we search? */
pub const SRCH_FORW: i32 = 1 << 0;

pub const SRCH_BACK: i32 = 1 << 1;

pub const SRCH_NO_MOVE: i32 = 1 << 2;

pub const SRCH_INCR: i32 = 1 << 3;

pub const SRCH_FIND_ALL: i32 = 1 << 4;

pub const SRCH_NO_MATCH: i32 = 1 << 8;

pub const SRCH_PAST_EOF: i32 = 1 << 9;

pub const SRCH_FIRST_FILE: i32 = 1 << 10;

pub const SRCH_NO_REGEX: i32 = 1 << 12;

pub const SRCH_FILTER: i32 = 1 << 13;

pub const SRCH_AFTER_TARGET: i32 = 1 << 14;

pub const SRCH_WRAP: i32 = 1 << 15;

/* Kind of activity for an option handler. */
pub const INIT: i32 = 0;

pub const QUERY: i32 = 1;

pub const TOGGLE: i32 = 2;

pub const MIN_LINENUM_WIDTH: i32 = 7;

pub const MAX_LINENUM_WIDTH: i32 = 16;

pub const MAX_STATUSCOL_WIDTH: i32 = 4;

pub const MAX_UTF_CHAR_LEN: i32 = 6;

pub const MAX_PRCHAR_LEN: i32 = 31;

/* Character attributes. */
pub const AT_NORMAL: i32 = 0;

pub const AT_UNDERLINE: i32 = 1 << 0;

pub const AT_BOLD: i32 = 1 << 1;

pub const AT_BLINK: i32 = 1 << 2;

pub const AT_STANDOUT: i32 = 1 << 3;

pub const AT_ANSI: i32 = 1 << 4;

pub const AT_BINARY: i32 = 1 << 5;

pub const AT_HILITE: i32 = 1 << 6;

pub const AT_COLOR_SHIFT: i32 = 8;

pub const AT_NUM_COLORS: i32 = 16;

pub const AT_COLOR: i32 = 15 << 8;

pub const AT_COLOR_ATTN: i32 = 1 << 8;

pub const AT_COLOR_BIN: i32 = 2 << 8;

pub const AT_COLOR_CTRL: i32 = 3 << 8;

pub const AT_COLOR_ERROR: i32 = 4 << 8;

pub const AT_COLOR_LINENUM: i32 = 5 << 8;

pub const AT_COLOR_MARK: i32 = 6 << 8;

pub const AT_COLOR_PROMPT: i32 = 7 << 8;

pub const AT_COLOR_RSCROLL: i32 = 8 << 8;

pub const AT_COLOR_HEADER: i32 = 9 << 8;

pub const AT_COLOR_SEARCH: i32 = 10 << 8;

pub const NUM_SEARCH_COLORS: i32 = 5;

pub const FOLLOW_DESC: i32 = 0;

pub const FOLLOW_NAME: i32 = 1;

pub const TABSTOP_MAX: i32 = 128;

/* How should we prompt? */
pub const PR_SHORT: usize = 0;

pub const PR_MEDIUM: usize = 1;

pub const PR_LONG: usize = 2;

pub const QUIT_SAVED_STATUS: i32 = -1;

/* Paste action codes. */
pub const A_START_PASTE: i32 = 75;

pub const A_END_PASTE: i32 = 76;

/* Line-editing action codes. */
pub const EC_BACKSPACE: i32 = 1;

pub const EC_LINEKILL: i32 = 2;

pub const EC_RIGHT: i32 = 3;

pub const EC_LEFT: i32 = 4;

pub const EC_W_LEFT: i32 = 5;

pub const EC_W_RIGHT: i32 = 6;

pub const EC_INSERT: i32 = 7;

pub const EC_DELETE: i32 = 8;

pub const EC_HOME: i32 = 9;

pub const EC_END: i32 = 10;

pub const EC_W_BACKSPACE: i32 = 11;

pub const EC_W_DELETE: i32 = 12;

pub const EC_UP: i32 = 13;

pub const EC_DOWN: i32 = 14;

pub const EC_EXPAND: i32 = 15;

pub const EC_F_COMPLETE: i32 = 17;

pub const EC_B_COMPLETE: i32 = 18;

pub const EC_LITERAL: i32 = 19;

pub const EC_ABORT: i32 = 20;

pub const EC_X11MOUSE: i32 = 21;

pub const EC_X116MOUSE: i32 = 22;

pub const EC_START_PASTE: i32 = 75;

pub const EC_END_PASTE: i32 = 76;

/* Command flags for a command line. */
pub const CF_QUIT_ON_ERASE: i32 = 1 << 0;

pub const CF_OPTION: i32 = 1 << 1;

pub const A_INVALID: i32 = 100;

pub const A_NOACTION: i32 = 101;

pub const A_UINVALID: i32 = 102;

pub const A_END_LIST: i32 = 103;

pub const A_SPECIAL_KEY: i32 = 104;

pub const A_PREFIX: i32 = 105;

pub const A_SKIP: i32 = 127;

pub const A_EXTRA: i32 = 0o200;

pub const NO_MCA: i32 = 0;

pub const MCA_DONE: i32 = 1;

pub const MCA_MORE: i32 = 2;

/* Results of handling one character of a command line. */
pub const CC_OK: i32 = 0;

pub const CC_QUIT: i32 = 1;

pub const CC_ERROR: i32 = 2;

pub const CC_PASS: i32 = 3;

/* Flags for editchar(). */
pub const ECF_PEEK: i32 = 0o1;

pub const ECF_NOHISTORY: i32 = 0o2;

pub const ECF_NOCOMPLETE: i32 = 0o4;

pub const ECF_NORIGHTLEFT: i32 = 0o10;

/// All the sub-pattern search flags together.
pub const SRCH_SUBSEARCH_ALL: i32 = (1 << 18) | (1 << 19) | (1 << 20) | (1 << 21) | (1 << 22);

/* How toggle_option should "toggle". */
pub const OPT_NO_TOGGLE: i32 = 0;

pub const OPT_TOGGLE: i32 = 1;

pub const OPT_UNSET: i32 = 2;

pub const OPT_SET: i32 = 3;

pub const OPT_NO_PROMPT: i32 = 0o100;

/// Attribute of the color of the search sub-pattern `i`.
#[allow(non_snake_case)]
pub fn AT_COLOR_SUBSEARCH(i: i32) -> (r: i32)
    requires
        i <= i32::MAX - 10,
    ensures
        r == ((10 + i) as i32) << 8u32,
        0 <= 10 + i < 0x80_0000 ==> r == (10 + i) * 256,
{
    let v: i32 = 10 + i;
    let r: i32 = v << 8u32;
    assert(0 <= v < 0x80_0000 ==> r == v * 256) by (bit_vector)
        requires
            r == v << 8u32,
    ;
    r
}

/// Search flag for the sub-pattern `i`.
#[allow(non_snake_case)]
pub fn SRCH_SUBSEARCH(i: i32) -> (r: i32)
    requires
        0 <= 17 + i < 32,
    ensures
        r == 1i32 << ((17 + i) as u32),
{
    let n: u32 = (17 + i) as u32;
    1i32 << n
}

/// Does the pending-signal mask `sigs` hold an interrupt or a stop?
pub fn abort_sigs(sigs: i32) -> (r: bool)
    ensures
        r == ((sigs & (S_INTERRUPT | S_SWINTERRUPT | S_STOP)) != 0),
{
    (sigs & (S_INTERRUPT | S_SWINTERRUPT | S_STOP)) != 0
}

/// Control character for `c`: its low five bits.
#[allow(non_snake_case)]
pub fn CONTROL(c: char) -> (r: char)
    ensures
        r as u32 == (c as u32) % 32,
{
    let x = c as u32;
    let v: u32 = x & 31u32;
    assert(v == x % 32 && v < 32) by (bit_vector)
        requires
            v == x & 31u32,
    ;
    (v as u8) as char
}

} // verus!
