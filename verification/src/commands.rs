use vstd::prelude::*;
use vstd::string::StrSliceExecFns;

use crate::cmdbuf::HistKind;
use crate::command::{mca_opt_toggle, mca_search1, opt_toggle_prompt_spec, search_mca_spec, search_prompt_spec, Mca};
use crate::defs::{
    CF_QUIT_ON_ERASE, OPT_ONPLUS, OPT_TOGGLE, S_INTERRUPT, S_STOP, S_SWINTERRUPT, SF_EDIT, SF_EXAMINE, SF_OSC8_OPEN, SF_PIPE, SF_SHELL, SRCH_BACK, SRCH_FILTER,
    SRCH_FORW, SRCH_PAST_EOF,
};
use crate::optfunc::get_swindow;

verus! {

/// A command, as decoded from the keys typed.
#[derive(Clone, Copy, Debug, PartialEq, Eq, Structural)]
pub enum Action {
    Digit,
    FWindow,
    FScreen,
    BWindow,
    BScreen,
    FLine,
    FNewline,
    BLine,
    BNewline,
    FMouse,
    BMouse,
    FFLine,
    BFLine,
    FFScreen,
    BFScreen,
    FForever,
    FUntilHilite,
    FScroll,
    BScroll,
    FRepaint,
    Repaint,
    GoLine,
    Percent,
    GoEnd,
    GoEndBuf,
    GoPos,
    Stat,
    Version,
    Quit,
    FSearch,
    BSearch,
    Osc8FSearch,
    Osc8BSearch,
    Osc8Open,
    Osc8Jump,
    Filter,
    AgainSearch,
    TAgainSearch,
    ReverseSearch,
    TReverseSearch,
    UndoSearch,
    ClrSearch,
    Help,
    Examine,
    Visual,
    NextFile,
    PrevFile,
    NextTag,
    PrevTag,
    IndexFile,
    RemoveFile,
    OptToggle,
    DispOption,
    FirstCmd,
    Shell,
    PShell,
    SetMark,
    SetMarkBot,
    ClrMark,
    GoMark,
    Pipe,
    FBracket,
    BBracket,
    LShift,
    RShift,
    LLShift,
    RRShift,
    Prefix,
    StartPaste,
    NoAction,
    Invalid,
}

/// What the command loop keeps from one command to the next: the number typed
/// before the command (and its fraction), the search types, the scroll and
/// window sizes, the horizontal shift, the option command being entered, and
/// the multi-character command being entered.
#[derive(Clone, Copy, Debug, PartialEq, Eq, Structural)]
pub struct CommandState {
    pub number: i64,
    pub fraction: i64,
    pub search_type: i32,
    pub last_search_type: i32,
    pub literal_char: bool,
    /// Lines scrolled by `d` and `u`.
    pub wscroll: i32,
    /// The window size (`-z`).
    pub swindow: i32,
    /// Columns shifted by the arrow keys (`-#`).
    pub shift_count: i32,
    pub hshift: i32,
    /// The shift before the help file was shown.
    pub save_hshift: i32,
    pub optflag: i32,
    pub optgetname: bool,
    pub mca: Mca,
}

/// What the command loop knows of the screen, the file and the options.
#[derive(Clone, Copy, Debug)]
pub struct CommandEnv {
    pub sc_width: i32,
    pub sc_height: i32,
    pub header_lines: i32,
    /// Highlight the first new line after a forward move (`-w`, `-W`): 0 never,
    /// 1 after a page, 2 also after a move of more than one line.
    pub show_attn: i32,
    pub chopline: bool,
    pub wheel_lines: i32,
    pub def_search_type: i32,
    /// Is the help file being viewed?
    pub helpfile: bool,
    /// The number of tags (0: not in a tag list).
    pub ntags: i32,
    pub no_paste: bool,
    /// The features that secure mode allows (`SF_` bits).
    pub allowed: i32,
    /// Was the file opened through `LESSOPEN`?
    pub via_lessopen: bool,
    /// Is the file standard input?
    pub is_stdin: bool,
    pub no_edit_warn: bool,
}

/// The marks commands.
#[derive(Clone, Copy, Debug, PartialEq, Eq, Structural)]
pub enum MarkCmd {
    SetTop,
    SetBottom,
    Clear,
    Go,
    Pipe,
}

/// What the command loop is to do for a command.
#[derive(Debug)]
pub enum Step {
    /// Nothing: go on with the next command.
    Nothing,
    Bell,
    /// Ignore input (a paste begins).
    StartIgnoringInput,
    /// Show the prompt of the multi-character command that begins and read its
    /// characters (see `mca_char`); the command line uses `history` and `flags`.
    /// With `first_key`, the key that began the command is its first character.
    StartMca { mca: Mca, prompt: String, history: Option<HistKind>, flags: i32, first_key: bool },
    /// Read the next key as part of the same command.
    NextKey,
    /// An option command begins: show the prompt and read the option. For a
    /// change (not a query), the option may not be changeable
    /// (`opt_toggle_disallowed`).
    StartOption { prompt: String, change: bool },
    /// Move forward `n` lines; `force`: past the end of the file; `only_last`:
    /// show only the last screen; `nblank`: count folded lines once; `attn`:
    /// mark the place where the move began.
    Forward { n: i64, force: bool, only_last: bool, nblank: bool, attn: bool },
    Backward { n: i64, force: bool, only_last: bool, nblank: bool },
    /// Follow the end of the file (`F`), until a match is highlighted if asked.
    ForwLoop { until_hilite: bool, warn: bool, attn: bool },
    Repaint { flush: bool },
    /// Go to line `line`; `no_jump_sline`: to the top of the screen.
    JumpBack { line: i64, no_jump_sline: bool },
    JumpPercent { percent: i32, fraction: i64 },
    JumpForw,
    JumpForwBuffered,
    JumpLineLoc { pos: i64 },
    /// Show the message of `=`.
    Stat,
    Version,
    Quit,
    /// Leave the help file (back to the file before it; if there is none, quit).
    LeaveHelp,
    /// Search with the search type (see `multi_search_start`); afterwards the
    /// last search type becomes `restore_last`, if given.
    Search { search_type: i32, n: i64, restore_last: Option<i32> },
    Osc8Search { search_type: i32, n: i64 },
    Osc8Open,
    Osc8Jump,
    UndoSearch { clear: bool },
    Help,
    /// Edit the file (with a warning first if it came through `LESSOPEN`).
    Visual { warn: bool },
    NextFile { n: i64 },
    PrevFile { n: i64 },
    NextTag { n: i64 },
    PrevTag { n: i64 },
    IndexFile { n: i64 },
    RemoveFile,
    /// Show the prompt and read the mark letter.
    Mark { cmd: MarkCmd, prompt: String },
    /// Throw away the next ungotten character, if any (a mark command given in
    /// advance, while in the help file).
    SkipChar,
    /// The horizontal shift changed: repaint from the top line.
    Rehead,
    /// Shift right to show the end of the longest line.
    RRShift,
    Error(String),
}

/// `Step` with its texts as sequences of characters.
pub enum StepV {
    Nothing,
    Bell,
    StartIgnoringInput,
    StartMca { mca: Mca, prompt: Seq<char>, history: Option<HistKind>, flags: i32, first_key: bool },
    NextKey,
    StartOption { prompt: Seq<char>, change: bool },
    Forward { n: int, force: bool, only_last: bool, nblank: bool, attn: bool },
    Backward { n: int, force: bool, only_last: bool, nblank: bool },
    ForwLoop { until_hilite: bool, warn: bool, attn: bool },
    Repaint { flush: bool },
    JumpBack { line: int, no_jump_sline: bool },
    JumpPercent { percent: int, fraction: int },
    JumpForw,
    JumpForwBuffered,
    JumpLineLoc { pos: int },
    Stat,
    Version,
    Quit,
    LeaveHelp,
    Search { search_type: i32, n: int, restore_last: Option<i32> },
    Osc8Search { search_type: i32, n: int },
    Osc8Open,
    Osc8Jump,
    UndoSearch { clear: bool },
    Help,
    Visual { warn: bool },
    NextFile { n: int },
    PrevFile { n: int },
    NextTag { n: int },
    PrevTag { n: int },
    IndexFile { n: int },
    RemoveFile,
    Mark { cmd: MarkCmd, prompt: Seq<char> },
    SkipChar,
    Rehead,
    RRShift,
    Error(Seq<char>),
}

impl View for Step {
    type V = StepV;

    open spec fn view(&self) -> StepV {
        match self {
            Step::Nothing => StepV::Nothing,
            Step::Bell => StepV::Bell,
            Step::StartIgnoringInput => StepV::StartIgnoringInput,
            Step::StartMca { mca, prompt, history, flags, first_key } => StepV::StartMca {
                mca: *mca,
                prompt: prompt@,
                history: *history,
                flags: *flags,
                first_key: *first_key,
            },
            Step::NextKey => StepV::NextKey,
            Step::StartOption { prompt, change } => StepV::StartOption { prompt: prompt@, change: *change },
            Step::Forward { n, force, only_last, nblank, attn } => StepV::Forward {
                n: *n as int,
                force: *force,
                only_last: *only_last,
                nblank: *nblank,
                attn: *attn,
            },
            Step::Backward { n, force, only_last, nblank } => StepV::Backward {
                n: *n as int,
                force: *force,
                only_last: *only_last,
                nblank: *nblank,
            },
            Step::ForwLoop { until_hilite, warn, attn } => StepV::ForwLoop {
                until_hilite: *until_hilite,
                warn: *warn,
                attn: *attn,
            },
            Step::Repaint { flush } => StepV::Repaint { flush: *flush },
            Step::JumpBack { line, no_jump_sline } => StepV::JumpBack {
                line: *line as int,
                no_jump_sline: *no_jump_sline,
            },
            Step::JumpPercent { percent, fraction } => StepV::JumpPercent {
                percent: *percent as int,
                fraction: *fraction as int,
            },
            Step::JumpForw => StepV::JumpForw,
            Step::JumpForwBuffered => StepV::JumpForwBuffered,
            Step::JumpLineLoc { pos } => StepV::JumpLineLoc { pos: *pos as int },
            Step::Stat => StepV::Stat,
            Step::Version => StepV::Version,
            Step::Quit => StepV::Quit,
            Step::LeaveHelp => StepV::LeaveHelp,
            Step::Search { search_type, n, restore_last } => StepV::Search {
                search_type: *search_type,
                n: *n as int,
                restore_last: *restore_last,
            },
            Step::Osc8Search { search_type, n } => StepV::Osc8Search { search_type: *search_type, n: *n as int },
            Step::Osc8Open => StepV::Osc8Open,
            Step::Osc8Jump => StepV::Osc8Jump,
            Step::UndoSearch { clear } => StepV::UndoSearch { clear: *clear },
            Step::Help => StepV::Help,
            Step::Visual { warn } => StepV::Visual { warn: *warn },
            Step::NextFile { n } => StepV::NextFile { n: *n as int },
            Step::PrevFile { n } => StepV::PrevFile { n: *n as int },
            Step::NextTag { n } => StepV::NextTag { n: *n as int },
            Step::PrevTag { n } => StepV::PrevTag { n: *n as int },
            Step::IndexFile { n } => StepV::IndexFile { n: *n as int },
            Step::RemoveFile => StepV::RemoveFile,
            Step::Mark { cmd, prompt } => StepV::Mark { cmd: *cmd, prompt: prompt@ },
            Step::SkipChar => StepV::SkipChar,
            Step::Rehead => StepV::Rehead,
            Step::RRShift => StepV::RRShift,
            Step::Error(m) => StepV::Error(m@),
        }
    }
}


/// The count of a command that moves by lines: the number typed, or 1.
pub open spec fn one_or(n: i64) -> i64 {
    if n <= 0 {
        1
    } else {
        n
    }
}

/// The count of a command that moves by screens: the number typed, or the
/// window size (see `get_swindow`).
pub open spec fn screen_count(n: i64, swindow: i32, e: CommandEnv) -> i64 {
    if n <= 0 {
        (if swindow > 0 {
            swindow as int
        } else {
            e.sc_height - e.header_lines + swindow
        }) as i64
    } else {
        n
    }
}

/// The search type going the other way.
pub open spec fn reverse_dir(st: i32) -> i32 {
    if st & SRCH_FORW != 0 {
        (st & !SRCH_FORW) | SRCH_BACK
    } else {
        (st & !SRCH_BACK) | SRCH_FORW
    }
}

/// Does secure mode allow the feature `f`?
pub open spec fn allows(e: CommandEnv, f: i32) -> bool {
    e.allowed & f != 0
}

/// The columns that a horizontal shift moves: the number typed (which becomes
/// the shift count), else the shift count, else half the screen width.
pub open spec fn shift_amount(s: CommandState, e: CommandEnv) -> i64 {
    if s.number > 0 {
        s.number
    } else if s.shift_count > 0 {
        s.shift_count as i64
    } else {
        half(e.sc_width) as i64
    }
}

/// Half of `w`, rounded toward zero.
pub open spec fn half(w: i32) -> int {
    if w >= 0 {
        w / 2
    } else {
        -((-w) / 2)
    }
}

/// The shift count after a horizontal shift.
pub open spec fn shift_count_after(s: CommandState) -> i32 {
    if s.number > 0 {
        s.number as i32
    } else {
        s.shift_count
    }
}

/// A shift to the left goes no further than the left edge.
pub open spec fn lshift_amount(s: CommandState, e: CommandEnv) -> i64 {
    let n = shift_amount(s, e);
    if n > s.hshift {
        s.hshift as i64
    } else {
        n
    }
}

/// The commands whose arithmetic does not fit in an `int` (only shifting
/// right, or left with a negative screen width).
pub open spec fn commands_fits(s: CommandState, e: CommandEnv, a: Action) -> bool {
    &&& a == Action::LShift ==> i32::MIN <= s.hshift - lshift_amount(s, e) <= i32::MAX
    &&& a == Action::RShift ==> i32::MIN <= s.hshift + (shift_amount(s, e) as i32) <= i32::MAX
}

/// The start of a search command with the search type `st`.
pub open spec fn search_start(s: CommandState, st: i32) -> (CommandState, StepV) {
    (
        CommandState {
            search_type: st,
            number: one_or(s.number),
            literal_char: false,
            mca: search_mca_spec(st),
            ..s
        },
        StepV::StartMca {
            mca: search_mca_spec(st),
            prompt: search_prompt_spec(st, false),
            history: Some(HistKind::Search),
            flags: 0,
            first_key: false,
        },
    )
}

/// A search again, with the search type `st`; the last search type is then `restore`.
pub open spec fn search_again(s: CommandState, st: i32, restore: Option<i32>) -> (CommandState, StepV) {
    (
        CommandState { search_type: st, number: one_or(s.number), mca: search_mca_spec(st), ..s },
        StepV::Search { search_type: st, n: one_or(s.number) as int, restore_last: restore },
    )
}

/// The start of a multi-character command `m`.
pub open spec fn mca_start(s: CommandState, m: Mca, prompt: Seq<char>, h: Option<HistKind>, flags: i32) -> (
    CommandState,
    StepV,
) {
    (CommandState { mca: m, ..s }, StepV::StartMca { mca: m, prompt, history: h, flags, first_key: false })
}

/// The message for a command that secure mode does not allow.
pub open spec fn not_available(s: CommandState) -> (CommandState, StepV) {
    (s, StepV::Error("Command not available"@))
}

/// What the command loop does with the command `a`, in the state `s` with the
/// environment `e`: the state after, and what it asks to be done.
pub open spec fn commands_spec(s: CommandState, e: CommandEnv, a: Action) -> (CommandState, StepV) {
    let n = s.number;
    match a {
        Action::Digit => (
            CommandState { mca: Mca::Digit, ..s },
            StepV::StartMca { mca: Mca::Digit, prompt: ":"@, history: None, flags: CF_QUIT_ON_ERASE, first_key: true },
        ),
        Action::FWindow | Action::FScreen => {
            let sw = if a == Action::FWindow && n > 0 { n as i32 } else { s.swindow };
            let c = screen_count(n, sw, e);
            (
                CommandState { swindow: sw, number: c, ..s },
                StepV::Forward { n: c as int, force: false, only_last: true, nblank: false, attn: e.show_attn != 0 },
            )
        },
        Action::BWindow | Action::BScreen => {
            let sw = if a == Action::BWindow && n > 0 { n as i32 } else { s.swindow };
            let c = screen_count(n, sw, e);
            (
                CommandState { swindow: sw, number: c, ..s },
                StepV::Backward { n: c as int, force: false, only_last: true, nblank: false },
            )
        },
        Action::FLine | Action::FNewline => (
            CommandState { number: one_or(n), ..s },
            StepV::Forward {
                n: one_or(n) as int,
                force: false,
                only_last: false,
                nblank: a == Action::FNewline && !e.chopline,
                attn: e.show_attn == 2 && one_or(n) > 1,
            },
        ),
        Action::BLine | Action::BNewline => (
            CommandState { number: one_or(n), ..s },
            StepV::Backward {
                n: one_or(n) as int,
                force: false,
                only_last: false,
                nblank: a == Action::BNewline && !e.chopline,
            },
        ),
        Action::FMouse => (
            s,
            StepV::Forward { n: e.wheel_lines as int, force: false, only_last: false, nblank: false, attn: false },
        ),
        Action::BMouse => (s, StepV::Backward { n: e.wheel_lines as int, force: false, only_last: false, nblank: false }),
        Action::FFLine => (
            CommandState { number: one_or(n), ..s },
            StepV::Forward {
                n: one_or(n) as int,
                force: true,
                only_last: false,
                nblank: false,
                attn: e.show_attn == 2 && one_or(n) > 1,
            },
        ),
        Action::BFLine => (
            CommandState { number: one_or(n), ..s },
            StepV::Backward { n: one_or(n) as int, force: true, only_last: false, nblank: false },
        ),
        Action::FFScreen => {
            let c = screen_count(n, s.swindow, e);
            (
                CommandState { number: c, ..s },
                StepV::Forward { n: c as int, force: true, only_last: false, nblank: false, attn: e.show_attn == 2 },
            )
        },
        Action::BFScreen => {
            let c = screen_count(n, s.swindow, e);
            (CommandState { number: c, ..s }, StepV::Backward { n: c as int, force: true, only_last: false, nblank: false })
        },
        Action::FForever => (s, StepV::ForwLoop { until_hilite: false, warn: e.via_lessopen, attn: e.show_attn != 0 }),
        Action::FUntilHilite => (s, StepV::ForwLoop { until_hilite: true, warn: false, attn: false }),
        Action::FScroll | Action::BScroll => {
            let w = if n > 0 { n as i32 } else { s.wscroll };
            (
                CommandState { wscroll: w, ..s },
                if a == Action::FScroll {
                    StepV::Forward { n: w as int, force: false, only_last: false, nblank: false, attn: e.show_attn == 2 }
                } else {
                    StepV::Backward { n: w as int, force: false, only_last: false, nblank: false }
                },
            )
        },
        Action::FRepaint => (s, StepV::Repaint { flush: true }),
        Action::Repaint => (s, StepV::Repaint { flush: false }),
        Action::GoLine => (CommandState { number: one_or(n), ..s }, StepV::JumpBack { line: one_or(n) as int, no_jump_sline: n <= 0 }),
        Action::Percent => {
            let (p, f) = if n < 0 { (0i64, 0i64) } else { (n, s.fraction) };
            let (p2, f2) = if p > 100 || (p == 100 && f != 0) { (100i64, 0i64) } else { (p, f) };
            (CommandState { number: p2, fraction: f2, ..s }, StepV::JumpPercent { percent: p2 as int, fraction: f2 as int })
        },
        Action::GoEnd => (s, if n <= 0 { StepV::JumpForw } else { StepV::JumpBack { line: n as int, no_jump_sline: false } }),
        Action::GoEndBuf => (
            s,
            if n <= 0 { StepV::JumpForwBuffered } else { StepV::JumpBack { line: n as int, no_jump_sline: false } },
        ),
        Action::GoPos => {
            let p = if n < 0 { 0i64 } else { n };
            (CommandState { number: p, ..s }, StepV::JumpLineLoc { pos: p as int })
        },
        Action::Stat => (s, if e.helpfile { StepV::Nothing } else { StepV::Stat }),
        Action::Version => (s, StepV::Version),
        Action::Quit => if e.helpfile {
            (CommandState { hshift: s.save_hshift, ..s }, StepV::LeaveHelp)
        } else {
            (s, StepV::Quit)
        },
        Action::FSearch => search_start(s, SRCH_FORW | e.def_search_type),
        Action::BSearch => search_start(s, SRCH_BACK | e.def_search_type),
        Action::Osc8FSearch => (
            CommandState { number: one_or(n), ..s },
            StepV::Osc8Search { search_type: SRCH_FORW, n: one_or(n) as int },
        ),
        Action::Osc8BSearch => (
            CommandState { number: one_or(n), ..s },
            StepV::Osc8Search { search_type: SRCH_BACK, n: one_or(n) as int },
        ),
        Action::Osc8Open => if allows(e, SF_OSC8_OPEN) { (s, StepV::Osc8Open) } else { not_available(s) },
        Action::Osc8Jump => (s, StepV::Osc8Jump),
        Action::Filter => {
            let st = SRCH_FORW | SRCH_FILTER;
            (
                CommandState { search_type: st, literal_char: false, mca: Mca::Filter, ..s },
                StepV::StartMca {
                    mca: Mca::Filter,
                    prompt: search_prompt_spec(st, false),
                    history: Some(HistKind::Search),
                    flags: 0,
                    first_key: false,
                },
            )
        },
        Action::AgainSearch => search_again(s, s.last_search_type, None),
        Action::TAgainSearch => search_again(s, s.last_search_type | SRCH_PAST_EOF, None),
        Action::ReverseSearch => search_again(s, reverse_dir(s.last_search_type), Some(s.last_search_type)),
        Action::TReverseSearch => search_again(
            s,
            reverse_dir(s.last_search_type) | SRCH_PAST_EOF,
            Some(s.last_search_type),
        ),
        Action::UndoSearch => (s, StepV::UndoSearch { clear: false }),
        Action::ClrSearch => (s, StepV::UndoSearch { clear: true }),
        Action::Help => if e.helpfile {
            (s, StepV::Nothing)
        } else {
            (CommandState { save_hshift: s.hshift, hshift: 0, ..s }, StepV::Help)
        },
        Action::Examine => if allows(e, SF_EXAMINE) {
            mca_start(s, Mca::Examine, "Examine: "@, Some(HistKind::Examine), 0)
        } else {
            not_available(s)
        },
        Action::Visual => if !allows(e, SF_EDIT) {
            not_available(s)
        } else if e.helpfile {
            (s, StepV::Nothing)
        } else if e.is_stdin {
            (s, StepV::Error("Cannot edit standard input"@))
        } else {
            (CommandState { mca: Mca::Shell, ..s }, StepV::Visual { warn: !e.no_edit_warn && e.via_lessopen })
        },
        Action::NextFile => if e.ntags != 0 {
            (s, StepV::Error("No next file"@))
        } else {
            (CommandState { number: one_or(n), ..s }, StepV::NextFile { n: one_or(n) as int })
        },
        Action::PrevFile => if e.ntags != 0 {
            (s, StepV::Error("No previous file"@))
        } else {
            (CommandState { number: one_or(n), ..s }, StepV::PrevFile { n: one_or(n) as int })
        },
        Action::NextTag => (CommandState { number: one_or(n), ..s }, StepV::NextTag { n: one_or(n) as int }),
        Action::PrevTag => (CommandState { number: one_or(n), ..s }, StepV::PrevTag { n: one_or(n) as int }),
        Action::IndexFile => (CommandState { number: one_or(n), ..s }, StepV::IndexFile { n: one_or(n) as int }),
        Action::RemoveFile => (s, if e.helpfile { StepV::Nothing } else { StepV::RemoveFile }),
        Action::OptToggle => (
            CommandState { optflag: OPT_TOGGLE, optgetname: false, mca: Mca::OptToggle, ..s },
            StepV::StartOption { prompt: opt_toggle_prompt_spec(OPT_TOGGLE, false), change: true },
        ),
        Action::DispOption => (
            CommandState { optflag: 0, optgetname: false, mca: Mca::OptToggle, ..s },
            StepV::StartOption { prompt: opt_toggle_prompt_spec(0, false), change: false },
        ),
        Action::FirstCmd => mca_start(s, Mca::FirstCmd, "+"@, None, 0),
        Action::Shell => if allows(e, SF_SHELL) {
            mca_start(s, Mca::Shell, "!"@, Some(HistKind::Shell), 0)
        } else {
            not_available(s)
        },
        Action::PShell => if allows(e, SF_SHELL) {
            mca_start(s, Mca::PShell, "#"@, Some(HistKind::Shell), 0)
        } else {
            not_available(s)
        },
        Action::SetMark | Action::SetMarkBot => if e.helpfile {
            (s, StepV::SkipChar)
        } else {
            (
                CommandState { mca: Mca::SetMark, ..s },
                StepV::Mark {
                    cmd: if a == Action::SetMark { MarkCmd::SetTop } else { MarkCmd::SetBottom },
                    prompt: "set mark: "@,
                },
            )
        },
        Action::ClrMark => (CommandState { mca: Mca::ClrMark, ..s }, StepV::Mark { cmd: MarkCmd::Clear, prompt: "clear mark: "@ }),
        Action::GoMark => (CommandState { mca: Mca::GoMark, ..s }, StepV::Mark { cmd: MarkCmd::Go, prompt: "goto mark: "@ }),
        Action::Pipe => if allows(e, SF_PIPE) {
            (CommandState { mca: Mca::Pipe, ..s }, StepV::Mark { cmd: MarkCmd::Pipe, prompt: "|mark: "@ })
        } else {
            not_available(s)
        },
        Action::FBracket => mca_start(s, Mca::FBracket, "Brackets: "@, None, 0),
        Action::BBracket => mca_start(s, Mca::BBracket, "Brackets: "@, None, 0),
        Action::LShift => {
            let m = lshift_amount(s, e);
            (
                CommandState {
                    shift_count: shift_count_after(s),
                    number: m,
                    hshift: (s.hshift - m) as i32,
                    ..s
                },
                StepV::Rehead,
            )
        },
        Action::RShift => {
            let m = shift_amount(s, e);
            (
                CommandState {
                    shift_count: shift_count_after(s),
                    number: m,
                    hshift: (s.hshift + (m as i32)) as i32,
                    ..s
                },
                StepV::Rehead,
            )
        },
        Action::LLShift => (CommandState { hshift: 0, ..s }, StepV::Rehead),
        Action::RRShift => (s, StepV::RRShift),
        Action::Prefix => if s.mca != Mca::Prefix {
            (
                CommandState { mca: Mca::Prefix, ..s },
                StepV::StartMca { mca: Mca::Prefix, prompt: " "@, history: None, flags: CF_QUIT_ON_ERASE, first_key: true },
            )
        } else {
            (s, StepV::NextKey)
        },
        Action::StartPaste => (s, if e.no_paste { StepV::StartIgnoringInput } else { StepV::Nothing }),
        Action::NoAction => (s, StepV::Nothing),
        Action::Invalid => (s, StepV::Bell),
    }
}


fn one_or_exec(n: i64) -> (r: i64)
    ensures
        r == one_or(n),
{
    if n <= 0 {
        1
    } else {
        n
    }
}

fn screen_count_exec(n: i64, swindow: i32, e: &CommandEnv) -> (r: i64)
    ensures
        r == screen_count(n, swindow, *e),
{
    if n <= 0 {
        get_swindow(swindow, e.sc_height, e.header_lines)
    } else {
        n
    }
}

fn reverse_dir_exec(st: i32) -> (r: i32)
    ensures
        r == reverse_dir(st),
{
    if st & SRCH_FORW != 0 {
        (st & !SRCH_FORW) | SRCH_BACK
    } else {
        (st & !SRCH_BACK) | SRCH_FORW
    }
}

fn shift_amount_exec(s: &CommandState, e: &CommandEnv) -> (r: i64)
    ensures
        r == shift_amount(*s, *e),
{
    if s.number > 0 {
        s.number
    } else if s.shift_count > 0 {
        s.shift_count as i64
    } else {
        let w = e.sc_width as i64;
        if w >= 0 {
            w / 2
        } else {
            0 - ((0 - w) / 2)
        }
    }
}

fn shift_count_after_exec(s: &CommandState) -> (r: i32)
    ensures
        r == shift_count_after(*s),
{
    if s.number > 0 {
        #[verifier::truncate]
        (s.number as i32)
    } else {
        s.shift_count
    }
}

fn search_start_exec(s: &mut CommandState, st: i32) -> (r: Step)
    ensures
        (*final(s), r@) == search_start(*old(s), st),
{
    s.search_type = st;
    s.number = one_or_exec(s.number);
    s.literal_char = false;
    let (m, p) = mca_search1(st, false);
    s.mca = m;
    Step::StartMca { mca: m, prompt: p, history: Some(HistKind::Search), flags: 0, first_key: false }
}

fn search_again_exec(s: &mut CommandState, st: i32, restore: Option<i32>) -> (r: Step)
    ensures
        (*final(s), r@) == search_again(*old(s), st, restore),
{
    s.search_type = st;
    s.number = one_or_exec(s.number);
    let (m, _) = mca_search1(st, false);
    s.mca = m;
    Step::Search { search_type: st, n: s.number, restore_last: restore }
}

fn mca_start_exec(s: &mut CommandState, m: Mca, prompt: &str, h: Option<HistKind>, flags: i32) -> (r: Step)
    ensures
        (*final(s), r@) == mca_start(*old(s), m, prompt@, h, flags),
{
    s.mca = m;
    Step::StartMca { mca: m, prompt: prompt.to_string(), history: h, flags, first_key: false }
}

fn error_step(msg: &str) -> (r: Step)
    ensures
        r@ == StepV::Error(msg@),
{
    Step::Error(msg.to_string())
}

fn allows_exec(e: &CommandEnv, f: i32) -> (r: bool)
    ensures
        r == allows(*e, f),
{
    e.allowed & f != 0
}

/// What the command loop does with the command `a` (see `commands_spec`): the
/// state changes, and the step it asks of the loop is returned. The loop itself,
/// which reads the keys, shows the prompt and carries the steps out, is not here.
#[verifier::rlimit(60)]
#[verifier::spinoff_prover]
pub fn commands(s: &mut CommandState, e: &CommandEnv, a: Action) -> (r: Step)
    requires
        commands_fits(*old(s), *e, a),
    ensures
        (*final(s), r@) == commands_spec(*old(s), *e, a),
{
    let n = s.number;
    match a {
        Action::Digit => {
            s.mca = Mca::Digit;
            Step::StartMca { mca: Mca::Digit, prompt: ":".to_string(), history: None, flags: CF_QUIT_ON_ERASE, first_key: true }
        },
        Action::FWindow | Action::FScreen => {
            if a == Action::FWindow && n > 0 {
                s.swindow = #[verifier::truncate] (n as i32);
            }
            let c = screen_count_exec(n, s.swindow, e);
            s.number = c;
            Step::Forward { n: c, force: false, only_last: true, nblank: false, attn: e.show_attn != 0 }
        },
        Action::BWindow | Action::BScreen => {
            if a == Action::BWindow && n > 0 {
                s.swindow = #[verifier::truncate] (n as i32);
            }
            let c = screen_count_exec(n, s.swindow, e);
            s.number = c;
            Step::Backward { n: c, force: false, only_last: true, nblank: false }
        },
        Action::FLine | Action::FNewline => {
            let c = one_or_exec(n);
            s.number = c;
            Step::Forward {
                n: c,
                force: false,
                only_last: false,
                nblank: a == Action::FNewline && !e.chopline,
                attn: e.show_attn == 2 && c > 1,
            }
        },
        Action::BLine | Action::BNewline => {
            let c = one_or_exec(n);
            s.number = c;
            Step::Backward { n: c, force: false, only_last: false, nblank: a == Action::BNewline && !e.chopline }
        },
        Action::FMouse => Step::Forward {
            n: e.wheel_lines as i64,
            force: false,
            only_last: false,
            nblank: false,
            attn: false,
        },
        Action::BMouse => Step::Backward { n: e.wheel_lines as i64, force: false, only_last: false, nblank: false },
        Action::FFLine => {
            let c = one_or_exec(n);
            s.number = c;
            Step::Forward { n: c, force: true, only_last: false, nblank: false, attn: e.show_attn == 2 && c > 1 }
        },
        Action::BFLine => {
            let c = one_or_exec(n);
            s.number = c;
            Step::Backward { n: c, force: true, only_last: false, nblank: false }
        },
        Action::FFScreen => {
            let c = screen_count_exec(n, s.swindow, e);
            s.number = c;
            Step::Forward { n: c, force: true, only_last: false, nblank: false, attn: e.show_attn == 2 }
        },
        Action::BFScreen => {
            let c = screen_count_exec(n, s.swindow, e);
            s.number = c;
            Step::Backward { n: c, force: true, only_last: false, nblank: false }
        },
        Action::FForever => Step::ForwLoop { until_hilite: false, warn: e.via_lessopen, attn: e.show_attn != 0 },
        Action::FUntilHilite => Step::ForwLoop { until_hilite: true, warn: false, attn: false },
        Action::FScroll | Action::BScroll => {
            if n > 0 {
                s.wscroll = #[verifier::truncate] (n as i32);
            }
            let w = s.wscroll as i64;
            if a == Action::FScroll {
                Step::Forward { n: w, force: false, only_last: false, nblank: false, attn: e.show_attn == 2 }
            } else {
                Step::Backward { n: w, force: false, only_last: false, nblank: false }
            }
        },
        Action::FRepaint => Step::Repaint { flush: true },
        Action::Repaint => Step::Repaint { flush: false },
        Action::GoLine => {
            let c = one_or_exec(n);
            s.number = c;
            Step::JumpBack { line: c, no_jump_sline: n <= 0 }
        },
        Action::Percent => {
            let (p, f) = if n < 0 {
                (0i64, 0i64)
            } else {
                (n, s.fraction)
            };
            let (p2, f2) = if p > 100 || (p == 100 && f != 0) {
                (100i64, 0i64)
            } else {
                (p, f)
            };
            s.number = p2;
            s.fraction = f2;
            Step::JumpPercent { percent: p2 as i32, fraction: f2 }
        },
        Action::GoEnd => if n <= 0 {
            Step::JumpForw
        } else {
            Step::JumpBack { line: n, no_jump_sline: false }
        },
        Action::GoEndBuf => if n <= 0 {
            Step::JumpForwBuffered
        } else {
            Step::JumpBack { line: n, no_jump_sline: false }
        },
        Action::GoPos => {
            let p = if n < 0 {
                0i64
            } else {
                n
            };
            s.number = p;
            Step::JumpLineLoc { pos: p }
        },
        Action::Stat => if e.helpfile {
            Step::Nothing
        } else {
            Step::Stat
        },
        Action::Version => Step::Version,
        Action::Quit => if e.helpfile {
            s.hshift = s.save_hshift;
            Step::LeaveHelp
        } else {
            Step::Quit
        },
        Action::FSearch => search_start_exec(s, SRCH_FORW | e.def_search_type),
        Action::BSearch => search_start_exec(s, SRCH_BACK | e.def_search_type),
        Action::Osc8FSearch => {
            let c = one_or_exec(n);
            s.number = c;
            Step::Osc8Search { search_type: SRCH_FORW, n: c }
        },
        Action::Osc8BSearch => {
            let c = one_or_exec(n);
            s.number = c;
            Step::Osc8Search { search_type: SRCH_BACK, n: c }
        },
        Action::Osc8Open => if allows_exec(e, SF_OSC8_OPEN) {
            Step::Osc8Open
        } else {
            error_step("Command not available")
        },
        Action::Osc8Jump => Step::Osc8Jump,
        Action::Filter => {
            let st = SRCH_FORW | SRCH_FILTER;
            s.search_type = st;
            s.literal_char = false;
            let (_, p) = mca_search1(st, false);
            s.mca = Mca::Filter;
            Step::StartMca { mca: Mca::Filter, prompt: p, history: Some(HistKind::Search), flags: 0, first_key: false }
        },
        Action::AgainSearch => {
            let st = s.last_search_type;
            search_again_exec(s, st, None)
        },
        Action::TAgainSearch => {
            let st = s.last_search_type | SRCH_PAST_EOF;
            search_again_exec(s, st, None)
        },
        Action::ReverseSearch => {
            let last = s.last_search_type;
            let st = reverse_dir_exec(last);
            search_again_exec(s, st, Some(last))
        },
        Action::TReverseSearch => {
            let last = s.last_search_type;
            let st = reverse_dir_exec(last) | SRCH_PAST_EOF;
            search_again_exec(s, st, Some(last))
        },
        Action::UndoSearch => Step::UndoSearch { clear: false },
        Action::ClrSearch => Step::UndoSearch { clear: true },
        Action::Help => if e.helpfile {
            Step::Nothing
        } else {
            s.save_hshift = s.hshift;
            s.hshift = 0;
            Step::Help
        },
        Action::Examine => if allows_exec(e, SF_EXAMINE) {
            mca_start_exec(s, Mca::Examine, "Examine: ", Some(HistKind::Examine), 0)
        } else {
            error_step("Command not available")
        },
        Action::Visual => if !allows_exec(e, SF_EDIT) {
            error_step("Command not available")
        } else if e.helpfile {
            Step::Nothing
        } else if e.is_stdin {
            error_step("Cannot edit standard input")
        } else {
            s.mca = Mca::Shell;
            Step::Visual { warn: !e.no_edit_warn && e.via_lessopen }
        },
        Action::NextFile => if e.ntags != 0 {
            error_step("No next file")
        } else {
            let c = one_or_exec(n);
            s.number = c;
            Step::NextFile { n: c }
        },
        Action::PrevFile => if e.ntags != 0 {
            error_step("No previous file")
        } else {
            let c = one_or_exec(n);
            s.number = c;
            Step::PrevFile { n: c }
        },
        Action::NextTag => {
            let c = one_or_exec(n);
            s.number = c;
            Step::NextTag { n: c }
        },
        Action::PrevTag => {
            let c = one_or_exec(n);
            s.number = c;
            Step::PrevTag { n: c }
        },
        Action::IndexFile => {
            let c = one_or_exec(n);
            s.number = c;
            Step::IndexFile { n: c }
        },
        Action::RemoveFile => if e.helpfile {
            Step::Nothing
        } else {
            Step::RemoveFile
        },
        Action::OptToggle => {
            s.optflag = OPT_TOGGLE;
            s.optgetname = false;
            s.mca = Mca::OptToggle;
            Step::StartOption { prompt: mca_opt_toggle(OPT_TOGGLE, false), change: true }
        },
        Action::DispOption => {
            s.optflag = 0;
            s.optgetname = false;
            s.mca = Mca::OptToggle;
            Step::StartOption { prompt: mca_opt_toggle(0, false), change: false }
        },
        Action::FirstCmd => mca_start_exec(s, Mca::FirstCmd, "+", None, 0),
        Action::Shell => if allows_exec(e, SF_SHELL) {
            mca_start_exec(s, Mca::Shell, "!", Some(HistKind::Shell), 0)
        } else {
            error_step("Command not available")
        },
        Action::PShell => if allows_exec(e, SF_SHELL) {
            mca_start_exec(s, Mca::PShell, "#", Some(HistKind::Shell), 0)
        } else {
            error_step("Command not available")
        },
        Action::SetMark | Action::SetMarkBot => if e.helpfile {
            Step::SkipChar
        } else {
            s.mca = Mca::SetMark;
            Step::Mark {
                cmd: if a == Action::SetMark {
                    MarkCmd::SetTop
                } else {
                    MarkCmd::SetBottom
                },
                prompt: "set mark: ".to_string(),
            }
        },
        Action::ClrMark => {
            s.mca = Mca::ClrMark;
            Step::Mark { cmd: MarkCmd::Clear, prompt: "clear mark: ".to_string() }
        },
        Action::GoMark => {
            s.mca = Mca::GoMark;
            Step::Mark { cmd: MarkCmd::Go, prompt: "goto mark: ".to_string() }
        },
        Action::Pipe => if allows_exec(e, SF_PIPE) {
            s.mca = Mca::Pipe;
            Step::Mark { cmd: MarkCmd::Pipe, prompt: "|mark: ".to_string() }
        } else {
            error_step("Command not available")
        },
        Action::FBracket => mca_start_exec(s, Mca::FBracket, "Brackets: ", None, 0),
        Action::BBracket => mca_start_exec(s, Mca::BBracket, "Brackets: ", None, 0),
        Action::LShift => {
            let amt = shift_amount_exec(s, e);
            let m = if amt > s.hshift as i64 {
                s.hshift as i64
            } else {
                amt
            };
            s.shift_count = shift_count_after_exec(s);
            s.number = m;
            s.hshift = (s.hshift as i64 - m) as i32;
            Step::Rehead
        },
        Action::RShift => {
            let amt = shift_amount_exec(s, e);
            let d: i32 = #[verifier::truncate] (amt as i32);
            s.shift_count = shift_count_after_exec(s);
            s.number = amt;
            s.hshift = s.hshift + d;
            Step::Rehead
        },
        Action::LLShift => {
            s.hshift = 0;
            Step::Rehead
        },
        Action::RRShift => Step::RRShift,
        Action::Prefix => if s.mca != Mca::Prefix {
            s.mca = Mca::Prefix;
            Step::StartMca { mca: Mca::Prefix, prompt: " ".to_string(), history: None, flags: CF_QUIT_ON_ERASE, first_key: true }
        } else {
            Step::NextKey
        },
        Action::StartPaste => if e.no_paste {
            Step::StartIgnoringInput
        } else {
            Step::Nothing
        },
        Action::NoAction => Step::Nothing,
        Action::Invalid => Step::Bell,
    }
}


/// What follows when the next (or previous) file could not be opened: quit (the
/// end of the last file was shown and quitting at the end of file is on, out of
/// the help file), or the message.
#[derive(Debug)]
pub enum FileFailure {
    Quit,
    Message(String),
}

/// The message that there is no next (or previous) file; `(N-th) ` when the
/// count was more than one.
pub open spec fn no_file_msg(n: i64, next: bool) -> Seq<char> {
    "No "@ + (if n > 1 { "(N-th) "@ } else { Seq::empty() }) + (if next { "next file"@ } else { "previous file"@ })
}

/// What to do when going to the `n`-th next file (`next`) or previous file
/// failed (see `FileFailure`).
pub fn file_failed(n: i64, next: bool, quit_at_eof: i32, eof_displayed: bool, helpfile: bool) -> (r: FileFailure)
    ensures
        next && quit_at_eof != 0 && eof_displayed && !helpfile ==> r is Quit,
        !(next && quit_at_eof != 0 && eof_displayed && !helpfile) ==> (r matches FileFailure::Message(m) && m@
            == no_file_msg(n, next)),
{
    if next && quit_at_eof != 0 && eof_displayed && !helpfile {
        return FileFailure::Quit;
    }
    let mut m = "No ".to_string();
    if n > 1 {
        crate::text::push_str(&mut m, "(N-th) ");
    }
    if next {
        crate::text::push_str(&mut m, "next file");
    } else {
        crate::text::push_str(&mut m, "previous file");
    }
    FileFailure::Message(m)
}

/// The mark that a pipe command reads its text up to, from the key `c`: none
/// (the command is abandoned) for an erase or kill key, the bottom of the
/// screen (`.`) for a newline.
pub fn pipe_mark(c: char, erase: char, erase2: char, kill: char) -> (r: Option<char>)
    ensures
        (c == erase || c == erase2 || c == kill) ==> r is None,
        !(c == erase || c == erase2 || c == kill) ==> r == Some(if c == '\n' || c == '\r' { '.' } else { c }),
{
    if crate::command::is_erase_char(c, erase, erase2, kill) {
        None
    } else if crate::command::is_newline_char(c) {
        Some('.')
    } else {
        Some(c)
    }
}

/// Does following the end of the file go on: not once a match is highlighted
/// past the length the file had when it began (`until_hilite`), and not after
/// a signal?
pub fn forw_loop_goes_on(until_hilite: bool, highest_hilite: i64, curr_len: i64, sigs: i32) -> (r: bool)
    ensures
        r == (sigs == 0 && !(until_hilite && highest_hilite > curr_len)),
{
    sigs == 0 && !(until_hilite && highest_hilite > curr_len)
}

/// The command after following the end of the file stopped: a signal that
/// neither interrupts nor stops (a window change) starts it again.
pub fn forw_loop_end(until_hilite: bool, sigs: i32) -> (r: Action)
    ensures
        sigs != 0 && (sigs & (S_INTERRUPT | S_SWINTERRUPT | S_STOP)) == 0 ==> r == if until_hilite {
            Action::FUntilHilite
        } else {
            Action::FForever
        },
        !(sigs != 0 && (sigs & (S_INTERRUPT | S_SWINTERRUPT | S_STOP)) == 0) ==> r == Action::NoAction,
{
    if sigs != 0 && !crate::defs::abort_sigs(sigs) {
        if until_hilite {
            Action::FUntilHilite
        } else {
            Action::FForever
        }
    } else {
        Action::NoAction
    }
}

/// What the prompt shows, once the screen is up to date.
#[derive(Debug)]
pub struct PromptPlan {
    /// Quit instead: the end of the last file is shown and `-E` is set, or
    /// the whole file fits on the screen and `-F` is set (out of the help file).
    pub quit: bool,
    /// Clear the bottom line first.
    pub clear_bot: bool,
    /// Show `& ` before the prompt (lines are being filtered).
    pub filter_mark: bool,
    /// Messages to show first.
    pub messages: Vec<String>,
    /// The prompt; `None`: a colon (the prompt is empty).
    pub text: Option<String>,
}

/// What the prompt shows (see `PromptPlan`): `quit_at_eof` as
/// `get_quit_at_eof` gives it, `prompt` the text that `pr_string` made.
pub fn prompt_plan(
    quit_at_eof: i32,
    eof_displayed: bool,
    quit_if_one_screen: bool,
    entire_file_displayed: bool,
    helpfile: bool,
    has_next_file: bool,
    forw_prompt: bool,
    filtering: bool,
    search_wrapped: bool,
    search_type: i32,
    osc8_uri: Option<&str>,
    prompt: String,
) -> (r: PromptPlan)
    ensures
        r.quit == (!helpfile && !has_next_file && ((quit_at_eof == OPT_ONPLUS && eof_displayed) || (
        quit_if_one_screen && entire_file_displayed))),
        r.clear_bot == !forw_prompt,
        r.filter_mark == filtering,
        r.messages@.len() == (if search_wrapped { 1int } else { 0 }) + (if osc8_uri is Some { 1int } else { 0 }),
        search_wrapped ==> r.messages@[0]@ == if search_type & SRCH_BACK != 0 {
            "Search hit top; continuing at bottom"@
        } else {
            "Search hit bottom; continuing at top"@
        },
        osc8_uri matches Some(u) ==> r.messages@.last()@ == "Link: "@ + u@,
        prompt@.len() == 0 ==> r.text is None,
        prompt@.len() > 0 ==> (r.text matches Some(t) && t@ == prompt@),
{
    let quit = !helpfile && !has_next_file && ((quit_at_eof == OPT_ONPLUS && eof_displayed) || (quit_if_one_screen
        && entire_file_displayed));
    let mut messages: Vec<String> = Vec::new();
    if search_wrapped {
        if search_type & SRCH_BACK != 0 {
            messages.push("Search hit top; continuing at bottom".to_string());
        } else {
            messages.push("Search hit bottom; continuing at top".to_string());
        }
    }
    if let Some(u) = osc8_uri {
        let mut m = "Link: ".to_string();
        crate::text::push_str(&mut m, u);
        messages.push(m);
    }
    let text = if prompt.unicode_len() == 0 {
        None
    } else {
        Some(prompt)
    };
    PromptPlan { quit, clear_bot: !forw_prompt, filter_mark: filtering, messages, text }
}

} // verus!
