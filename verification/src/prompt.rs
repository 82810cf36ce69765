use vstd::prelude::*;
use vstd::string::StrSliceExecFns;

use crate::defs::NULL_POSITION;
use crate::text::{char_is_whitespace, chars_to_string, int_text, int_to_string, is_whitespace, str_to_chars};

verus! {

/// The screen position that a prompt escape speaks of: the top line, the middle
/// one, the bottom one, the line after the bottom, or the line a jump lands on.
#[derive(Clone, Copy, Debug, PartialEq, Eq, Structural)]
pub enum Where {
    Top,
    Middle,
    Bottom,
    BottomPlusOne,
    Jump,
}

/// What the prompt knows of a screen position: the byte offset there
/// (`NULL_POSITION` if unknown), its line number (0 if unknown), and the line
/// number as it is shown.
#[derive(Clone, Copy, Debug)]
pub struct PromptPlace {
    pub byte: i64,
    pub line: i64,
    pub line_shown: i64,
}

/// What a prompt can show: the state of the file and of the screen.
pub struct PromptEnv {
    pub top: PromptPlace,
    pub middle: PromptPlace,
    pub bottom: PromptPlace,
    pub bottom_plus_one: PromptPlace,
    pub jump: PromptPlace,
    /// Columns scrolled horizontally.
    pub hshift: i32,
    /// Is the end of the file on the screen?
    pub eof_displayed: bool,
    /// Is the file named (not standard input, `-`)?
    pub file_named: bool,
    /// The file name, its last component and its shell-quoted form, printable.
    pub file_name: Vec<char>,
    pub file_last: Vec<char>,
    pub file_quoted: Vec<char>,
    /// Are line numbers kept?
    pub linenums: bool,
    /// The length of the file (`NULL_POSITION` if unknown).
    pub file_len: i64,
    /// The number of the line at the end of the file, and of the line of its
    /// last byte (0 or less if unknown).
    pub last_linenum: i64,
    pub last_byte_linenum: i64,
    /// The number shown for the last line.
    pub last_line_shown: i64,
    /// The number of tags (0: not in a tag list), and the current one.
    pub ntags: i32,
    pub curr_tag: i32,
    /// The number of files, and the index of the current one.
    pub nifile: i32,
    pub ifile_index: i32,
    /// Is this the first prompt in a new file?
    pub new_file: bool,
    /// The name of the next file, if there is one.
    pub next_file: Option<Vec<char>>,
    pub editor: Vec<char>,
    /// The path of the selected OSC 8 link, if any.
    pub osc8_path: Option<Vec<char>>,
    pub sc_height: i32,
    pub header_lines: i32,
}

impl PromptEnv {
    pub open spec fn place(&self, w: Where) -> PromptPlace {
        match w {
            Where::Top => self.top,
            Where::Middle => self.middle,
            Where::Bottom => self.bottom,
            Where::BottomPlusOne => self.bottom_plus_one,
            Where::Jump => self.jump,
        }
    }

    fn place_exec(&self, w: Where) -> (r: PromptPlace)
        ensures
            r == self.place(w),
    {
        match w {
            Where::Top => self.top,
            Where::Middle => self.middle,
            Where::Bottom => self.bottom,
            Where::BottomPlusOne => self.bottom_plus_one,
            Where::Jump => self.jump,
        }
    }
}

/// `a / d` rounded toward zero, as integer division of machine numbers goes.
pub open spec fn trunc_div(a: int, d: int) -> int {
    let q = (if a < 0 { -a } else { a }) / (if d < 0 { -d } else { d });
    if (a < 0) != (d < 0) {
        -q
    } else {
        q
    }
}

/// The page that line `linenum` is on, with pages of `height - head_lines - 1`
/// lines.
pub open spec fn page_num_spec(linenum: int, height: int, head_lines: int) -> int {
    trunc_div(linenum - 1, height - head_lines - 1) + 1
}

/// For a line number from 1 on, the page number lies between 1 - (linenum - 1)
/// and the line number: it fits where the line number does.
proof fn lemma_page_num_fits(linenum: int, height: int, head_lines: int)
    requires
        linenum > 0,
        height - head_lines - 1 != 0,
    ensures
        2 - linenum <= page_num_spec(linenum, height, head_lines) <= linenum,
{
    let a = linenum - 1;
    let d = height - head_lines - 1;
    let dd = if d < 0 { -d } else { d };
    assert(0 <= a / dd <= a) by (nonlinear_arith)
        requires a >= 0, dd >= 1;
}

/// The number of the page that line `linenum` is on (see `page_num_spec`).
/// The page size must not be 0, and the page number must fit an `i64`.
pub fn page_num(linenum: i64, height: i32, head_lines: i32) -> (r: i64)
    requires
        linenum > i64::MIN,
        height as int - head_lines as int - 1 != 0,
        page_num_spec(linenum as int, height as int, head_lines as int) <= i64::MAX,
    ensures
        r == page_num_spec(linenum as int, height as int, head_lines as int),
{
    let a: i128 = linenum as i128 - 1;
    let d: i128 = height as i128 - head_lines as i128 - 1;
    let aa: i128 = if a < 0 { -a } else { a };
    let dd: i128 = if d < 0 { -d } else { d };
    let q0: i128 = aa / dd;
    proof {
        assert(q0 <= aa) by (nonlinear_arith)
            requires q0 == aa / dd, aa >= 0, dd >= 1;
    }
    let q: i128 = if (a < 0) != (d < 0) { -q0 } else { q0 };
    (q + 1) as i64
}

/// `num` as a percentage of `den` (rounded down; as an `i32`, which wraps).
pub open spec fn percentage_spec(num: int, den: int) -> i32 {
    (num * 100 / den) as i32
}

/// `num` as a percentage of `den` (see `percentage_spec`).
pub fn percentage(num: i64, den: i64) -> (r: i32)
    requires
        num >= 0,
        den > 0,
    ensures
        r == percentage_spec(num as int, den as int),
{
    let v: i128 = (num as i128) * 100 / (den as i128);
    #[verifier::truncate]
    (v as i32)
}

/// Where the position letter after the escape letter at `i` points, and the
/// index of the last character of the escape: a position letter follows only
/// `b`, `d`, `l`, `p` and `P`; the top line otherwise.
pub open spec fn wherechar_spec(p: Seq<char>, i: int) -> (Where, int) {
    let c = p[i];
    if (c == 'b' || c == 'd' || c == 'l' || c == 'p' || c == 'P') && i < p.len() - 1 {
        let n = p[i + 1];
        if n == 't' {
            (Where::Top, i + 1)
        } else if n == 'm' {
            (Where::Middle, i + 1)
        } else if n == 'b' {
            (Where::Bottom, i + 1)
        } else if n == 'B' {
            (Where::BottomPlusOne, i + 1)
        } else if n == 'j' {
            (Where::Jump, i + 1)
        } else {
            (Where::Top, i)
        }
    } else {
        (Where::Top, i)
    }
}

fn wherechar(p: &Vec<char>, i: usize) -> (r: (Where, usize))
    requires
        i < p@.len(),
    ensures
        (r.0, r.1 as int) == wherechar_spec(p@, i as int),
{
    let c = p[i];
    if (c == 'b' || c == 'd' || c == 'l' || c == 'p' || c == 'P') && i < p.len() - 1 {
        let n = p[i + 1];
        if n == 't' {
            (Where::Top, i + 1)
        } else if n == 'm' {
            (Where::Middle, i + 1)
        } else if n == 'b' {
            (Where::Bottom, i + 1)
        } else if n == 'B' {
            (Where::BottomPlusOne, i + 1)
        } else if n == 'j' {
            (Where::Jump, i + 1)
        } else {
            (Where::Top, i)
        }
    } else {
        (Where::Top, i)
    }
}

/// Skip a false branch of a conditional: from the character after `i`, find the
/// `:` (else) or `.` (end) that matches the conditional `level` deep, passing
/// over nested conditionals and characters escaped by `\`. Gives its index (or
/// the last index, if the text ends first).
pub open spec fn skipcond_spec(p: Seq<char>, i: int, level: int) -> int
    decreases p.len() - i,
{
    let j = i + 1;
    if j >= p.len() || j < 0 {
        i
    } else if p[j] == '?' {
        skipcond_spec(p, j, level + 1)
    } else if p[j] == ':' {
        if level == 1 {
            j
        } else {
            skipcond_spec(p, j, level)
        }
    } else if p[j] == '.' {
        if level - 1 == 0 {
            j
        } else {
            skipcond_spec(p, j, level - 1)
        }
    } else if p[j] == '\\' && j + 1 < p.len() {
        skipcond_spec(p, j + 1, level)
    } else {
        skipcond_spec(p, j, level)
    }
}

pub proof fn lemma_skipcond_bounds(p: Seq<char>, i: int, level: int)
    requires
        0 <= i < p.len(),
    ensures
        i <= skipcond_spec(p, i, level) < p.len(),
    decreases p.len() - i,
{
    let j = i + 1;
    if j >= p.len() {
    } else if p[j] == '?' {
        lemma_skipcond_bounds(p, j, level + 1);
    } else if p[j] == ':' {
        if level != 1 {
            lemma_skipcond_bounds(p, j, level);
        }
    } else if p[j] == '.' {
        if level - 1 != 0 {
            lemma_skipcond_bounds(p, j, level - 1);
        }
    } else if p[j] == '\\' && j + 1 < p.len() {
        lemma_skipcond_bounds(p, j + 1, level);
    } else {
        lemma_skipcond_bounds(p, j, level);
    }
}

fn skipcond(p: &Vec<char>, i: usize) -> (r: usize)
    requires
        i < p@.len(),
    ensures
        r as int == skipcond_spec(p@, i as int, 1),
{
    let mut k = i;
    let mut level: usize = 1;
    proof {
        lemma_skipcond_bounds(p@, i as int, 1);
    }
    while k < p.len() - 1
        invariant
            i <= k < p@.len(),
            level >= 1,
            level <= k + 1,
            skipcond_spec(p@, i as int, 1) == skipcond_spec(p@, k as int, level as int),
        decreases p@.len() - k,
    {
        let j = k + 1;
        let c = p[j];
        if c == '?' {
            level = level + 1;
            k = j;
        } else if c == ':' {
            if level == 1 {
                return j;
            }
            k = j;
        } else if c == '.' {
            if level == 1 {
                return j;
            }
            level = level - 1;
            k = j;
        } else if c == '\\' && j + 1 < p.len() {
            k = j + 1;
        } else {
            k = j;
        }
    }
    k
}

/// Is the condition letter `c` true (of the position `w`), with `msg` the message
/// so far? `a`: anything in it; `b`: byte offset known; `c`: scrolled sideways;
/// `e`: end of file shown; `f`, `g`: file named; `l`, `d`: line number known;
/// `L`, `D`: last line number known; `m`: more than one file; `n`: first prompt
/// in a new file; `p`: byte percentage known; `P`: line percentage known; `s`,
/// `B`: size known; `x`: a next file.
pub open spec fn cond_spec(env: PromptEnv, c: char, w: Where, msg: Seq<char>) -> bool {
    let pl = env.place(w);
    if c == 'a' {
        msg.len() > 0
    } else if c == 'b' {
        pl.byte != NULL_POSITION
    } else if c == 'c' {
        env.hshift != 0
    } else if c == 'e' {
        env.eof_displayed
    } else if c == 'f' || c == 'g' {
        env.file_named
    } else if c == 'l' || c == 'd' {
        env.linenums && pl.line != 0
    } else if c == 'L' || c == 'D' {
        env.linenums && env.file_len != NULL_POSITION
    } else if c == 'm' {
        if env.ntags != 0 {
            env.ntags > 1
        } else {
            env.nifile > 1
        }
    } else if c == 'n' {
        env.ntags != 0 || env.new_file
    } else if c == 'p' {
        pl.byte != NULL_POSITION && env.file_len > 0
    } else if c == 'P' {
        pl.line != 0 && env.file_len > 0 && env.last_linenum != 0
    } else if c == 's' || c == 'B' {
        env.file_len != NULL_POSITION
    } else if c == 'x' {
        env.ntags == 0 && env.next_file is Some
    } else {
        false
    }
}

fn cond(env: &PromptEnv, c: char, w: Where, msg: &Vec<char>) -> (r: bool)
    ensures
        r == cond_spec(*env, c, w, msg@),
{
    let pl = env.place_exec(w);
    if c == 'a' {
        msg.len() > 0
    } else if c == 'b' {
        pl.byte != NULL_POSITION
    } else if c == 'c' {
        env.hshift != 0
    } else if c == 'e' {
        env.eof_displayed
    } else if c == 'f' || c == 'g' {
        env.file_named
    } else if c == 'l' || c == 'd' {
        env.linenums && pl.line != 0
    } else if c == 'L' || c == 'D' {
        env.linenums && env.file_len != NULL_POSITION
    } else if c == 'm' {
        if env.ntags != 0 {
            env.ntags > 1
        } else {
            env.nifile > 1
        }
    } else if c == 'n' {
        env.ntags != 0 || env.new_file
    } else if c == 'p' {
        pl.byte != NULL_POSITION && env.file_len > 0
    } else if c == 'P' {
        pl.line != 0 && env.file_len > 0 && env.last_linenum != 0
    } else if c == 's' || c == 'B' {
        env.file_len != NULL_POSITION
    } else if c == 'x' {
        env.ntags == 0 && env.next_file.is_some()
    } else {
        false
    }
}

/// `msg` without the white space at its end.
pub open spec fn trim_end_spec(msg: Seq<char>) -> Seq<char>
    decreases msg.len(),
{
    if msg.len() > 0 && char_is_whitespace(msg.last()) {
        trim_end_spec(msg.drop_last())
    } else {
        msg
    }
}

/// The message `msg` after the escape `%c` (of the position `w`): `b` byte
/// offset; `c` columns scrolled; `d` page number; `D` number of pages; `E`
/// editor; `f` file name; `F` its last component; `g` shell-quoted file name;
/// `i` index of the file; `l` line number; `L` number of the last line; `m`
/// number of files; `o` OSC 8 path; `p` byte percentage; `P` line percentage;
/// `s`, `B` size of the file; `t` trailing white space removed; `T` type of list;
/// `x` next file. A value that is not known shows as `?`.
pub open spec fn protochar_spec(env: PromptEnv, c: char, w: Where, msg: Seq<char>) -> Seq<char> {
    let pl = env.place(w);
    let q = msg.push('?');
    if c == 'b' {
        if pl.byte != NULL_POSITION { msg + int_text(pl.byte as int) } else { q }
    } else if c == 'c' {
        msg + int_text(env.hshift as int)
    } else if c == 'd' {
        if pl.line > 0 && env.sc_height > env.header_lines + 1 {
            msg + int_text(page_num_spec(pl.line as int, env.sc_height as int, env.header_lines as int))
        } else {
            q
        }
    } else if c == 'D' {
        if env.file_len == NULL_POSITION {
            q
        } else if env.file_len == 0 {
            msg + int_text(0)
        } else if env.last_byte_linenum <= 0 || env.sc_height == env.header_lines + 1 {
            q
        } else {
            msg + int_text(page_num_spec(env.last_byte_linenum as int, env.sc_height as int, env.header_lines as int))
        }
    } else if c == 'E' {
        msg + env.editor@
    } else if c == 'f' {
        msg + env.file_name@
    } else if c == 'F' {
        msg + env.file_last@
    } else if c == 'g' {
        msg + env.file_quoted@
    } else if c == 'i' {
        msg + int_text(if env.ntags != 0 { env.curr_tag as int } else { env.ifile_index as int })
    } else if c == 'l' {
        if pl.line != 0 { msg + int_text(pl.line_shown as int) } else { q }
    } else if c == 'L' {
        if env.file_len == NULL_POSITION || env.file_len == 0 || env.last_linenum <= 0 {
            q
        } else {
            msg + int_text(env.last_line_shown as int)
        }
    } else if c == 'm' {
        msg + int_text(if env.ntags != 0 { env.ntags as int } else { env.nifile as int })
    } else if c == 'o' {
        match env.osc8_path {
            Some(o) => msg + o@,
            None => q,
        }
    } else if c == 'p' {
        if pl.byte >= 0 && env.file_len > 0 {
            msg + int_text(percentage_spec(pl.byte as int, env.file_len as int) as int)
        } else {
            q
        }
    } else if c == 'P' {
        if pl.line <= 0 || env.file_len == NULL_POSITION || env.file_len == 0 || env.last_linenum <= 0 {
            q
        } else {
            msg + int_text(percentage_spec(pl.line as int, env.last_linenum as int) as int)
        }
    } else if c == 's' || c == 'B' {
        if env.file_len != NULL_POSITION { msg + int_text(env.file_len as int) } else { q }
    } else if c == 't' {
        trim_end_spec(msg)
    } else if c == 'T' {
        if env.ntags != 0 { msg + "tag"@ } else { msg + "file"@ }
    } else if c == 'x' {
        match env.next_file {
            Some(n) => msg + n@,
            None => q,
        }
    } else {
        msg
    }
}

fn append(msg: &mut Vec<char>, s: &Vec<char>)
    ensures
        final(msg)@ == old(msg)@ + s@,
{
    let mut i: usize = 0;
    let ghost m0 = msg@;
    while i < s.len()
        invariant
            0 <= i <= s@.len(),
            msg@ == m0 + s@.subrange(0, i as int),
        decreases s@.len() - i,
    {
        msg.push(s[i]);
        i = i + 1;
        assert(msg@ =~= m0 + s@.subrange(0, i as int));
    }
    assert(s@.subrange(0, s@.len() as int) =~= s@);
}

fn append_int(msg: &mut Vec<char>, v: i64)
    ensures
        final(msg)@ == old(msg)@ + int_text(v as int),
{
    let s = int_to_string(v);
    let cs = str_to_chars(s.as_str());
    append(msg, &cs);
}

fn append_str(msg: &mut Vec<char>, s: &str)
    ensures
        final(msg)@ == old(msg)@ + s@,
{
    let cs = str_to_chars(s);
    append(msg, &cs);
}

fn trim_end(msg: &mut Vec<char>)
    ensures
        final(msg)@ == trim_end_spec(old(msg)@),
{
    while msg.len() > 0 && is_whitespace(msg[msg.len() - 1])
        invariant
            trim_end_spec(msg@) == trim_end_spec(old(msg)@),
        decreases msg@.len(),
    {
        let ghost before = msg@;
        msg.pop();
        assert(msg@ =~= before.drop_last());
    }
}

/// Carry out the escape `%c` (see `protochar_spec`).
fn protochar(env: &PromptEnv, c: char, w: Where, msg: &mut Vec<char>)
    ensures
        final(msg)@ == protochar_spec(*env, c, w, old(msg)@),
{
    let pl = env.place_exec(w);
    if c == 'b' {
        if pl.byte != NULL_POSITION {
            append_int(msg, pl.byte);
        } else {
            msg.push('?');
        }
    } else if c == 'c' {
        append_int(msg, env.hshift as i64);
    } else if c == 'd' {
        if pl.line > 0 && env.sc_height as i64 > env.header_lines as i64 + 1 {
            let n = page_num(pl.line, env.sc_height, env.header_lines);
            append_int(msg, n);
        } else {
            msg.push('?');
        }
    } else if c == 'D' {
        if env.file_len == NULL_POSITION {
            msg.push('?');
        } else if env.file_len == 0 {
            append_int(msg, 0);
        } else if env.last_byte_linenum <= 0 || env.sc_height as i64 == env.header_lines as i64 + 1 {
            msg.push('?');
        } else {
            proof {
                lemma_page_num_fits(env.last_byte_linenum as int, env.sc_height as int, env.header_lines as int);
            }
            let n = page_num(env.last_byte_linenum, env.sc_height, env.header_lines);
            append_int(msg, n);
        }
    } else if c == 'E' {
        append(msg, &env.editor);
    } else if c == 'f' {
        append(msg, &env.file_name);
    } else if c == 'F' {
        append(msg, &env.file_last);
    } else if c == 'g' {
        append(msg, &env.file_quoted);
    } else if c == 'i' {
        append_int(msg, if env.ntags != 0 {
            env.curr_tag as i64
        } else {
            env.ifile_index as i64
        });
    } else if c == 'l' {
        if pl.line != 0 {
            append_int(msg, pl.line_shown);
        } else {
            msg.push('?');
        }
    } else if c == 'L' {
        if env.file_len == NULL_POSITION || env.file_len == 0 || env.last_linenum <= 0 {
            msg.push('?');
        } else {
            append_int(msg, env.last_line_shown);
        }
    } else if c == 'm' {
        append_int(msg, if env.ntags != 0 {
            env.ntags as i64
        } else {
            env.nifile as i64
        });
    } else if c == 'o' {
        match &env.osc8_path {
            Some(o) => append(msg, o),
            None => msg.push('?'),
        }
    } else if c == 'p' {
        if pl.byte >= 0 && env.file_len > 0 {
            let v = percentage(pl.byte, env.file_len);
            append_int(msg, v as i64);
        } else {
            msg.push('?');
        }
    } else if c == 'P' {
        if pl.line <= 0 || env.file_len == NULL_POSITION || env.file_len == 0 || env.last_linenum <= 0 {
            msg.push('?');
        } else {
            let v = percentage(pl.line, env.last_linenum);
            append_int(msg, v as i64);
        }
    } else if c == 's' || c == 'B' {
        if env.file_len != NULL_POSITION {
            append_int(msg, env.file_len);
        } else {
            msg.push('?');
        }
    } else if c == 't' {
        trim_end(msg);
    } else if c == 'T' {
        if env.ntags != 0 {
            append_str(msg, "tag");
        } else {
            append_str(msg, "file");
        }
    } else if c == 'x' {
        match &env.next_file {
            Some(n) => append(msg, n),
            None => msg.push('?'),
        }
    }
}


/// The message that the prompt prototype `p` gives from index `i` on, after
/// `msg`: characters are copied; `\` escapes the next one; `?c` begins a
/// conditional on the letter `c` (see `cond_spec`), with `:` for "else" and `.`
/// for its end; `%c` is an escape (see `protochar_spec`). A letter of `b`, `d`,
/// `l`, `p`, `P` may be followed by one for the screen position.
pub open spec fn expand_from(env: PromptEnv, p: Seq<char>, i: int, msg: Seq<char>) -> Seq<char>
    decreases p.len() - i,
{
    if i < 0 || i >= p.len() {
        msg
    } else {
        let ch = p[i];
        if ch == '\\' {
            if i + 1 < p.len() {
                expand_from(env, p, i + 2, msg.push(p[i + 1]))
            } else {
                expand_from(env, p, i + 1, msg)
            }
        } else if ch == '?' {
            if i + 1 >= p.len() {
                expand_from(env, p, i + 1, msg)
            } else {
                let wc = wherechar_spec(p, i + 1);
                if cond_spec(env, p[i + 1], wc.0, msg) {
                    expand_from(env, p, wc.1 + 1, msg)
                } else {
                    proof {
                        lemma_skipcond_bounds(p, wc.1, 1);
                    }
                    expand_from(env, p, skipcond_spec(p, wc.1, 1) + 1, msg)
                }
            }
        } else if ch == ':' {
            proof {
                lemma_skipcond_bounds(p, i, 1);
            }
            expand_from(env, p, skipcond_spec(p, i, 1) + 1, msg)
        } else if ch == '.' {
            expand_from(env, p, i + 1, msg)
        } else if ch == '%' {
            if i + 1 >= p.len() {
                expand_from(env, p, i + 1, msg)
            } else {
                let wc = wherechar_spec(p, i + 1);
                expand_from(env, p, wc.1 + 1, protochar_spec(env, p[i + 1], wc.0, msg))
            }
        } else {
            expand_from(env, p, i + 1, msg.push(ch))
        }
    }
}

/// The message that the prompt prototype `proto` gives (see `expand_from`).
pub fn pr_expand(env: &PromptEnv, proto: &str) -> (r: String)
    ensures
        r@ == expand_from(*env, proto@, 0, Seq::empty()),
{
    let p = str_to_chars(proto);
    let n = p.len();
    let mut msg: Vec<char> = Vec::new();
    let mut i: usize = 0;
    while i < n
        invariant
            n == p@.len(),
            p@ == proto@,
            0 <= i <= n,
            expand_from(*env, p@, 0, Seq::empty()) == expand_from(*env, p@, i as int, msg@),
        decreases n - i,
    {
        let ch = p[i];
        if ch == '\\' {
            if i < n - 1 {
                msg.push(p[i + 1]);
                i = i + 2;
            } else {
                i = i + 1;
            }
        } else if ch == '?' {
            if i >= n - 1 {
                i = i + 1;
            } else {
                let wc = wherechar(&p, i + 1);
                if cond(env, p[i + 1], wc.0, &msg) {
                    i = wc.1 + 1;
                } else {
                    proof {
                        lemma_skipcond_bounds(p@, wc.1 as int, 1);
                    }
                    let k = skipcond(&p, wc.1);
                    i = k + 1;
                }
            }
        } else if ch == ':' {
            proof {
                lemma_skipcond_bounds(p@, i as int, 1);
            }
            let k = skipcond(&p, i);
            i = k + 1;
        } else if ch == '.' {
            i = i + 1;
        } else if ch == '%' {
            if i >= n - 1 {
                i = i + 1;
            } else {
                let wc = wherechar(&p, i + 1);
                protochar(env, p[i + 1], wc.0, &mut msg);
                i = wc.1 + 1;
            }
        } else {
            msg.push(ch);
            i = i + 1;
        }
    }
    chars_to_string(msg.as_slice())
}


/// The short prompt.
pub open spec fn s_proto() -> Seq<char> {
    "?n?f%f .?m(%T %i of %m) ..?e(END) ?x- Next\\: %x..%t"@
}

/// The medium prompt.
pub open spec fn m_proto() -> Seq<char> {
    "?n?f%f .?m(%T %i of %m) ..?e(END) ?x- Next\\: %x.:?pB%pB\\%:byte %bB?s/%s...%t"@
}

/// The long prompt.
pub open spec fn long_proto() -> Seq<char> {
    "?f%f .?n?m(%T %i of %m) ..?ltlines %lt-%lb?L/%L. :byte %bB?s/%s. .?e(END) ?x- Next\\: %x.:?pB%pB\\%..%t"@
}

/// The message of the `=` command.
pub open spec fn e_proto() -> Seq<char> {
    "?f%f .?m(%T %i of %m) .?ltlines %lt-%lb?L/%L. .byte %bB?s/%s. ?e(END) :?pB%pB\\%..%t"@
}

/// The prompt in a help file.
pub open spec fn h_proto() -> Seq<char> {
    "HELP -- ?eEND -- Press g to see it again:Press RETURN for more., or q when done"@
}

/// The message while waiting for data.
pub open spec fn w_proto() -> Seq<char> {
    "Waiting for data"@
}

/// The prompt when behaving like `more`.
pub open spec fn more_proto() -> Seq<char> {
    "--More--(?eEND ?x- Next\\: %x.:?pB%pB\\%:byte %bB?s/%s...%t)"@
}

/// The prompt prototypes: short, medium and long, and those of the `=`
/// command, of a help file and of waiting for data.
pub struct Prompts {
    pub prproto: Vec<String>,
    pub eqproto: String,
    pub hproto: String,
    pub wproto: String,
}

/// The initial prompt prototypes; behaving like `more`, the medium prompt is
/// that of `more`.
pub fn init_prompt(less_is_more: bool) -> (r: Prompts)
    ensures
        r.prproto@.len() == 3,
        r.prproto@[0]@ == s_proto(),
        r.prproto@[1]@ == if less_is_more { more_proto() } else { m_proto() },
        r.prproto@[2]@ == long_proto(),
        r.eqproto@ == e_proto(),
        r.hproto@ == h_proto(),
        r.wproto@ == w_proto(),
{
    let mut prproto: Vec<String> = Vec::new();
    prproto.push("?n?f%f .?m(%T %i of %m) ..?e(END) ?x- Next\\: %x..%t".to_string());
    if less_is_more {
        prproto.push("--More--(?eEND ?x- Next\\: %x.:?pB%pB\\%:byte %bB?s/%s...%t)".to_string());
    } else {
        prproto.push("?n?f%f .?m(%T %i of %m) ..?e(END) ?x- Next\\: %x.:?pB%pB\\%:byte %bB?s/%s...%t".to_string());
    }
    prproto.push(
        "?f%f .?n?m(%T %i of %m) ..?ltlines %lt-%lb?L/%L. :byte %bB?s/%s. .?e(END) ?x- Next\\: %x.:?pB%pB\\%..%t".to_string(),
    );
    Prompts {
        prproto,
        eqproto: "?f%f .?m(%T %i of %m) .?ltlines %lt-%lb?L/%L. .byte %bB?s/%s. ?e(END) :?pB%pB\\%..%t".to_string(),
        hproto: "HELP -- ?eEND -- Press g to see it again:Press RETURN for more., or q when done".to_string(),
        wproto: "Waiting for data".to_string(),
    }
}

/// The prompt of type `pr_type` (short, medium, long); behaving like `more`,
/// the long prompt is the short one and the others the medium one. In a help
/// file, the help prompt.
pub open spec fn prompt_index(pr_type: int, less_is_more: bool) -> int {
    if !less_is_more {
        pr_type
    } else if pr_type != 0 {
        0
    } else {
        1
    }
}

/// The prompt (see `prompt_index`).
pub fn pr_string(prompts: &Prompts, env: &PromptEnv, pr_type: usize, less_is_more: bool, helpfile: bool) -> (r: String)
    requires
        prompts.prproto@.len() == 3,
        pr_type < 3,
    ensures
        helpfile ==> r@ == expand_from(*env, prompts.hproto@, 0, Seq::empty()),
        !helpfile ==> r@ == expand_from(
            *env,
            prompts.prproto@[prompt_index(pr_type as int, less_is_more)]@,
            0,
            Seq::empty(),
        ),
{
    let ty: usize = if !less_is_more {
        pr_type
    } else if pr_type != 0 {
        0
    } else {
        1
    };
    if helpfile {
        pr_expand(env, prompts.hproto.as_str())
    } else {
        pr_expand(env, prompts.prproto[ty].as_str())
    }
}

/// The message of the `=` command.
pub fn eq_message(prompts: &Prompts, env: &PromptEnv) -> (r: String)
    ensures
        r@ == expand_from(*env, prompts.eqproto@, 0, Seq::empty()),
{
    pr_expand(env, prompts.eqproto.as_str())
}

/// The message shown while waiting for data.
pub fn wait_message(prompts: &Prompts, env: &PromptEnv) -> (r: String)
    ensures
        r@ == expand_from(*env, prompts.wproto@, 0, Seq::empty()),
{
    pr_expand(env, prompts.wproto.as_str())
}


/// The byte offset that the prompt shows for screen line `wh`, with `pos` the
/// byte offsets of the lines on the screen (`NULL_POSITION` where a line shows
/// nothing of the file): that of the first line from `wh` on that has one,
/// looking no further than line `last`; else the length of the file `len`.
pub open spec fn curr_byte_spec(pos: Seq<i64>, wh: int, last: int, len: i64) -> i64
    decreases last - wh,
{
    let p = if 0 <= wh < pos.len() { pos[wh] } else { NULL_POSITION };
    if p == NULL_POSITION && 0 <= wh < last {
        curr_byte_spec(pos, wh + 1, last, len)
    } else if p == NULL_POSITION {
        len
    } else {
        p
    }
}

/// The byte offset that the prompt shows for screen line `wh` (see
/// `curr_byte_spec`), on a screen of `sc_height` lines whose last line is the
/// prompt; `ch_length` is the length of the file.
pub fn curr_byte(pos: &Vec<i64>, wh: usize, sc_height: i32, ch_length: i64) -> (r: i64)
    ensures
        r == curr_byte_spec(pos@, wh as int, sc_height - 1, ch_length),
{
    let ghost last: int = sc_height - 1;
    let limit: usize = if sc_height <= 1 {
        0
    } else {
        (sc_height - 1) as usize
    };
    let mut w: usize = wh;
    let mut p: i64 = if w < pos.len() {
        pos[w]
    } else {
        NULL_POSITION
    };
    while p == NULL_POSITION && w < limit
        invariant
            last == sc_height - 1,
            limit as int == if last > 0 { last } else { 0 },
            p == (if 0 <= w < pos@.len() { pos@[w as int] } else { NULL_POSITION }),
            curr_byte_spec(pos@, wh as int, last, ch_length) == curr_byte_spec(pos@, w as int, last, ch_length),
        decreases limit - w,
    {
        w = w + 1;
        p = if w < pos.len() {
            pos[w]
        } else {
            NULL_POSITION
        };
    }
    if p == NULL_POSITION {
        ch_length
    } else {
        p
    }
}

} // verus!
