use vstd::prelude::*;

use crate::command::{ignore_check, PasteState};
use crate::defs::{
    A_NOACTION, CC_ERROR, CC_OK, CC_PASS, CC_QUIT, CF_OPTION, CF_QUIT_ON_ERASE, EC_ABORT, EC_BACKSPACE,
    EC_B_COMPLETE, EC_DELETE, EC_DOWN, EC_END, EC_END_PASTE, EC_EXPAND, EC_F_COMPLETE, EC_HOME,
    EC_INSERT, EC_LEFT, EC_LINEKILL, EC_LITERAL, EC_RIGHT, EC_START_PASTE, EC_UP, EC_W_BACKSPACE,
    EC_W_DELETE, EC_W_LEFT, EC_W_RIGHT, ECF_NOCOMPLETE, ECF_NOHISTORY,
};

verus! {

/// Size in bytes of the command buffer (one byte is kept for the end of the text).
pub const CMDBUF_SIZE: usize = 2048;

/// Number of bytes that `c` takes in UTF-8.
pub open spec fn utf8_len(c: char) -> nat {
    if (c as u32) < 0x80 {
        1
    } else if (c as u32) < 0x800 {
        2
    } else if (c as u32) < 0x10000 {
        3
    } else {
        4
    }
}

/// Number of bytes that `s` takes in UTF-8.
pub open spec fn bytes_len(s: Seq<char>) -> nat
    decreases s.len(),
{
    if s.len() == 0 {
        0
    } else {
        bytes_len(s.drop_last()) + utf8_len(s.last())
    }
}

pub fn char_utf8_len(c: char) -> (r: usize)
    ensures
        r == utf8_len(c),
{
    let v = c as u32;
    if v < 0x80 {
        1
    } else if v < 0x800 {
        2
    } else if v < 0x10000 {
        3
    } else {
        4
    }
}

pub proof fn lemma_bytes_len_concat(a: Seq<char>, b: Seq<char>)
    ensures
        bytes_len(a + b) == bytes_len(a) + bytes_len(b),
    decreases b.len(),
{
    if b.len() > 0 {
        lemma_bytes_len_concat(a, b.drop_last());
        assert((a + b).drop_last() =~= a + b.drop_last());
    } else {
        assert(a + b =~= a);
    }
}

proof fn lemma_bytes_len_insert(s: Seq<char>, i: int, c: char)
    requires
        0 <= i <= s.len(),
    ensures
        bytes_len(s.insert(i, c)) == bytes_len(s) + utf8_len(c),
{
    let a = s.subrange(0, i);
    let b = s.subrange(i, s.len() as int);
    assert(s =~= a + b);
    assert(s.insert(i, c) =~= a + (seq![c] + b));
    lemma_bytes_len_concat(a, b);
    lemma_bytes_len_concat(a, seq![c] + b);
    lemma_bytes_len_concat(seq![c], b);
    assert(seq![c].drop_last() =~= Seq::<char>::empty());
    assert(seq![c].last() == c);
    assert(bytes_len(Seq::<char>::empty()) == 0);
    assert(bytes_len(seq![c]) == bytes_len(seq![c].drop_last()) + utf8_len(seq![c].last()));
    assert(bytes_len(seq![c]) == utf8_len(c));
}

/// A character takes at least one byte.
pub proof fn lemma_bytes_len_at_least(s: Seq<char>)
    ensures
        bytes_len(s) >= s.len(),
    decreases s.len(),
{
    if s.len() > 0 {
        lemma_bytes_len_at_least(s.drop_last());
    }
}

proof fn lemma_bytes_len_remove(s: Seq<char>, i: int)
    requires
        0 <= i < s.len(),
    ensures
        bytes_len(s.remove(i)) + utf8_len(s[i]) == bytes_len(s),
{
    lemma_bytes_len_insert(s.remove(i), i, s[i]);
    assert(s.remove(i).insert(i, s[i]) =~= s);
}

/// One remembered command line.
#[derive(Clone, Debug)]
pub struct HistEntry {
    pub text: Vec<char>,
    /// Was it entered in this session (and so not yet in the history file)?
    pub modified: bool,
}

/// A command history: the entries, oldest first, and a position among them for
/// moving up and down. The position `entries.len()` stands for "past the newest".
#[derive(Debug)]
pub struct MList {
    pub entries: Vec<HistEntry>,
    pub curr: usize,
    /// Has anything been added in this session?
    pub modified: bool,
}

/// The texts of the entries of a history.
pub open spec fn hist_texts(entries: Seq<HistEntry>) -> Seq<Seq<char>> {
    entries.map_values(|e: HistEntry| e.text@)
}

impl MList {
    pub fn new() -> (r: Self)
        ensures
            r.entries@.len() == 0,
            r.curr == 0,
            !r.modified,
    {
        MList { entries: Vec::new(), curr: 0, modified: false }
    }

    /// Is the history in good order (its position within bounds)?
    pub open spec fn wf(&self) -> bool {
        self.curr <= self.entries@.len()
    }
}

/// Which history a command line uses.
#[derive(Clone, Copy, Debug, PartialEq, Eq, Structural)]
pub enum HistKind {
    Search,
    Examine,
    Shell,
}

/// The command histories.
#[derive(Debug)]
pub struct Histories {
    pub search: MList,
    pub examine: MList,
    pub shell: MList,
}

impl Histories {
    pub fn new() -> (r: Self)
        ensures
            r.search.wf() && r.examine.wf() && r.shell.wf(),
            r.search.entries@.len() == 0 && r.examine.entries@.len() == 0
                && r.shell.entries@.len() == 0,
    {
        Histories { search: MList::new(), examine: MList::new(), shell: MList::new() }
    }

    pub open spec fn wf(&self) -> bool {
        self.search.wf() && self.examine.wf() && self.shell.wf()
    }
}

/// The command line being edited: its text, the cursor, and the state of the
/// editing commands.
#[derive(Debug)]
pub struct CmdBuf {
    buf: Vec<char>,
    cp: usize,
    nbytes: usize,
    literal: bool,
    updown_match: Option<usize>,
    cmdflags: i32,
    curr_mlist: Option<HistKind>,
    mbc: Vec<u8>,
    mbc_len: usize,
    bell: bool,
    in_completion: bool,
    /// Where the word being completed starts.
    tk_ipoint: usize,
    /// The word being completed, as it was typed.
    tk_original: Vec<char>,
    /// The words offered by the completion in progress, and which are directories.
    tk_words: Vec<Vec<char>>,
    tk_dirs: Vec<bool>,
    /// The word of `tk_words` that was tried last.
    tk_trial: Option<usize>,
}

impl CmdBuf {
    /// The text of the command line.
    pub closed spec fn text(&self) -> Seq<char> {
        self.buf@
    }

    /// The cursor: the index in the text of the character after it.
    pub closed spec fn cursor(&self) -> int {
        self.cp as int
    }

    /// Should the next character be taken literally?
    pub closed spec fn literal_next(&self) -> bool {
        self.literal
    }

    /// The length of the prefix that moving up and down the history must match.
    pub closed spec fn updown(&self) -> Option<usize> {
        self.updown_match
    }

    /// The flags of the current command.
    pub closed spec fn flags(&self) -> i32 {
        self.cmdflags
    }

    /// The history of the current command.
    pub closed spec fn history(&self) -> Option<HistKind> {
        self.curr_mlist
    }

    /// Was the bell rung (and not yet reported)?
    pub closed spec fn rang(&self) -> bool {
        self.bell
    }

    /// The bytes of a multi-byte character that is being entered.
    pub closed spec fn partial(&self) -> Seq<u8> {
        self.mbc@
    }

    /// The number of bytes of the multi-byte character being entered (0: none).
    pub closed spec fn partial_len(&self) -> nat {
        self.mbc_len as nat
    }

    /// Is a completion list being stepped through?
    pub closed spec fn completing(&self) -> bool {
        self.in_completion
    }

    /// The buffer is in good order: the cursor within the text, the text within
    /// the size of the buffer.
    pub closed spec fn wf(&self) -> bool {
        &&& self.cp <= self.buf@.len()
        &&& self.nbytes == bytes_len(self.buf@)
        &&& self.nbytes < CMDBUF_SIZE
        &&& self.mbc@.len() <= 6
        &&& self.mbc_len <= 6
        &&& self.mbc_len > 0 ==> 1 <= self.mbc@.len() < self.mbc_len && self.mbc_len == utf_lead_len(self.mbc@[0])
        &&& self.updown_match matches Some(u) ==> u <= i64::MAX
    }

    /// In a buffer in good order, the prefix length of history moves fits an
    /// `i64`.
    pub proof fn lemma_updown_fits(&self)
        requires
            self.wf(),
        ensures
            self.updown() matches Some(u) ==> u <= i64::MAX,
    {
    }

    pub fn new() -> (r: Self)
        ensures
            r.wf(),
            r.text() == Seq::<char>::empty(),
            r.cursor() == 0,
            !r.literal_next(),
            r.updown() is None,
            r.flags() == 0,
            r.history() is None,
            !r.rang(),
            r.partial_len() == 0,
            !r.completing(),
    {
        CmdBuf {
            buf: Vec::new(),
            cp: 0,
            nbytes: 0,
            literal: false,
            updown_match: None,
            cmdflags: 0,
            curr_mlist: None,
            mbc: Vec::new(),
            mbc_len: 0,
            bell: false,
            in_completion: false,
            tk_ipoint: 0,
            tk_original: Vec::new(),
            tk_words: Vec::new(),
            tk_dirs: Vec::new(),
            tk_trial: None,
        }
    }

    /// Report (and forget) whether the bell was rung.
    pub fn take_bell(&mut self) -> (r: bool)
        requires
            old(self).wf(),
        ensures
            final(self).wf(),
            r == old(self).rang(),
            !final(self).rang(),
            final(self).text() == old(self).text(),
            final(self).cursor() == old(self).cursor(),
            final(self).updown() == old(self).updown(),
            final(self).flags() == old(self).flags(),
            final(self).history() == old(self).history(),
            final(self).literal_next() == old(self).literal_next(),
            final(self).partial_len() == old(self).partial_len(),
    {
        let r = self.bell;
        self.bell = false;
        r
    }

    /// Reset the command buffer to empty.
    pub fn cmd_reset(&mut self)
        requires
            old(self).wf(),
        ensures
            final(self).wf(),
            final(self).text() == Seq::<char>::empty(),
            final(self).cursor() == 0,
            !final(self).literal_next(),
            final(self).partial_len() == 0,
            final(self).updown() is None,
            final(self).flags() == old(self).flags(),
            final(self).history() == old(self).history(),
            final(self).rang() == old(self).rang(),
    {
        self.buf.clear();
        self.cp = 0;
        self.nbytes = 0;
        self.literal = false;
        self.mbc_len = 0;
        self.updown_match = None;
    }

    /// Clear the command line: forget a partly entered character and the prefix
    /// for moving through the history; the text stays.
    pub fn clear_cmd(&mut self)
        requires
            old(self).wf(),
        ensures
            final(self).wf(),
            final(self).text() == old(self).text(),
            final(self).cursor() == old(self).cursor(),
            final(self).partial_len() == 0,
            final(self).updown() is None,
            final(self).flags() == old(self).flags(),
            final(self).history() == old(self).history(),
            final(self).literal_next() == old(self).literal_next(),
            final(self).rang() == old(self).rang(),
    {
        self.mbc_len = 0;
        self.updown_match = None;
    }

    /// How many characters are in the command buffer?
    pub fn len_cmdbuf(&self) -> (r: usize)
        ensures
            r == self.text().len(),
    {
        self.buf.len()
    }

    /// Is the command buffer empty? It is not if there is any text in it, or if a
    /// multi-byte character is being entered but is not yet complete.
    pub fn cmdbuf_empty(&self) -> (r: bool)
        ensures
            r == (self.text().len() == 0 && self.partial_len() == 0),
    {
        self.buf.len() == 0 && self.mbc_len == 0
    }

    /// Move the cursor right one character (nothing at the end of the line).
    pub fn cmd_right(&mut self) -> (r: i32)
        requires
            old(self).wf(),
        ensures
            final(self).wf(),
            r == CC_OK,
            final(self).text() == old(self).text(),
            final(self).cursor() == if old(self).cursor() < old(self).text().len() {
                old(self).cursor() + 1
            } else {
                old(self).cursor()
            },
            final(self).updown() == old(self).updown(),
            final(self).flags() == old(self).flags(),
            final(self).history() == old(self).history(),
            final(self).literal_next() == old(self).literal_next(),
            final(self).partial_len() == old(self).partial_len(),
            final(self).rang() == old(self).rang(),
            final(self).completing() == old(self).completing(),
    {
        if self.cp < self.buf.len() {
            self.cp = self.cp + 1;
        }
        CC_OK
    }

    /// Move the cursor left one character (nothing at the start of the line).
    pub fn cmd_left(&mut self) -> (r: i32)
        requires
            old(self).wf(),
        ensures
            final(self).wf(),
            r == CC_OK,
            final(self).text() == old(self).text(),
            final(self).cursor() == if old(self).cursor() > 0 {
                old(self).cursor() - 1
            } else {
                0
            },
            final(self).updown() == old(self).updown(),
            final(self).flags() == old(self).flags(),
            final(self).history() == old(self).history(),
            final(self).literal_next() == old(self).literal_next(),
            final(self).partial_len() == old(self).partial_len(),
            final(self).rang() == old(self).rang(),
            final(self).completing() == old(self).completing(),
    {
        if self.cp > 0 {
            self.cp = self.cp - 1;
        }
        CC_OK
    }

    /// Put the cursor at the start of the line.
    pub fn cmd_home(&mut self)
        requires
            old(self).wf(),
        ensures
            final(self).wf(),
            final(self).text() == old(self).text(),
            final(self).cursor() == 0,
            final(self).updown() == old(self).updown(),
            final(self).flags() == old(self).flags(),
            final(self).history() == old(self).history(),
            final(self).literal_next() == old(self).literal_next(),
            final(self).partial_len() == old(self).partial_len(),
            final(self).rang() == old(self).rang(),
            final(self).completing() == old(self).completing(),
    {
        self.cp = 0;
    }

    /// Put the cursor at the end of the line.
    pub fn cmd_end(&mut self)
        requires
            old(self).wf(),
        ensures
            final(self).wf(),
            final(self).text() == old(self).text(),
            final(self).cursor() == old(self).text().len(),
            final(self).updown() == old(self).updown(),
            final(self).flags() == old(self).flags(),
            final(self).history() == old(self).history(),
            final(self).literal_next() == old(self).literal_next(),
            final(self).partial_len() == old(self).partial_len(),
            final(self).rang() == old(self).rang(),
            final(self).completing() == old(self).completing(),
    {
        self.cp = self.buf.len();
    }

    /// Insert a character into the command buffer, at the cursor, and move the
    /// cursor past it. If there is no room for it, ring the bell and fail.
    pub fn cmd_ichar(&mut self, c: char) -> (r: i32)
        requires
            old(self).wf(),
        ensures
            final(self).wf(),
            bytes_len(old(self).text()) + utf8_len(c) >= CMDBUF_SIZE - 1 ==> {
                &&& r == CC_ERROR
                &&& final(self).rang()
                &&& final(self).text() == old(self).text()
                &&& final(self).cursor() == old(self).cursor()
                &&& final(self).updown() == old(self).updown()
            },
            bytes_len(old(self).text()) + utf8_len(c) < CMDBUF_SIZE - 1 ==> {
                &&& r == CC_OK
                &&& final(self).text() == old(self).text().insert(old(self).cursor(), c)
                &&& final(self).cursor() == old(self).cursor() + 1
                &&& final(self).updown() is None
                &&& final(self).rang() == old(self).rang()
            },
            final(self).flags() == old(self).flags(),
            final(self).history() == old(self).history(),
            final(self).literal_next() == old(self).literal_next(),
            final(self).partial_len() == old(self).partial_len(),
            old(self).keeps_completion(&*final(self)),
    {
        let clen = char_utf8_len(c);
        if self.nbytes + clen >= CMDBUF_SIZE - 1 {
            self.bell = true;
            return CC_ERROR;
        }
        proof {
            lemma_bytes_len_insert(self.buf@, self.cp as int, c);
            lemma_bytes_len_at_least(self.buf@);
        }
        self.buf.insert(self.cp, c);
        self.nbytes = self.nbytes + clen;
        self.updown_match = None;
        self.cp = self.cp + 1;
        CC_OK
    }

    /// Remove the character before the cursor (the cursor moves left over it).
    fn remove_before(&mut self)
        requires
            old(self).wf(),
            old(self).cursor() > 0,
        ensures
            final(self).wf(),
            final(self).text() == old(self).text().remove(old(self).cursor() - 1),
            final(self).cursor() == old(self).cursor() - 1,
            final(self).updown() is None,
            final(self).flags() == old(self).flags(),
            final(self).history() == old(self).history(),
            final(self).literal_next() == old(self).literal_next(),
            final(self).partial_len() == old(self).partial_len(),
            final(self).rang() == old(self).rang(),
            old(self).keeps_completion(&*final(self)),
    {
        proof {
            lemma_bytes_len_remove(self.buf@, self.cp - 1);
        }
        let c = self.buf.remove(self.cp - 1);
        let clen = char_utf8_len(c);
        self.nbytes = self.nbytes - clen;
        self.cp = self.cp - 1;
        self.updown_match = None;
    }

    /// Backspace: delete the character before the cursor. At the start of the
    /// line this asks to abort the command; so does erasing the whole line when
    /// the command was started with `CF_QUIT_ON_ERASE`.
    pub fn cmd_erase(&mut self) -> (r: i32)
        requires
            old(self).wf(),
        ensures
            final(self).wf(),
            old(self).cursor() == 0 ==> r == CC_QUIT && final(self).text() == old(self).text()
                && final(self).cursor() == 0 && final(self).updown() == old(self).updown(),
            old(self).cursor() > 0 ==> {
                &&& final(self).text() == old(self).text().remove(old(self).cursor() - 1)
                &&& final(self).cursor() == old(self).cursor() - 1
                &&& final(self).updown() is None
                &&& r == if (old(self).flags() & CF_QUIT_ON_ERASE) != 0 && final(self).text().len() == 0 {
                    CC_QUIT
                } else {
                    CC_OK
                }
            },
            final(self).flags() == old(self).flags(),
            final(self).history() == old(self).history(),
            final(self).literal_next() == old(self).literal_next(),
            final(self).partial_len() == old(self).partial_len(),
            final(self).rang() == old(self).rang(),
            final(self).completing() == old(self).completing(),
    {
        if self.cp == 0 {
            return CC_QUIT;
        }
        self.remove_before();
        if (self.cmdflags & CF_QUIT_ON_ERASE) != 0 && self.buf.len() == 0 {
            return CC_QUIT;
        }
        CC_OK
    }

    /// Delete the character under the cursor (nothing at the end of the line).
    pub fn cmd_delete(&mut self) -> (r: i32)
        requires
            old(self).wf(),
        ensures
            final(self).wf(),
            r == CC_OK,
            old(self).cursor() == old(self).text().len() ==> final(self).text() == old(self).text() && final(self).updown() == old(self).updown(),
            old(self).cursor() < old(self).text().len() ==> final(self).text() == old(self).text().remove(old(self).cursor()) && final(self).updown() is None,
            final(self).cursor() == old(self).cursor(),
            final(self).flags() == old(self).flags(),
            final(self).history() == old(self).history(),
            final(self).literal_next() == old(self).literal_next(),
            final(self).partial_len() == old(self).partial_len(),
            final(self).rang() == old(self).rang(),
            final(self).completing() == old(self).completing(),
    {
        if self.cp == self.buf.len() {
            return CC_OK;
        }
        self.cp = self.cp + 1;
        self.remove_before();
        CC_OK
    }
}

/// Start of the run of spaces (`sp`) or non-spaces (not `sp`) that ends at `i`.
pub open spec fn run_start(t: Seq<char>, i: int, sp: bool) -> int
    decreases i,
{
    if 0 < i <= t.len() && (t[i - 1] == ' ') == sp {
        run_start(t, i - 1, sp)
    } else {
        i
    }
}

/// End of the run of spaces (`sp`) or non-spaces (not `sp`) that starts at `i`.
pub open spec fn run_end(t: Seq<char>, i: int, sp: bool) -> int
    decreases t.len() - i,
{
    if 0 <= i < t.len() && (t[i] == ' ') == sp {
        run_end(t, i + 1, sp)
    } else {
        i
    }
}

pub proof fn lemma_run_start_bounds(t: Seq<char>, i: int, sp: bool)
    requires
        0 <= i <= t.len(),
    ensures
        0 <= run_start(t, i, sp) <= i,
    decreases i,
{
    if 0 < i && (t[i - 1] == ' ') == sp {
        lemma_run_start_bounds(t, i - 1, sp);
    }
}

pub proof fn lemma_run_end_bounds(t: Seq<char>, i: int, sp: bool)
    requires
        0 <= i <= t.len(),
    ensures
        i <= run_end(t, i, sp) <= t.len(),
    decreases t.len() - i,
{
    if i < t.len() && (t[i] == ' ') == sp {
        lemma_run_end_bounds(t, i + 1, sp);
    }
}

/// Where the word left of the cursor starts, for deleting it: the run of spaces
/// before the cursor if the character there is a space, else the run of non-spaces.
pub open spec fn werase_start(t: Seq<char>, cp: int) -> int {
    if cp > 0 && t[cp - 1] == ' ' {
        run_start(t, cp, true)
    } else {
        run_start(t, cp, false)
    }
}

/// Where the word under the cursor ends, for deleting it.
pub open spec fn wdelete_end(t: Seq<char>, cp: int) -> int {
    if cp < t.len() && t[cp] == ' ' {
        run_end(t, cp, true)
    } else {
        run_end(t, cp, false)
    }
}

/// The next position in a history of `n` entries, going up (older) or down;
/// `n` stands for "past the newest".
pub open spec fn hist_step(x: int, n: int, up: bool) -> int {
    if up {
        if x == 0 {
            n
        } else {
            x - 1
        }
    } else {
        if x == n {
            0
        } else {
            x + 1
        }
    }
}

/// Do the first `m` characters of `e` and `t` agree (as C strings, which end
/// with a NUL)?
pub open spec fn prefix_agrees(e: Seq<char>, t: Seq<char>, m: int) -> bool {
    forall|i: int|
        0 <= i < m ==> crate::opttbl::char_or_nul(e, i) == crate::opttbl::char_or_nul(t, i)
}

/// The first history entry after `x`, going up or down (at most `fuel` steps and
/// not past either end), whose first `m` characters agree with `t`.
pub open spec fn find_hist_match(entries: Seq<Seq<char>>, t: Seq<char>, m: int, x: int, up: bool, fuel: nat) -> Option<
    int,
>
    decreases fuel,
{
    if fuel == 0 {
        None
    } else {
        let y = hist_step(x, entries.len() as int, up);
        if y == entries.len() || y < 0 || y > entries.len() {
            None
        } else if prefix_agrees(entries[y], t, m) {
            Some(y)
        } else {
            find_hist_match(entries, t, m, y, up, (fuel - 1) as nat)
        }
    }
}

proof fn lemma_find_hist_match_range(entries: Seq<Seq<char>>, t: Seq<char>, m: int, x: int, up: bool, fuel: nat)
    ensures
        find_hist_match(entries, t, m, x, up, fuel) matches Some(y) ==> 0 <= y < entries.len()
            && prefix_agrees(entries[y], t, m),
    decreases fuel,
{
    if fuel > 0 {
        let y = hist_step(x, entries.len() as int, up);
        if !(y == entries.len() || y < 0 || y > entries.len()) && !prefix_agrees(entries[y], t, m) {
            lemma_find_hist_match_range(entries, t, m, y, up, (fuel - 1) as nat);
        }
    }
}

fn prefix_agrees_exec(e: &Vec<char>, t: &Vec<char>, m: usize) -> (r: bool)
    ensures
        r == prefix_agrees(e@, t@, m as int),
{
    let mut i: usize = 0;
    while i < m
        invariant
            0 <= i <= m,
            forall|k: int|
                0 <= k < i ==> crate::opttbl::char_or_nul(e@, k) == crate::opttbl::char_or_nul(
                    t@,
                    k,
                ),
        decreases m - i,
    {
        let a = if i < e.len() {
            e[i]
        } else {
            '\0'
        };
        let b = if i < t.len() {
            t[i]
        } else {
            '\0'
        };
        if a != b {
            assert(crate::opttbl::char_or_nul(e@, i as int) != crate::opttbl::char_or_nul(t@, i as int));
            return false;
        }
        i = i + 1;
    }
    true
}

/// The entries of a history as (text, modified) pairs.
pub open spec fn entry_views(entries: Seq<HistEntry>) -> Seq<(Seq<char>, bool)> {
    entries.map_values(|e: HistEntry| (e.text@, e.modified))
}

/// The entries of a history with the command `cmd` added, as `cmd_addhist` does
/// it: with `no_dups`, earlier copies of `cmd` are dropped; `cmd` is appended
/// unless it is already the newest entry.
pub open spec fn addhist_spec(entries: Seq<(Seq<char>, bool)>, cmd: Seq<char>, modified: bool, no_dups: bool) -> Seq<
    (Seq<char>, bool),
> {
    let kept = if no_dups {
        entries.filter(|e: (Seq<char>, bool)| e.0 != cmd)
    } else {
        entries
    };
    if kept.len() == 0 || kept.last().0 != cmd {
        kept.push((cmd, modified))
    } else {
        kept
    }
}

fn vec_eq(a: &Vec<char>, b: &Vec<char>) -> (r: bool)
    ensures
        r == (a@ == b@),
{
    if a.len() != b.len() {
        return false;
    }
    let mut i: usize = 0;
    while i < a.len()
        invariant
            a@.len() == b@.len(),
            0 <= i <= a@.len(),
            forall|k: int| 0 <= k < i ==> a@[k] == b@[k],
        decreases a@.len() - i,
    {
        if a[i] != b[i] {
            return false;
        }
        i = i + 1;
    }
    assert(a@ =~= b@);
    true
}

impl CmdBuf {
    /// `other` has the flags, history, literal mode and partial character of `self`.
    pub open spec fn same_mode(&self, other: &CmdBuf) -> bool {
        &&& other.flags() == self.flags()
        &&& other.history() == self.history()
        &&& other.literal_next() == self.literal_next()
        &&& other.partial_len() == self.partial_len()
    }

    /// `other` has the completion state of `self`.
    pub closed spec fn keeps_completion(&self, other: &CmdBuf) -> bool {
        &&& other.in_completion == self.in_completion
        &&& other.tk_ipoint == self.tk_ipoint
        &&& other.tk_original@ == self.tk_original@
        &&& other.tk_words@ == self.tk_words@
        &&& other.tk_dirs@ == self.tk_dirs@
        &&& other.tk_trial == self.tk_trial
    }

    /// Delete the "word" to the left of the cursor: the spaces just before the
    /// cursor, if the character there is a space, else the non-spaces.
    pub fn cmd_werase(&mut self) -> (r: i32)
        requires
            old(self).wf(),
        ensures
            final(self).wf(),
            r == CC_OK,
            final(self).text() == old(self).text().subrange(
                0,
                werase_start(old(self).text(), old(self).cursor()),
            ) + old(self).text().subrange(old(self).cursor(), old(self).text().len() as int),
            final(self).cursor() == werase_start(old(self).text(), old(self).cursor()),
            werase_start(old(self).text(), old(self).cursor()) == old(self).cursor() ==> final(
                self).updown() == old(self).updown(),
            old(self).same_mode(&*final(self)),
            final(self).rang() == old(self).rang(),
            final(self).completing() == old(self).completing(),
    {
        let ghost t = self.buf@;
        let ghost cp0 = self.cp as int;
        let sp = self.cp > 0 && self.buf[self.cp - 1] == ' ';
        let ghost j = run_start(t, cp0, sp);
        proof {
            lemma_run_start_bounds(t, cp0, sp);
            assert(t =~= t.subrange(0, cp0) + t.subrange(cp0, t.len() as int));
        }
        while self.cp > 0 && (self.buf[self.cp - 1] == ' ') == sp
            invariant
                self.in_completion == old(self).in_completion,
                self.wf(),
                0 <= j <= self.cp <= cp0,
                cp0 <= t.len(),
                j == run_start(t, cp0, sp),
                run_start(t, cp0, sp) == run_start(t, self.cp as int, sp),
                self.buf@ == t.subrange(0, self.cp as int) + t.subrange(cp0, t.len() as int),
                self.cp as int == cp0 ==> self.updown_match == old(self).updown_match,
                self.cmdflags == old(self).cmdflags,
                self.curr_mlist == old(self).curr_mlist,
                self.literal == old(self).literal,
                self.mbc_len == old(self).mbc_len,
                self.bell == old(self).bell,
            decreases self.cp,
        {
            let ghost before = self.buf@;
            let k = self.cp;
            assert(self.buf@[k - 1] == t[k - 1]);
            proof {
                lemma_run_start_bounds(t, k - 1, sp);
            }
            self.remove_before();
            assert(self.buf@ =~= t.subrange(0, self.cp as int) + t.subrange(cp0, t.len() as int));
        }
        CC_OK
    }

    /// Delete the "word" under the cursor: the spaces from the cursor on, if the
    /// character there is a space, else the non-spaces.
    pub fn cmd_wdelete(&mut self) -> (r: i32)
        requires
            old(self).wf(),
        ensures
            final(self).wf(),
            r == CC_OK,
            final(self).text() == old(self).text().subrange(0, old(self).cursor()) + old(
                self).text().subrange(
                wdelete_end(old(self).text(), old(self).cursor()),
                old(self).text().len() as int,
            ),
            final(self).cursor() == old(self).cursor(),
            wdelete_end(old(self).text(), old(self).cursor()) == old(self).cursor() ==> final(
                self).updown() == old(self).updown(),
            old(self).same_mode(&*final(self)),
            final(self).rang() == old(self).rang(),
            final(self).completing() == old(self).completing(),
    {
        let ghost t = self.buf@;
        let cp0 = self.cp;
        let sp = self.cp < self.buf.len() && self.buf[self.cp] == ' ';
        let ghost e = run_end(t, cp0 as int, sp);
        let len0 = self.buf.len();
        let mut k: usize = cp0;
        proof {
            lemma_run_end_bounds(t, cp0 as int, sp);
            assert(t =~= t.subrange(0, cp0 as int) + t.subrange(cp0 as int, t.len() as int));
        }
        while self.cp < self.buf.len() && (self.buf[self.cp] == ' ') == sp
            invariant
                self.in_completion == old(self).in_completion,
                self.wf(),
                self.cp == cp0,
                cp0 <= k <= e <= t.len(),
                t.len() == len0,
                e == run_end(t, cp0 as int, sp),
                run_end(t, cp0 as int, sp) == run_end(t, k as int, sp),
                self.buf@ == t.subrange(0, cp0 as int) + t.subrange(k as int, t.len() as int),
                k == cp0 ==> self.updown_match == old(self).updown_match,
                self.cmdflags == old(self).cmdflags,
                self.curr_mlist == old(self).curr_mlist,
                self.literal == old(self).literal,
                self.mbc_len == old(self).mbc_len,
                self.bell == old(self).bell,
            decreases t.len() - k,
        {
            assert(self.buf@.len() == cp0 + t.len() - k);
            assert(k < t.len());
            assert(self.buf@[cp0 as int] == t[k as int]);
            proof {
                lemma_run_end_bounds(t, k + 1, sp);
            }
            self.cp = self.cp + 1;
            self.remove_before();
            k = k + 1;
            assert(self.buf@ =~= t.subrange(0, cp0 as int) + t.subrange(k as int, t.len() as int));
        }
        proof {
            if !(k < t.len()) {
                assert(run_end(t, k as int, sp) == k);
            } else {
                assert(self.buf@[cp0 as int] == t[k as int]);
            }
        }
        CC_OK
    }

    /// Delete all characters in the command buffer. On an empty buffer this asks
    /// to abort the command, as it does with `CF_QUIT_ON_ERASE`.
    pub fn cmd_kill(&mut self) -> (r: i32)
        requires
            old(self).wf(),
        ensures
            final(self).wf(),
            old(self).text().len() == 0 ==> r == CC_QUIT && final(self).text() == old(self).text()
                && final(self).cursor() == old(self).cursor() && final(self).updown() == old(
                self).updown(),
            old(self).text().len() > 0 ==> {
                &&& final(self).text() == Seq::<char>::empty()
                &&& final(self).cursor() == 0
                &&& final(self).updown() is None
                &&& r == if (old(self).flags() & CF_QUIT_ON_ERASE) != 0 {
                    CC_QUIT
                } else {
                    CC_OK
                }
            },
            old(self).same_mode(&*final(self)),
            final(self).rang() == old(self).rang(),
            final(self).completing() == old(self).completing(),
    {
        if self.buf.len() == 0 {
            return CC_QUIT;
        }
        self.buf.clear();
        self.nbytes = 0;
        self.cp = 0;
        self.updown_match = None;
        if (self.cmdflags & CF_QUIT_ON_ERASE) != 0 {
            return CC_QUIT;
        }
        CC_OK
    }

    /// Move the cursor to the start of the next word: past the non-spaces, then
    /// past the spaces.
    pub fn cmd_word_right(&mut self)
        requires
            old(self).wf(),
        ensures
            final(self).wf(),
            final(self).text() == old(self).text(),
            final(self).cursor() == run_end(
                old(self).text(),
                run_end(old(self).text(), old(self).cursor(), false),
                true,
            ),
            final(self).updown() == old(self).updown(),
            old(self).same_mode(&*final(self)),
            final(self).rang() == old(self).rang(),
            final(self).completing() == old(self).completing(),
    {
        let ghost t = self.buf@;
        let ghost c0 = self.cp as int;
        proof {
            lemma_run_end_bounds(t, c0, false);
        }
        while self.cp < self.buf.len() && self.buf[self.cp] != ' '
            invariant
                self.in_completion == old(self).in_completion,
                self.wf(),
                self.buf@ == t,
                c0 <= self.cp,
                run_end(t, c0, false) == run_end(t, self.cp as int, false),
                self.updown_match == old(self).updown_match,
                self.cmdflags == old(self).cmdflags,
                self.curr_mlist == old(self).curr_mlist,
                self.literal == old(self).literal,
                self.mbc_len == old(self).mbc_len,
                self.bell == old(self).bell,
            decreases t.len() - self.cp,
        {
            self.cp = self.cp + 1;
        }
        let ghost c1 = self.cp as int;
        proof {
            lemma_run_end_bounds(t, c1, true);
        }
        while self.cp < self.buf.len() && self.buf[self.cp] == ' '
            invariant
                self.in_completion == old(self).in_completion,
                self.wf(),
                self.buf@ == t,
                c1 <= self.cp,
                c1 == run_end(t, c0, false),
                run_end(t, c1, true) == run_end(t, self.cp as int, true),
                self.updown_match == old(self).updown_match,
                self.cmdflags == old(self).cmdflags,
                self.curr_mlist == old(self).curr_mlist,
                self.literal == old(self).literal,
                self.mbc_len == old(self).mbc_len,
                self.bell == old(self).bell,
            decreases t.len() - self.cp,
        {
            self.cp = self.cp + 1;
        }
    }

    /// Move the cursor to the start of the previous word: back over the spaces,
    /// then over the non-spaces.
    pub fn cmd_word_left(&mut self)
        requires
            old(self).wf(),
        ensures
            final(self).wf(),
            final(self).text() == old(self).text(),
            final(self).cursor() == run_start(
                old(self).text(),
                run_start(old(self).text(), old(self).cursor(), true),
                false,
            ),
            final(self).updown() == old(self).updown(),
            old(self).same_mode(&*final(self)),
            final(self).rang() == old(self).rang(),
            final(self).completing() == old(self).completing(),
    {
        let ghost t = self.buf@;
        let ghost c0 = self.cp as int;
        while self.cp > 0 && self.buf[self.cp - 1] == ' '
            invariant
                self.in_completion == old(self).in_completion,
                self.wf(),
                self.buf@ == t,
                self.cp <= c0,
                run_start(t, c0, true) == run_start(t, self.cp as int, true),
                self.updown_match == old(self).updown_match,
                self.cmdflags == old(self).cmdflags,
                self.curr_mlist == old(self).curr_mlist,
                self.literal == old(self).literal,
                self.mbc_len == old(self).mbc_len,
                self.bell == old(self).bell,
            decreases self.cp,
        {
            self.cp = self.cp - 1;
        }
        let ghost c1 = self.cp as int;
        while self.cp > 0 && self.buf[self.cp - 1] != ' '
            invariant
                self.in_completion == old(self).in_completion,
                self.wf(),
                self.buf@ == t,
                self.cp <= c1,
                c1 == run_start(t, c0, true),
                run_start(t, c1, false) == run_start(t, self.cp as int, false),
                self.updown_match == old(self).updown_match,
                self.cmdflags == old(self).cmdflags,
                self.curr_mlist == old(self).curr_mlist,
                self.literal == old(self).literal,
                self.mbc_len == old(self).mbc_len,
                self.bell == old(self).bell,
            decreases self.cp,
        {
            self.cp = self.cp - 1;
        }
    }
}

/// Number of bytes of `v` in UTF-8, if fewer than `CMDBUF_SIZE`.
fn bytes_len_below_limit(v: &Vec<char>) -> (r: Option<usize>)
    ensures
        r matches Some(n) ==> n == bytes_len(v@) && n < CMDBUF_SIZE,
        r is None ==> bytes_len(v@) >= CMDBUF_SIZE,
{
    let mut total: usize = 0;
    let mut i: usize = 0;
    while i < v.len()
        invariant
            0 <= i <= v@.len(),
            total == bytes_len(v@.subrange(0, i as int)),
            total < CMDBUF_SIZE,
        decreases v@.len() - i,
    {
        proof {
            assert(v@.subrange(0, i + 1).drop_last() =~= v@.subrange(0, i as int));
        }
        total = total + char_utf8_len(v[i]);
        i = i + 1;
        if total >= CMDBUF_SIZE {
            proof {
                lemma_bytes_len_concat(v@.subrange(0, i as int), v@.subrange(i as int, v@.len() as int));
                assert(v@ =~= v@.subrange(0, i as int) + v@.subrange(i as int, v@.len() as int));
            }
            return None;
        }
    }
    assert(v@.subrange(0, i as int) =~= v@);
    Some(total)
}

impl MList {
    /// The number of entries.
    pub fn mlist_size(&self) -> (r: usize)
        ensures
            r == self.entries@.len(),
    {
        self.entries.len()
    }

    /// The entry that moving up (`up`) or down from the current position finds
    /// first, whose first `m` characters agree with `text`.
    pub fn find_updown(&self, text: &Vec<char>, m: usize, up: bool) -> (r: Option<usize>)
        requires
            self.wf(),
        ensures
            r matches Some(y) ==> find_hist_match(
                hist_texts(self.entries@),
                text@,
                m as int,
                self.curr as int,
                up,
                (self.entries@.len() + 1) as nat,
            ) == Some(y as int),
            r is None ==> find_hist_match(
                hist_texts(self.entries@),
                text@,
                m as int,
                self.curr as int,
                up,
                (self.entries@.len() + 1) as nat,
            ) is None,
            r matches Some(y) ==> y < self.entries@.len(),
    {
        let n = self.entries.len();
        let ghost es = hist_texts(self.entries@);
        let mut x = self.curr;
        let mut fuel: u128 = n as u128 + 1;
        proof {
            lemma_find_hist_match_range(es, text@, m as int, x as int, up, fuel as nat);
        }
        while fuel > 0
            invariant
                n == self.entries@.len(),
                es == hist_texts(self.entries@),
                x <= n,
                fuel <= n + 1,
                find_hist_match(es, text@, m as int, self.curr as int, up, (n + 1) as nat)
                    == find_hist_match(es, text@, m as int, x as int, up, fuel as nat),
            decreases fuel,
        {
            let y = if up {
                if x == 0 {
                    n
                } else {
                    x - 1
                }
            } else {
                if x == n {
                    0
                } else {
                    x + 1
                }
            };
            if y == n {
                return None;
            }
            if prefix_agrees_exec(&self.entries[y].text, text, m) {
                return Some(y);
            }
            x = y;
            fuel = fuel - 1;
        }
        None
    }
}

/// Add a command to a history, as `addhist_spec` says: not an empty one; with
/// `no_hist_dups`, earlier copies are dropped; a copy of the newest entry is not
/// added again. Afterwards an "up" move finds the newest entry first.
pub fn cmd_addhist(ml: &mut MList, cmd: &Vec<char>, modified: bool, no_hist_dups: bool)
    ensures
        cmd@.len() == 0 ==> final(ml).entries@ == old(ml).entries@ && final(ml).curr == old(ml).curr,
        cmd@.len() > 0 ==> entry_views(final(ml).entries@) == addhist_spec(
            entry_views(old(ml).entries@),
            cmd@,
            modified,
            no_hist_dups,
        ) && final(ml).curr == final(ml).entries@.len(),
        final(ml).wf() || cmd@.len() == 0,
        final(ml).modified == old(ml).modified,
{
    if cmd.len() == 0 {
        return;
    }
    let ghost ev0 = entry_views(ml.entries@);
    if no_hist_dups {
        let mut kept: Vec<HistEntry> = Vec::new();
        let mut i: usize = 0;
        while i < ml.entries.len()
            invariant
                0 <= i <= ml.entries@.len(),
                ev0 == entry_views(ml.entries@),
                entry_views(kept@) == ev0.subrange(0, i as int).filter(
                    |e: (Seq<char>, bool)| e.0 != cmd@,
                ),
            decreases ml.entries@.len() - i,
        {
            let ghost before = entry_views(kept@);
            proof {
                assert(ev0.subrange(0, i + 1).drop_last() =~= ev0.subrange(0, i as int));
                reveal(Seq::filter);
            }
            if !vec_eq(&ml.entries[i].text, cmd) {
                let e = HistEntry { text: ml.entries[i].text.clone(), modified: ml.entries[i].modified };
                proof {
                    assert(e.text@ =~= ml.entries@[i as int].text@);
                }
                kept.push(e);
                assert(entry_views(kept@) =~= before.push(ev0[i as int]));
            } else {
                assert(entry_views(kept@) =~= before);
            }
            proof {
                assert(ev0.subrange(0, i + 1).last() == ev0[i as int]);
            }
            i = i + 1;
        }
        assert(ev0.subrange(0, i as int) =~= ev0);
        ml.entries = kept;
    }
    let ghost kept_v = entry_views(ml.entries@);
    let n = ml.entries.len();
    let same_as_last = n > 0 && vec_eq(&ml.entries[n - 1].text, cmd);
    if !same_as_last {
        let e = HistEntry { text: cmd.clone(), modified };
        proof {
            assert(e.text@ =~= cmd@);
        }
        ml.entries.push(e);
        assert(entry_views(ml.entries@) =~= kept_v.push((cmd@, modified)));
    }
    ml.curr = ml.entries.len();
}

/// The history of kind `k`.
pub open spec fn hist_of(h: Histories, k: HistKind) -> MList {
    match k {
        HistKind::Search => h.search,
        HistKind::Examine => h.examine,
        HistKind::Shell => h.shell,
    }
}

/// `h` with the history of kind `k` replaced by `ml`.
pub open spec fn with_hist(h: Histories, k: HistKind, ml: MList) -> Histories {
    match k {
        HistKind::Search => Histories { search: ml, ..h },
        HistKind::Examine => Histories { examine: ml, ..h },
        HistKind::Shell => Histories { shell: ml, ..h },
    }
}

impl Histories {
    pub fn get(&self, k: HistKind) -> (r: &MList)
        ensures
            *r == hist_of(*self, k),
    {
        match k {
            HistKind::Search => &self.search,
            HistKind::Examine => &self.examine,
            HistKind::Shell => &self.shell,
        }
    }

    fn set_curr(&mut self, k: HistKind, c: usize)
        ensures
            *final(self) == with_hist(*old(self), k, MList { curr: c, ..hist_of(*old(self), k) }),
    {
        match k {
            HistKind::Search => {
                self.search.curr = c;
            },
            HistKind::Examine => {
                self.examine.curr = c;
            },
            HistKind::Shell => {
                self.shell.curr = c;
            },
        }
    }
}

/// What `cmd_updown` does with `action`: `a` and `ha` before, `b` and `hb` after,
/// `r` its result.
pub open spec fn updown_result(a: CmdBuf, ha: Histories, action: i32, b: CmdBuf, hb: Histories, r: i32) -> bool {
    &&& r == CC_OK
    &&& a.same_mode(&b)
    &&& a.history() is None ==> {
        &&& b.rang()
        &&& b.text() == a.text()
        &&& b.cursor() == a.cursor()
        &&& b.updown() == a.updown()
        &&& hb == ha
    }
    &&& a.history() matches Some(k) ==> {
        let m = match a.updown() {
            Some(u) => u as int,
            None => a.cursor(),
        };
        let ml = hist_of(ha, k);
        let found = find_hist_match(
            hist_texts(ml.entries@),
            a.text(),
            m,
            ml.curr as int,
            action == EC_UP,
            (ml.entries@.len() + 1) as nat,
        );
        let y = found.unwrap();
        let usable = found is Some && bytes_len(ml.entries@[y].text@) < CMDBUF_SIZE;
        &&& b.updown() == Some(m as usize)
        &&& usable ==> {
            &&& b.text() == ml.entries@[y].text@
            &&& b.cursor() == b.text().len()
            &&& hb == with_hist(ha, k, MList { curr: y as usize, ..ml })
            &&& b.rang() == a.rang()
        }
        &&& !usable ==> {
            &&& b.rang()
            &&& b.text() == a.text()
            &&& b.cursor() == a.cursor()
            &&& hb == ha
        }
    }
}


/// What accepting the command line `a` does to the histories `ha`, giving `hb`:
/// a line with a history (other than that of file names to examine) is added
/// to it (see `addhist_spec`), which is then marked modified.
pub open spec fn accept_result(a: CmdBuf, ha: Histories, no_hist_dups: bool, hb: Histories) -> bool {
    &&& (a.history() is None || a.history() == Some(HistKind::Examine)) ==> hb == ha
    &&& (a.history() is Some && a.history().unwrap() != HistKind::Examine) ==> {
        let k = a.history().unwrap();
        let ml = hist_of(ha, k);
        let ml2 = hist_of(hb, k);
        &&& hb == with_hist(ha, k, ml2)
        &&& ml2.modified
        &&& a.text().len() == 0 ==> ml2.entries@ == ml.entries@ && ml2.curr == ml.curr
        &&& a.text().len() > 0 ==> entry_views(ml2.entries@) == addhist_spec(
            entry_views(ml.entries@),
            a.text(),
            true,
            no_hist_dups,
        ) && ml2.curr == ml2.entries@.len()
    }
}

impl CmdBuf {
    /// Select the history of the current command (none for `None`) and its flags.
    /// The next "up" move starts from the newest entry.
    pub fn set_mlist(&mut self, hists: &mut Histories, kind: Option<HistKind>, cmdflags: i32)
        requires
            old(self).wf(),
        ensures
            final(self).wf(),
            final(self).history() == kind,
            final(self).flags() == cmdflags,
            final(self).text() == old(self).text(),
            final(self).cursor() == old(self).cursor(),
            final(self).updown() == old(self).updown(),
            final(self).literal_next() == old(self).literal_next(),
            final(self).partial_len() == old(self).partial_len(),
            final(self).rang() == old(self).rang(),
            kind is None ==> *final(hists) == *old(hists),
            kind matches Some(k) ==> *final(hists) == with_hist(
                *old(hists),
                k,
                MList { curr: hist_of(*old(hists), k).entries@.len() as usize, ..hist_of(*old(hists), k) },
            ),
    {
        self.curr_mlist = kind;
        self.cmdflags = cmdflags;
        if let Some(k) = kind {
            let n = hists.get(k).entries.len();
            hists.set_curr(k, n);
        }
    }

    /// Move up or down in the current history: take the next entry (going up:
    /// older) whose start agrees with the text up to where the cursor was when
    /// the moves began. The entry replaces the text, with the cursor at its end.
    /// With no history, no such entry, or one too long for the buffer, ring the bell.
    pub fn cmd_updown(&mut self, hists: &mut Histories, action: i32) -> (r: i32)
        requires
            old(self).wf(),
            old(hists).wf(),
        ensures
            final(self).wf(),
            final(hists).wf(),
            updown_result(*old(self), *old(hists), action, *final(self), *final(hists), r),
            final(self).completing() == old(self).completing(),
    {
        let k = match self.curr_mlist {
            None => {
                self.bell = true;
                return CC_OK;
            },
            Some(k) => k,
        };
        proof {
            lemma_bytes_len_at_least(self.buf@);
        }
        let m = match self.updown_match {
            Some(u) => u,
            None => self.cp,
        };
        self.updown_match = Some(m);
        let up = action == EC_UP;
        let found = hists.get(k).find_updown(&self.buf, m, up);
        match found {
            Some(y) => {
                match bytes_len_below_limit(&hists.get(k).entries[y].text) {
                    Some(nb) => {
                        let t = hists.get(k).entries[y].text.clone();
                        assert(t@ =~= hist_of(*hists, k).entries@[y as int].text@);
                        self.buf = t;
                        self.nbytes = nb;
                        self.cp = self.buf.len();
                        hists.set_curr(k, y);
                    },
                    None => {
                        self.bell = true;
                    },
                }
            },
            None => {
                self.bell = true;
            },
        }
        CC_OK
    }

    /// Accept the command in the command buffer: add it to the current history
    /// (but not to that of file names to examine), which is then modified.
    pub fn cmd_accept(&self, hists: &mut Histories, no_hist_dups: bool)
        requires
            old(hists).wf(),
        ensures
            final(hists).wf(),
            accept_result(*self, *old(hists), no_hist_dups, *final(hists)),
    {
        match self.curr_mlist {
            None => {},
            Some(HistKind::Examine) => {},
            Some(HistKind::Search) => {
                cmd_addhist(&mut hists.search, &self.buf, true, no_hist_dups);
                hists.search.modified = true;
            },
            Some(HistKind::Shell) => {
                cmd_addhist(&mut hists.shell, &self.buf, true, no_hist_dups);
                hists.shell.modified = true;
            },
        }
    }

    /// The most recent entry of the current history before its position: the
    /// last pattern given.
    pub fn cmd_lastpattern(&self, hists: &Histories) -> (r: Option<String>)
        requires
            hists.wf(),
        ensures
            self.history() is None ==> r is None,
            self.history() matches Some(k) ==> {
                let ml = hist_of(*hists, k);
                let p = hist_step(ml.curr as int, ml.entries@.len() as int, true);
                &&& p == ml.entries@.len() ==> r is None
                &&& p < ml.entries@.len() ==> (r is Some && r.unwrap()@ == ml.entries@[p].text@)
            },
    {
        match self.curr_mlist {
            None => None,
            Some(k) => {
                let ml = hists.get(k);
                let n = ml.entries.len();
                let p = if ml.curr == 0 {
                    n
                } else {
                    ml.curr - 1
                };
                if p == n {
                    None
                } else {
                    Some(crate::text::chars_to_string(ml.entries[p].text.as_slice()))
                }
            },
        }
    }

    /// The prefix length for history moves, or -1 if moves have not begun
    /// (saved around a search that resets it).
    pub fn save_updown_match(&self) -> (r: i64)
        ensures
            r == saved_updown(self.updown()),
    {
        match self.updown_match {
            None => -1,
            Some(u) => #[verifier::truncate] (u as i64),
        }
    }

    /// Restore the prefix length saved by `save_updown_match`.
    pub fn restore_updown_match(&mut self, udm: i64)
        requires
            old(self).wf(),
        ensures
            final(self).wf(),
            final(self).updown() == restored_updown(udm),
            final(self).text() == old(self).text(),
            final(self).cursor() == old(self).cursor(),
            old(self).same_mode(&*final(self)),
            final(self).rang() == old(self).rang(),
    {
        if udm < 0 {
            self.updown_match = None;
        } else {
            self.updown_match = Some(#[verifier::truncate] (udm as usize));
        }
    }
}

/// The prefix length of history moves as saved: -1 if moves have not begun.
pub open spec fn saved_updown(u: Option<usize>) -> i64 {
    match u {
        None => -1i64,
        Some(x) => x as i64,
    }
}

/// The prefix length of history moves restored from a saved value.
pub open spec fn restored_updown(udm: i64) -> Option<usize> {
    if udm < 0 {
        None
    } else {
        Some(udm as usize)
    }
}

/// What `cmd_int` reads from the text `t`: the leading decimal number (`None` if
/// it does not fit in an `i64`), and the fraction after a `.` that follows it (in
/// millionths; -1 if no digit follows the `.`; 0 if there is no `.`).
pub open spec fn cmd_int_spec(t: Seq<char>) -> Option<(i64, i64)> {
    let e = crate::util::char_digits_end(t, 0);
    let v = crate::util::char_digits_value(t.subrange(0, e));
    if v > i64::MAX {
        None
    } else {
        let frac: i64 = if e < t.len() && t[e] == '.' {
            match crate::option::getfraction_spec(t.subrange(e + 1, t.len() as int)).0 {
                Some(f) => f,
                None => -1i64,
            }
        } else {
            0i64
        };
        Some((v as i64, frac))
    }
}

/// How many characters of `s` `cmd_istr` inserts into a text of `b0` bytes:
/// up to the first that does not fit.
pub open spec fn istr_count(b0: nat, s: Seq<char>, i: int) -> int
    decreases s.len() - i,
{
    if i < 0 || i >= s.len() {
        s.len() as int
    } else if b0 + bytes_len(s.subrange(0, i + 1)) >= CMDBUF_SIZE - 1 {
        i
    } else {
        istr_count(b0, s, i + 1)
    }
}

proof fn lemma_istr_count_bounds(b0: nat, s: Seq<char>, i: int)
    requires
        0 <= i <= s.len(),
    ensures
        i <= istr_count(b0, s, i) <= s.len(),
        istr_count(b0, s, i) < s.len() ==> b0 + bytes_len(s.subrange(0, istr_count(b0, s, i) + 1))
            >= CMDBUF_SIZE - 1,
    decreases s.len() - i,
{
    if i < s.len() && !(b0 + bytes_len(s.subrange(0, i + 1)) >= CMDBUF_SIZE - 1) {
        lemma_istr_count_bounds(b0, s, i + 1);
    }
}

impl CmdBuf {
    /// The number at the start of the command buffer, and the fraction after it.
    /// `None` if the number is too big.
    pub fn cmd_int(&self) -> (r: Option<(i64, i64)>)
        ensures
            r == cmd_int_spec(self.text()),
    {
        let t = &self.buf;
        let n = t.len();
        let mut i: usize = 0;
        let mut acc: u128 = 0;
        let mut big = false;
        proof {
            crate::option::lemma_char_digits_end_pub(t@, 0);
        }
        while i < n && '0' <= t[i] && t[i] <= '9'
            invariant
                n == t@.len(),
                0 <= i <= n,
                crate::util::char_digits_end(t@, 0) == crate::util::char_digits_end(t@, i as int),
                !big ==> acc == crate::util::char_digits_value(t@.subrange(0, i as int)),
                !big ==> acc <= i64::MAX,
                big ==> crate::util::char_digits_value(t@.subrange(0, i as int)) > i64::MAX,
            decreases n - i,
        {
            proof {
                assert(t@.subrange(0, i + 1).drop_last() =~= t@.subrange(0, i as int));
            }
            if !big {
                let next = acc * 10 + ((t[i] as u32 - '0' as u32) as u128);
                if next > 0x7fff_ffff_ffff_ffffu128 {
                    big = true;
                } else {
                    acc = next;
                }
            }
            i = i + 1;
        }
        if big {
            return None;
        }
        let frac: i64 = if i < n && t[i] == '.' {
            let rest = crate::text::chars_to_string(t.as_slice().split_at(i + 1).1);
            assert(rest@ =~= t@.subrange(i + 1, n as int));
            match crate::option::getfraction(rest.as_str()).0 {
                Some(f) => f,
                None => -1,
            }
        } else {
            0
        };
        Some((acc as i64, frac))
    }

    /// The text of the command buffer; `None` while a multi-byte character is
    /// only partly entered.
    pub fn get_cmdbuf(&self) -> (r: Option<String>)
        ensures
            self.partial_len() > 0 ==> r is None,
            self.partial_len() == 0 ==> r is Some && r.unwrap()@ == self.text(),
    {
        if self.mbc_len > 0 {
            return None;
        }
        Some(crate::text::chars_to_string(self.buf.as_slice()))
    }

    /// Insert a string at the cursor, one character at a time, up to the first
    /// that does not fit (which rings the bell and gives `CC_ERROR`).
    pub fn cmd_istr(&mut self, s: &str) -> (r: i32)
        requires
            old(self).wf(),
        ensures
            final(self).wf(),
            ({
                let c = istr_count(bytes_len(old(self).text()), s@, 0);
                &&& final(self).text() == old(self).text().subrange(0, old(self).cursor())
                    + s@.subrange(0, c) + old(self).text().subrange(
                    old(self).cursor(),
                    old(self).text().len() as int,
                )
                &&& final(self).cursor() == old(self).cursor() + c
                &&& r == if c == s@.len() {
                    CC_OK
                } else {
                    CC_ERROR
                }
                &&& 0 <= c <= s@.len()
                &&& c < s@.len() ==> final(self).rang()
                &&& c == s@.len() ==> final(self).rang() == old(self).rang()
                &&& c > 0 ==> final(self).updown() is None
                &&& c == 0 ==> final(self).updown() == old(self).updown()
            }),
            old(self).same_mode(&*final(self)),
            old(self).keeps_completion(&*final(self)),
    {
        let sv = crate::text::str_to_chars(s);
        self.cmd_istr_chars(&sv)
    }

    /// Insert the characters of `sv` at the cursor, as `cmd_istr` does.
    #[verifier::rlimit(30)]
    pub fn cmd_istr_chars(&mut self, sv: &Vec<char>) -> (r: i32)
        requires
            old(self).wf(),
        ensures
            final(self).wf(),
            ({
                let c = istr_count(bytes_len(old(self).text()), sv@, 0);
                &&& final(self).text() == old(self).text().subrange(0, old(self).cursor())
                    + sv@.subrange(0, c) + old(self).text().subrange(
                    old(self).cursor(),
                    old(self).text().len() as int,
                )
                &&& final(self).cursor() == old(self).cursor() + c
                &&& r == if c == sv@.len() {
                    CC_OK
                } else {
                    CC_ERROR
                }
                &&& 0 <= c <= sv@.len()
                &&& c < sv@.len() ==> final(self).rang()
                &&& c == sv@.len() ==> final(self).rang() == old(self).rang()
                &&& c > 0 ==> final(self).updown() is None
                &&& c == 0 ==> final(self).updown() == old(self).updown()
            }),
            old(self).same_mode(&*final(self)),
            old(self).keeps_completion(&*final(self)),
    {
        let ghost t0 = self.buf@;
        let ghost c0 = self.cp as int;
        let ghost b0 = bytes_len(t0);
        let mut i: usize = 0;
        proof {
            lemma_istr_count_bounds(b0, sv@, 0);
            assert(t0 =~= t0.subrange(0, c0) + sv@.subrange(0, 0) + t0.subrange(c0, t0.len() as int));
        }
        while i < sv.len()
            invariant
                self.wf(),
                t0 == old(self).buf@,
                c0 == old(self).cp as int,
                0 <= c0 <= t0.len(),
                b0 == bytes_len(t0),
                0 <= i <= sv@.len(),
                i <= istr_count(b0, sv@, 0),
                istr_count(b0, sv@, 0) == istr_count(b0, sv@, i as int),
                self.buf@ == t0.subrange(0, c0) + sv@.subrange(0, i as int) + t0.subrange(
                    c0,
                    t0.len() as int,
                ),
                self.cp as int == c0 + i,
                i > 0 ==> self.updown_match is None,
                i == 0 ==> self.updown_match == old(self).updown_match,
                self.cmdflags == old(self).cmdflags,
                self.curr_mlist == old(self).curr_mlist,
                self.literal == old(self).literal,
                self.mbc_len == old(self).mbc_len,
                self.bell == old(self).bell,
                old(self).keeps_completion(&*self),
            decreases sv@.len() - i,
        {
            proof {
                let pre = t0.subrange(0, c0) + sv@.subrange(0, i as int);
                let post = t0.subrange(c0, t0.len() as int);
                lemma_bytes_len_concat(pre, post);
                lemma_bytes_len_concat(t0.subrange(0, c0), sv@.subrange(0, i as int));
                lemma_bytes_len_concat(t0.subrange(0, c0), post);
                assert(t0 =~= t0.subrange(0, c0) + post);
                lemma_bytes_len_concat(sv@.subrange(0, i as int), seq![sv@[i as int]]);
                assert(sv@.subrange(0, i + 1) =~= sv@.subrange(0, i as int) + seq![sv@[i as int]]);
                assert(seq![sv@[i as int]].drop_last() =~= Seq::<char>::empty());
                assert(bytes_len(seq![sv@[i as int]]) == bytes_len(seq![sv@[i as int]].drop_last())
                    + utf8_len(seq![sv@[i as int]].last()));
                assert(bytes_len(self.buf@) == b0 + bytes_len(sv@.subrange(0, i as int)));
                assert(bytes_len(sv@.subrange(0, i + 1)) == bytes_len(sv@.subrange(0, i as int))
                    + utf8_len(sv@[i as int]));
            }
            let r = self.cmd_ichar(sv[i]);
            if r != CC_OK {
                proof {
                    assert(istr_count(b0, sv@, i as int) == i);
                    assert(istr_count(b0, sv@, 0) == i as int);
                    assert(old(self).text() == t0);
                    assert(old(self).cursor() == c0);
                    assert(bytes_len(old(self).text()) == b0);
                    assert(self.text() == t0.subrange(0, c0) + sv@.subrange(0, i as int)
                        + t0.subrange(c0, t0.len() as int));
                    assert(r == CC_ERROR);
                }
                return r;
            }
            proof {
                assert(istr_count(b0, sv@, i as int) == istr_count(b0, sv@, i + 1));
                lemma_istr_count_bounds(b0, sv@, i + 1);
            }
            i = i + 1;
            assert(self.buf@ =~= t0.subrange(0, c0) + sv@.subrange(0, i as int) + t0.subrange(
                c0,
                t0.len() as int,
            ));
        }
        CC_OK
    }
}


/// Does `esc` (not empty) occur in `t` at `p`, ending before `end`?
pub open spec fn esc_at(t: Seq<char>, p: int, end: int, esc: Seq<char>) -> bool {
    &&& esc.len() > 0
    &&& 0 <= p
    &&& p + esc.len() < end
    &&& end <= t.len()
    &&& t.subrange(p, p + esc.len()) == esc
}

/// Scan `t` from `p` up to `end`, where `mq` says the character at `p` is quoted
/// by the escape sequence `esc`, and `dq` that `p` is between the quotes `oq` and
/// `cq`; `w` is where the last word began. Result: where the last word begins
/// (after the last space outside quotes).
pub open spec fn word_start_scan(
    t: Seq<char>,
    end: int,
    esc: Seq<char>,
    oq: char,
    cq: char,
    p: int,
    mq: bool,
    dq: bool,
    w: int,
) -> int
    decreases end - p,
{
    if p < 0 || p >= end {
        w
    } else if mq {
        word_start_scan(t, end, esc, oq, cq, p + 1, false, dq, w)
    } else if esc_at(t, p, end, esc) {
        word_start_scan(t, end, esc, oq, cq, p + esc.len(), true, dq, w)
    } else if dq {
        word_start_scan(t, end, esc, oq, cq, p + 1, false, t[p] != cq, w)
    } else if t[p] == oq {
        word_start_scan(t, end, esc, oq, cq, p + 1, false, true, w)
    } else if t[p] == ' ' {
        word_start_scan(t, end, esc, oq, cq, p + 1, false, false, p + 1)
    } else {
        word_start_scan(t, end, esc, oq, cq, p + 1, false, false, w)
    }
}

proof fn lemma_word_start_scan_bounds(
    t: Seq<char>,
    end: int,
    esc: Seq<char>,
    oq: char,
    cq: char,
    p: int,
    mq: bool,
    dq: bool,
    w: int,
)
    requires
        0 <= w <= end,
    ensures
        0 <= word_start_scan(t, end, esc, oq, cq, p, mq, dq, w) <= end,
    decreases end - p,
{
    if p < 0 || p >= end {
    } else if mq {
        lemma_word_start_scan_bounds(t, end, esc, oq, cq, p + 1, false, dq, w);
    } else if esc_at(t, p, end, esc) {
        lemma_word_start_scan_bounds(t, end, esc, oq, cq, p + esc.len(), true, dq, w);
    } else if dq {
        lemma_word_start_scan_bounds(t, end, esc, oq, cq, p + 1, false, t[p] != cq, w);
    } else if t[p] == oq {
        lemma_word_start_scan_bounds(t, end, esc, oq, cq, p + 1, false, true, w);
    } else if t[p] == ' ' {
        lemma_word_start_scan_bounds(t, end, esc, oq, cq, p + 1, false, false, p + 1);
    } else {
        lemma_word_start_scan_bounds(t, end, esc, oq, cq, p + 1, false, false, w);
    }
}

/// Where `delimit_word` finds the word that ends at `end` (the cursor after it
/// moved to the end of the word): `None` at the start of the line; the cursor
/// itself if only spaces come before it; else after the last space outside quotes.
pub open spec fn word_start(t: Seq<char>, end: int, esc: Seq<char>, oq: char, cq: char) -> Option<int> {
    if end == 0 {
        None
    } else if run_end(t, 0, true) >= end {
        Some(end)
    } else {
        Some(word_start_scan(t, end, esc, oq, cq, 0, false, false, run_end(t, 0, true)))
    }
}

/// Does `esc` occur in `t` at `p` (with `p + esc.len() < end <= t.len()`)?
fn esc_at_exec(t: &Vec<char>, p: usize, end: usize, esc: &Vec<char>) -> (r: bool)
    requires
        end <= t@.len(),
    ensures
        r == esc_at(t@, p as int, end as int, esc@),
{
    if esc.len() == 0 || p >= end || esc.len() >= end - p {
        return false;
    }
    let mut i: usize = 0;
    while i < esc.len()
        invariant
            0 <= i <= esc@.len(),
            p + esc@.len() < end <= t@.len(),
            forall|k: int| 0 <= k < i ==> t@[p + k] == esc@[k],
        decreases esc@.len() - i,
    {
        if t[p + i] != esc[i] {
            assert(t@.subrange(p as int, p + esc@.len())[i as int] != esc@[i as int]);
            return false;
        }
        i = i + 1;
    }
    assert(t@.subrange(p as int, p + esc@.len()) =~= esc@);
    true
}

impl CmdBuf {
    /// Find the word that the cursor is in or at the end of, for completing it:
    /// move the cursor to the end of the word and give where the word begins.
    /// A word runs from the last space before the cursor that is neither inside
    /// the quotes `openquote`..`closequote` nor escaped by `esc`. At the start
    /// of the line there is no word.
    pub fn delimit_word(&mut self, esc: &Vec<char>, openquote: char, closequote: char) -> (r: Option<usize>)
        requires
            old(self).wf(),
        ensures
            final(self).wf(),
            final(self).text() == old(self).text(),
            final(self).cursor() == run_end(old(self).text(), old(self).cursor(), false),
            r matches Some(w) ==> Some(w as int) == word_start(
                final(self).text(),
                final(self).cursor(),
                esc@,
                openquote,
                closequote,
            ),
            r is None ==> word_start(final(self).text(), final(self).cursor(), esc@, openquote, closequote) is None,
            final(self).updown() == old(self).updown(),
            old(self).same_mode(&*final(self)),
            final(self).rang() == old(self).rang(),
            final(self).completing() == old(self).completing(),
    {
        let ghost t = self.buf@;
        let ghost c0 = self.cp as int;
        proof {
            lemma_run_end_bounds(t, c0, false);
        }
        while self.cp < self.buf.len() && self.buf[self.cp] != ' '
            invariant
                self.wf(),
                self.buf@ == t,
                c0 <= self.cp,
                run_end(t, c0, false) == run_end(t, self.cp as int, false),
                self.updown_match == old(self).updown_match,
                self.cmdflags == old(self).cmdflags,
                self.curr_mlist == old(self).curr_mlist,
                self.literal == old(self).literal,
                self.mbc_len == old(self).mbc_len,
                self.bell == old(self).bell,
                self.in_completion == old(self).in_completion,
            decreases t.len() - self.cp,
        {
            self.cp = self.cp + 1;
        }
        let end = self.cp;
        if end == 0 {
            return None;
        }
        let mut w: usize = 0;
        while w < end && self.buf[w] == ' '
            invariant
                self.wf(),
                self.buf@ == t,
                end <= t.len(),
                w <= end,
                run_end(t, 0, true) == run_end(t, w as int, true),
            decreases end - w,
        {
            w = w + 1;
        }
        proof {
            lemma_run_end_bounds(t, w as int, true);
        }
        if w >= end {
            return Some(end);
        }
        assert(run_end(t, w as int, true) == w);
        let mut p: usize = 0;
        let mut mq = false;
        let mut dq = false;
        while p < end
            invariant
                self.wf(),
                self.buf@ == t,
                end <= t.len(),
                w <= end,
                p <= end,
                word_start_scan(t, end as int, esc@, openquote, closequote, 0, false, false, run_end(t, 0, true))
                    == word_start_scan(t, end as int, esc@, openquote, closequote, p as int, mq, dq, w as int),
            decreases end - p,
        {
            if mq {
                mq = false;
                p = p + 1;
            } else if esc_at_exec(&self.buf, p, end, esc) {
                mq = true;
                p = p + esc.len();
            } else if dq {
                if self.buf[p] == closequote {
                    dq = false;
                }
                p = p + 1;
            } else if self.buf[p] == openquote {
                dq = true;
                p = p + 1;
            } else if self.buf[p] == ' ' {
                w = p + 1;
                p = p + 1;
            } else {
                p = p + 1;
            }
        }
        Some(w)
    }
}


/// The texts of a list of character vectors.
pub open spec fn vecs_view(v: Seq<Vec<char>>) -> Seq<Seq<char>> {
    v.map_values(|x: Vec<char>| x@)
}

/// Split `t` into words from `p` on, as a list of completions is split: at spaces
/// that are neither inside the quotes `oq`..`cq` nor escaped by `esc`. `cur` is
/// the word being read, `acc` the words before it; empty words are dropped.
pub open spec fn textlist_scan(
    t: Seq<char>,
    esc: Seq<char>,
    oq: char,
    cq: char,
    p: int,
    mq: bool,
    dq: bool,
    cur: Seq<char>,
    acc: Seq<Seq<char>>,
) -> Seq<Seq<char>>
    decreases t.len() - p,
{
    if p < 0 || p >= t.len() {
        if cur.len() > 0 {
            acc.push(cur)
        } else {
            acc
        }
    } else if mq {
        textlist_scan(t, esc, oq, cq, p + 1, false, dq, cur.push(t[p]), acc)
    } else if esc_at(t, p, t.len() as int, esc) {
        textlist_scan(t, esc, oq, cq, p + esc.len(), true, dq, cur + esc, acc)
    } else if dq {
        textlist_scan(t, esc, oq, cq, p + 1, false, t[p] != cq, cur.push(t[p]), acc)
    } else if t[p] == oq {
        textlist_scan(t, esc, oq, cq, p + 1, false, true, cur.push(t[p]), acc)
    } else if t[p] == ' ' {
        textlist_scan(t, esc, oq, cq, p + 1, false, false, Seq::empty(), if cur.len() > 0 {
            acc.push(cur)
        } else {
            acc
        })
    } else {
        textlist_scan(t, esc, oq, cq, p + 1, false, false, cur.push(t[p]), acc)
    }
}

/// The words of a list of completions `t`.
pub open spec fn textlist_words(t: Seq<char>, esc: Seq<char>, oq: char, cq: char) -> Seq<Seq<char>> {
    textlist_scan(t, esc, oq, cq, 0, false, false, Seq::empty(), Seq::empty())
}

/// Split a list of completions into its words: at spaces outside the quotes
/// `openquote`..`closequote` and not escaped by `esc`.
pub fn split_textlist(t: &Vec<char>, esc: &Vec<char>, openquote: char, closequote: char) -> (r: Vec<
    Vec<char>,
>)
    ensures
        vecs_view(r@) == textlist_words(t@, esc@, openquote, closequote),
{
    let mut acc: Vec<Vec<char>> = Vec::new();
    let mut cur: Vec<char> = Vec::new();
    let mut p: usize = 0;
    let mut mq = false;
    let mut dq = false;
    proof {
        assert(vecs_view(acc@) =~= Seq::<Seq<char>>::empty());
    }
    while p < t.len()
        invariant
            p <= t@.len(),
            textlist_words(t@, esc@, openquote, closequote) == textlist_scan(
                t@,
                esc@,
                openquote,
                closequote,
                p as int,
                mq,
                dq,
                cur@,
                vecs_view(acc@),
            ),
        decreases t@.len() - p,
    {
        if mq {
            mq = false;
            cur.push(t[p]);
            p = p + 1;
        } else if esc_at_exec(t, p, t.len(), esc) {
            mq = true;
            let mut i: usize = 0;
            let ghost c0 = cur@;
            while i < esc.len()
                invariant
                    0 <= i <= esc@.len(),
                    cur@ == c0 + esc@.subrange(0, i as int),
                decreases esc@.len() - i,
            {
                cur.push(esc[i]);
                i = i + 1;
                assert(cur@ =~= c0 + esc@.subrange(0, i as int));
            }
            assert(esc@.subrange(0, esc@.len() as int) =~= esc@);
            p = p + esc.len();
        } else if dq {
            if t[p] == closequote {
                dq = false;
            }
            cur.push(t[p]);
            p = p + 1;
        } else if t[p] == openquote {
            dq = true;
            cur.push(t[p]);
            p = p + 1;
        } else if t[p] == ' ' {
            if cur.len() > 0 {
                let ghost a0 = acc@;
                let w = cur;
                cur = Vec::new();
                acc.push(w);
                assert(vecs_view(acc@) =~= vecs_view(a0).push(w@));
            }
            assert(cur@ =~= Seq::<char>::empty());
            p = p + 1;
        } else {
            cur.push(t[p]);
            p = p + 1;
        }
    }
    if cur.len() > 0 {
        let ghost a0 = acc@;
        acc.push(cur);
        assert(vecs_view(acc@) =~= vecs_view(a0).push(acc@.last()@));
    }
    acc
}


/// What a completion offers: the expansion of the word (a list of words), whether
/// the whole expansion names a directory, and which of its words do.
pub struct CompletionList {
    pub text: Vec<char>,
    pub text_is_dir: bool,
    pub word_is_dir: Vec<bool>,
}

/// The line (text and cursor) after erasing back from the cursor `cp` to `ip`.
pub open spec fn erase_back(t: Seq<char>, cp: int, ip: int) -> (Seq<char>, int) {
    if cp > ip {
        (t.subrange(0, ip) + t.subrange(cp, t.len() as int), ip)
    } else {
        (t, cp)
    }
}

/// The line after inserting `s` at the cursor as `cmd_istr` does, and whether
/// all of it fitted.
pub open spec fn istr_line(t: Seq<char>, cp: int, s: Seq<char>) -> (Seq<char>, int, bool) {
    let c = istr_count(bytes_len(t), s, 0);
    (t.subrange(0, cp) + s.subrange(0, c) + t.subrange(cp, t.len() as int), cp + c, c == s.len())
}

/// The line after a completion step puts `s` in place of what follows the
/// insertion point `ip`: when `s` names a directory, a closing quote just
/// before the cursor gives way to the separator `sep`. Also: did it all fit?
pub open spec fn insert_trial(
    t: Seq<char>,
    cp: int,
    ip: int,
    s: Seq<char>,
    is_dir: bool,
    sep: Seq<char>,
    cq: char,
) -> (Seq<char>, int, bool) {
    let e = erase_back(t, cp, ip);
    let i = istr_line(e.0, e.1, s);
    if !i.2 || !is_dir {
        i
    } else if i.1 > 0 && i.0[i.1 - 1] == cq {
        istr_line(i.0.remove(i.1 - 1), i.1 - 1, sep)
    } else {
        istr_line(i.0, i.1, sep)
    }
}

/// Does a completion step (see `insert_trial`) erase or insert any character?
/// Each such edit forgets the prefix of a move in the history.
pub open spec fn trial_edits(
    t: Seq<char>,
    cp: int,
    ip: int,
    s: Seq<char>,
    is_dir: bool,
    sep: Seq<char>,
    cq: char,
) -> bool {
    let e = erase_back(t, cp, ip);
    let i = istr_line(e.0, e.1, s);
    ||| cp > ip
    ||| i.1 > e.1
    ||| i.2 && is_dir && i.1 > 0 && i.0[i.1 - 1] == cq
    ||| i.2 && is_dir && istr_line(i.0, i.1, sep).1 > i.1
}

/// The prefix of a move in the history after a completion step: kept unless
/// the step edited the line.
pub open spec fn updown_after(before: Option<usize>, edits: bool) -> Option<usize> {
    if edits {
        None
    } else {
        before
    }
}

/// The word of a list of `n` words to try after `prev`, going forward or back.
pub open spec fn next_trial(forward: bool, prev: Option<usize>, n: int) -> Option<int> {
    if forward {
        match prev {
            None => if n > 0 { Some(0) } else { None },
            Some(i) => if i + 1 < n { Some(i + 1) } else { None },
        }
    } else {
        match prev {
            None => if n > 0 { Some(n - 1) } else { None },
            Some(i) => if 0 < i <= n { Some(i - 1) } else { None },
        }
    }
}

fn next_trial_exec(forward: bool, prev: Option<usize>, n: usize) -> (r: Option<usize>)
    ensures
        r matches Some(i) ==> next_trial(forward, prev, n as int) == Some(i as int),
        r is None ==> next_trial(forward, prev, n as int) is None,
{
    if forward {
        match prev {
            None => if n > 0 { Some(0) } else { None },
            Some(i) => if i < n && i + 1 < n { Some(i + 1) } else { None },
        }
    } else {
        match prev {
            None => if n > 0 { Some(n - 1) } else { None },
            Some(i) => if 0 < i && i <= n { Some(i - 1) } else { None },
        }
    }
}

impl CmdBuf {
    /// The state of the completion in progress: where the word starts, the word
    /// as typed, the words offered, and the one tried last.
    pub closed spec fn compl_ipoint(&self) -> int {
        self.tk_ipoint as int
    }

    pub closed spec fn compl_original(&self) -> Seq<char> {
        self.tk_original@
    }

    pub closed spec fn compl_words(&self) -> Seq<Seq<char>> {
        vecs_view(self.tk_words@)
    }

    pub closed spec fn compl_trial(&self) -> Option<usize> {
        self.tk_trial
    }

    /// Does a completion with `action` begin anew (and need the expansion of the
    /// word)? It does unless one is in progress and the action steps through it.
    pub fn completion_starts(&self, action: i32) -> (r: bool)
        ensures
            r == (!self.completing() || action == EC_EXPAND),
    {
        !self.in_completion || action == EC_EXPAND
    }

    /// Find the word to complete and remember it: for an option name, the whole
    /// line; for a file name, the word that `delimit_word` finds (the cursor moves
    /// to its end). Gives the text to expand, or `None` if there is no word.
    pub fn completion_word(&mut self, esc: &Vec<char>, openquote: char, closequote: char) -> (r: Option<Vec<char>>)
        requires
            old(self).wf(),
        ensures
            final(self).wf(),
            final(self).text() == old(self).text(),
            final(self).updown() == old(self).updown(),
            old(self).same_mode(&*final(self)),
            final(self).rang() == old(self).rang(),
            final(self).completing() == old(self).completing(),
            (old(self).flags() & CF_OPTION) != 0 ==> {
                &&& final(self).cursor() == old(self).cursor()
                &&& final(self).compl_ipoint() == 0
                &&& final(self).compl_original() == old(self).text().subrange(0, old(self).cursor())
                &&& r matches Some(w) && w@ == old(self).text()
            },
            (old(self).flags() & CF_OPTION) == 0 ==> {
                let c = run_end(old(self).text(), old(self).cursor(), false);
                let ws = word_start(old(self).text(), c, esc@, openquote, closequote);
                &&& final(self).cursor() == c
                &&& ws is None ==> r is None
                &&& ws matches Some(w) ==> {
                    &&& final(self).compl_ipoint() == w
                    &&& final(self).compl_original() == old(self).text().subrange(w, c)
                    &&& r matches Some(v) && v@ == old(self).text().subrange(w, c)
                }
            },
    {
        if (self.cmdflags & CF_OPTION) != 0 {
            self.tk_ipoint = 0;
            let mut orig: Vec<char> = Vec::new();
            let mut i: usize = 0;
            while i < self.cp
                invariant
                    self.wf(),
                    i <= self.cp,
                    orig@ == self.buf@.subrange(0, i as int),
                decreases self.cp - i,
            {
                orig.push(self.buf[i]);
                i = i + 1;
                assert(orig@ =~= self.buf@.subrange(0, i as int));
            }
            self.tk_original = orig;
            let whole = self.buf.clone();
            assert(whole@ =~= self.buf@);
            return Some(whole);
        }
        let ghost t = self.buf@;
        let ws = self.delimit_word(esc, openquote, closequote);
        match ws {
            None => None,
            Some(w) => {
                proof {
                    lemma_run_end_bounds(t, 0, true);
                    if run_end(t, 0, true) < self.cp as int {
                        lemma_word_start_scan_bounds(t, self.cp as int, esc@, openquote, closequote, 0, false,
                            false, run_end(t, 0, true));
                    }
                }
                let mut orig: Vec<char> = Vec::new();
                let mut i: usize = w;
                while i < self.cp
                    invariant
                        self.wf(),
                        w <= i <= self.cp,
                        orig@ == self.buf@.subrange(w as int, i as int),
                    decreases self.cp - i,
                {
                    orig.push(self.buf[i]);
                    i = i + 1;
                    assert(orig@ =~= self.buf@.subrange(w as int, i as int));
                }
                self.tk_ipoint = w;
                let word = orig.clone();
                assert(word@ =~= orig@);
                self.tk_original = orig;
                Some(word)
            },
        }
    }
}


/// What `cmd_complete` does with `action` and `list`: `a` before, `b` after, `r`
/// its result.
pub open spec fn complete_result(
    a: CmdBuf,
    action: i32,
    list: Option<CompletionList>,
    esc: Seq<char>,
    openquote: char,
    closequote: char,
    sep: Seq<char>,
    b: CmdBuf,
    r: i32,
) -> bool {
    &&& r == CC_OK
    &&& a.same_mode(&b)
    &&& b.compl_ipoint() == a.compl_ipoint()
    &&& b.compl_original() == a.compl_original()
    &&& {
        let starts = !a.completing() || action == EC_EXPAND;
        let forward = action == EC_F_COMPLETE;
        let t = a.text();
        let cp = a.cursor();
        let ip = a.compl_ipoint();
        if starts && list is None {
            &&& b.rang()
            &&& b.text() == t
            &&& b.cursor() == cp
            &&& b.updown() == a.updown()
            &&& b.completing() == a.completing()
        } else if starts && action == EC_EXPAND {
            let l = list.unwrap();
            let ins = insert_trial(t, cp, ip, l.text@, l.text_is_dir, sep, closequote);
            &&& (b.text(), b.cursor()) == (ins.0, ins.1)
            &&& b.updown() == updown_after(
                a.updown(),
                trial_edits(t, cp, ip, l.text@, l.text_is_dir, sep, closequote),
            )
            &&& !b.completing()
            &&& b.rang() == (a.rang() || !ins.2)
        } else {
            let words = if starts {
                textlist_words(list.unwrap().text@, esc, openquote, closequote)
            } else {
                a.compl_words()
            };
            let dirs = if starts {
                list.unwrap().word_is_dir@
            } else {
                a.compl_dirs()
            };
            let prev = if starts {
                None
            } else {
                a.compl_trial()
            };
            let tr = next_trial(forward, prev, words.len() as int);
            &&& b.compl_words() == words
            &&& b.compl_dirs() == dirs
            &&& tr is None ==> b.compl_trial() is None
            &&& tr matches Some(i) ==> b.compl_trial() == Some(i as usize)
            &&& tr is None ==> {
                let ins = insert_trial(t, cp, ip, a.compl_original(), false, sep, closequote);
                &&& (b.text(), b.cursor()) == (ins.0, ins.1)
                &&& b.updown() == updown_after(
                    a.updown(),
                    trial_edits(t, cp, ip, a.compl_original(), false, sep, closequote),
                )
                &&& !b.completing()
                &&& b.rang() == (a.rang() || !ins.2)
            }
            &&& tr matches Some(i) ==> {
                let ins = insert_trial(t, cp, ip, words[i], i < dirs.len() && dirs[i], sep, closequote);
                &&& (b.text(), b.cursor()) == (ins.0, ins.1)
                &&& b.updown() == updown_after(
                    a.updown(),
                    trial_edits(t, cp, ip, words[i], i < dirs.len() && dirs[i], sep, closequote),
                )
                &&& b.completing() == ins.2
                &&& b.rang() == (a.rang() || !ins.2)
            }
        }
    }
}

impl CmdBuf {
    /// The words tried by the completion in progress that name directories.
    pub closed spec fn compl_dirs(&self) -> Seq<bool> {
        self.tk_dirs@
    }

    /// Erase back from the cursor to `ip`.
    fn erase_to(&mut self, ip: usize)
        requires
            old(self).wf(),
        ensures
            final(self).wf(),
            (final(self).text(), final(self).cursor()) == erase_back(old(self).text(), old(self).cursor(), ip as int),
            final(self).updown() == updown_after(old(self).updown(), old(self).cursor() > ip),
            old(self).same_mode(&*final(self)),
            final(self).rang() == old(self).rang(),
            old(self).keeps_completion(&*final(self)),
    {
        let ghost t = self.buf@;
        let ghost c0 = self.cp as int;
        while self.cp > ip
            invariant
                self.wf(),
                ip < c0 ==> ip <= self.cp,
                self.cp <= c0,
                c0 <= t.len(),
                self.cp < c0 ==> ip < c0,
                self.buf@ == t.subrange(0, self.cp as int) + t.subrange(c0, t.len() as int),
                self.cp < c0 ==> self.updown_match is None,
                self.cp == c0 ==> self.updown_match == old(self).updown_match,
                self.cmdflags == old(self).cmdflags,
                self.curr_mlist == old(self).curr_mlist,
                self.literal == old(self).literal,
                self.mbc_len == old(self).mbc_len,
                self.bell == old(self).bell,
                old(self).keeps_completion(&*self),
                t == old(self).buf@,
                c0 == old(self).cp as int,
            decreases self.cp,
        {
            let ghost before = self.buf@;
            let k = self.cp;
            self.remove_before();
            assert(self.buf@ =~= t.subrange(0, self.cp as int) + t.subrange(c0, t.len() as int));
        }
        assert(self.cp as int == c0 ==> self.buf@ =~= t);
    }

    /// Put `s` in place of what follows the insertion point `ip`, as a completion
    /// step does (see `insert_trial`). Does it all fit?
    fn put_trial(&mut self, ip: usize, s: &Vec<char>, is_dir: bool, sep: &Vec<char>, closequote: char) -> (ok: bool)
        requires
            old(self).wf(),
        ensures
            final(self).wf(),
            (final(self).text(), final(self).cursor(), ok) == insert_trial(
                old(self).text(),
                old(self).cursor(),
                ip as int,
                s@,
                is_dir,
                sep@,
                closequote,
            ),
            ok ==> final(self).rang() == old(self).rang(),
            !ok ==> final(self).rang(),
            final(self).updown() == updown_after(
                old(self).updown(),
                trial_edits(old(self).text(), old(self).cursor(), ip as int, s@, is_dir, sep@, closequote),
            ),
            old(self).same_mode(&*final(self)),
            old(self).keeps_completion(&*final(self)),
    {
        self.erase_to(ip);
        let r = self.cmd_istr_chars(s);
        if r != CC_OK {
            return false;
        }
        if is_dir {
            if self.cp > 0 && self.buf[self.cp - 1] == closequote {
                self.remove_before();
            }
            let r2 = self.cmd_istr_chars(sep);
            return r2 == CC_OK;
        }
        true
    }

    /// Complete the word at the insertion point (see `completion_word`). A new
    /// completion (see `completion_starts`) takes `list`, the expansion of the
    /// word: `EC_EXPAND` puts all of it in place of the word; the other actions
    /// put its first (`EC_F_COMPLETE`) or last word there and begin stepping
    /// through the words. In a completion already begun, they put the next or
    /// previous word there; past the end, the word as it was typed comes back and
    /// the completion ends. A directory is followed by `sep`. With no expansion,
    /// or no room for the text, the bell rings.
    #[verifier::rlimit(60)]
    #[verifier::spinoff_prover]
    pub fn cmd_complete(
        &mut self,
        action: i32,
        list: Option<CompletionList>,
        esc: &Vec<char>,
        openquote: char,
        closequote: char,
        sep: &Vec<char>,
    ) -> (r: i32)
        requires
            old(self).wf(),
            action == EC_F_COMPLETE || action == EC_B_COMPLETE || action == EC_EXPAND,
        ensures
            final(self).wf(),
            complete_result(*old(self), action, list, esc@, openquote, closequote, sep@, *final(self), r),
    {
        let starts = !self.in_completion || action == EC_EXPAND;
        let forward = action == EC_F_COMPLETE;
        let ip = self.tk_ipoint;
        if starts {
            match list {
                None => {
                    self.bell = true;
                    return CC_OK;
                },
                Some(l) => {
                    if action == EC_EXPAND {
                        self.in_completion = false;
                        let ok = self.put_trial(ip, &l.text, l.text_is_dir, sep, closequote);
                        if !ok {
                            self.bell = true;
                        }
                        return CC_OK;
                    }
                    self.tk_words = split_textlist(&l.text, esc, openquote, closequote);
                    self.tk_dirs = l.word_is_dir;
                    self.tk_trial = None;
                },
            }
        }
        let tr = next_trial_exec(forward, self.tk_trial, self.tk_words.len());
        self.tk_trial = tr;
        match tr {
            None => {
                self.in_completion = false;
                let orig = self.tk_original.clone();
                assert(orig@ =~= self.tk_original@);
                let ok = self.put_trial(ip, &orig, false, sep, closequote);
                if !ok {
                    self.bell = true;
                }
            },
            Some(i) => {
                let w = self.tk_words[i].clone();
                assert(w@ =~= self.tk_words@[i as int]@);
                let d = i < self.tk_dirs.len() && self.tk_dirs[i];
                let ok = self.put_trial(ip, &w, d, sep, closequote);
                self.in_completion = ok;
                if !ok {
                    self.bell = true;
                }
            },
        }
        CC_OK
    }
}


/// How quoting and completion look: the escape sequence for metacharacters, the
/// quotes around a file name with spaces, and what follows a directory name.
pub struct Quoting {
    pub esc: Vec<char>,
    pub openquote: char,
    pub closequote: char,
    pub sep: Vec<char>,
}

/// The editing flags for looking up an editing key: no history commands without
/// a history, and completion only for option names and for file names to
/// examine or give to the shell.
pub open spec fn edit_flags_spec(history: Option<HistKind>, flags: i32) -> i32 {
    let nohist = if history is None { ECF_NOHISTORY } else { 0 };
    let can_complete = (history is None && (flags & CF_OPTION) != 0) || history == Some(HistKind::Examine)
        || history == Some(HistKind::Shell);
    nohist | if can_complete { 0 } else { ECF_NOCOMPLETE }
}

/// `b` has the line (text, cursor, prefix for moving in the history), the mode
/// and the bell of `a`.
pub open spec fn line_same(a: CmdBuf, b: CmdBuf) -> bool {
    &&& b.text() == a.text()
    &&& b.cursor() == a.cursor()
    &&& b.updown() == a.updown()
    &&& a.same_mode(&b)
    &&& b.rang() == a.rang()
}

/// `b` has the text, prefix, mode and bell of `a`, with the cursor at `c`.
pub open spec fn moved_to(a: CmdBuf, b: CmdBuf, c: int) -> bool {
    &&& b.text() == a.text()
    &&& b.cursor() == c
    &&& b.updown() == a.updown()
    &&& a.same_mode(&b)
    &&& b.rang() == a.rang()
}

/// What the line-editing `action` does to the line `a`, giving `b` and `r`
/// (actions on the history and completion aside).
pub open spec fn edit_line_result(a: CmdBuf, action: i32, b: CmdBuf, r: i32) -> bool {
    let t = a.text();
    let cp = a.cursor();
    if action == EC_RIGHT {
        r == CC_OK && moved_to(a, b, if cp < t.len() { cp + 1 } else { cp })
    } else if action == EC_LEFT {
        r == CC_OK && moved_to(a, b, if cp > 0 { cp - 1 } else { 0 })
    } else if action == EC_W_RIGHT {
        r == CC_OK && moved_to(a, b, run_end(t, run_end(t, cp, false), true))
    } else if action == EC_W_LEFT {
        r == CC_OK && moved_to(a, b, run_start(t, run_start(t, cp, true), false))
    } else if action == EC_HOME {
        r == CC_OK && moved_to(a, b, 0)
    } else if action == EC_END {
        r == CC_OK && moved_to(a, b, t.len() as int)
    } else if action == EC_INSERT {
        r == CC_OK && line_same(a, b)
    } else if action == EC_BACKSPACE {
        &&& a.same_mode(&b)
        &&& b.rang() == a.rang()
        &&& cp == 0 ==> r == CC_QUIT && b.text() == t && b.cursor() == 0 && b.updown() == a.updown()
        &&& cp > 0 ==> {
            &&& b.text() == t.remove(cp - 1)
            &&& b.cursor() == cp - 1
            &&& b.updown() is None
            &&& r == if (a.flags() & CF_QUIT_ON_ERASE) != 0 && b.text().len() == 0 {
                CC_QUIT
            } else {
                CC_OK
            }
        }
    } else if action == EC_DELETE {
        &&& r == CC_OK
        &&& a.same_mode(&b)
        &&& b.rang() == a.rang()
        &&& b.cursor() == cp
        &&& cp == t.len() ==> b.text() == t && b.updown() == a.updown()
        &&& cp < t.len() ==> b.text() == t.remove(cp) && b.updown() is None
    } else if action == EC_W_BACKSPACE {
        let w = werase_start(t, cp);
        &&& r == CC_OK
        &&& a.same_mode(&b)
        &&& b.rang() == a.rang()
        &&& b.text() == t.subrange(0, w) + t.subrange(cp, t.len() as int)
        &&& b.cursor() == w
        &&& w == cp ==> b.updown() == a.updown()
    } else if action == EC_W_DELETE {
        let e = wdelete_end(t, cp);
        &&& r == CC_OK
        &&& a.same_mode(&b)
        &&& b.rang() == a.rang()
        &&& b.text() == t.subrange(0, cp) + t.subrange(e, t.len() as int)
        &&& b.cursor() == cp
        &&& e == cp ==> b.updown() == a.updown()
    } else if action == EC_LINEKILL || action == EC_ABORT {
        &&& a.same_mode(&b)
        &&& b.rang() == a.rang()
        &&& t.len() == 0 ==> r == CC_QUIT && line_same(a, b)
        &&& t.len() > 0 ==> {
            &&& b.text() == Seq::<char>::empty()
            &&& b.cursor() == 0
            &&& b.updown() is None
            &&& r == if action == EC_ABORT || (a.flags() & CF_QUIT_ON_ERASE) != 0 {
                CC_QUIT
            } else {
                CC_OK
            }
        }
    } else {
        r == CC_PASS && line_same(a, b)
    }
}

/// What `cmd_edit` does with `action`: the command line `a`, the histories `ha`
/// and the paste state `pa` before; `b`, `hb`, `pb` after; `r` its result.
pub open spec fn edit_result(
    a: CmdBuf,
    ha: Histories,
    pa: PasteState,
    action: i32,
    stay_in_completion: bool,
    no_paste: bool,
    now: i64,
    list: Option<CompletionList>,
    q: Quoting,
    b: CmdBuf,
    hb: Histories,
    pb: PasteState,
    r: i32,
) -> bool {
    let ic = ignore_check(pa, action, now);
    let kept = if stay_in_completion { a.completing() } else { false };
    if ic.0 {
        r == CC_OK && b == a && hb == ha && pb == ic.1
    } else if action == A_NOACTION {
        r == CC_OK && b == a && hb == ha && pb == ic.1
    } else if action == EC_START_PASTE {
        &&& r == CC_OK
        &&& b == a
        &&& hb == ha
        &&& pb == PasteState { pasting: ic.1.pasting || no_paste, ..ic.1 }
    } else if action == EC_END_PASTE {
        &&& r == CC_OK
        &&& b == a
        &&& hb == ha
        &&& pb == PasteState { pasting: false, ignoring: false, since: ic.1.since }
    } else if action == EC_LITERAL {
        &&& r == CC_OK
        &&& b.literal_next()
        &&& b.text() == a.text()
        &&& b.cursor() == a.cursor()
        &&& b.updown() == a.updown()
        &&& b.rang() == a.rang()
        &&& b.flags() == a.flags()
        &&& b.history() == a.history()
        &&& b.partial_len() == a.partial_len()
        &&& b.completing() == a.completing()
        &&& hb == ha
        &&& pb == ic.1
    } else if action == EC_F_COMPLETE || action == EC_B_COMPLETE || action == EC_EXPAND {
        &&& complete_result(a, action, list, q.esc@, q.openquote, q.closequote, q.sep@, b, r)
        &&& hb == ha
        &&& pb == ic.1
    } else if action == EC_UP || action == EC_DOWN {
        &&& updown_result(a, ha, action, b, hb, r)
        &&& b.completing() == kept
        &&& pb == ic.1
    } else {
        &&& edit_line_result(a, action, b, r)
        &&& b.completing() == kept
        &&& hb == ha
        &&& pb == ic.1
    }
}

impl CmdBuf {
    /// The flags with which to look up an editing key (see `edit_flags_spec`).
    pub fn edit_flags(&self) -> (r: i32)
        ensures
            r == edit_flags_spec(self.history(), self.flags()),
    {
        let nohist = if self.curr_mlist.is_none() {
            ECF_NOHISTORY
        } else {
            0
        };
        let can_complete = match self.curr_mlist {
            None => (self.cmdflags & CF_OPTION) != 0,
            Some(HistKind::Examine) => true,
            Some(HistKind::Shell) => true,
            Some(HistKind::Search) => false,
        };
        nohist | if can_complete {
            0
        } else {
            ECF_NOCOMPLETE
        }
    }

    /// Carry out the line-editing `action` (the editing key looked up with
    /// `edit_flags`). While a paste is being ignored, nothing happens. A paste
    /// begins (if `no_paste` asks to ignore pastes) or ends; the next character
    /// is to be taken literally; the line is edited; the history is moved
    /// through; or the word under the cursor is completed (see `cmd_complete`).
    /// Any other action is not for editing: `CC_PASS`. Unless asked to stay in
    /// it, a completion in progress ends with any action but those.
    pub fn cmd_edit(
        &mut self,
        hists: &mut Histories,
        paste: &mut PasteState,
        action: i32,
        stay_in_completion: bool,
        no_paste: bool,
        now: i64,
        list: Option<CompletionList>,
        q: &Quoting,
    ) -> (r: i32)
        requires
            old(self).wf(),
            old(hists).wf(),
        ensures
            final(self).wf(),
            final(hists).wf(),
            edit_result(*old(self), *old(hists), *old(paste), action, stay_in_completion, no_paste, now, list, *q,
                *final(self), *final(hists), *final(paste), r),
    {
        if paste.is_ignoring_input(action, now) {
            return CC_OK;
        }
        if action == A_NOACTION {
            return CC_OK;
        }
        if action == EC_START_PASTE {
            if no_paste {
                paste.pasting = true;
            }
            return CC_OK;
        }
        if action == EC_END_PASTE {
            paste.stop_ignoring_input();
            return CC_OK;
        }
        if action == EC_LITERAL {
            self.literal = true;
            return CC_OK;
        }
        if action == EC_F_COMPLETE || action == EC_B_COMPLETE || action == EC_EXPAND {
            return self.cmd_complete(action, list, &q.esc, q.openquote, q.closequote, &q.sep);
        }
        if !stay_in_completion {
            self.in_completion = false;
        }
        if action == EC_RIGHT {
            self.cmd_right()
        } else if action == EC_LEFT {
            self.cmd_left()
        } else if action == EC_W_RIGHT {
            self.cmd_word_right();
            CC_OK
        } else if action == EC_W_LEFT {
            self.cmd_word_left();
            CC_OK
        } else if action == EC_HOME {
            self.cmd_home();
            CC_OK
        } else if action == EC_END {
            self.cmd_end();
            CC_OK
        } else if action == EC_INSERT {
            CC_OK
        } else if action == EC_BACKSPACE {
            self.cmd_erase()
        } else if action == EC_LINEKILL {
            self.cmd_kill()
        } else if action == EC_ABORT {
            self.cmd_kill();
            CC_QUIT
        } else if action == EC_W_BACKSPACE {
            self.cmd_werase()
        } else if action == EC_DELETE {
            self.cmd_delete()
        } else if action == EC_W_DELETE {
            self.cmd_wdelete()
        } else if action == EC_UP || action == EC_DOWN {
            self.cmd_updown(hists, action)
        } else {
            CC_PASS
        }
    }
}


/// Is `b` a continuation byte of UTF-8?
pub open spec fn is_utf8_trail(b: u8) -> bool {
    0x80 <= b < 0xC0
}

/// The length of the UTF-8 sequence that starts with the byte `b` (1 for a byte
/// that cannot start one).
pub open spec fn utf_lead_len(b: u8) -> nat {
    if b < 0x80 {
        1
    } else if 0xC0 <= b < 0xE0 {
        2
    } else if 0xE0 <= b < 0xF0 {
        3
    } else if 0xF0 <= b < 0xF8 {
        4
    } else if 0xF8 <= b < 0xFC {
        5
    } else if 0xFC <= b < 0xFE {
        6
    } else {
        1
    }
}

/// Is `bs` a well-formed UTF-8 sequence (as far as its first byte says), in the
/// shortest form?
pub open spec fn utf8_well_formed(bs: Seq<u8>) -> bool {
    let n = utf_lead_len(bs[0]);
    &&& bs.len() >= 1
    &&& bs[0] < 0xFE
    &&& n <= bs.len()
    &&& n == 2 ==> bs[0] >= 0xC2
    &&& n == 3 ==> !(bs[0] == 0xE0 && bs[1] < 0xA0)
    &&& n == 4 ==> !(bs[0] == 0xF0 && bs[1] < 0x90)
    &&& n == 5 ==> !(bs[0] == 0xF8 && bs[1] < 0x88)
    &&& n == 6 ==> !(bs[0] == 0xFC && bs[1] < 0x84)
    &&& forall|i: int| 1 <= i < n ==> is_utf8_trail(#[trigger] bs[i])
}

/// The code point of a sequence of two to four bytes of UTF-8 (longer sequences
/// give none: they lie beyond Unicode).
pub open spec fn utf8_code(bs: Seq<u8>) -> Option<int> {
    if bs.len() == 2 {
        Some((bs[0] - 0xC0) * 64 + (bs[1] - 0x80))
    } else if bs.len() == 3 {
        Some((bs[0] - 0xE0) * 4096 + (bs[1] - 0x80) * 64 + (bs[2] - 0x80))
    } else if bs.len() == 4 {
        Some((bs[0] - 0xF0) * 262144 + (bs[1] - 0x80) * 4096 + (bs[2] - 0x80) * 64 + (bs[3] - 0x80))
    } else {
        None
    }
}

/// The character that the complete sequence `bs` encodes, if it is well formed
/// and encodes one.
pub open spec fn utf8_char_of(bs: Seq<u8>) -> Option<int> {
    if utf8_well_formed(bs) && utf8_code(bs) is Some && crate::text::is_scalar(utf8_code(bs).unwrap()) {
        utf8_code(bs)
    } else {
        None
    }
}

/// What `cmd_uchar` does with the byte `c`: `a` before, `b` after, `r` its
/// result (the outcome, and the character completed).
pub open spec fn uchar_result(a: CmdBuf, c: u8, utf_mode: bool, b: CmdBuf, r: (i32, Option<char>)) -> bool {
    &&& b.text() == a.text()
    &&& b.cursor() == a.cursor()
    &&& b.updown() == a.updown()
    &&& b.flags() == a.flags()
    &&& b.history() == a.history()
    &&& b.literal_next() == a.literal_next()
    &&& b.completing() == a.completing()
    &&& if !utf_mode {
        r == (CC_PASS, Some(c as char)) && b.partial_len() == a.partial_len() && b.rang() == a.rang()
    } else if a.partial_len() > 0 && is_utf8_trail(c) {
        let bs = a.partial().push(c);
        if bs.len() < a.partial_len() {
            &&& r == (CC_OK, None::<char>)
            &&& b.partial() == bs
            &&& b.partial_len() == a.partial_len()
            &&& b.rang() == a.rang()
        } else {
            &&& b.partial_len() == 0
            &&& utf8_char_of(bs) matches Some(v) ==> {
                &&& r.0 == CC_PASS
                &&& r.1 matches Some(ch) && ch as int == v
                &&& b.rang() == a.rang()
            }
            &&& utf8_char_of(bs) is None ==> r == (CC_ERROR, None::<char>) && b.rang()
        }
    } else {
        let flushed = a.partial_len() > 0;
        &&& flushed ==> b.rang()
        &&& if c < 0x80 {
            r == (CC_PASS, Some(c as char)) && b.partial_len() == 0 && (!flushed ==> b.rang() == a.rang())
        } else if 0xC0 <= c < 0xFE {
            &&& r == (CC_OK, None::<char>)
            &&& b.partial() == seq![c]
            &&& b.partial_len() == utf_lead_len(c)
            &&& !flushed ==> b.rang() == a.rang()
        } else {
            r == (CC_ERROR, None::<char>) && b.partial_len() == 0 && b.rang()
        }
    }
}

fn utf_lead_len_exec(b: u8) -> (r: usize)
    ensures
        r == utf_lead_len(b),
{
    if b < 0x80 {
        1
    } else if 0xC0 <= b && b < 0xE0 {
        2
    } else if 0xE0 <= b && b < 0xF0 {
        3
    } else if 0xF0 <= b && b < 0xF8 {
        4
    } else if 0xF8 <= b && b < 0xFC {
        5
    } else if 0xFC <= b && b < 0xFE {
        6
    } else {
        1
    }
}

/// The character that the complete sequence `bs` encodes (see `utf8_char_of`).
fn utf8_decode(bs: &Vec<u8>) -> (r: Option<char>)
    requires
        1 <= bs@.len() <= 6,
        bs@.len() == utf_lead_len(bs@[0]),
    ensures
        utf8_char_of(bs@) matches Some(v) ==> (r matches Some(ch) && ch as int == v),
        utf8_char_of(bs@) is None ==> r is None,
{
    let n = bs.len();
    let b0 = bs[0];
    if b0 >= 0xFE {
        return None;
    }
    let mut i: usize = 1;
    while i < n
        invariant
            1 <= i <= n,
            n == bs@.len(),
            n == utf_lead_len(bs@[0]),
            forall|k: int| 1 <= k < i ==> is_utf8_trail(#[trigger] bs@[k]),
        decreases n - i,
    {
        if !(0x80 <= bs[i] && bs[i] < 0xC0) {
            assert(!is_utf8_trail(bs@[i as int]));
            return None;
        }
        i = i + 1;
    }
    if n == 2 && b0 < 0xC2 {
        return None;
    }
    if n == 3 && b0 == 0xE0 && bs[1] < 0xA0 {
        return None;
    }
    if n == 4 && b0 == 0xF0 && bs[1] < 0x90 {
        return None;
    }
    if n == 1 || n > 4 {
        return None;
    }
    let v: u32 = if n == 2 {
        (b0 as u32 - 0xC0) * 64 + (bs[1] as u32 - 0x80)
    } else if n == 3 {
        (b0 as u32 - 0xE0) * 4096 + (bs[1] as u32 - 0x80) * 64 + (bs[2] as u32 - 0x80)
    } else {
        (b0 as u32 - 0xF0) * 262144 + (bs[1] as u32 - 0x80) * 4096 + (bs[2] as u32 - 0x80) * 64 + (bs[3] as u32
            - 0x80)
    };
    assert(utf8_well_formed(bs@));
    assert(utf8_code(bs@) == Some(v as int));
    crate::text::char_from_u32(v)
}

impl CmdBuf {
    /// Add the byte `c` to the character being entered. Outside UTF-8 mode each
    /// byte is a character. In UTF-8 mode, a sequence is gathered: `CC_OK` while
    /// it is incomplete, `CC_PASS` and the character once it is complete and
    /// valid; an invalid sequence (or byte) rings the bell and gives `CC_ERROR`.
    /// A sequence cut short by a byte that does not continue it rings the bell
    /// too, and the byte starts anew.
    pub fn cmd_uchar(&mut self, c: u8, utf_mode: bool) -> (r: (i32, Option<char>))
        requires
            old(self).wf(),
        ensures
            final(self).wf(),
            uchar_result(*old(self), c, utf_mode, *final(self), r),
    {
        if !utf_mode {
            return (CC_PASS, Some(c as char));
        }
        if self.mbc_len > 0 && 0x80 <= c && c < 0xC0 {
            self.mbc.push(c);
            if self.mbc.len() < self.mbc_len {
                return (CC_OK, None);
            }
            self.mbc_len = 0;
            let ch = utf8_decode(&self.mbc);
            match ch {
                Some(x) => {
                    return (CC_PASS, Some(x));
                },
                None => {
                    self.bell = true;
                    return (CC_ERROR, None);
                },
            }
        }
        if self.mbc_len > 0 {
            self.mbc_len = 0;
            self.bell = true;
        }
        self.mbc.clear();
        self.mbc.push(c);
        assert(self.mbc@ =~= seq![c]);
        if c < 0x80 {
            (CC_PASS, Some(c as char))
        } else if 0xC0 <= c && c < 0xFE {
            self.mbc_len = utf_lead_len_exec(c);
            (CC_OK, None)
        } else {
            self.bell = true;
            (CC_ERROR, None)
        }
    }
}


/// What inserting `c` does to the line `a`, giving `b` and `r` (see `cmd_ichar`).
pub open spec fn ichar_line(a: CmdBuf, c: char, b: CmdBuf, r: i32) -> bool {
    if bytes_len(a.text()) + utf8_len(c) >= CMDBUF_SIZE - 1 {
        &&& r == CC_ERROR
        &&& b.rang()
        &&& b.text() == a.text()
        &&& b.cursor() == a.cursor()
        &&& b.updown() == a.updown()
    } else {
        &&& r == CC_OK
        &&& b.text() == a.text().insert(a.cursor(), c)
        &&& b.cursor() == a.cursor() + 1
        &&& b.updown() is None
        &&& b.rang() == a.rang()
    }
}

/// Is `action` one that `cmd_edit` carries out (rather than passing it on)?
pub open spec fn is_edit_action(action: i32) -> bool {
    ||| action == A_NOACTION
    ||| action == EC_START_PASTE
    ||| action == EC_END_PASTE
    ||| action == EC_LITERAL
    ||| action == EC_F_COMPLETE
    ||| action == EC_B_COMPLETE
    ||| action == EC_EXPAND
    ||| action == EC_UP
    ||| action == EC_DOWN
    ||| action == EC_RIGHT
    ||| action == EC_LEFT
    ||| action == EC_W_RIGHT
    ||| action == EC_W_LEFT
    ||| action == EC_HOME
    ||| action == EC_END
    ||| action == EC_INSERT
    ||| action == EC_BACKSPACE
    ||| action == EC_DELETE
    ||| action == EC_W_BACKSPACE
    ||| action == EC_W_DELETE
    ||| action == EC_LINEKILL
    ||| action == EC_ABORT
}

impl CmdBuf {
    /// Take one character `c` of a command that is typed into the buffer (a
    /// number, a search pattern, ...). After a "literal" key it is inserted as
    /// it is. Otherwise, while a command is being entered (`in_mca`), a
    /// single-byte character may be a line-editing key: `action` is what it
    /// stands for, and `cmd_edit` carries it out. Anything else is inserted.
    /// Result: `CC_OK` (accepted), `CC_QUIT` (abort the command), `CC_ERROR`.
    pub fn cmd_char2(
        &mut self,
        hists: &mut Histories,
        paste: &mut PasteState,
        c: char,
        in_mca: bool,
        action: i32,
        stay_in_completion: bool,
        no_paste: bool,
        now: i64,
        list: Option<CompletionList>,
        q: &Quoting,
    ) -> (r: i32)
        requires
            old(self).wf(),
            old(hists).wf(),
        ensures
            final(self).wf(),
            final(hists).wf(),
            ({
                let a = *old(self);
                let b = *final(self);
                let ic = ignore_check(*old(paste), action, now);
                let editing = in_mca && (c as u32) < 0x80;
                if a.literal_next() {
                    &&& ichar_line(a, c, b, r)
                    &&& !b.literal_next()
                    &&& b.flags() == a.flags()
                    &&& b.history() == a.history()
                    &&& b.partial_len() == a.partial_len()
                    &&& b.completing() == a.completing()
                    &&& *final(hists) == *old(hists)
                    &&& *final(paste) == *old(paste)
                } else if editing && (ic.0 || is_edit_action(action)) {
                    edit_result(a, *old(hists), *old(paste), action, stay_in_completion, no_paste, now, list, *q,
                        b, *final(hists), *final(paste), r)
                } else {
                    &&& ichar_line(a, c, b, r)
                    &&& a.same_mode(&b)
                    &&& b.completing() == if editing && !stay_in_completion { false } else { a.completing() }
                    &&& *final(hists) == *old(hists)
                    &&& *final(paste) == if editing { ic.1 } else { *old(paste) }
                }
            }),
    {
        if self.literal {
            self.literal = false;
            return self.cmd_ichar(c);
        }
        if in_mca && (c as u32) < 0x80 {
            let e = self.cmd_edit(hists, paste, action, stay_in_completion, no_paste, now, list, q);
            if e == CC_OK || e == CC_QUIT {
                return e;
            }
        }
        self.cmd_ichar(c)
    }
}


/// What `cmd_char` does with the character `c` (whose editing action is
/// `action`): the command line `a`, the histories `ha` and the paste state `pa`
/// before; `b`, `hb`, `pb` after; `r` its result.
pub open spec fn char_result(
    a: CmdBuf,
    ha: Histories,
    pa: PasteState,
    c: char,
    in_mca: bool,
    action: i32,
    no_paste: bool,
    now: i64,
    list: Option<CompletionList>,
    q: Quoting,
    b: CmdBuf,
    hb: Histories,
    pb: PasteState,
    r: i32,
) -> bool {
    let ic = ignore_check(pa, action, now);
    let editing = in_mca && (c as u32) < 0x80;
    if a.literal_next() {
        &&& ichar_line(a, c, b, r)
        &&& !b.literal_next()
        &&& b.flags() == a.flags()
        &&& b.history() == a.history()
        &&& b.partial_len() == a.partial_len()
        &&& b.completing() == a.completing()
        &&& hb == ha
        &&& pb == pa
    } else if editing && (ic.0 || is_edit_action(action)) {
        edit_result(a, ha, pa, action, false, no_paste, now, list, q, b, hb, pb, r)
    } else {
        &&& ichar_line(a, c, b, r)
        &&& a.same_mode(&b)
        &&& b.completing() == if editing { false } else { a.completing() }
        &&& hb == ha
        &&& pb == if editing { ic.1 } else { pa }
    }
}

impl CmdBuf {
    /// Take a character typed into the buffer (see `cmd_char2`); a completion in
    /// progress ends unless the character completes it further.
    pub fn cmd_char(
        &mut self,
        hists: &mut Histories,
        paste: &mut PasteState,
        c: char,
        in_mca: bool,
        action: i32,
        no_paste: bool,
        now: i64,
        list: Option<CompletionList>,
        q: &Quoting,
    ) -> (r: i32)
        requires
            old(self).wf(),
            old(hists).wf(),
        ensures
            final(self).wf(),
            final(hists).wf(),
            char_result(*old(self), *old(hists), *old(paste), c, in_mca, action, no_paste, now, list, *q,
                *final(self), *final(hists), *final(paste), r),
    {
        self.cmd_char2(hists, paste, c, in_mca, action, false, no_paste, now, list, q)
    }

    /// Put the characters of `s` into the buffer as if they were typed (none of
    /// them being an editing key), in upper case if `uc`; stop at the first that
    /// does not fit (`CC_ERROR`). A completion in progress goes on.
    pub fn cmd_setstring(&mut self, s: &str, uc: bool) -> (r: i32)
        requires
            old(self).wf(),
        ensures
            final(self).wf(),
            ({
                let u = if uc { crate::opttbl::upper_name(s@) } else { s@ };
                let ins = istr_line(old(self).text(), old(self).cursor(), u);
                &&& (final(self).text(), final(self).cursor()) == (ins.0, ins.1)
                &&& r == if ins.2 { CC_OK } else { CC_ERROR }
                &&& !ins.2 ==> final(self).rang()
                &&& ins.2 ==> final(self).rang() == old(self).rang()
                &&& final(self).literal_next() == (old(self).literal_next() && s@.len() == 0)
            }),
            final(self).flags() == old(self).flags(),
            final(self).history() == old(self).history(),
            final(self).partial_len() == old(self).partial_len(),
            final(self).completing() == old(self).completing(),
    {
        let sv = crate::text::str_to_chars(s);
        let mut u: Vec<char> = Vec::new();
        let mut i: usize = 0;
        while i < sv.len()
            invariant
                0 <= i <= sv@.len(),
                sv@ == s@,
                u@ == (if uc { crate::opttbl::upper_name(s@) } else { s@ }).subrange(0, i as int),
            decreases sv@.len() - i,
        {
            let c = if uc {
                crate::opttbl::to_ascii_upper(sv[i])
            } else {
                sv[i]
            };
            u.push(c);
            i = i + 1;
            assert(u@ =~= (if uc { crate::opttbl::upper_name(s@) } else { s@ }).subrange(0, i as int));
        }
        assert(u@ =~= (if uc { crate::opttbl::upper_name(s@) } else { s@ }));
        if sv.len() > 0 {
            self.literal = false;
        }
        self.cmd_istr_chars(&u)
    }
}

} // verus!
