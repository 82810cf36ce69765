use vstd::prelude::*;
use vstd::string::StrSliceExecFns;

use crate::defs::{
    A_END_PASTE, A_PREFIX, NUM_SEARCH_COLORS, SRCH_BACK, OPT_NO_PROMPT, OPT_SET, OPT_TOGGLE, OPT_UNSET, SRCH_FILTER,
    SRCH_FIRST_FILE, SRCH_FORW, SRCH_NO_MATCH, SRCH_NO_MOVE, SRCH_NO_REGEX, SRCH_PAST_EOF, SRCH_WRAP,
};
use crate::optfunc::{srch_subsearch, srch_subsearch_spec};

verus! {

/// A command character that was put back, to be read again.
#[derive(Clone, Copy, Debug, PartialEq, Eq, Structural)]
pub struct Char {
    pub ch: char,
    /// Does this character mark the end of a command given in advance?
    pub end_command: bool,
}

/// The characters that were put back ("ungotten"), to be read before any typed
/// input. The last one is the next to be read.
#[derive(Debug)]
pub struct Ungot {
    chars: Vec<Char>,
}

impl View for Ungot {
    type V = Seq<Char>;

    /// The ungotten characters; the last is read first.
    closed spec fn view(&self) -> Seq<Char> {
        self.chars@
    }
}

/// The stack that `ungetsc` leaves: the characters of `s` under those of `st`,
/// so that they are read after them, in the order of `s`.
pub open spec fn pushed_string(st: Seq<Char>, s: Seq<char>) -> Seq<Char>
    decreases s.len(),
{
    if s.len() == 0 {
        st
    } else {
        seq![Char { ch: s.last(), end_command: false }] + pushed_string(st, s.drop_last())
    }
}

impl Ungot {
    pub fn new() -> (r: Self)
        ensures
            r@ == Seq::<Char>::empty(),
    {
        Ungot { chars: Vec::new() }
    }

    /// "Unget" a command character: the next `getcc` will return it.
    pub fn ungetcc(&mut self, c: char)
        ensures
            final(self)@ == old(self)@.push(Char { ch: c, end_command: false }),
    {
        self.chars.push(Char { ch: c, end_command: false });
    }

    /// "Unget" a command character, after any that are already ungotten.
    fn ungetcc_back1(&mut self, c: char, end_command: bool)
        ensures
            final(self)@ == seq![Char { ch: c, end_command }] + old(self)@,
    {
        self.chars.insert(0, Char { ch: c, end_command });
        assert(self.chars@ =~= seq![Char { ch: c, end_command }] + old(self)@);
    }

    /// "Unget" a command character; if other characters are already ungotten,
    /// this one is read after those.
    pub fn ungetcc_back(&mut self, c: char)
        ensures
            final(self)@ == seq![Char { ch: c, end_command: false }] + old(self)@,
    {
        self.ungetcc_back1(c, false);
    }

    /// Mark the end of a command given in advance, after any ungotten characters.
    pub fn ungetcc_end_command(&mut self)
        ensures
            final(self)@ == seq![Char { ch: '\0', end_command: true }] + old(self)@,
    {
        self.ungetcc_back1('\0', true);
    }

    /// Unget a whole string of command characters: after any that are already
    /// ungotten, the next `getcc`s return its characters in order.
    pub fn ungetsc(&mut self, s: &str)
        ensures
            final(self)@ == pushed_string(old(self)@, s@),
            final(self)@.len() == s@.len() + old(self)@.len(),
            forall|j: int|
                0 <= j < s@.len() ==> (#[trigger] final(self)@[s@.len() - 1 - j]).ch == s@[j]
                    && !final(self)@[s@.len() - 1 - j].end_command,
            final(self)@.subrange(s@.len() as int, final(self)@.len() as int) == old(self)@,
    {
        let n = s.unicode_len();
        let mut i: usize = 0;
        assert(s@.subrange(0, 0) =~= Seq::<char>::empty());
        assert(self@.subrange(0, self@.len() as int) =~= old(self)@);
        while i < n
            invariant
                n == s@.len(),
                0 <= i <= n,
                self@ == pushed_string(old(self)@, s@.subrange(0, i as int)),
                self@.len() == i + old(self)@.len(),
                forall|j: int|
                    0 <= j < i ==> (#[trigger] self@[i - 1 - j]).ch == s@[j] && !self@[i - 1 - j].end_command,
                self@.subrange(i as int, self@.len() as int) == old(self)@,
            decreases n - i,
        {
            let c = s.get_char(i);
            let ghost before = self@;
            self.ungetcc_back(c);
            proof {
                let t = s@.subrange(0, i + 1);
                assert(t.drop_last() =~= s@.subrange(0, i as int));
                assert(t.last() == c);
                assert forall|j: int| 0 <= j < i + 1 implies (#[trigger] self@[i - j]).ch == s@[j]
                    && !self@[i - j].end_command by {
                    if j == i {
                        assert(self@[0].ch == c);
                    } else {
                        assert(self@[i - j] == before[i - 1 - j]);
                    }
                }
                assert(self@.subrange(i + 1, self@.len() as int) =~= before.subrange(i as int, before.len() as int));
            }
            i = i + 1;
        }
        assert(s@.subrange(0, n as int) =~= s@);
    }

    /// Take the next ungotten character (the last one put back) and whether it
    /// marks the end of a command given in advance.
    pub fn get_ungot(&mut self) -> (r: Char)
        requires
            old(self)@.len() > 0,
        ensures
            r == old(self)@.last(),
            final(self)@ == old(self)@.drop_last(),
    {
        let r = self.chars.pop();
        match r {
            Some(c) => c,
            None => Char { ch: '\0', end_command: false },
        }
    }

    /// The character that the next `getcc` returns, if it comes from the
    /// ungotten ones; `None` if it is to come from the terminal.
    pub fn peekcc(&self) -> (r: Option<char>)
        ensures
            self@.len() == 0 ==> r is None,
            self@.len() > 0 ==> r == Some(self@.last().ch),
    {
        let n = self.chars.len();
        if n == 0 {
            None
        } else {
            Some(self.chars[n - 1].ch)
        }
    }

    pub fn is_empty(&self) -> (r: bool)
        ensures
            r == (self@.len() == 0),
    {
        self.chars.len() == 0
    }

    /// The next ungotten character, if any.
    pub fn current(&self) -> (r: Option<&Char>)
        ensures
            self@.len() == 0 ==> r is None,
            self@.len() > 0 ==> r == Some(&self@.last()),
    {
        let n = self.chars.len();
        if n == 0 {
            None
        } else {
            Some(&self.chars[n - 1])
        }
    }

    /// Forget all ungotten characters.
    pub fn getcc_clear(&mut self)
        ensures
            final(self)@ == Seq::<Char>::empty(),
    {
        self.chars.clear();
    }
}

/// A search type normalized: "past end of file" and "wrap around" cannot both hold;
/// where both are set, "past end of file" is dropped.
pub open spec fn norm_search_type_spec(st: i32) -> i32 {
    if st & (SRCH_PAST_EOF | SRCH_WRAP) == (SRCH_PAST_EOF | SRCH_WRAP) {
        st ^ SRCH_PAST_EOF
    } else {
        st
    }
}

/// Normalize a search type (see `norm_search_type_spec`).
pub fn norm_search_type(st: i32) -> (r: i32)
    ensures
        r == norm_search_type_spec(st),
        r & (SRCH_PAST_EOF | SRCH_WRAP) != (SRCH_PAST_EOF | SRCH_WRAP),
        r & !SRCH_PAST_EOF == st & !SRCH_PAST_EOF,
{
    let r = if st & (SRCH_PAST_EOF | SRCH_WRAP) == (SRCH_PAST_EOF | SRCH_WRAP) {
        st ^ SRCH_PAST_EOF
    } else {
        st
    };
    assert(r & (SRCH_PAST_EOF | SRCH_WRAP) != (SRCH_PAST_EOF | SRCH_WRAP) && r & !SRCH_PAST_EOF
        == st & !SRCH_PAST_EOF) by (bit_vector)
        requires
            r == if st & (SRCH_PAST_EOF | SRCH_WRAP) == (SRCH_PAST_EOF | SRCH_WRAP) {
                st ^ SRCH_PAST_EOF
            } else {
                st
            },
    ;
    r
}


/// How long (in seconds) input is ignored after a paste began, at most.
pub const IGNORE_INPUT_SECS: i64 = 5;

/// Whether text is being pasted, and whether (since when) input is ignored.
#[derive(Clone, Copy, Debug, PartialEq, Eq, Structural)]
pub struct PasteState {
    pub pasting: bool,
    pub ignoring: bool,
    /// When input began to be ignored (seconds).
    pub since: i64,
}

/// What `is_ignoring_input` answers for `action` at time `now`, and the state after.
pub open spec fn ignore_check(p: PasteState, action: i32, now: i64) -> (bool, PasteState) {
    if !p.ignoring {
        (false, p)
    } else {
        let stop = action == A_END_PASTE || now as int >= p.since + IGNORE_INPUT_SECS;
        (action != A_PREFIX, if stop {
            PasteState { pasting: false, ignoring: false, since: p.since }
        } else {
            p
        })
    }
}

impl PasteState {
    pub fn new() -> (r: Self)
        ensures
            !r.pasting,
            !r.ignoring,
            r.since == 0,
    {
        PasteState { pasting: false, ignoring: false, since: 0 }
    }

    /// Begin to ignore input, at time `now`.
    pub fn start_ignoring_input(&mut self, now: i64)
        ensures
            final(self).ignoring,
            final(self).since == now,
            final(self).pasting == old(self).pasting,
    {
        self.ignoring = true;
        self.since = now;
    }

    /// Stop ignoring input; a paste is over.
    pub fn stop_ignoring_input(&mut self)
        ensures
            !final(self).ignoring,
            !final(self).pasting,
            final(self).since == old(self).since,
    {
        self.ignoring = false;
        self.pasting = false;
    }

    /// Is input of `action` to be ignored, at time `now`? Ignoring stops at the end
    /// of a paste and once it has lasted the limit; a prefix is never ignored
    /// while ignoring lasts.
    pub fn is_ignoring_input(&mut self, action: i32, now: i64) -> (r: bool)
        ensures
            (r, *final(self)) == ignore_check(*old(self), action, now),
    {
        if !self.ignoring {
            return false;
        }
        if action == A_END_PASTE {
            self.stop_ignoring_input();
        }
        if self.since <= i64::MAX - IGNORE_INPUT_SECS && now >= self.since + IGNORE_INPUT_SECS {
            self.stop_ignoring_input();
        }
        action != A_PREFIX
    }
}


/// The multi-character command being entered.
#[derive(Clone, Copy, Debug, PartialEq, Eq, Structural)]
pub enum Mca {
    Null,
    Prefix,
    Digit,
    FSearch,
    BSearch,
    Filter,
    FirstCmd,
    OptToggle,
    FBracket,
    BBracket,
    Examine,
    Shell,
    PShell,
    Pipe,
    SetMark,
    ClrMark,
    GoMark,
}

/// What a character of a multi-character command did.
#[derive(Clone, Copy, Debug, PartialEq, Eq, Structural)]
pub enum McaResult {
    /// It is not part of the command: treat it as a command of its own.
    NoMca,
    /// The command needs more characters.
    McaMore,
    /// The command is complete (or aborted).
    McaDone,
}

/// Is a multi-character command being entered?
pub fn in_mca(mca: Mca) -> (r: bool)
    ensures
        r == (mca != Mca::Null && mca != Mca::Prefix),
{
    mca != Mca::Null && mca != Mca::Prefix
}

/// Is `c` one of the erase or kill characters?
pub fn is_erase_char(c: char, erase_char: char, erase2_char: char, kill_char: char) -> (r: bool)
    ensures
        r == (c == erase_char || c == erase2_char || c == kill_char),
{
    c == erase_char || c == erase2_char || c == kill_char
}

/// Is `c` a carriage return or a newline?
pub fn is_newline_char(c: char) -> (r: bool)
    ensures
        r == (c == '\n' || c == '\r'),
{
    c == '\n' || c == '\r'
}

/// The words that show a flag of a search type.
pub open spec fn flag_word(st: i32, flag: i32, word: Seq<char>) -> Seq<char> {
    if st & flag != 0 {
        word
    } else {
        Seq::empty()
    }
}

/// The prompt of a search command: the search type in words, `Lit ` if the
/// next character is taken literally, and `&/`, `/` or `?`.
pub open spec fn search_prompt_spec(st: i32, literal_char: bool) -> Seq<char> {
    flag_word(st, SRCH_NO_MATCH, "Non-match "@) + flag_word(st, SRCH_FIRST_FILE, "First-file "@) + flag_word(
        st,
        SRCH_PAST_EOF,
        "EOF-ignore "@,
    ) + flag_word(st, SRCH_NO_MOVE, "Keep-pos "@) + flag_word(st, SRCH_NO_REGEX, "Regex-off "@) + flag_word(
        st,
        SRCH_WRAP,
        "Wrap "@,
    ) + flag_word(st, srch_subsearch_spec(1), "Sub-1 "@) + flag_word(st, srch_subsearch_spec(2), "Sub-2 "@)
        + flag_word(st, srch_subsearch_spec(3), "Sub-3 "@) + flag_word(st, srch_subsearch_spec(4), "Sub-4 "@)
        + flag_word(st, srch_subsearch_spec(5), "Sub-5 "@) + (if literal_char {
        "Lit "@
    } else {
        Seq::empty()
    }) + (if st & SRCH_FILTER != 0 {
        "&/"@
    } else if st & SRCH_FORW != 0 {
        "/"@
    } else {
        "?"@
    })
}

/// The search command of a search type: filtering, forward or backward.
pub open spec fn search_mca_spec(st: i32) -> Mca {
    if st & SRCH_FILTER != 0 {
        Mca::Filter
    } else if st & SRCH_FORW != 0 {
        Mca::FSearch
    } else {
        Mca::BSearch
    }
}

fn push_word_if(m: &mut String, b: bool, w: &str)
    ensures
        final(m)@ == old(m)@ + if b { w@ } else { Seq::<char>::empty() },
{
    if b {
        crate::text::push_str(m, w);
    }
    assert(final(m)@ =~= old(m)@ + if b { w@ } else { Seq::<char>::empty() });
}

/// Start a search command: which command it is, and its prompt (see
/// `search_prompt_spec`).
#[verifier::spinoff_prover]
#[verifier::rlimit(40)]
pub fn mca_search1(search_type: i32, literal_char: bool) -> (r: (Mca, String))
    ensures
        r.0 == search_mca_spec(search_type),
        r.1@ == search_prompt_spec(search_type, literal_char),
{
    let st = search_type;
    let mca = if st & SRCH_FILTER != 0 {
        Mca::Filter
    } else if st & SRCH_FORW != 0 {
        Mca::FSearch
    } else {
        Mca::BSearch
    };
    let mut m = String::new();
    push_word_if(&mut m, st & SRCH_NO_MATCH != 0, "Non-match ");
    push_word_if(&mut m, st & SRCH_FIRST_FILE != 0, "First-file ");
    push_word_if(&mut m, st & SRCH_PAST_EOF != 0, "EOF-ignore ");
    push_word_if(&mut m, st & SRCH_NO_MOVE != 0, "Keep-pos ");
    push_word_if(&mut m, st & SRCH_NO_REGEX != 0, "Regex-off ");
    push_word_if(&mut m, st & SRCH_WRAP != 0, "Wrap ");
    push_word_if(&mut m, st & srch_subsearch(1) != 0, "Sub-1 ");
    push_word_if(&mut m, st & srch_subsearch(2) != 0, "Sub-2 ");
    push_word_if(&mut m, st & srch_subsearch(3) != 0, "Sub-3 ");
    push_word_if(&mut m, st & srch_subsearch(4) != 0, "Sub-4 ");
    push_word_if(&mut m, st & srch_subsearch(5) != 0, "Sub-5 ");
    push_word_if(&mut m, literal_char, "Lit ");
    if st & SRCH_FILTER != 0 {
        crate::text::push_str(&mut m, "&/");
    } else if st & SRCH_FORW != 0 {
        crate::text::push_str(&mut m, "/");
    } else {
        crate::text::push_str(&mut m, "?");
    }
    assert(m@ =~= search_prompt_spec(search_type, literal_char));
    (mca, m)
}

/// The prompt of an option command: `-` (or `_` to query), twice for a long
/// name, `(P)` if no prompt is wanted, and `+` or `!` to unset or set.
pub open spec fn opt_toggle_prompt_spec(optflag: i32, optgetname: bool) -> Seq<char> {
    let flag = optflag & !OPT_NO_PROMPT;
    let dash = if flag == 0 { "_"@ } else { "-"@ };
    dash + (if optgetname { dash } else { Seq::empty() }) + (if optflag & OPT_NO_PROMPT != 0 {
        "(P)"@
    } else {
        Seq::empty()
    }) + (if flag == OPT_UNSET {
        "+"@
    } else if flag == OPT_SET {
        "!"@
    } else {
        Seq::empty()
    })
}

/// The prompt of an option command (see `opt_toggle_prompt_spec`).
pub fn mca_opt_toggle(optflag: i32, optgetname: bool) -> (r: String)
    ensures
        r@ == opt_toggle_prompt_spec(optflag, optgetname),
{
    let flag = optflag & !OPT_NO_PROMPT;
    let dash = if flag == 0 {
        "_"
    } else {
        "-"
    };
    let mut m = String::new();
    crate::text::push_str(&mut m, dash);
    push_word_if(&mut m, optgetname, dash);
    push_word_if(&mut m, optflag & OPT_NO_PROMPT != 0, "(P)");
    if flag == OPT_UNSET {
        crate::text::push_str(&mut m, "+");
    } else if flag == OPT_SET {
        crate::text::push_str(&mut m, "!");
    }
    assert(m@ =~= opt_toggle_prompt_spec(optflag, optgetname));
    m
}

/// How the first character `c` after the dash of an option command changes
/// it: `_` (after `_`) or `-` begins a long name; `+` unsets and `!` sets (a
/// second time: toggles); control-P asks for no prompt. `None` if `c` is none
/// of these.
pub open spec fn opt_first_char_spec(optflag: i32, optgetname: bool, c: char) -> Option<(i32, bool)> {
    let no_prompt = optflag & OPT_NO_PROMPT;
    let flag = optflag & !OPT_NO_PROMPT;
    if flag == 0 {
        if c == '_' {
            Some((optflag, true))
        } else {
            None
        }
    } else if c == '+' {
        Some((no_prompt | if flag == OPT_UNSET { OPT_TOGGLE } else { OPT_UNSET }, optgetname))
    } else if c == '!' {
        Some((no_prompt | if flag == OPT_SET { OPT_TOGGLE } else { OPT_SET }, optgetname))
    } else if c == '\x10' {
        Some((optflag ^ OPT_NO_PROMPT, optgetname))
    } else if c == '-' {
        Some((optflag, true))
    } else {
        None
    }
}

/// Handle the first character after the dash of an option command (see
/// `opt_first_char_spec`); `McaMore` with the new prompt if it was one of
/// those characters, else `NoMca`.
pub fn mca_opt_first_char(optflag: &mut i32, optgetname: &mut bool, c: char) -> (r: (McaResult, Option<String>))
    ensures
        match opt_first_char_spec(*old(optflag), *old(optgetname), c) {
            Some(v) => *final(optflag) == v.0 && *final(optgetname) == v.1 && r.0 == McaResult::McaMore && (r.1 matches Some(
                p,
            ) && p@ == opt_toggle_prompt_spec(v.0, v.1)),
            None => *final(optflag) == *old(optflag) && *final(optgetname) == *old(optgetname) && r.0
                == McaResult::NoMca && r.1 is None,
        },
{
    let no_prompt = *optflag & OPT_NO_PROMPT;
    let flag = *optflag & !OPT_NO_PROMPT;
    if flag == 0 {
        if c == '_' {
            *optgetname = true;
        } else {
            return (McaResult::NoMca, None);
        }
    } else if c == '+' {
        *optflag = no_prompt | if flag == OPT_UNSET {
            OPT_TOGGLE
        } else {
            OPT_UNSET
        };
    } else if c == '!' {
        *optflag = no_prompt | if flag == OPT_SET {
            OPT_TOGGLE
        } else {
            OPT_SET
        };
    } else if c == '\x10' {
        *optflag = *optflag ^ OPT_NO_PROMPT;
    } else if c == '-' {
        *optgetname = true;
    } else {
        return (McaResult::NoMca, None);
    }
    (McaResult::McaMore, Some(mca_opt_toggle(*optflag, *optgetname)))
}

/// What a character `c` at the start of a search pattern does to the search
/// type `st` (in the command `mca`): the flag it toggles (0: none; -1: none but
/// the character is taken), the type after, and whether the next character is
/// then literal. After control-S, `sub` is the digit of the sub-pattern.
pub open spec fn search_char_spec(mca: Mca, st: i32, c: char, sub: char) -> (i32, i32, bool) {
    let nf = mca != Mca::Filter;
    if c == '*' || c == '\x05' {
        (if nf { SRCH_PAST_EOF } else { 0 }, st & !SRCH_WRAP, false)
    } else if c == '\x06' || c == '@' {
        (if nf { SRCH_FIRST_FILE } else { 0 }, st, false)
    } else if c == '\x0b' {
        (if nf { SRCH_NO_MOVE } else { 0 }, st, false)
    } else if c == '\x13' {
        (if '1' <= sub <= '5' { srch_subsearch_spec(sub as int - '0' as int) } else { -1i32 }, st, false)
    } else if c == '\x17' {
        (if nf { SRCH_WRAP } else { 0 }, st, false)
    } else if c == '\x12' {
        (SRCH_NO_REGEX, st, false)
    } else if c == '\x0e' || c == '!' {
        (SRCH_NO_MATCH, st, false)
    } else if c == '\x0c' {
        (-1i32, st, true)
    } else {
        (0, st, false)
    }
}

/// Handle a character of a search command. Only the first character of the
/// pattern (and not a literal one) may be special: `!` or control-N (no match),
/// `*` or control-E (past the end of file), `@` or control-F (from the first
/// file), control-K (keep the position), control-W (wrap), control-R (no
/// regular expression), control-S and a digit (a sub-pattern), control-L (next
/// character literal); see `search_char_spec`. Gives `McaMore` and the new
/// search command and prompt when the character was special, else `NoMca`.
pub fn mca_search_char(
    mca: Mca,
    search_type: &mut i32,
    literal_char: &mut bool,
    cmdbuf_empty: bool,
    c: char,
    sub: char,
) -> (r: (McaResult, Option<(Mca, String)>))
    ensures
        !cmdbuf_empty || *old(literal_char) ==> r.0 == McaResult::NoMca && r.1 is None && !*final(literal_char)
            && *final(search_type) == *old(search_type),
        cmdbuf_empty && !*old(literal_char) ==> {
            let x = search_char_spec(mca, *old(search_type), c, sub);
            &&& *final(literal_char) == x.2
            &&& x.0 == 0 ==> r.0 == McaResult::NoMca && r.1 is None && *final(search_type) == x.1
            &&& x.0 == -1 ==> r.0 == McaResult::McaMore && *final(search_type) == x.1
            &&& x.0 != 0 && x.0 != -1 ==> r.0 == McaResult::McaMore && *final(search_type)
                == crate::command::norm_search_type_spec(x.1 ^ x.0)
            &&& x.0 != 0 ==> (r.1 matches Some(v) && v.0 == search_mca_spec(*final(search_type)) && v.1@
                == search_prompt_spec(*final(search_type), *final(literal_char)))
        },
{
    if !cmdbuf_empty || *literal_char {
        *literal_char = false;
        return (McaResult::NoMca, None);
    }
    let nf = mca != Mca::Filter;
    let mut flag: i32 = 0;
    if c == '*' || c == '\x05' {
        if nf {
            flag = SRCH_PAST_EOF;
        }
        *search_type = *search_type & !SRCH_WRAP;
    } else if c == '\x06' || c == '@' {
        if nf {
            flag = SRCH_FIRST_FILE;
        }
    } else if c == '\x0b' {
        if nf {
            flag = SRCH_NO_MOVE;
        }
    } else if c == '\x13' {
        if '1' <= sub && sub <= '5' {
            let d: i32 = (sub as u32 - '0' as u32) as i32;
            flag = srch_subsearch(d);
            assert(flag == srch_subsearch_spec(sub as int - '0' as int));
        } else {
            flag = -1;
        }
    } else if c == '\x17' {
        if nf {
            flag = SRCH_WRAP;
        }
    } else if c == '\x12' {
        flag = SRCH_NO_REGEX;
    } else if c == '\x0e' || c == '!' {
        flag = SRCH_NO_MATCH;
    } else if c == '\x0c' {
        *literal_char = true;
        flag = -1;
    }
    if flag != 0 {
        if flag != -1 {
            *search_type = norm_search_type(*search_type ^ flag);
        }
        let p = mca_search1(*search_type, *literal_char);
        return (McaResult::McaMore, Some(p));
    }
    (McaResult::NoMca, None)
}


/// What a completed multi-character command asks to be done.
#[derive(Debug)]
#[allow(inconsistent_fields)]
pub enum ExecMca {
    /// Search for `pattern`, for its `n`th match.
    Search { pattern: String, n: i64 },
    /// Show only the lines that match `pattern` (or that do not, as the search
    /// type says).
    Filter { pattern: String, search_type: i32 },
    /// The command to run on each new file (none, if it is empty).
    FirstCmd(Option<String>),
    /// Give the option being entered the value.
    OptToggle(String),
    /// Find the bracket `close` that matches `open`, forward or back, the `n`th.
    Bracket { open: char, close: char, forward: bool, n: i64 },
    /// Examine the files named.
    Examine(String),
    /// Run a shell command (none: the last one again), then say it is done
    /// (unless control-P began it).
    Shell { cmd: Option<String>, done_msg: bool },
    /// Run the shell command that the prompt prototype makes.
    PShell { proto: String, done_msg: bool },
    /// Pipe the text up to the mark into a shell command.
    Pipe { mark: char, cmd: String, done_msg: bool },
    Nothing,
}

/// The index of the first character of `t` that is neither `+` nor a space.
pub open spec fn skip_plus_space(t: Seq<char>, i: int) -> int
    decreases t.len() - i,
{
    if 0 <= i < t.len() && (t[i] == '+' || t[i] == ' ') {
        skip_plus_space(t, i + 1)
    } else {
        i
    }
}

/// A shell command after control-P (which asks for no message when it is done)
/// is taken off: whether there was one, and where the command begins.
pub open spec fn shell_start(t: Seq<char>) -> (bool, int) {
    if t.len() > 0 && t[0] == '\x10' {
        (false, 1)
    } else {
        (true, 0)
    }
}

/// What the command `mca` with the text `t` asks (see `ExecMca`).
pub open spec fn exec_mca_matches(mca: Mca, t: Seq<char>, number: i64, search_type: i32, pipec: char, r: ExecMca) -> bool {
    match mca {
        Mca::FSearch | Mca::BSearch => r matches ExecMca::Search { pattern, n } && pattern@ == t && n == number,
        Mca::Filter => r matches ExecMca::Filter { pattern, search_type: st } && pattern@ == t && st == search_type
            ^ SRCH_NO_MATCH,
        Mca::FirstCmd => {
            let k = skip_plus_space(t, 0);
            r matches ExecMca::FirstCmd(c) && (k >= t.len() ==> c is None) && (k < t.len() ==> (c matches Some(x)
                && x@ == t.skip(k)))
        },
        Mca::OptToggle => r matches ExecMca::OptToggle(v) && v@ == t,
        Mca::FBracket => r matches ExecMca::Bracket { open, close, forward, n } && open
            == crate::opttbl::char_or_nul(t, 0) && close == crate::opttbl::char_or_nul(t, 1) && forward && n
            == number,
        Mca::BBracket => r matches ExecMca::Bracket { open, close, forward, n } && open
            == crate::opttbl::char_or_nul(t, 1) && close == crate::opttbl::char_or_nul(t, 0) && !forward && n
            == number,
        Mca::Examine => r matches ExecMca::Examine(f) && f@ == t,
        Mca::Shell => {
            let (d, k) = shell_start(t);
            let rest = t.skip(k);
            r matches ExecMca::Shell { cmd, done_msg } && done_msg == d && (rest.len() > 0 && rest[0] == '!'
                ==> cmd is None) && (!(rest.len() > 0 && rest[0] == '!') ==> (cmd matches Some(x) && x@
                == rest))
        },
        Mca::PShell => {
            let (d, k) = shell_start(t);
            r matches ExecMca::PShell { proto, done_msg } && done_msg == d && proto@ == t.skip(k)
        },
        Mca::Pipe => {
            let (d, k) = shell_start(t);
            r matches ExecMca::Pipe { mark, cmd, done_msg } && done_msg == d && mark == pipec && cmd@ == t.skip(k)
        },
        _ => r is Nothing,
    }
}

fn char_at_or_nul(t: &str, i: usize) -> (r: char)
    ensures
        r == crate::opttbl::char_or_nul(t@, i as int),
{
    if i < t.unicode_len() {
        t.get_char(i)
    } else {
        '\0'
    }
}

/// What the completed command `mca`, whose text is `cbuf`, asks to be done
/// (see `exec_mca_matches`).
pub fn exec_mca(mca: Mca, cbuf: &str, number: i64, search_type: i32, pipec: char) -> (r: ExecMca)
    ensures
        exec_mca_matches(mca, cbuf@, number, search_type, pipec, r),
{
    let n = cbuf.unicode_len();
    match mca {
        Mca::FSearch | Mca::BSearch => ExecMca::Search { pattern: cbuf.to_string(), n: number },
        Mca::Filter => ExecMca::Filter { pattern: cbuf.to_string(), search_type: search_type ^ SRCH_NO_MATCH },
        Mca::FirstCmd => {
            let mut k: usize = 0;
            while k < n && (cbuf.get_char(k) == '+' || cbuf.get_char(k) == ' ')
                invariant
                    k <= n,
                    n == cbuf@.len(),
                    skip_plus_space(cbuf@, 0) == skip_plus_space(cbuf@, k as int),
                decreases n - k,
            {
                k = k + 1;
            }
            if k >= n {
                ExecMca::FirstCmd(None)
            } else {
                let rest = cbuf.substring_char(k, n);
                assert(rest@ =~= cbuf@.skip(k as int));
                ExecMca::FirstCmd(Some(rest.to_string()))
            }
        },
        Mca::OptToggle => ExecMca::OptToggle(cbuf.to_string()),
        Mca::FBracket => ExecMca::Bracket {
            open: char_at_or_nul(cbuf, 0),
            close: char_at_or_nul(cbuf, 1),
            forward: true,
            n: number,
        },
        Mca::BBracket => ExecMca::Bracket {
            open: char_at_or_nul(cbuf, 1),
            close: char_at_or_nul(cbuf, 0),
            forward: false,
            n: number,
        },
        Mca::Examine => ExecMca::Examine(cbuf.to_string()),
        Mca::Shell | Mca::PShell | Mca::Pipe => {
            let quiet = n > 0 && cbuf.get_char(0) == '\x10';
            let k: usize = if quiet {
                1
            } else {
                0
            };
            let rest = cbuf.substring_char(k, n);
            assert(rest@ =~= cbuf@.skip(k as int));
            match mca {
                Mca::Shell => {
                    if rest.unicode_len() > 0 && rest.get_char(0) == '!' {
                        ExecMca::Shell { cmd: None, done_msg: !quiet }
                    } else {
                        ExecMca::Shell { cmd: Some(rest.to_string()), done_msg: !quiet }
                    }
                },
                Mca::PShell => ExecMca::PShell { proto: rest.to_string(), done_msg: !quiet },
                _ => ExecMca::Pipe { mark: pipec, cmd: rest.to_string(), done_msg: !quiet },
            }
        },
        _ => ExecMca::Nothing,
    }
}

/// A character to complete a partial command given in advance: `g` after a
/// number, a newline after a search pattern; for any other command, a NUL if
/// more characters are ungotten, else `None` (the user completes it).
pub open spec fn end_command_char(mca: Mca, ungot_empty: bool) -> Option<char> {
    if mca == Mca::Digit {
        Some('g')
    } else if mca == Mca::FSearch || mca == Mca::BSearch || mca == Mca::Filter {
        Some('\n')
    } else if ungot_empty {
        None
    } else {
        Some('\0')
    }
}

/// The character that completes a partial command given in advance (see
/// `end_command_char`).
pub fn getcc_end_command(mca: Mca, ungot_empty: bool) -> (r: Option<char>)
    ensures
        r == end_command_char(mca, ungot_empty),
{
    match mca {
        Mca::Digit => Some('g'),
        Mca::FSearch | Mca::BSearch | Mca::Filter => Some('\n'),
        _ => if ungot_empty {
            None
        } else {
            Some('\0')
        },
    }
}



/// Where the next command character comes from.
#[derive(Clone, Copy, Debug, PartialEq, Eq, Structural)]
pub enum GetccStep {
    /// Read a key from the user.
    ReadKey,
    /// This character (a NUL asks for another).
    Got(char),
}

impl Ungot {
    /// One step of getting a command character while the command is `mca`: the
    /// most recent ungotten character, if there is one; where it marks the end
    /// of a command given in advance, what completes that command instead (see
    /// `end_command_char`). With none ungotten, a key is to be read.
    pub fn getccu_step(&mut self, mca: Mca) -> (r: GetccStep)
        ensures
            old(self)@.len() == 0 ==> r == GetccStep::ReadKey && final(self)@ == old(self)@,
            old(self)@.len() > 0 ==> {
                let top = old(self)@.last();
                &&& final(self)@ == old(self)@.drop_last()
                &&& !top.end_command ==> r == GetccStep::Got(top.ch)
                &&& top.end_command ==> r == match end_command_char(mca, final(self)@.len() == 0) {
                    Some(c) => GetccStep::Got(c),
                    None => GetccStep::ReadKey,
                }
            },
    {
        if self.is_empty() {
            return GetccStep::ReadKey;
        }
        let top = self.get_ungot();
        if !top.end_command {
            return GetccStep::Got(top.ch);
        }
        match getcc_end_command(mca, self.is_empty()) {
            Some(c) => GetccStep::Got(c),
            None => GetccStep::ReadKey,
        }
    }
}

/// Where a search that may go on into other files is.
#[derive(Clone, Copy, Debug, PartialEq, Eq, Structural)]
pub enum SearchPhase {
    /// Opening the first (or last) file, to search from it.
    FirstFile,
    /// Searching the current file.
    Searching,
    /// Opening the next (or previous) file, to search on in it.
    NextFile,
    Finished,
}

/// A search that may go on into other files: its search type, the number of
/// matches still to find, and whether the file was changed.
#[derive(Clone, Copy, Debug, PartialEq, Eq, Structural)]
pub struct MultiSearch {
    pub search_type: i32,
    pub n: i32,
    pub changed_file: bool,
    pub phase: SearchPhase,
}

/// What a search that may go on into other files asks to be done next.
#[derive(Clone, Copy, Debug, PartialEq, Eq, Structural)]
pub enum SearchStep {
    EditFirst,
    EditLast,
    EditNext,
    EditPrev,
    /// Search the current file with the search type, for the `n`th match.
    Search { search_type: i32, n: i32 },
    /// The search is over: say that the pattern was not found (if asked), and
    /// go back to the file where it began (if it changed).
    Finish { not_found: bool, reedit: bool },
}

/// Begin a search of `pattern` that may go on into other files: without a
/// direction it goes forward; from the first file (or the last, going back)
/// if asked.
pub fn multi_search_start(search_type: i32, n: i32) -> (r: (MultiSearch, SearchStep))
    ensures
        ({
            let st = if search_type & (SRCH_FORW | SRCH_BACK) == 0 { search_type | SRCH_FORW } else { search_type };
            &&& r.0.search_type == st
            &&& r.0.n == n
            &&& !r.0.changed_file
            &&& st & SRCH_FIRST_FILE != 0 ==> r.0.phase == SearchPhase::FirstFile && r.1 == if st & SRCH_FORW != 0 {
                SearchStep::EditFirst
            } else {
                SearchStep::EditLast
            }
            &&& st & SRCH_FIRST_FILE == 0 ==> r.0.phase == SearchPhase::Searching && r.1 == (SearchStep::Search {
                search_type: st,
                n,
            })
        }),
{
    let st = if search_type & (SRCH_FORW | SRCH_BACK) == 0 {
        search_type | SRCH_FORW
    } else {
        search_type
    };
    if st & SRCH_FIRST_FILE != 0 {
        let step = if st & SRCH_FORW != 0 {
            SearchStep::EditFirst
        } else {
            SearchStep::EditLast
        };
        (MultiSearch { search_type: st, n, changed_file: false, phase: SearchPhase::FirstFile }, step)
    } else {
        (MultiSearch { search_type: st, n, changed_file: false, phase: SearchPhase::Searching }, SearchStep::Search {
            search_type: st,
            n,
        })
    }
}

/// The next step of a search after a file was opened (`nomore`: there was no
/// such file). After the first file, the search begins there; after the next
/// file, it goes on there; with no file, it is over.
pub fn multi_search_edited(ms: &mut MultiSearch, nomore: bool, silent: bool) -> (r: SearchStep)
    requires
        old(ms).phase == SearchPhase::FirstFile || old(ms).phase == SearchPhase::NextFile,
    ensures
        nomore && old(ms).phase == SearchPhase::FirstFile ==> final(ms).phase == SearchPhase::Finished && r
            == (SearchStep::Finish { not_found: false, reedit: false }),
        nomore && old(ms).phase == SearchPhase::NextFile ==> final(ms).phase == SearchPhase::Finished && r
            == (SearchStep::Finish { not_found: old(ms).n > 0 && !silent, reedit: old(ms).changed_file }),
        !nomore ==> {
            let st = if old(ms).phase == SearchPhase::FirstFile {
                old(ms).search_type & !SRCH_FIRST_FILE
            } else {
                old(ms).search_type
            };
            &&& *final(ms) == (MultiSearch {
                search_type: st,
                n: old(ms).n,
                changed_file: true,
                phase: SearchPhase::Searching,
            })
            &&& r == (SearchStep::Search { search_type: st, n: old(ms).n })
        },
{
    if nomore {
        let r = if ms.phase == SearchPhase::FirstFile {
            SearchStep::Finish { not_found: false, reedit: false }
        } else {
            SearchStep::Finish { not_found: ms.n > 0 && !silent, reedit: ms.changed_file }
        };
        ms.phase = SearchPhase::Finished;
        return r;
    }
    if ms.phase == SearchPhase::FirstFile {
        ms.search_type = ms.search_type & !SRCH_FIRST_FILE;
    }
    ms.changed_file = true;
    ms.phase = SearchPhase::Searching;
    SearchStep::Search { search_type: ms.search_type, n: ms.n }
}

/// The next step of a search after the current file was searched, with `n`
/// matches still not found (0: all found; negative: an error). With matches left
/// and "past end of file" set, the search goes on in the next (or previous) file;
/// else it is over, and the pattern was not found if matches were left. The
/// position is no longer kept.
pub fn multi_search_searched(ms: &mut MultiSearch, n: i32, silent: bool) -> (r: SearchStep)
    requires
        old(ms).phase == SearchPhase::Searching,
    ensures
        final(ms).search_type == old(ms).search_type & !SRCH_NO_MOVE,
        final(ms).n == n,
        final(ms).changed_file == old(ms).changed_file,
        n == 0 ==> final(ms).phase == SearchPhase::Finished && r == (SearchStep::Finish {
            not_found: false,
            reedit: false,
        }),
        n < 0 ==> final(ms).phase == SearchPhase::Finished && r == (SearchStep::Finish {
            not_found: false,
            reedit: old(ms).changed_file,
        }),
        n > 0 && final(ms).search_type & SRCH_PAST_EOF == 0 ==> final(ms).phase == SearchPhase::Finished && r
            == (SearchStep::Finish { not_found: !silent, reedit: old(ms).changed_file }),
        n > 0 && final(ms).search_type & SRCH_PAST_EOF != 0 ==> final(ms).phase == SearchPhase::NextFile && r
            == if final(ms).search_type & SRCH_FORW != 0 {
            SearchStep::EditNext
        } else {
            SearchStep::EditPrev
        },
{
    ms.search_type = ms.search_type & !SRCH_NO_MOVE;
    ms.n = n;
    if n == 0 {
        ms.phase = SearchPhase::Finished;
        return SearchStep::Finish { not_found: false, reedit: false };
    }
    if n < 0 {
        ms.phase = SearchPhase::Finished;
        return SearchStep::Finish { not_found: false, reedit: ms.changed_file };
    }
    if ms.search_type & SRCH_PAST_EOF == 0 {
        ms.phase = SearchPhase::Finished;
        return SearchStep::Finish { not_found: !silent, reedit: ms.changed_file };
    }
    ms.phase = SearchPhase::NextFile;
    if ms.search_type & SRCH_FORW != 0 {
        SearchStep::EditNext
    } else {
        SearchStep::EditPrev
    }
}

/// The message of the version command.
pub fn dispversion(version: &str) -> (r: String)
    ensures
        r@ == "less "@ + version@,
{
    let mut m = "less ".to_string();
    crate::text::push_str(&mut m, version);
    m
}


/// What one more key does while keys are matched against the sequence `orig`
/// that is to be replaced.
#[derive(Debug)]
pub enum ReplStep {
    /// The keys so far begin `orig`: read another.
    More,
    /// Give `first` now; `rest` are read next, in order.
    Done { first: char, rest: Vec<char> },
}

/// The keys `keys` (all but the last already found to begin `orig`): when they
/// stop matching (or 16 have been read), they are all given back; when they
/// make the whole of `orig`, `repl` is given in their place.
pub open spec fn repl_step_spec(orig: Seq<char>, repl: Seq<char>, keys: Seq<char>) -> (bool, Seq<char>) {
    let k = keys.len() as int;
    if keys.last() != orig[k - 1] || k >= 16 {
        (true, keys)
    } else if k == orig.len() {
        (true, repl)
    } else {
        (false, Seq::empty())
    }
}

/// One step of reading keys in which the sequence `orig` stands for `repl` (see
/// `repl_step_spec`).
pub fn getcc_repl_step(orig: &Vec<char>, repl: &Vec<char>, keys: &Vec<char>) -> (r: ReplStep)
    requires
        1 <= keys@.len() <= orig@.len(),
        repl@.len() >= 1,
        forall|i: int| 0 <= i < keys@.len() - 1 ==> keys@[i] == orig@[i],
    ensures
        ({
            let x = repl_step_spec(orig@, repl@, keys@);
            &&& !x.0 ==> r is More
            &&& x.0 ==> (r matches ReplStep::Done { first, rest } && seq![first] + rest@ == x.1)
        }),
{
    let k = keys.len();
    let done_with: Option<&Vec<char>> = if keys[k - 1] != orig[k - 1] || k >= 16 {
        Some(keys)
    } else if k == orig.len() {
        Some(repl)
    } else {
        None
    };
    match done_with {
        None => ReplStep::More,
        Some(v) => {
            let mut rest: Vec<char> = Vec::new();
            let mut i: usize = 1;
            while i < v.len()
                invariant
                    1 <= i <= v@.len(),
                    rest@ == v@.subrange(1, i as int),
                decreases v@.len() - i,
            {
                rest.push(v[i]);
                i = i + 1;
                assert(rest@ =~= v@.subrange(1, i as int));
            }
            assert(seq![v@[0]] + rest@ =~= v@);
            ReplStep::Done { first: v[0], rest }
        },
    }
}


} // verus!
