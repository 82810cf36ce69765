use vstd::prelude::*;
use vstd::string::StrSliceExecFns;

use crate::defs::{FOLLOW_DESC, MIN_LINENUM_WIDTH, OPT_OFF, OPT_ON, OPT_ONPLUS};


verus! {

/// Letter of an option that has only a long name.
pub const OLETTER_NONE: char = '\x01';

/// Type and behaviour bits of an option.
#[derive(Clone, Copy, Debug, PartialEq, Eq, Structural)]
pub struct OptFlags {
    pub bits: u32,
}

pub const O_BOOL: u32 = 0x01;

pub const O_TRIPLE: u32 = 0x02;

pub const O_NUMBER: u32 = 0x04;

pub const O_STRING: u32 = 0x10;

pub const O_NOVAR: u32 = 0x20;

pub const O_REPAINT: u32 = 0x40;

pub const O_NO_TOGGLE: u32 = 0x100;

pub const O_HL_REPAINT: u32 = 0x200;

pub const O_NO_QUERY: u32 = 0x400;

pub const O_INIT_HANDLER: u32 = 0x1000;

pub const O_UNSUPPORTED: u32 = 0x2000;

/// The bits that tell an option's type.
pub const O_OTYPE: u32 = 0x37;

impl OptFlags {
    /// Do the flags hold every bit of `mask`?
    pub open spec fn has(self, mask: u32) -> bool {
        self.bits & mask == mask
    }

    /// Do the flags hold any bit of `mask`?
    pub open spec fn any(self, mask: u32) -> bool {
        self.bits & mask != 0
    }

    /// The type of the option (one of the `O_BOOL` .. `O_NOVAR` bits, or none).
    pub open spec fn kind(self) -> u32 {
        self.bits & O_OTYPE
    }

    pub fn contains(&self, mask: u32) -> (r: bool)
        ensures
            r == self.has(mask),
    {
        self.bits & mask == mask
    }

    pub fn intersects(&self, mask: u32) -> (r: bool)
        ensures
            r == self.any(mask),
    {
        self.bits & mask != 0
    }

    pub fn otype(&self) -> (r: u32)
        ensures
            r == self.kind(),
    {
        self.bits & O_OTYPE
    }
}

/// What an option handler is being asked to do.
#[derive(Clone, Copy, Debug, PartialEq, Eq, Structural)]
pub enum OptAction {
    Init,
    Query,
    Toggle,
}

/// How an option is to be changed by `toggle_option`.
#[derive(Clone, Copy, Debug, PartialEq, Eq, Structural)]
pub enum ToggleHow {
    /// Just report the current setting.
    NoToggle,
    /// Invert the current setting.
    Toggle,
    /// Set to the default value.
    Unset,
    /// Set to the inverse of the default value.
    SetInverse,
}

/// The special handling function of an option.
#[derive(Clone, Copy, Debug, PartialEq, Eq, Structural)]
pub enum OptHandler {
    OptB,
    OptUpperD,
    OptI,
    OptJ,
    OptUpperS,
    OptX,
    OptQuote,
    OptShift,
    OptRscroll,
    OptMousecap,
    OptWheelLines,
    OptLinenumWidth,
    OptStatusColWidth,
    OptFilesize,
    OptHeader,
    OptNoPaste,
    OptSearchType,
    OptIntr,
    OptMatchShift,
}

/// One entry of the option table.
#[derive(Clone, Copy, Debug)]
pub struct LOption {
    /// The controlling letter (`OLETTER_NONE` for long-only options).
    pub oletter: char,
    /// Long (GNU-style) option names; an empty name ends the list.
    pub onames: [&'static str; 2],
    /// Type of the option.
    pub otype: OptFlags,
    /// Default value.
    pub odefault: i32,
    /// Current value, for options that have one.
    pub ovar: Option<i32>,
    /// Special handling function.
    pub ofunc: Option<OptHandler>,
    /// Description for each value (see the table).
    pub odesc: [&'static str; 3],
}

/// ASCII upper case of a letter; other characters unchanged.
pub open spec fn ascii_upper(c: char) -> char {
    if 'a' <= c && c <= 'z' {
        ((c as u32) - 32) as char
    } else {
        c
    }
}

/// ASCII lower case of a letter; other characters unchanged.
pub open spec fn ascii_lower(c: char) -> char {
    if 'A' <= c && c <= 'Z' {
        ((c as u32) + 32) as char
    } else {
        c
    }
}

pub open spec fn is_ascii_lower(c: char) -> bool {
    'a' <= c && c <= 'z'
}

pub open spec fn is_ascii_upper(c: char) -> bool {
    'A' <= c && c <= 'Z'
}

pub fn to_ascii_upper(c: char) -> (r: char)
    ensures
        r == ascii_upper(c),
{
    if 'a' <= c && c <= 'z' {
        (((c as u32) - 32) as u8) as char
    } else {
        c
    }
}

pub fn to_ascii_lower(c: char) -> (r: char)
    ensures
        r == ascii_lower(c),
{
    if 'A' <= c && c <= 'Z' {
        (((c as u32) + 32) as u8) as char
    } else {
        c
    }
}

/// Does option `o` answer to the letter `c`?
/// A triple-valued option also answers to the upper case of its letter.
pub open spec fn answers_letter(o: LOption, c: char) -> bool {
    o.oletter == c || (o.otype.any(O_TRIPLE) && ascii_upper(o.oletter) == c)
}

/// Index of the first option of `tbl` that answers to `c`.
pub open spec fn first_with_letter(tbl: Seq<LOption>, c: char, from: int) -> Option<int>
    decreases tbl.len() - from,
{
    if from < 0 || from >= tbl.len() {
        None
    } else if answers_letter(tbl[from], c) {
        Some(from)
    } else {
        first_with_letter(tbl, c, from + 1)
    }
}

pub proof fn lemma_first_with_letter_in_range(tbl: Seq<LOption>, c: char, from: int)
    ensures
        first_with_letter(tbl, c, from) matches Some(i) ==> from <= i < tbl.len() && answers_letter(
            tbl[i],
            c,
        ),
    decreases tbl.len() - from,
{
    if 0 <= from < tbl.len() && !answers_letter(tbl[from], c) {
        lemma_first_with_letter_in_range(tbl, c, from + 1);
    }
}

/// Find an option in the table, given its option letter.
pub fn findopt_in(tbl: &Vec<LOption>, c: char) -> (r: Option<usize>)
    ensures
        r matches Some(i) ==> first_with_letter(tbl@, c, 0) == Some(i as int),
        r is None ==> first_with_letter(tbl@, c, 0) is None,
{
    let mut i: usize = 0;
    while i < tbl.len()
        invariant
            0 <= i <= tbl.len(),
            first_with_letter(tbl@, c, 0) == first_with_letter(tbl@, c, i as int),
        decreases tbl.len() - i,
    {
        let o = &tbl[i];
        if o.oletter == c || (o.otype.intersects(O_TRIPLE) && to_ascii_upper(o.oletter) == c) {
            return Some(i);
        }
        i = i + 1;
    }
    None
}

/// The character at `k` of `s`, or NUL past its end (as a C string reads).
pub open spec fn char_or_nul(s: Seq<char>, k: int) -> char {
    if 0 <= k < s.len() {
        s[k]
    } else {
        '\0'
    }
}

/// Can `c` be part of an option name?
pub open spec fn is_optchar_spec(c: char) -> bool {
    is_ascii_upper(c) || is_ascii_lower(c) || c == '-'
}

/// Can `c` be part of an option name?
pub fn is_optchar(c: char) -> (r: bool)
    ensures
        r == is_optchar_spec(c),
{
    ('A' <= c && c <= 'Z') || ('a' <= c && c <= 'z') || c == '-'
}

/// Length of the match of `ps` against the name `s`, counting from `k`.
/// Past the first character, upper-case letters of `s` compare as lower case.
/// With `uppercase`, `ps` must start with a non-lower-case character, and its
/// upper-case letters compare as lower case.
pub open spec fn sprefix_from(ps: Seq<char>, s: Seq<char>, uppercase: bool, k: int) -> int
    decreases s.len() - k,
{
    if k < 0 || k >= s.len() {
        k
    } else {
        let c0 = char_or_nul(ps, k);
        if uppercase && k == 0 && is_ascii_lower(c0) {
            0
        } else {
            let c = if uppercase {
                ascii_lower(c0)
            } else {
                c0
            };
            let sc = if k > 0 && !uppercase {
                ascii_lower(s[k])
            } else {
                s[k]
            };
            if c != sc {
                k
            } else {
                sprefix_from(ps, s, uppercase, k + 1)
            }
        }
    }
}

/// How many leading characters of `ps` match the name `s`.
pub open spec fn sprefix_spec(ps: Seq<char>, s: Seq<char>, uppercase: bool) -> int {
    sprefix_from(ps, s, uppercase, 0)
}

proof fn lemma_sprefix_bounds(ps: Seq<char>, s: Seq<char>, uppercase: bool, k: int)
    requires
        0 <= k <= s.len(),
    ensures
        0 <= sprefix_from(ps, s, uppercase, k) <= s.len(),
        sprefix_from(ps, s, uppercase, k) != 0 ==> k <= sprefix_from(ps, s, uppercase, k),
    decreases s.len() - k,
{
    if k < s.len() {
        lemma_sprefix_bounds(ps, s, uppercase, k + 1);
    }
}

/// Return the number of leading characters of `ps` that match the option name `s`.
pub fn sprefix(ps: &str, s: &str, uppercase: bool) -> (r: usize)
    ensures
        r == sprefix_spec(ps@, s@, uppercase),
{
    let np = ps.unicode_len();
    let ns = s.unicode_len();
    let mut k: usize = 0;
    proof {
        lemma_sprefix_bounds(ps@, s@, uppercase, 0);
    }
    while k < ns
        invariant
            np == ps@.len(),
            ns == s@.len(),
            0 <= k <= ns,
            sprefix_spec(ps@, s@, uppercase) == sprefix_from(ps@, s@, uppercase, k as int),
        decreases ns - k,
    {
        let c0 = if k < np {
            ps.get_char(k)
        } else {
            '\0'
        };
        if uppercase && k == 0 && 'a' <= c0 && c0 <= 'z' {
            return 0;
        }
        let c = if uppercase {
            to_ascii_lower(c0)
        } else {
            c0
        };
        let s0 = s.get_char(k);
        let sc = if k > 0 && !uppercase {
            to_ascii_lower(s0)
        } else {
            s0
        };
        if c != sc {
            return k;
        }
        k = k + 1;
    }
    k
}

/// The state of the search of `findopt_name` after some candidate names.
pub struct NameScan {
    /// Index of the best option so far.
    pub maxo: Option<int>,
    /// Which of its names matched.
    pub maxj: int,
    /// Length of the best match so far.
    pub maxlen: int,
    /// Did another name match as long as the best one?
    pub ambig: bool,
    /// Did the best match use the whole name?
    pub exact: bool,
}

pub open spec fn name_scan_start() -> NameScan {
    NameScan { maxo: None, maxj: 0, maxlen: 0, ambig: false, exact: false }
}

/// Does a match of length `len` use all of the name that was asked for?
pub open spec fn match_is_whole(name: Seq<char>, len: int) -> bool {
    len > 0 && !is_optchar_spec(char_or_nul(name, len))
}

/// Account for a match of length `len` of the name `j` of option `i`.
pub open spec fn consider_match(st: NameScan, i: int, j: int, len: int, oname_len: int) -> NameScan {
    if !st.exact && len == st.maxlen {
        NameScan { ambig: true, ..st }
    } else if len > st.maxlen {
        NameScan { maxo: Some(i), maxj: j, maxlen: len, ambig: false, exact: len == oname_len }
    } else {
        st
    }
}

/// Try name `j` of option `o` (index `i`) as written, then, where that does not
/// settle it, with upper case.
pub open spec fn scan_case(o: LOption, i: int, j: int, name: Seq<char>, st: NameScan) -> NameScan {
    let on = o.onames@[j]@;
    let l0 = sprefix_spec(name, on, false);
    let st1 = if match_is_whole(name, l0) {
        consider_match(st, i, j, l0, on.len() as int)
    } else {
        st
    };
    if match_is_whole(name, l0) && !o.otype.any(O_TRIPLE) {
        st1
    } else {
        let l1 = sprefix_spec(name, on, true);
        if match_is_whole(name, l1) {
            consider_match(st1, i, j, l1, on.len() as int)
        } else {
            st1
        }
    }
}

/// Try the names of option `o` from the `j`-th on; an empty name ends them.
pub open spec fn scan_names(o: LOption, i: int, name: Seq<char>, j: int, st: NameScan) -> NameScan
    decreases 2 - j,
{
    if j < 0 || j >= 2 || o.onames@[j]@.len() == 0 {
        st
    } else {
        scan_names(o, i, name, j + 1, scan_case(o, i, j, name, st))
    }
}

/// Try the options of the table from the `i`-th on.
pub open spec fn scan_table(tbl: Seq<LOption>, name: Seq<char>, i: int, st: NameScan) -> NameScan
    decreases tbl.len() - i,
{
    if i < 0 || i >= tbl.len() {
        st
    } else {
        scan_table(tbl, name, i + 1, scan_names(tbl[i], i, name, 0, st))
    }
}

/// Looking names up never shortens the best match found so far.
pub proof fn lemma_scan_table_maxlen(tbl: Seq<LOption>, name: Seq<char>, i: int, st: NameScan)
    ensures
        scan_table(tbl, name, i, st).maxlen >= st.maxlen,
    decreases tbl.len() - i,
{
    if 0 <= i < tbl.len() {
        let st2 = scan_names(tbl[i], i, name, 0, st);
        lemma_scan_names_maxlen(tbl[i], i, name, 0, st);
        lemma_scan_table_maxlen(tbl, name, i + 1, st2);
    }
}

proof fn lemma_scan_names_maxlen(o: LOption, i: int, name: Seq<char>, j: int, st: NameScan)
    ensures
        scan_names(o, i, name, j, st).maxlen >= st.maxlen,
    decreases 2 - j,
{
    if !(j < 0 || j >= 2 || o.onames@[j]@.len() == 0) {
        lemma_scan_names_maxlen(o, i, name, j + 1, scan_case(o, i, j, name, st));
    }
}

/// The result of looking up a (possibly abbreviated) long option name.
pub struct FoundOpt {
    /// Index of the option in the table; `None` if nothing, or more than one, matched.
    pub index: Option<usize>,
    /// The full name of the option that matched.
    pub oname: Option<&'static str>,
    /// How many characters of the name asked for were used.
    pub len: usize,
    /// Did the name match more than one option equally well?
    pub ambig: bool,
}

/// What `findopt_name` returns for the table `tbl` and the name `name`.
pub open spec fn findopt_name_result(tbl: Seq<LOption>, name: Seq<char>, r: FoundOpt) -> bool {
    let f = scan_table(tbl, name, 0, name_scan_start());
    if f.ambig {
        r.index is None && r.ambig && r.len == 0 && r.oname is None
    } else {
        &&& !r.ambig
        &&& r.len == f.maxlen
        &&& (r.index matches Some(i) ==> f.maxo == Some(i as int) && r.oname == Some(
            tbl[i as int].onames@[f.maxj],
        ))
        &&& (r.index is None ==> f.maxo is None && r.oname is None)
    }
}

/// The search state held in the given values.
pub open spec fn scan_state(maxo: Option<usize>, maxj: usize, maxlen: usize, ambig: bool, exact: bool) -> NameScan {
    NameScan {
        maxo: match maxo {
            Some(i) => Some(i as int),
            None => None,
        },
        maxj: maxj as int,
        maxlen: maxlen as int,
        ambig,
        exact,
    }
}

/// Is a match of `len` characters of `name` (of `n` characters) a whole-name match?
fn whole_match(name: &str, n: usize, len: usize) -> (r: bool)
    requires
        n == name@.len(),
    ensures
        r == match_is_whole(name@, len as int),
{
    if len == 0 {
        return false;
    }
    let c = if len < n {
        name.get_char(len)
    } else {
        '\0'
    };
    !is_optchar(c)
}

/// Find an option in the table, given its (possibly abbreviated) long name.
/// The longest match wins; a name that matches more than one option equally
/// well, where the first of them is not the whole option name, is ambiguous.
/// Triple-valued options also match a name that starts with an upper-case letter.
pub fn findopt_name_in(tbl: &Vec<LOption>, name: &str) -> (r: FoundOpt)
    ensures
        findopt_name_result(tbl@, name@, r),
        r.index matches Some(i) ==> i < tbl@.len(),
{
    let n = name.unicode_len();
    let mut maxo: Option<usize> = None;
    let mut maxj: usize = 0;
    let mut maxlen: usize = 0;
    let mut ambig = false;
    let mut exact = false;
    let mut i: usize = 0;
    while i < tbl.len()
        invariant
            n == name@.len(),
            0 <= i <= tbl.len(),
            maxj < 2,
            maxo matches Some(k) ==> k < i,
            scan_table(tbl@, name@, 0, name_scan_start()) == scan_table(
                tbl@,
                name@,
                i as int,
                scan_state(maxo, maxj, maxlen, ambig, exact),
            ),
        decreases tbl.len() - i,
    {
        let o = &tbl[i];
        let ghost st_i = scan_state(maxo, maxj, maxlen, ambig, exact);
        let mut j: usize = 0;
        while j < 2
            invariant
                n == name@.len(),
                0 <= i < tbl.len(),
                *o == tbl@[i as int],
                0 <= j <= 2,
                maxj < 2,
                maxo matches Some(k) ==> k <= i,
                scan_names(*o, i as int, name@, 0, st_i) == scan_names(
                    *o,
                    i as int,
                    name@,
                    j as int,
                    scan_state(maxo, maxj, maxlen, ambig, exact),
                ),
            ensures
                0 <= j <= 2,
                j == 2 || o.onames@[j as int]@.len() == 0,
            decreases 2 - j,
        {
            let oname = o.onames[j];
            let oname_len = oname.unicode_len();
            if oname_len == 0 {
                break;
            }
            let ghost st0 = scan_state(maxo, maxj, maxlen, ambig, exact);
            let l0 = sprefix(name, oname, false);
            let w0 = whole_match(name, n, l0);
            if w0 {
                if !exact && l0 == maxlen {
                    ambig = true;
                } else if l0 > maxlen {
                    maxo = Some(i);
                    maxj = j;
                    maxlen = l0;
                    ambig = false;
                    exact = l0 == oname_len;
                }
            }
            if !(w0 && !o.otype.intersects(O_TRIPLE)) {
                let l1 = sprefix(name, oname, true);
                if whole_match(name, n, l1) {
                    if !exact && l1 == maxlen {
                        ambig = true;
                    } else if l1 > maxlen {
                        maxo = Some(i);
                        maxj = j;
                        maxlen = l1;
                        ambig = false;
                        exact = l1 == oname_len;
                    }
                }
            }
            assert(scan_case(*o, i as int, j as int, name@, st0) == scan_state(
                maxo,
                maxj,
                maxlen,
                ambig,
                exact,
            ));
            j = j + 1;
        }
        assert(scan_names(*o, i as int, name@, j as int, scan_state(maxo, maxj, maxlen, ambig, exact))
            == scan_state(maxo, maxj, maxlen, ambig, exact));
        i = i + 1;
    }
    if ambig {
        return FoundOpt { index: None, oname: None, len: 0, ambig: true };
    }
    match maxo {
        Some(k) => FoundOpt {
            index: Some(k),
            oname: Some(tbl[k].onames[maxj]),
            len: maxlen,
            ambig: false,
        },
        None => FoundOpt { index: None, oname: None, len: maxlen, ambig: false },
    }
}

/// What a row of the option table says: the letter, the two long names, the
/// type bits, the default value, whether the option has a value of its own,
/// and its handling function.
pub open spec fn row_of(o: LOption) -> (char, Seq<char>, Seq<char>, u32, i32, bool, Option<OptHandler>) {
    (o.oletter, o.onames@[0]@, o.onames@[1]@, o.otype.bits, o.odefault, o.ovar is Some, o.ofunc)
}

/// Row `i` of the option table (see `row_of`).
pub open spec fn option_row(i: int) -> (char, Seq<char>, Seq<char>, u32, i32, bool, Option<OptHandler>) {
    if i == 0 {
        ('a', "search-skip-screen"@, ""@, O_TRIPLE, OPT_ONPLUS, true, None)
    } else if i == 1 {
        ('b', "buffers"@, ""@, O_NUMBER | O_INIT_HANDLER, 64, true, Some(OptHandler::OptB))
    } else if i == 2 {
        ('B', "auto-buffers"@, ""@, O_BOOL, OPT_ON, true, None)
    } else if i == 3 {
        ('c', "clear-screen"@, ""@, O_TRIPLE, OPT_OFF, true, None)
    } else if i == 4 {
        ('d', "dumb"@, ""@, O_BOOL | O_NO_TOGGLE, OPT_OFF, true, None)
    } else if i == 5 {
        ('D', "color"@, ""@, O_STRING | O_REPAINT | O_NO_QUERY, 0, false, Some(OptHandler::OptUpperD))
    } else if i == 6 {
        ('e', "quit-at-eof"@, ""@, O_TRIPLE, OPT_OFF, true, None)
    } else if i == 7 {
        ('f', "force"@, ""@, O_BOOL, OPT_OFF, true, None)
    } else if i == 8 {
        ('F', "quit-if-one-screen"@, ""@, O_BOOL, OPT_OFF, true, None)
    } else if i == 9 {
        ('h', "max-back-scroll"@, ""@, O_NUMBER, -1i32, true, None)
    } else if i == 10 {
        ('i', "ignore-case"@, ""@, O_TRIPLE | O_HL_REPAINT, OPT_OFF, true, Some(OptHandler::OptI))
    } else if i == 11 {
        ('j', "jump-target"@, ""@, O_STRING, 0, false, Some(OptHandler::OptJ))
    } else if i == 12 {
        ('J', "status-column"@, ""@, O_BOOL | O_REPAINT, OPT_OFF, true, None)
    } else if i == 13 {
        ('K', "quit-on-intr"@, ""@, O_BOOL, OPT_OFF, true, None)
    } else if i == 14 {
        ('L', "no-lessopen"@, ""@, O_BOOL, OPT_ON, true, None)
    } else if i == 15 {
        ('m', "long-prompt"@, ""@, O_TRIPLE, OPT_OFF, true, None)
    } else if i == 16 {
        ('n', "line-numbers"@, ""@, O_TRIPLE | O_REPAINT, OPT_ON, true, None)
    } else if i == 17 {
        ('q', "quiet"@, "silent"@, O_TRIPLE, OPT_OFF, true, None)
    } else if i == 18 {
        ('r', "raw-control-chars"@, ""@, O_TRIPLE | O_REPAINT, OPT_OFF, true, None)
    } else if i == 19 {
        ('s', "squeeze-blank-lines"@, ""@, O_BOOL | O_REPAINT, OPT_OFF, true, None)
    } else if i == 20 {
        ('S', "chop-long-lines"@, ""@, O_BOOL | O_REPAINT, OPT_OFF, true, Some(OptHandler::OptUpperS))
    } else if i == 21 {
        ('u', "underline-special"@, ""@, O_TRIPLE | O_REPAINT | O_HL_REPAINT, OPT_OFF, true, None)
    } else if i == 22 {
        ('x', "tabs"@, ""@, O_STRING | O_REPAINT, 0, false, Some(OptHandler::OptX))
    } else if i == 23 {
        ('X', "no-init"@, ""@, O_BOOL | O_NO_TOGGLE, OPT_OFF, true, None)
    } else if i == 24 {
        ('y', "max-forw-scroll"@, ""@, O_NUMBER, -1i32, true, None)
    } else if i == 25 {
        ('z', "window"@, ""@, O_NUMBER, -1i32, true, None)
    } else if i == 26 {
        ('"', "quotes"@, ""@, O_STRING, 0, false, Some(OptHandler::OptQuote))
    } else if i == 27 {
        ('~', "tilde"@, ""@, O_BOOL | O_REPAINT, OPT_ON, true, None)
    } else if i == 28 {
        ('#', "shift"@, ""@, O_STRING, 0, false, Some(OptHandler::OptShift))
    } else if i == 29 {
        (OLETTER_NONE, "no-keypad"@, ""@, O_BOOL | O_NO_TOGGLE, OPT_OFF, true, None)
    } else if i == 30 {
        (OLETTER_NONE, "old-bot"@, ""@, O_BOOL, OPT_OFF, true, None)
    } else if i == 31 {
        (OLETTER_NONE, "follow-name"@, ""@, O_BOOL, FOLLOW_DESC, true, None)
    } else if i == 32 {
        (OLETTER_NONE, "use-backslash"@, ""@, O_BOOL, OPT_OFF, true, None)
    } else if i == 33 {
        (OLETTER_NONE, "rscroll"@, ""@, O_STRING | O_REPAINT | O_INIT_HANDLER, 0, false, Some(OptHandler::OptRscroll))
    } else if i == 34 {
        (OLETTER_NONE, "no-histdups"@, ""@, O_BOOL, OPT_OFF, true, None)
    } else if i == 35 {
        (OLETTER_NONE, "mouse"@, ""@, O_TRIPLE, OPT_OFF, true, Some(OptHandler::OptMousecap))
    } else if i == 36 {
        (OLETTER_NONE, "wheel-lines"@, ""@, O_NUMBER | O_INIT_HANDLER, 0, true, Some(OptHandler::OptWheelLines))
    } else if i == 37 {
        (OLETTER_NONE, "save-marks"@, ""@, O_BOOL, OPT_OFF, true, None)
    } else if i == 38 {
        (OLETTER_NONE, "line-num-width"@, ""@, O_NUMBER | O_REPAINT, MIN_LINENUM_WIDTH, true, Some(OptHandler::OptLinenumWidth))
    } else if i == 39 {
        (OLETTER_NONE, "status-col-width"@, ""@, O_NUMBER | O_REPAINT, 2, true, Some(OptHandler::OptStatusColWidth))
    } else if i == 40 {
        (OLETTER_NONE, "incsearch"@, ""@, O_BOOL, OPT_OFF, true, None)
    } else if i == 41 {
        (OLETTER_NONE, "use-color"@, ""@, O_BOOL | O_REPAINT, OPT_OFF, true, None)
    } else if i == 42 {
        (OLETTER_NONE, "file-size"@, ""@, O_BOOL | O_REPAINT, OPT_OFF, true, Some(OptHandler::OptFilesize))
    } else if i == 43 {
        (OLETTER_NONE, "status-line"@, ""@, O_BOOL | O_REPAINT, OPT_OFF, true, None)
    } else if i == 44 {
        (OLETTER_NONE, "header"@, ""@, O_STRING | O_REPAINT, 0, false, Some(OptHandler::OptHeader))
    } else if i == 45 {
        (OLETTER_NONE, "no-paste"@, ""@, O_BOOL, OPT_OFF, true, Some(OptHandler::OptNoPaste))
    } else if i == 46 {
        (OLETTER_NONE, "form-feed"@, ""@, O_BOOL, OPT_OFF, true, None)
    } else if i == 47 {
        (OLETTER_NONE, "no-edit-warn"@, "no-warn-edit"@, O_BOOL, OPT_OFF, true, None)
    } else if i == 48 {
        (OLETTER_NONE, "no-number-headers"@, ""@, O_BOOL | O_REPAINT, 0, true, None)
    } else if i == 49 {
        (OLETTER_NONE, "redraw-on-quit"@, ""@, O_BOOL, OPT_OFF, true, None)
    } else if i == 50 {
        (OLETTER_NONE, "search-options"@, ""@, O_STRING, 0, false, Some(OptHandler::OptSearchType))
    } else if i == 51 {
        (OLETTER_NONE, "exit-follow-on-close"@, ""@, O_BOOL, OPT_OFF, true, None)
    } else if i == 52 {
        (OLETTER_NONE, "no-vbell"@, ""@, O_BOOL, OPT_OFF, true, None)
    } else if i == 53 {
        (OLETTER_NONE, "modelines"@, ""@, O_NUMBER, 0, true, None)
    } else if i == 54 {
        (OLETTER_NONE, "intr"@, ""@, O_STRING, 0, false, Some(OptHandler::OptIntr))
    } else if i == 55 {
        (OLETTER_NONE, "wordwrap"@, ""@, O_BOOL | O_REPAINT, OPT_OFF, true, None)
    } else if i == 56 {
        (OLETTER_NONE, "show-preproc-errors"@, ""@, O_BOOL, OPT_OFF, true, None)
    } else if i == 57 {
        (OLETTER_NONE, "proc-backspace"@, ""@, O_TRIPLE | O_REPAINT | O_HL_REPAINT, OPT_OFF, true, None)
    } else if i == 58 {
        (OLETTER_NONE, "proc-tab"@, ""@, O_TRIPLE | O_REPAINT | O_HL_REPAINT, OPT_OFF, true, None)
    } else if i == 59 {
        (OLETTER_NONE, "proc-return"@, ""@, O_TRIPLE | O_REPAINT | O_HL_REPAINT, OPT_OFF, true, None)
    } else {
        (OLETTER_NONE, "match-shift"@, ""@, O_STRING | O_INIT_HANDLER, 0, false, Some(OptHandler::OptMatchShift))
    }
}

/// The descriptions of an option: its prompt (or its description when off), and
/// the descriptions of its values.
pub open spec fn descs_of(o: LOption) -> (Seq<char>, Seq<char>, Seq<char>) {
    (o.odesc@[0]@, o.odesc@[1]@, o.odesc@[2]@)
}

/// The descriptions of row `i` of the option table (see `descs_of`).
pub open spec fn option_descs(i: int) -> (Seq<char>, Seq<char>, Seq<char>) {
    if i == 0 {
        ("Search includes displayed screen"@, "Search skips displayed screen"@, "Search includes all of displayed screen"@)
    } else if i == 1 {
        ("Max buffer space per file (K): "@, "Max buffer space per file: %dK"@, ""@)
    } else if i == 2 {
        ("Don't automatically allocate buffers"@, "Automatically allocate buffers when needed"@, ""@)
    } else if i == 3 {
        ("Repaint by scrolling from bottom of screen"@, "Repaint by painting from top of screen"@, "Repaint by painting from top of screen"@)
    } else if i == 4 {
        ("Assume intelligent terminal"@, "Assume dumb terminal"@, ""@)
    } else if i == 5 {
        ("color desc: "@, "s"@, ""@)
    } else if i == 6 {
        ("Don't quit at end-of-file"@, "Quit at end-of-file"@, "Quit immediately at end-of-file"@)
    } else if i == 7 {
        ("Open only regular files"@, "Open even non-regular files"@, ""@)
    } else if i == 8 {
        ("Don't quit if end-of-file on first screen"@, "Quit if end-of-file on first screen"@, ""@)
    } else if i == 9 {
        ("Backwards scroll limit: "@, "Backwards scroll limit is %d lines"@, ""@)
    } else if i == 10 {
        ("Case is significant in searches"@, "Ignore case in searches"@, "Ignore case in searches and in patterns"@)
    } else if i == 11 {
        ("Target line: "@, "-.d"@, ""@)
    } else if i == 12 {
        ("Don't display a status column"@, "Display a status column"@, ""@)
    } else if i == 13 {
        ("Interrupt (ctrl-C) returns to prompt"@, "Interrupt (ctrl-C) exits less"@, ""@)
    } else if i == 14 {
        ("Don't use the LESSOPEN filter"@, "Use the LESSOPEN filter"@, ""@)
    } else if i == 15 {
        ("Short prompt"@, "Medium prompt"@, "Long prompt"@)
    } else if i == 16 {
        ("Don't use line numbers"@, "Use line numbers"@, "Constantly display line numbers"@)
    } else if i == 17 {
        ("Ring the bell for errors AND at eof/bof"@, "Ring the bell for errors but not at eof/bof"@, "Never ring the bell"@)
    } else if i == 18 {
        ("Display control characters as ^X"@, "Display control characters directly (not recommended)"@, "Display ANSI sequences directly, other control characters as ^X"@)
    } else if i == 19 {
        ("Display all blank lines"@, "Squeeze multiple blank lines"@, ""@)
    } else if i == 20 {
        ("Fold long lines"@, "Chop long lines"@, ""@)
    } else if i == 21 {
        ("Display underlined text in underline mode"@, "Backspaces cause overstrike"@, "Print backspace as ^H"@)
    } else if i == 22 {
        ("Tab stops: "@, "d,"@, ""@)
    } else if i == 23 {
        ("Send init/deinit strings to terminal"@, "Don't use init/deinit strings"@, ""@)
    } else if i == 24 {
        ("Forward scroll limit: "@, "Forward scroll limit is %d lines"@, ""@)
    } else if i == 25 {
        ("Scroll window size: "@, "Scroll window size is %d lines"@, ""@)
    } else if i == 26 {
        ("quotes: "@, "s"@, ""@)
    } else if i == 27 {
        ("Don't show tildes after end of file"@, "Show tildes after end of file"@, ""@)
    } else if i == 28 {
        ("Horizontal shift: "@, ".d"@, ""@)
    } else if i == 29 {
        ("Use keypad mode"@, "Don't use keypad mode"@, ""@)
    } else if i == 30 {
        ("Use new bottom of screen behavior"@, "Use old bottom of screen behavior"@, ""@)
    } else if i == 31 {
        ("F command follows file descriptor"@, "F command follows file name"@, ""@)
    } else if i == 32 {
        ("Use backslash escaping in command line parameters"@, "Don't use backslash escaping in command line parameters"@, ""@)
    } else if i == 33 {
        ("rscroll character: "@, "s"@, ""@)
    } else if i == 34 {
        ("Allow duplicates in history list"@, "Remove duplicates from history list"@, ""@)
    } else if i == 35 {
        ("Ignore mouse input"@, "Use the mouse for scrolling"@, "Use the mouse for scrolling (reverse)"@)
    } else if i == 36 {
        ("Lines to scroll on mouse wheel: "@, "Scroll %d line(s) on mouse wheel"@, ""@)
    } else if i == 37 {
        ("Don't save marks in history file"@, "Save marks in history file"@, ""@)
    } else if i == 38 {
        ("Line number width: "@, "Line number width is %d chars"@, ""@)
    } else if i == 39 {
        ("Status column width: "@, "Status column width is %d chars"@, ""@)
    } else if i == 40 {
        ("Incremental search is off"@, "Incremental search is on"@, ""@)
    } else if i == 41 {
        ("Don't use color"@, "Use color"@, ""@)
    } else if i == 42 {
        ("Don't get size of each file"@, "Get size of each file"@, ""@)
    } else if i == 43 {
        ("Don't color each line with its status column color"@, "Color each line with its status column color"@, ""@)
    } else if i == 44 {
        ("Header lines: "@, "d,"@, ""@)
    } else if i == 45 {
        ("Accept pasted input"@, "Ignore pasted input"@, ""@)
    } else if i == 46 {
        ("Don't stop on form feed"@, "Stop on form feed"@, ""@)
    } else if i == 47 {
        ("Warn when editing a file opened via LESSOPEN"@, "Don't warn when editing a file opened via LESSOPEN"@, ""@)
    } else if i == 48 {
        ("Number header lines"@, "Don't number header lines"@, ""@)
    } else if i == 49 {
        ("Don't redraw screen when quitting"@, "Redraw last screen when quitting"@, ""@)
    } else if i == 50 {
        ("Search options: "@, "s"@, ""@)
    } else if i == 51 {
        ("Don't exit F command when input closes"@, "Exit F command when input closes"@, ""@)
    } else if i == 52 {
        ("Display visual bell"@, "Don't display visual bell"@, ""@)
    } else if i == 53 {
        ("Lines to read looking for modelines: "@, "Read %d lines looking for modelines"@, ""@)
    } else if i == 54 {
        ("interrupt character: "@, "s"@, ""@)
    } else if i == 55 {
        ("Wrap lines at any character"@, "Wrap lines at spaces"@, ""@)
    } else if i == 56 {
        ("Don't show error message if preprocessor fails"@, "Show error message if preprocessor fails"@, ""@)
    } else if i == 57 {
        ("Backspace handling is specified by the -U option"@, "Display underline text in underline mode"@, "Print backspaces as ^H"@)
    } else if i == 58 {
        ("Tab handling is specified by the -U option"@, "Expand tabs to spaces"@, "Print tabs as ^I"@)
    } else if i == 59 {
        ("Carriage return handling is specified by the -U option"@, "Delete carriage return before newline"@, "Print carriage return as ^M"@)
    } else {
        ("Search match shift: "@, ".d"@, ""@)
    }
}

/// The first `n` rows of `t` are those of the table (see `option_row`,
/// `option_descs`).
pub open spec fn rows_match(t: Seq<LOption>, n: nat) -> bool
    decreases n,
{
    n == 0 || (rows_match(t, (n - 1) as nat) && row_of(t[n - 1]) == option_row(n - 1) && descs_of(t[n - 1])
        == option_descs(n - 1))
}

proof fn lemma_rows_match(t: Seq<LOption>, n: nat)
    requires
        rows_match(t, n),
    ensures
        forall|i: int| 0 <= i < n ==> #[trigger] row_of(t[i]) == option_row(i) && descs_of(t[i]) == option_descs(i),
    decreases n,
{
    if n > 0 {
        lemma_rows_match(t, (n - 1) as nat);
    }
}

/// The option table and the settings that go with it.
pub struct Options {
    /// Make compatible with POSIX more.
    pub less_is_more: i32,
    pub option_table: Vec<LOption>,
}

impl Options {
    /// The option table, with every option variable at zero.
    pub fn new() -> (r: Self)
        ensures
            r.less_is_more == 0,
            r.option_table@.len() == 61,
            forall|i: int|
                0 <= i < r.option_table@.len() ==> (#[trigger] r.option_table@[i]).ovar is None
                    || r.option_table@[i].ovar == Some(0i32),
            forall|i: int| 0 <= i < 61 ==> #[trigger] row_of(r.option_table@[i]) == option_row(i),
            forall|i: int| 0 <= i < 61 ==> #[trigger] descs_of(r.option_table@[i]) == option_descs(i),
    {
        let option_table = vec![
            LOption {
                oletter: 'a',
                onames: ["search-skip-screen", ""],
                otype: OptFlags { bits: O_TRIPLE },
                odefault: OPT_ONPLUS,
                ovar: Some(0),
                ofunc: None,
                odesc: ["Search includes displayed screen", "Search skips displayed screen", "Search includes all of displayed screen"],
            },
            LOption {
                oletter: 'b',
                onames: ["buffers", ""],
                otype: OptFlags { bits: O_NUMBER  | O_INIT_HANDLER },
                odefault: 64,
                ovar: Some(0),
                ofunc: Some(OptHandler::OptB),
                odesc: ["Max buffer space per file (K): ", "Max buffer space per file: %dK", ""],
            },
            LOption {
                oletter: 'B',
                onames: ["auto-buffers", ""],
                otype: OptFlags { bits: O_BOOL },
                odefault: OPT_ON,
                ovar: Some(0),
                ofunc: None,
                odesc: ["Don't automatically allocate buffers", "Automatically allocate buffers when needed", ""],
            },
            LOption {
                oletter: 'c',
                onames: ["clear-screen", ""],
                otype: OptFlags { bits: O_TRIPLE },
                odefault: OPT_OFF,
                ovar: Some(0),
                ofunc: None,
                odesc: ["Repaint by scrolling from bottom of screen", "Repaint by painting from top of screen", "Repaint by painting from top of screen"],
            },
            LOption {
                oletter: 'd',
                onames: ["dumb", ""],
                otype: OptFlags { bits: O_BOOL  | O_NO_TOGGLE },
                odefault: OPT_OFF,
                ovar: Some(0),
                ofunc: None,
                odesc: ["Assume intelligent terminal", "Assume dumb terminal", ""],
            },
            LOption {
                oletter: 'D',
                onames: ["color", ""],
                otype: OptFlags { bits: O_STRING  | O_REPAINT  | O_NO_QUERY },
                odefault: 0,
                ovar: None,
                ofunc: Some(OptHandler::OptUpperD),
                odesc: ["color desc: ", "s", ""],
            },
            LOption {
                oletter: 'e',
                onames: ["quit-at-eof", ""],
                otype: OptFlags { bits: O_TRIPLE },
                odefault: OPT_OFF,
                ovar: Some(0),
                ofunc: None,
                odesc: ["Don't quit at end-of-file", "Quit at end-of-file", "Quit immediately at end-of-file"],
            },
            LOption {
                oletter: 'f',
                onames: ["force", ""],
                otype: OptFlags { bits: O_BOOL },
                odefault: OPT_OFF,
                ovar: Some(0),
                ofunc: None,
                odesc: ["Open only regular files", "Open even non-regular files", ""],
            },
            LOption {
                oletter: 'F',
                onames: ["quit-if-one-screen", ""],
                otype: OptFlags { bits: O_BOOL },
                odefault: OPT_OFF,
                ovar: Some(0),
                ofunc: None,
                odesc: ["Don't quit if end-of-file on first screen", "Quit if end-of-file on first screen", ""],
            },
            LOption {
                oletter: 'h',
                onames: ["max-back-scroll", ""],
                otype: OptFlags { bits: O_NUMBER },
                odefault: -1,
                ovar: Some(0),
                ofunc: None,
                odesc: ["Backwards scroll limit: ", "Backwards scroll limit is %d lines", ""],
            },
            LOption {
                oletter: 'i',
                onames: ["ignore-case", ""],
                otype: OptFlags { bits: O_TRIPLE  | O_HL_REPAINT },
                odefault: OPT_OFF,
                ovar: Some(0),
                ofunc: Some(OptHandler::OptI),
                odesc: ["Case is significant in searches", "Ignore case in searches", "Ignore case in searches and in patterns"],
            },
            LOption {
                oletter: 'j',
                onames: ["jump-target", ""],
                otype: OptFlags { bits: O_STRING },
                odefault: 0,
                ovar: None,
                ofunc: Some(OptHandler::OptJ),
                odesc: ["Target line: ", "-.d", ""],
            },
            LOption {
                oletter: 'J',
                onames: ["status-column", ""],
                otype: OptFlags { bits: O_BOOL  | O_REPAINT },
                odefault: OPT_OFF,
                ovar: Some(0),
                ofunc: None,
                odesc: ["Don't display a status column", "Display a status column", ""],
            },
            LOption {
                oletter: 'K',
                onames: ["quit-on-intr", ""],
                otype: OptFlags { bits: O_BOOL },
                odefault: OPT_OFF,
                ovar: Some(0),
                ofunc: None,
                odesc: ["Interrupt (ctrl-C) returns to prompt", "Interrupt (ctrl-C) exits less", ""],
            },
            LOption {
                oletter: 'L',
                onames: ["no-lessopen", ""],
                otype: OptFlags { bits: O_BOOL },
                odefault: OPT_ON,
                ovar: Some(0),
                ofunc: None,
                odesc: ["Don't use the LESSOPEN filter", "Use the LESSOPEN filter", ""],
            },
            LOption {
                oletter: 'm',
                onames: ["long-prompt", ""],
                otype: OptFlags { bits: O_TRIPLE },
                odefault: OPT_OFF,
                ovar: Some(0),
                ofunc: None,
                odesc: ["Short prompt", "Medium prompt", "Long prompt"],
            },
            LOption {
                oletter: 'n',
                onames: ["line-numbers", ""],
                otype: OptFlags { bits: O_TRIPLE  | O_REPAINT },
                odefault: OPT_ON,
                ovar: Some(0),
                ofunc: None,
                odesc: ["Don't use line numbers", "Use line numbers", "Constantly display line numbers"],
            },
            LOption {
                oletter: 'q',
                onames: ["quiet", "silent"],
                otype: OptFlags { bits: O_TRIPLE },
                odefault: OPT_OFF,
                ovar: Some(0),
                ofunc: None,
                odesc: ["Ring the bell for errors AND at eof/bof", "Ring the bell for errors but not at eof/bof", "Never ring the bell"],
            },
            LOption {
                oletter: 'r',
                onames: ["raw-control-chars", ""],
                otype: OptFlags { bits: O_TRIPLE  | O_REPAINT },
                odefault: OPT_OFF,
                ovar: Some(0),
                ofunc: None,
                odesc: ["Display control characters as ^X", "Display control characters directly (not recommended)", "Display ANSI sequences directly, other control characters as ^X"],
            },
            LOption {
                oletter: 's',
                onames: ["squeeze-blank-lines", ""],
                otype: OptFlags { bits: O_BOOL  | O_REPAINT },
                odefault: OPT_OFF,
                ovar: Some(0),
                ofunc: None,
                odesc: ["Display all blank lines", "Squeeze multiple blank lines", ""],
            },
            LOption {
                oletter: 'S',
                onames: ["chop-long-lines", ""],
                otype: OptFlags { bits: O_BOOL  | O_REPAINT },
                odefault: OPT_OFF,
                ovar: Some(0),
                ofunc: Some(OptHandler::OptUpperS),
                odesc: ["Fold long lines", "Chop long lines", ""],
            },
            LOption {
                oletter: 'u',
                onames: ["underline-special", ""],
                otype: OptFlags { bits: O_TRIPLE  | O_REPAINT  | O_HL_REPAINT },
                odefault: OPT_OFF,
                ovar: Some(0),
                ofunc: None,
                odesc: ["Display underlined text in underline mode", "Backspaces cause overstrike", "Print backspace as ^H"],
            },
            LOption {
                oletter: 'x',
                onames: ["tabs", ""],
                otype: OptFlags { bits: O_STRING  | O_REPAINT },
                odefault: 0,
                ovar: None,
                ofunc: Some(OptHandler::OptX),
                odesc: ["Tab stops: ", "d,", ""],
            },
            LOption {
                oletter: 'X',
                onames: ["no-init", ""],
                otype: OptFlags { bits: O_BOOL  | O_NO_TOGGLE },
                odefault: OPT_OFF,
                ovar: Some(0),
                ofunc: None,
                odesc: ["Send init/deinit strings to terminal", "Don't use init/deinit strings", ""],
            },
            LOption {
                oletter: 'y',
                onames: ["max-forw-scroll", ""],
                otype: OptFlags { bits: O_NUMBER },
                odefault: -1,
                ovar: Some(0),
                ofunc: None,
                odesc: ["Forward scroll limit: ", "Forward scroll limit is %d lines", ""],
            },
            LOption {
                oletter: 'z',
                onames: ["window", ""],
                otype: OptFlags { bits: O_NUMBER },
                odefault: -1,
                ovar: Some(0),
                ofunc: None,
                odesc: ["Scroll window size: ", "Scroll window size is %d lines", ""],
            },
            LOption {
                oletter: '"',
                onames: ["quotes", ""],
                otype: OptFlags { bits: O_STRING },
                odefault: 0,
                ovar: None,
                ofunc: Some(OptHandler::OptQuote),
                odesc: ["quotes: ", "s", ""],
            },
            LOption {
                oletter: '~',
                onames: ["tilde", ""],
                otype: OptFlags { bits: O_BOOL  | O_REPAINT },
                odefault: OPT_ON,
                ovar: Some(0),
                ofunc: None,
                odesc: ["Don't show tildes after end of file", "Show tildes after end of file", ""],
            },
            LOption {
                oletter: '#',
                onames: ["shift", ""],
                otype: OptFlags { bits: O_STRING },
                odefault: 0,
                ovar: None,
                ofunc: Some(OptHandler::OptShift),
                odesc: ["Horizontal shift: ", ".d", ""],
            },
            LOption {
                oletter: OLETTER_NONE,
                onames: ["no-keypad", ""],
                otype: OptFlags { bits: O_BOOL  | O_NO_TOGGLE },
                odefault: OPT_OFF,
                ovar: Some(0),
                ofunc: None,
                odesc: ["Use keypad mode", "Don't use keypad mode", ""],
            },
            LOption {
                oletter: OLETTER_NONE,
                onames: ["old-bot", ""],
                otype: OptFlags { bits: O_BOOL },
                odefault: OPT_OFF,
                ovar: Some(0),
                ofunc: None,
                odesc: ["Use new bottom of screen behavior", "Use old bottom of screen behavior", ""],
            },
            LOption {
                oletter: OLETTER_NONE,
                onames: ["follow-name", ""],
                otype: OptFlags { bits: O_BOOL },
                odefault: FOLLOW_DESC,
                ovar: Some(0),
                ofunc: None,
                odesc: ["F command follows file descriptor", "F command follows file name", ""],
            },
            LOption {
                oletter: OLETTER_NONE,
                onames: ["use-backslash", ""],
                otype: OptFlags { bits: O_BOOL },
                odefault: OPT_OFF,
                ovar: Some(0),
                ofunc: None,
                odesc: ["Use backslash escaping in command line parameters", "Don't use backslash escaping in command line parameters", ""],
            },
            LOption {
                oletter: OLETTER_NONE,
                onames: ["rscroll", ""],
                otype: OptFlags { bits: O_STRING  | O_REPAINT  | O_INIT_HANDLER },
                odefault: 0,
                ovar: None,
                ofunc: Some(OptHandler::OptRscroll),
                odesc: ["rscroll character: ", "s", ""],
            },
            LOption {
                oletter: OLETTER_NONE,
                onames: ["no-histdups", ""],
                otype: OptFlags { bits: O_BOOL },
                odefault: OPT_OFF,
                ovar: Some(0),
                ofunc: None,
                odesc: ["Allow duplicates in history list", "Remove duplicates from history list", ""],
            },
            LOption {
                oletter: OLETTER_NONE,
                onames: ["mouse", ""],
                otype: OptFlags { bits: O_TRIPLE },
                odefault: OPT_OFF,
                ovar: Some(0),
                ofunc: Some(OptHandler::OptMousecap),
                odesc: ["Ignore mouse input", "Use the mouse for scrolling", "Use the mouse for scrolling (reverse)"],
            },
            LOption {
                oletter: OLETTER_NONE,
                onames: ["wheel-lines", ""],
                otype: OptFlags { bits: O_NUMBER  | O_INIT_HANDLER },
                odefault: 0,
                ovar: Some(0),
                ofunc: Some(OptHandler::OptWheelLines),
                odesc: ["Lines to scroll on mouse wheel: ", "Scroll %d line(s) on mouse wheel", ""],
            },
            LOption {
                oletter: OLETTER_NONE,
                onames: ["save-marks", ""],
                otype: OptFlags { bits: O_BOOL },
                odefault: OPT_OFF,
                ovar: Some(0),
                ofunc: None,
                odesc: ["Don't save marks in history file", "Save marks in history file", ""],
            },
            LOption {
                oletter: OLETTER_NONE,
                onames: ["line-num-width", ""],
                otype: OptFlags { bits: O_NUMBER  | O_REPAINT },
                odefault: MIN_LINENUM_WIDTH,
                ovar: Some(0),
                ofunc: Some(OptHandler::OptLinenumWidth),
                odesc: ["Line number width: ", "Line number width is %d chars", ""],
            },
            LOption {
                oletter: OLETTER_NONE,
                onames: ["status-col-width", ""],
                otype: OptFlags { bits: O_NUMBER  | O_REPAINT },
                odefault: 2,
                ovar: Some(0),
                ofunc: Some(OptHandler::OptStatusColWidth),
                odesc: ["Status column width: ", "Status column width is %d chars", ""],
            },
            LOption {
                oletter: OLETTER_NONE,
                onames: ["incsearch", ""],
                otype: OptFlags { bits: O_BOOL },
                odefault: OPT_OFF,
                ovar: Some(0),
                ofunc: None,
                odesc: ["Incremental search is off", "Incremental search is on", ""],
            },
            LOption {
                oletter: OLETTER_NONE,
                onames: ["use-color", ""],
                otype: OptFlags { bits: O_BOOL  | O_REPAINT },
                odefault: OPT_OFF,
                ovar: Some(0),
                ofunc: None,
                odesc: ["Don't use color", "Use color", ""],
            },
            LOption {
                oletter: OLETTER_NONE,
                onames: ["file-size", ""],
                otype: OptFlags { bits: O_BOOL  | O_REPAINT },
                odefault: OPT_OFF,
                ovar: Some(0),
                ofunc: Some(OptHandler::OptFilesize),
                odesc: ["Don't get size of each file", "Get size of each file", ""],
            },
            LOption {
                oletter: OLETTER_NONE,
                onames: ["status-line", ""],
                otype: OptFlags { bits: O_BOOL  | O_REPAINT },
                odefault: OPT_OFF,
                ovar: Some(0),
                ofunc: None,
                odesc: ["Don't color each line with its status column color", "Color each line with its status column color", ""],
            },
            LOption {
                oletter: OLETTER_NONE,
                onames: ["header", ""],
                otype: OptFlags { bits: O_STRING  | O_REPAINT },
                odefault: 0,
                ovar: None,
                ofunc: Some(OptHandler::OptHeader),
                odesc: ["Header lines: ", "d,", ""],
            },
            LOption {
                oletter: OLETTER_NONE,
                onames: ["no-paste", ""],
                otype: OptFlags { bits: O_BOOL },
                odefault: OPT_OFF,
                ovar: Some(0),
                ofunc: Some(OptHandler::OptNoPaste),
                odesc: ["Accept pasted input", "Ignore pasted input", ""],
            },
            LOption {
                oletter: OLETTER_NONE,
                onames: ["form-feed", ""],
                otype: OptFlags { bits: O_BOOL },
                odefault: OPT_OFF,
                ovar: Some(0),
                ofunc: None,
                odesc: ["Don't stop on form feed", "Stop on form feed", ""],
            },
            LOption {
                oletter: OLETTER_NONE,
                onames: ["no-edit-warn", "no-warn-edit"],
                otype: OptFlags { bits: O_BOOL },
                odefault: OPT_OFF,
                ovar: Some(0),
                ofunc: None,
                odesc: ["Warn when editing a file opened via LESSOPEN", "Don't warn when editing a file opened via LESSOPEN", ""],
            },
            LOption {
                oletter: OLETTER_NONE,
                onames: ["no-number-headers", ""],
                otype: OptFlags { bits: O_BOOL  | O_REPAINT },
                odefault: 0,
                ovar: Some(0),
                ofunc: None,
                odesc: ["Number header lines", "Don't number header lines", ""],
            },
            LOption {
                oletter: OLETTER_NONE,
                onames: ["redraw-on-quit", ""],
                otype: OptFlags { bits: O_BOOL },
                odefault: OPT_OFF,
                ovar: Some(0),
                ofunc: None,
                odesc: ["Don't redraw screen when quitting", "Redraw last screen when quitting", ""],
            },
            LOption {
                oletter: OLETTER_NONE,
                onames: ["search-options", ""],
                otype: OptFlags { bits: O_STRING },
                odefault: 0,
                ovar: None,
                ofunc: Some(OptHandler::OptSearchType),
                odesc: ["Search options: ", "s", ""],
            },
            LOption {
                oletter: OLETTER_NONE,
                onames: ["exit-follow-on-close", ""],
                otype: OptFlags { bits: O_BOOL },
                odefault: OPT_OFF,
                ovar: Some(0),
                ofunc: None,
                odesc: ["Don't exit F command when input closes", "Exit F command when input closes", ""],
            },
            LOption {
                oletter: OLETTER_NONE,
                onames: ["no-vbell", ""],
                otype: OptFlags { bits: O_BOOL },
                odefault: OPT_OFF,
                ovar: Some(0),
                ofunc: None,
                odesc: ["Display visual bell", "Don't display visual bell", ""],
            },
            LOption {
                oletter: OLETTER_NONE,
                onames: ["modelines", ""],
                otype: OptFlags { bits: O_NUMBER },
                odefault: 0,
                ovar: Some(0),
                ofunc: None,
                odesc: ["Lines to read looking for modelines: ", "Read %d lines looking for modelines", ""],
            },
            LOption {
                oletter: OLETTER_NONE,
                onames: ["intr", ""],
                otype: OptFlags { bits: O_STRING },
                odefault: 0,
                ovar: None,
                ofunc: Some(OptHandler::OptIntr),
                odesc: ["interrupt character: ", "s", ""],
            },
            LOption {
                oletter: OLETTER_NONE,
                onames: ["wordwrap", ""],
                otype: OptFlags { bits: O_BOOL  | O_REPAINT },
                odefault: OPT_OFF,
                ovar: Some(0),
                ofunc: None,
                odesc: ["Wrap lines at any character", "Wrap lines at spaces", ""],
            },
            LOption {
                oletter: OLETTER_NONE,
                onames: ["show-preproc-errors", ""],
                otype: OptFlags { bits: O_BOOL },
                odefault: OPT_OFF,
                ovar: Some(0),
                ofunc: None,
                odesc: ["Don't show error message if preprocessor fails", "Show error message if preprocessor fails", ""],
            },
            LOption {
                oletter: OLETTER_NONE,
                onames: ["proc-backspace", ""],
                otype: OptFlags { bits: O_TRIPLE  | O_REPAINT  | O_HL_REPAINT },
                odefault: OPT_OFF,
                ovar: Some(0),
                ofunc: None,
                odesc: ["Backspace handling is specified by the -U option", "Display underline text in underline mode", "Print backspaces as ^H"],
            },
            LOption {
                oletter: OLETTER_NONE,
                onames: ["proc-tab", ""],
                otype: OptFlags { bits: O_TRIPLE  | O_REPAINT  | O_HL_REPAINT },
                odefault: OPT_OFF,
                ovar: Some(0),
                ofunc: None,
                odesc: ["Tab handling is specified by the -U option", "Expand tabs to spaces", "Print tabs as ^I"],
            },
            LOption {
                oletter: OLETTER_NONE,
                onames: ["proc-return", ""],
                otype: OptFlags { bits: O_TRIPLE  | O_REPAINT  | O_HL_REPAINT },
                odefault: OPT_OFF,
                ovar: Some(0),
                ofunc: None,
                odesc: ["Carriage return handling is specified by the -U option", "Delete carriage return before newline", "Print carriage return as ^M"],
            },
            LOption {
                oletter: OLETTER_NONE,
                onames: ["match-shift", ""],
                otype: OptFlags { bits: O_STRING  | O_INIT_HANDLER },
                odefault: 0,
                ovar: None,
                ofunc: Some(OptHandler::OptMatchShift),
                odesc: ["Search match shift: ", ".d", ""],
            },
        ];
        proof {
            reveal_with_fuel(rows_match, 62);
            lemma_rows_match(option_table@, 61);
        }
        Options { less_is_more: 0, option_table }
    }
}

/// `on` with its lower-case ASCII letters in upper case.
pub open spec fn upper_name(on: Seq<char>) -> Seq<char> {
    on.map_values(|c: char| ascii_upper(c))
}

/// The completions that name `j` of option `o` offers for `pfx`, each followed by
/// a space: the name itself, and for a triple-valued option its upper-case form.
pub open spec fn name_completions(o: LOption, pfx: Seq<char>, j: int) -> Seq<char> {
    let on = o.onames@[j]@;
    let a = if sprefix_spec(pfx, on, false) >= pfx.len() {
        on.push(' ')
    } else {
        Seq::empty()
    };
    if o.otype.any(O_TRIPLE) {
        a + if sprefix_spec(pfx, on, true) >= pfx.len() {
            upper_name(on).push(' ')
        } else {
            Seq::empty()
        }
    } else {
        a
    }
}

/// The completions offered by the names of `o` from the `j`-th on.
pub open spec fn option_completions(o: LOption, pfx: Seq<char>, j: int) -> Seq<char>
    decreases 2 - j,
{
    if j < 0 || j >= 2 || o.onames@[j]@.len() == 0 {
        Seq::empty()
    } else {
        name_completions(o, pfx, j) + option_completions(o, pfx, j + 1)
    }
}

/// The completions offered by the toggleable options of `tbl` from the `i`-th on.
pub open spec fn table_completions(tbl: Seq<LOption>, pfx: Seq<char>, i: int) -> Seq<char>
    decreases tbl.len() - i,
{
    if i < 0 || i >= tbl.len() {
        Seq::empty()
    } else if tbl[i].otype.any(O_NO_TOGGLE) {
        table_completions(tbl, pfx, i + 1)
    } else {
        option_completions(tbl[i], pfx, 0) + table_completions(tbl, pfx, i + 1)
    }
}

/// What `findopts_name` returns: the completions without the last space.
pub open spec fn findopts_name_spec(tbl: Seq<LOption>, pfx: Seq<char>) -> Seq<char> {
    let all = table_completions(tbl, pfx, 0);
    if all.len() > 0 {
        all.drop_last()
    } else {
        all
    }
}

fn push_name(out: &mut Vec<char>, on: &str, upper: bool)
    ensures
        final(out)@ == old(out)@ + (if upper {
            upper_name(on@)
        } else {
            on@
        }).push(' '),
{
    let n = on.unicode_len();
    let ghost out0 = out@;
    let ghost name = if upper {
        upper_name(on@)
    } else {
        on@
    };
    let mut i: usize = 0;
    while i < n
        invariant
            n == on@.len(),
            0 <= i <= n,
            name.len() == n,
            name == (if upper {
                upper_name(on@)
            } else {
                on@
            }),
            out@ == out0 + name.subrange(0, i as int),
        decreases n - i,
    {
        let c = on.get_char(i);
        out.push(
            if upper {
                to_ascii_upper(c)
            } else {
                c
            },
        );
        i = i + 1;
        assert(out@ =~= out0 + name.subrange(0, i as int));
    }
    out.push(' ');
    assert(out@ =~= out0 + name.push(' '));
}

impl Options {
    /// Find an option in the option table, given its option letter.
    pub fn findopt(&self, c: char) -> (r: Option<usize>)
        ensures
            r matches Some(i) ==> first_with_letter(self.option_table@, c, 0) == Some(i as int),
            r is None ==> first_with_letter(self.option_table@, c, 0) is None,
    {
        findopt_in(&self.option_table, c)
    }

    /// Find an option in the option table, given its (possibly partial) name.
    pub fn findopt_name(&self, optname: &str) -> (r: FoundOpt)
        ensures
            findopt_name_result(self.option_table@, optname@, r),
            r.index matches Some(i) ==> i < self.option_table@.len(),
    {
        findopt_name_in(&self.option_table, optname)
    }

    /// Find all toggleable options whose names begin with `pfx`: their names
    /// (and, for triple-valued options, the upper-case forms that match),
    /// separated by spaces.
    pub fn findopts_name(&self, pfx: &str) -> (r: String)
        ensures
            r@ == findopts_name_spec(self.option_table@, pfx@),
    {
        let tbl = &self.option_table;
        let plen = pfx.unicode_len();
        let mut out: Vec<char> = Vec::new();
        let mut i: usize = 0;
        while i < tbl.len()
            invariant
                plen == pfx@.len(),
                0 <= i <= tbl@.len(),
                table_completions(tbl@, pfx@, 0) == out@ + table_completions(tbl@, pfx@, i as int),
            decreases tbl@.len() - i,
        {
            let o = &tbl[i];
            let ghost before = out@;
            if !o.otype.intersects(O_NO_TOGGLE) {
                let mut j: usize = 0;
                while j < 2
                    invariant
                        plen == pfx@.len(),
                        0 <= i < tbl@.len(),
                        *o == tbl@[i as int],
                        0 <= j <= 2,
                        option_completions(*o, pfx@, 0) == out@.subrange(
                            before.len() as int,
                            out@.len() as int,
                        ) + option_completions(*o, pfx@, j as int),
                        out@.subrange(0, before.len() as int) == before,
                        before.len() <= out@.len(),
                    ensures
                        j == 2 || o.onames@[j as int]@.len() == 0,
                    decreases 2 - j,
                {
                    let on = o.onames[j];
                    if on.unicode_len() == 0 {
                        break;
                    }
                    let ghost mid = out@;
                    if sprefix(pfx, on, false) >= plen {
                        push_name(&mut out, on, false);
                    }
                    if o.otype.intersects(O_TRIPLE) {
                        if sprefix(pfx, on, true) >= plen {
                            push_name(&mut out, on, true);
                        }
                    }
                    assert(out@ =~= mid + name_completions(*o, pfx@, j as int));
                    assert(out@.subrange(before.len() as int, out@.len() as int) =~= mid.subrange(
                        before.len() as int,
                        mid.len() as int,
                    ) + name_completions(*o, pfx@, j as int));
                    assert(out@.subrange(0, before.len() as int) =~= mid.subrange(0, before.len() as int));
                    j = j + 1;
                }
                assert(out@ =~= before + out@.subrange(before.len() as int, out@.len() as int));
                assert(option_completions(*o, pfx@, j as int) =~= Seq::<char>::empty());
            }
            i = i + 1;
        }
        assert(table_completions(tbl@, pfx@, i as int) =~= Seq::<char>::empty());
        assert(out@ + Seq::<char>::empty() =~= out@);
        let len = out.len();
        if len > 0 {
            let (head, _) = out.as_slice().split_at(len - 1);
            let r = crate::text::chars_to_string(head);
            proof {
                assert(out@.subrange(0, len - 1) =~= out@.drop_last());
            }
            r
        } else {
            crate::text::chars_to_string(out.as_slice())
        }
    }
}

} // verus!
