use vstd::prelude::*;

verus! {

// What part of the command line shows on the screen. The screen columns that
// each character takes come from the character set (0 for a composing
// character, 2 for a wide one, the length of its printable form for a control
// character): `w` holds them, one per character of the command line.

/// Half the room after the prompt, or none.
pub open spec fn half_room(sc_width: i32, prompt_col: i32) -> int {
    let d = sc_width - prompt_col;
    if d > 0 {
        d / 2
    } else {
        0
    }
}

/// From the character `s`, having passed `cols` columns: the first character
/// once `half` columns are passed (or the end of the line).
pub open spec fn lshift_scan(w: Seq<u32>, s: int, cols: int, half: int) -> int
    decreases w.len() - s,
{
    if 0 <= s < w.len() && cols < half {
        lshift_scan(w, s + 1, cols + w[s], half)
    } else {
        s
    }
}

/// The first character from `s` on that takes a column (or the end of the line).
pub open spec fn skip_zero_width(w: Seq<u32>, s: int) -> int
    decreases w.len() - s,
{
    if 0 <= s < w.len() && w[s] == 0 {
        skip_zero_width(w, s + 1)
    } else {
        s
    }
}

/// Going left from the character `s`, having passed `cols` columns: the first
/// character once `half` columns are passed (or the start of the line).
pub open spec fn rshift_scan(w: Seq<u32>, s: int, cols: int, half: int) -> int
    decreases s,
{
    if 0 < s <= w.len() && cols < half {
        rshift_scan(w, s - 1, cols + w[s - 1], half)
    } else {
        s
    }
}

/// Repainting from the character `s` at column `col`: the characters that fit
/// before the column `sc_width`, then those that take no column. Gives where it
/// stops and the column there.
pub open spec fn repaint_scan(w: Seq<u32>, s: int, col: int, sc_width: int) -> (int, int)
    decreases w.len() - s,
{
    if 0 <= s < w.len() && col + w[s] < sc_width {
        repaint_scan(w, s + 1, col + w[s], sc_width)
    } else {
        (skip_zero_width(w, s), col)
    }
}

proof fn lemma_lshift_scan(w: Seq<u32>, s: int, cols: int, half: int)
    requires
        0 <= s <= w.len(),
    ensures
        s <= lshift_scan(w, s, cols, half) <= w.len(),
    decreases w.len() - s,
{
    if s < w.len() && cols < half {
        lemma_lshift_scan(w, s + 1, cols + w[s], half);
    }
}

proof fn lemma_skip_zero_width(w: Seq<u32>, s: int)
    requires
        0 <= s <= w.len(),
    ensures
        s <= skip_zero_width(w, s) <= w.len(),
    decreases w.len() - s,
{
    if s < w.len() && w[s] == 0 {
        lemma_skip_zero_width(w, s + 1);
    }
}

fn skip_zero_width_exec(w: &Vec<u32>, s: usize) -> (r: usize)
    requires
        s <= w@.len(),
    ensures
        r == skip_zero_width(w@, s as int),
        s <= r <= w@.len(),
{
    let mut k = s;
    proof {
        lemma_skip_zero_width(w@, s as int);
    }
    while k < w.len() && w[k] == 0
        invariant
            s <= k <= w@.len(),
            skip_zero_width(w@, s as int) == skip_zero_width(w@, k as int),
        decreases w@.len() - k,
    {
        k = k + 1;
    }
    k
}

/// Shift the display of the command line left by half the room after the prompt:
/// the new first character shown, from the first one shown now, `offset`
/// (skipping characters that take no column).
pub fn cmd_lshift(w: &Vec<u32>, offset: usize, sc_width: i32, prompt_col: i32) -> (r: usize)
    requires
        offset <= w@.len(),
    ensures
        r == skip_zero_width(w@, lshift_scan(w@, offset as int, 0, half_room(sc_width, prompt_col))),
        offset <= r <= w@.len(),
{
    let d: i64 = sc_width as i64 - prompt_col as i64;
    let half: i64 = if d > 0 {
        d / 2
    } else {
        0
    };
    let mut s = offset;
    let mut cols: u64 = 0;
    proof {
        lemma_lshift_scan(w@, offset as int, 0, half as int);
    }
    while s < w.len() && (cols as i64) < half
        invariant
            offset <= s <= w@.len(),
            cols < 0x1_0000_0000 + 0x8000_0000,
            half == half_room(sc_width, prompt_col),
            half < 0x8000_0000,
            lshift_scan(w@, offset as int, 0, half as int) == lshift_scan(w@, s as int, cols as int, half as int),
        decreases w@.len() - s,
    {
        cols = cols + w[s] as u64;
        s = s + 1;
    }
    proof {
        lemma_lshift_scan(w@, s as int, cols as int, half as int);
    }
    skip_zero_width_exec(w, s)
}

/// Shift the display of the command line right by half the room after the
/// prompt: the new first character shown, from the first one shown now, `offset`.
pub fn cmd_rshift(w: &Vec<u32>, offset: usize, sc_width: i32, prompt_col: i32) -> (r: usize)
    requires
        offset <= w@.len(),
    ensures
        r == rshift_scan(w@, offset as int, 0, half_room(sc_width, prompt_col)),
        r <= offset,
{
    let d: i64 = sc_width as i64 - prompt_col as i64;
    let half: i64 = if d > 0 {
        d / 2
    } else {
        0
    };
    let mut s = offset;
    let mut cols: u64 = 0;
    while s > 0 && (cols as i64) < half
        invariant
            s <= offset <= w@.len(),
            cols < 0x1_0000_0000 + 0x8000_0000,
            half == half_room(sc_width, prompt_col),
            half < 0x8000_0000,
            rshift_scan(w@, offset as int, 0, half as int) == rshift_scan(w@, s as int, cols as int, half as int),
        decreases s,
    {
        cols = cols + w[s - 1] as u64;
        s = s - 1;
    }
    s
}

/// Repaint the command line from the character `from`, at the screen column
/// `col`: where the characters that fit end, and the column there (see
/// `repaint_scan`).
pub fn cmd_repaint(w: &Vec<u32>, from: usize, col: i32, sc_width: i32) -> (r: (usize, i64))
    requires
        from <= w@.len(),
    ensures
        (r.0 as int, r.1 as int) == repaint_scan(w@, from as int, col as int, sc_width as int),
        from <= r.0 <= w@.len(),
{
    let mut s = from;
    let mut c: i64 = col as i64;
    while s < w.len() && c + (w[s] as i64) < sc_width as i64
        invariant
            from <= s <= w@.len(),
            col <= c < 0x8000_0000,
            repaint_scan(w@, from as int, col as int, sc_width as int) == repaint_scan(
                w@,
                s as int,
                c as int,
                sc_width as int,
            ),
        decreases w@.len() - s,
    {
        c = c + w[s] as i64;
        s = s + 1;
    }
    let e = skip_zero_width_exec(w, s);
    (e, c)
}

/// Moving the cursor right over a character of `width` columns from the column
/// `col`: does the display first shift left? (When the character would reach the
/// last column, or the one before it with more characters after it.)
pub fn right_needs_lshift(col: i32, width: u32, sc_width: i32, more_after: bool) -> (r: bool)
    ensures
        r == (col + width >= sc_width || (col + width == sc_width - 1 && more_after)),
{
    let e: i64 = col as i64 + width as i64;
    e >= sc_width as i64 || (e == sc_width as i64 - 1 && more_after)
}

/// Moving the cursor left over a character of `width` columns from the column
/// `col`: does the display first shift right? (When the character is left of the
/// first column after the prompt.)
pub fn left_needs_rshift(col: i32, width: u32, prompt_col: i32) -> (r: bool)
    ensures
        r == (col < prompt_col + width),
{
    (col as i64) < prompt_col as i64 + width as i64
}

} // verus!
