//! Cursor motions.  Motions are pure: they never modify the text, the
//! mark, the undo stack or the visual cache, and they keep the cursor
//! inside the buffer.
//!
//! Word motions use whitespace as the sole word boundary: moving left
//! skips whitespace backward and then non-whitespace backward; moving
//! right skips whitespace forward and then non-whitespace forward.  They
//! act within the current line; at a line boundary they hop to the
//! neighbouring line instead.

use vstd::prelude::*;

use crate::buffer::{Buffer, BufView, same_except_cursor};

verus! {

#[derive(Clone, Copy, PartialEq, Eq, Structural, Debug)]
pub enum Motion {
    Left,
    Right,
    Up,
    Down,
    Bol,
    Eol,
    BufferStart,
    BufferEnd,
    WordLeft,
    WordRight,
}

/// Word boundaries are blanks and tabs.
pub open spec fn is_word_sep(c: char) -> bool {
    c == ' ' || c == '\t'
}

/// First position at or after `i` that does not hold a separator.
pub open spec fn skip_sep_fwd(l: Seq<char>, i: int) -> int
    decreases l.len() - i when 0 <= i <= l.len()
{
    if i < l.len() && is_word_sep(l[i]) {
        skip_sep_fwd(l, i + 1)
    } else {
        i
    }
}

/// First position at or after `i` that holds a separator (or the end).
pub open spec fn skip_word_fwd(l: Seq<char>, i: int) -> int
    decreases l.len() - i when 0 <= i <= l.len()
{
    if i < l.len() && !is_word_sep(l[i]) {
        skip_word_fwd(l, i + 1)
    } else {
        i
    }
}

/// Last position at or before `i` with no separator just before it.
pub open spec fn skip_sep_back(l: Seq<char>, i: int) -> int
    decreases i when 0 <= i <= l.len()
{
    if i > 0 && is_word_sep(l[i - 1]) {
        skip_sep_back(l, i - 1)
    } else {
        i
    }
}

/// Last position at or before `i` with no word character just before it.
pub open spec fn skip_word_back(l: Seq<char>, i: int) -> int
    decreases i when 0 <= i <= l.len()
{
    if i > 0 && !is_word_sep(l[i - 1]) {
        skip_word_back(l, i - 1)
    } else {
        i
    }
}

pub proof fn lemma_skip_fwd_bounds(l: Seq<char>, i: int)
    requires
        0 <= i <= l.len(),
    ensures
        i <= skip_sep_fwd(l, i) <= l.len(),
        i <= skip_word_fwd(l, i) <= l.len(),
    decreases l.len() - i,
{
    if i < l.len() {
        lemma_skip_fwd_bounds(l, i + 1);
    }
}

pub proof fn lemma_skip_back_bounds(l: Seq<char>, i: int)
    requires
        0 <= i <= l.len(),
    ensures
        0 <= skip_sep_back(l, i) <= i,
        0 <= skip_word_back(l, i) <= i,
    decreases i,
{
    if i > 0 {
        lemma_skip_back_bounds(l, i - 1);
    }
}

/// Where a rightward word motion inside one line ends.
pub open spec fn word_right_in_line(l: Seq<char>, x: int) -> int {
    skip_word_fwd(l, skip_sep_fwd(l, x))
}

/// Where a leftward word motion inside one line ends.
pub open spec fn word_left_in_line(l: Seq<char>, x: int) -> int {
    skip_word_back(l, skip_sep_back(l, x))
}

/// Destination of a rightward word motion: within the line when the
/// cursor is before its end, else a hop to the start of the next line.
pub open spec fn word_right_dest(lines: Seq<Seq<char>>, cx: int, cy: int) -> (int, int) {
    if cx < lines[cy].len() {
        (word_right_in_line(lines[cy], cx), cy)
    } else if cy + 1 < lines.len() {
        (0, cy + 1)
    } else {
        (cx, cy)
    }
}

/// Destination of a leftward word motion: within the line when the cursor
/// is past its start, else a hop to the end of the previous line.
pub open spec fn word_left_dest(lines: Seq<Seq<char>>, cx: int, cy: int) -> (int, int) {
    if cx > 0 {
        (word_left_in_line(lines[cy], cx), cy)
    } else if cy > 0 {
        (lines[cy - 1].len() as int, cy - 1)
    } else {
        (0, 0)
    }
}

pub open spec fn clamp_col(x: int, len: int) -> int {
    if x > len {
        len
    } else {
        x
    }
}

/// Where each motion sends a cursor standing at `(cx, cy)`.
pub open spec fn motion_dest(lines: Seq<Seq<char>>, cx: int, cy: int, m: Motion) -> (int, int) {
    match m {
        Motion::Left => (if cx > 0 { cx - 1 } else { 0 }, cy),
        Motion::Right => (if cx < lines[cy].len() { cx + 1 } else { cx }, cy),
        Motion::Up => if cy > 0 {
            (clamp_col(cx, lines[cy - 1].len() as int), cy - 1)
        } else {
            (cx, cy)
        },
        Motion::Down => if cy + 1 < lines.len() {
            (clamp_col(cx, lines[cy + 1].len() as int), cy + 1)
        } else {
            (cx, cy)
        },
        Motion::Bol => (0, cy),
        Motion::Eol => (lines[cy].len() as int, cy),
        Motion::BufferStart => (0, 0),
        Motion::BufferEnd => (lines[lines.len() - 1].len() as int, (lines.len() - 1) as int),
        Motion::WordLeft => word_left_dest(lines, cx, cy),
        Motion::WordRight => word_right_dest(lines, cx, cy),
    }
}

/// Every single motion keeps a well-formed cursor well-formed.
pub proof fn lemma_motion_dest_in_bounds(lines: Seq<Seq<char>>, cx: int, cy: int, m: Motion)
    requires
        lines.len() >= 1,
        0 <= cy < lines.len(),
        0 <= cx <= lines[cy].len(),
    ensures
        ({
            let (nx, ny) = motion_dest(lines, cx, cy, m);
            0 <= ny < lines.len() && 0 <= nx <= lines[ny].len()
        }),
{
    match m {
        Motion::WordLeft => {
            if cx > 0 {
                lemma_skip_back_bounds(lines[cy], cx);
                lemma_skip_back_bounds(lines[cy], skip_sep_back(lines[cy], cx));
            }
        },
        Motion::WordRight => {
            if cx < lines[cy].len() {
                lemma_skip_fwd_bounds(lines[cy], cx);
                lemma_skip_fwd_bounds(lines[cy], skip_sep_fwd(lines[cy], cx));
            }
        },
        _ => {},
    }
}

/// The exec side of [`is_word_sep`].
pub fn word_sep(c: char) -> (r: bool)
    ensures
        r == is_word_sep(c),
{
    c == ' ' || c == '\t'
}

impl Buffer {
    /// The view after a pure cursor move to `(nx, ny)`.
    pub open spec fn with_cursor(self, nx: int, ny: int) -> BufView {
        BufView { cx: nx, cy: ny, ..self@ }
    }

    /// One column left, stopping at the start of the line.
    pub fn move_left(&mut self)
        requires
            old(self).wf(),
        ensures
            final(self).wf(),
            final(self)@ == old(self).with_cursor(
                motion_dest(old(self)@.lines, old(self)@.cx, old(self)@.cy, Motion::Left).0,
                old(self)@.cy,
            ),
            same_except_cursor(old(self), final(self)),
    {
        if self.cursor_x > 0 {
            self.cursor_x = self.cursor_x - 1;
        }
    }

    /// One column right, stopping at the end of the line.
    pub fn move_right(&mut self)
        requires
            old(self).wf(),
        ensures
            final(self).wf(),
            final(self)@ == old(self).with_cursor(
                motion_dest(old(self)@.lines, old(self)@.cx, old(self)@.cy, Motion::Right).0,
                old(self)@.cy,
            ),
            same_except_cursor(old(self), final(self)),
    {
        if self.cursor_x < self.lines[self.cursor_y].char_len {
            self.cursor_x = self.cursor_x + 1;
        }
    }

    /// One line up, clamping the column; no move on the first line.
    pub fn move_up(&mut self)
        requires
            old(self).wf(),
        ensures
            final(self).wf(),
            final(self)@ == ({
                let (nx, ny) = motion_dest(old(self)@.lines, old(self)@.cx, old(self)@.cy,
                    Motion::Up);
                old(self).with_cursor(nx, ny)
            }),
            same_except_cursor(old(self), final(self)),
    {
        if self.cursor_y > 0 {
            self.cursor_y = self.cursor_y - 1;
            self.clamp_cursor_x();
        }
    }

    /// One line down, clamping the column; no move on the last line.
    pub fn move_down(&mut self)
        requires
            old(self).wf(),
        ensures
            final(self).wf(),
            final(self)@ == ({
                let (nx, ny) = motion_dest(old(self)@.lines, old(self)@.cx, old(self)@.cy,
                    Motion::Down);
                old(self).with_cursor(nx, ny)
            }),
            same_except_cursor(old(self), final(self)),
    {
        let n = self.lines.len();
        if self.cursor_y < n - 1 {
            self.cursor_y = self.cursor_y + 1;
            self.clamp_cursor_x();
        }
    }

    /// Pull the column back onto the current line.
    pub fn clamp_cursor_x(&mut self)
        requires
            old(self)@.lines.len() >= 1,
            0 <= old(self)@.cy < old(self)@.lines.len(),
            forall|i: int|
                0 <= i < old(self).lines@.len() ==> (#[trigger] old(self).lines@[i]).char_len
                    == old(self).lines@[i].text@.len(),
            !old(self).visual.dirty ==> old(self).visuals_valid(
                old(self).visual.key_width as nat,
                old(self).visual.key_wrap,
            ),
        ensures
            final(self).wf(),
            final(self)@ == old(self).with_cursor(
                clamp_col(old(self)@.cx, old(self)@.lines[old(self)@.cy].len() as int),
                old(self)@.cy,
            ),
            same_except_cursor(old(self), final(self)),
    {
        let len = self.lines[self.cursor_y].char_len;
        if self.cursor_x > len {
            self.cursor_x = len;
        }
    }

    /// To the start of the current line.
    pub fn move_bol(&mut self)
        requires
            old(self).wf(),
        ensures
            final(self).wf(),
            final(self)@ == old(self).with_cursor(0, old(self)@.cy),
            same_except_cursor(old(self), final(self)),
    {
        self.cursor_x = 0;
    }

    /// To the end of the current line.
    pub fn move_eol(&mut self)
        requires
            old(self).wf(),
        ensures
            final(self).wf(),
            final(self)@ == old(self).with_cursor(
                old(self)@.lines[old(self)@.cy].len() as int,
                old(self)@.cy,
            ),
            same_except_cursor(old(self), final(self)),
    {
        self.cursor_x = self.lines[self.cursor_y].char_len;
    }

    /// To the first character of the buffer.
    pub fn move_beginning_of_buffer(&mut self)
        requires
            old(self).wf(),
        ensures
            final(self).wf(),
            final(self)@ == old(self).with_cursor(0, 0),
            same_except_cursor(old(self), final(self)),
    {
        self.cursor_x = 0;
        self.cursor_y = 0;
    }

    /// Past the last character of the buffer.
    pub fn move_end_of_buffer(&mut self)
        requires
            old(self).wf(),
        ensures
            final(self).wf(),
            final(self)@ == ({
                let (nx, ny) = motion_dest(old(self)@.lines, old(self)@.cx, old(self)@.cy,
                    Motion::BufferEnd);
                old(self).with_cursor(nx, ny)
            }),
            same_except_cursor(old(self), final(self)),
    {
        self.cursor_y = self.lines.len() - 1;
        self.cursor_x = self.lines[self.cursor_y].char_len;
    }

    /// Leftward word motion.
    pub fn move_word_left(&mut self)
        requires
            old(self).wf(),
        ensures
            final(self).wf(),
            final(self)@ == ({
                let (nx, ny) = word_left_dest(old(self)@.lines, old(self)@.cx, old(self)@.cy);
                old(self).with_cursor(nx, ny)
            }),
            same_except_cursor(old(self), final(self)),
    {
        let ghost l = self@.lines[self@.cy];
        if self.cursor_x > 0 {
            let y = self.cursor_y;
            let mut i: usize = self.cursor_x;
            proof {
                lemma_skip_back_bounds(l, i as int);
            }
            while i > 0 && word_sep(self.lines[y].text[i - 1])
                invariant
                    self.wf(),
                    y == self@.cy,
                    l == self@.lines[self@.cy],
                    0 <= i <= l.len(),
                    skip_sep_back(l, old(self)@.cx) == skip_sep_back(l, i as int),
                decreases i,
            {
                i = i - 1;
            }
            proof {
                lemma_skip_back_bounds(l, i as int);
            }
            while i > 0 && !word_sep(self.lines[y].text[i - 1])
                invariant
                    self.wf(),
                    y == self@.cy,
                    l == self@.lines[self@.cy],
                    0 <= i <= l.len(),
                    i == skip_sep_back(l, old(self)@.cx) || skip_word_back(l, skip_sep_back(l,
                        old(self)@.cx)) == skip_word_back(l, i as int),
                    skip_word_back(l, skip_sep_back(l, old(self)@.cx)) == skip_word_back(l,
                        i as int),
                decreases i,
            {
                i = i - 1;
            }
            self.cursor_x = i;
        } else if self.cursor_y > 0 {
            self.cursor_y = self.cursor_y - 1;
            self.cursor_x = self.lines[self.cursor_y].char_len;
        }
    }

    /// Rightward word motion.
    pub fn move_word_right(&mut self)
        requires
            old(self).wf(),
        ensures
            final(self).wf(),
            final(self)@ == ({
                let (nx, ny) = word_right_dest(old(self)@.lines, old(self)@.cx, old(self)@.cy);
                old(self).with_cursor(nx, ny)
            }),
            same_except_cursor(old(self), final(self)),
    {
        let ghost l = self@.lines[self@.cy];
        let y = self.cursor_y;
        let len = self.lines[y].char_len;
        if self.cursor_x < len {
            let mut i: usize = self.cursor_x;
            proof {
                lemma_skip_fwd_bounds(l, i as int);
            }
            while i < len && word_sep(self.lines[y].text[i])
                invariant
                    self.wf(),
                    y == self@.cy,
                    l == self@.lines[self@.cy],
                    len == l.len(),
                    0 <= i <= l.len(),
                    skip_sep_fwd(l, old(self)@.cx) == skip_sep_fwd(l, i as int),
                decreases len - i,
            {
                i = i + 1;
            }
            proof {
                lemma_skip_fwd_bounds(l, i as int);
            }
            while i < len && !word_sep(self.lines[y].text[i])
                invariant
                    self.wf(),
                    y == self@.cy,
                    l == self@.lines[self@.cy],
                    len == l.len(),
                    0 <= i <= l.len(),
                    skip_word_fwd(l, skip_sep_fwd(l, old(self)@.cx)) == skip_word_fwd(l, i as int),
                decreases len - i,
            {
                i = i + 1;
            }
            self.cursor_x = i;
        } else {
            let n = self.lines.len();
            if self.cursor_y < n - 1 {
                self.cursor_y = self.cursor_y + 1;
                self.cursor_x = 0;
            }
        }
    }

    /// Apply one motion to the cursor.
    pub fn move_cursor(&mut self, m: Motion)
        requires
            old(self).wf(),
        ensures
            final(self).wf(),
            final(self)@ == ({
                let (nx, ny) = motion_dest(old(self)@.lines, old(self)@.cx, old(self)@.cy, m);
                old(self).with_cursor(nx, ny)
            }),
            same_except_cursor(old(self), final(self)),
    {
        match m {
            Motion::Left => self.move_left(),
            Motion::Right => self.move_right(),
            Motion::Up => self.move_up(),
            Motion::Down => self.move_down(),
            Motion::Bol => self.move_bol(),
            Motion::Eol => self.move_eol(),
            Motion::BufferStart => self.move_beginning_of_buffer(),
            Motion::BufferEnd => self.move_end_of_buffer(),
            Motion::WordLeft => self.move_word_left(),
            Motion::WordRight => self.move_word_right(),
        }
    }
}

} // verus!
