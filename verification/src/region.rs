//! Mark, selection and the kill commands.
//!
//! The selection is derived from the cursor and the mark: the mark is
//! clamped into the buffer and the two ends are ordered so that the start
//! never lies after the end.  `kill_region` removes the selected region
//! and clears the mark; `copy_region` is pure.  The word, sentence and
//! line kills operate within the current line only.

use vstd::prelude::*;

use crate::buffer::{Buffer, BufView, UAct};
use crate::edit::{lines_after_delete, region_text};
use crate::motion::{is_word_sep, word_sep, word_left_in_line, word_right_in_line,
    lemma_skip_fwd_bounds, lemma_skip_back_bounds, skip_sep_fwd, skip_sep_back, skip_word_fwd,
    skip_word_back};
use crate::text::clone_chars;

verus! {

/// A normalized selection: `(start_x, start_y)` never lies after
/// `(end_x, end_y)` in reading order.
#[derive(Clone, Copy, PartialEq, Eq, Structural, Debug)]
pub struct Selection {
    pub start_x: usize,
    pub start_y: usize,
    pub end_x: usize,
    pub end_y: usize,
}

/// The selection a buffer state determines: the mark clamped into the
/// buffer, then ordered against the cursor.
pub open spec fn spec_selection(v: BufView) -> Option<((int, int), (int, int))> {
    match v.mark {
        None => None,
        Some((mx, my)) => {
            let cmy = if my < v.lines.len() {
                my
            } else {
                v.lines.len() - 1
            };
            let cmx = if mx <= v.lines[cmy].len() {
                mx
            } else {
                v.lines[cmy].len() as int
            };
            if cmy < v.cy || (cmy == v.cy && cmx <= v.cx) {
                Some(((cmx, cmy), (v.cx, v.cy)))
            } else {
                Some(((v.cx, v.cy), (cmx, cmy)))
            }
        },
    }
}

impl Buffer {
    /// Record the cursor as the mark.
    pub fn set_mark(&mut self)
        requires
            old(self).wf(),
        ensures
            final(self).wf(),
            final(self)@ == (BufView {
                mark: Some((old(self)@.cx, old(self)@.cy)),
                ..old(self)@
            }),
            final(self).lines == old(self).lines,
            final(self).visual == old(self).visual,
            final(self).undo_stack == old(self).undo_stack,
    {
        self.mark = Some((self.cursor_x, self.cursor_y));
    }

    /// Drop the mark.
    pub fn clear_mark(&mut self)
        requires
            old(self).wf(),
        ensures
            final(self).wf(),
            final(self)@ == (BufView { mark: None::<(int, int)>, ..old(self)@ }),
            final(self).lines == old(self).lines,
            final(self).visual == old(self).visual,
            final(self).undo_stack == old(self).undo_stack,
    {
        self.mark = None;
    }

    /// Set the mark when none is set, drop it otherwise.
    pub fn toggle_mark(&mut self)
        requires
            old(self).wf(),
        ensures
            final(self).wf(),
            old(self)@.mark is None ==> final(self)@ == (BufView {
                mark: Some((old(self)@.cx, old(self)@.cy)),
                ..old(self)@
            }),
            old(self)@.mark is Some ==> final(self)@ == (BufView {
                mark: None::<(int, int)>,
                ..old(self)@
            }),
            final(self).lines == old(self).lines,
            final(self).visual == old(self).visual,
            final(self).undo_stack == old(self).undo_stack,
    {
        match self.mark {
            None => self.set_mark(),
            Some(_) => self.clear_mark(),
        }
    }

    /// The selection between mark and cursor, if a mark is set; the start
    /// never lies after the end, and both ends are valid positions.
    pub fn selection(&self) -> (r: Option<Selection>)
        requires
            self.wf(),
        ensures
            r is Some <==> spec_selection(self@) is Some,
            r is Some ==> ({
                let ((sx, sy), (ex, ey)) = spec_selection(self@)->0;
                let s = r->0;
                &&& s.start_x == sx
                &&& s.start_y == sy
                &&& s.end_x == ex
                &&& s.end_y == ey
                &&& (sy < ey || (sy == ey && sx <= ex))
                &&& sy <= ey < self@.lines.len()
                &&& sx <= self@.lines[sy as int].len()
                &&& ex <= self@.lines[ey as int].len()
            }),
    {
        match self.mark {
            None => None,
            Some((mx, my)) => {
                let n = self.lines.len();
                let cmy = if my < n {
                    my
                } else {
                    n - 1
                };
                let ll = self.lines[cmy].char_len;
                let cmx = if mx <= ll {
                    mx
                } else {
                    ll
                };
                if cmy < self.cursor_y || (cmy == self.cursor_y && cmx <= self.cursor_x) {
                    Some(Selection {
                        start_x: cmx,
                        start_y: cmy,
                        end_x: self.cursor_x,
                        end_y: self.cursor_y,
                    })
                } else {
                    Some(Selection {
                        start_x: self.cursor_x,
                        start_y: self.cursor_y,
                        end_x: cmx,
                        end_y: cmy,
                    })
                }
            },
        }
    }

    /// The text of the region from `(sx, sy)` to `(ex, ey)`, without
    /// touching the buffer.
    pub fn region_copy(&self, sx: usize, sy: usize, ex: usize, ey: usize) -> (r: Vec<char>)
        requires
            self.wf(),
            sy <= ey < self@.lines.len(),
            sx <= self@.lines[sy as int].len(),
            ex <= self@.lines[ey as int].len(),
            sy == ey ==> sx <= ex,
        ensures
            r@ == region_text(self@.lines, sx as int, sy as int, ex as int, ey as int),
    {
        let ghost ol = self@.lines;
        if sy == ey {
            let mut head = clone_chars(&self.lines[sy].text);
            let tail = head.split_off(ex);
            let r = head.split_off(sx);
            proof {
                assert(r@ =~= region_text(ol, sx as int, sy as int, ex as int, ey as int));
            }
            r
        } else {
            let mut head = clone_chars(&self.lines[sy].text);
            let mut out = head.split_off(sx);
            proof {
                assert(out@ =~= ol[sy as int].subrange(sx as int, ol[sy as int].len() as int));
            }
            let mut k: usize = sy + 1;
            while k < ey
                invariant
                    sy < k <= ey < ol.len(),
                    self.wf(),
                    self@.lines == ol,
                    self.lines@.len() == ol.len(),
                    out@ == region_text(ol, sx as int, sy as int, ol[k - 1 as int].len() as int,
                        k - 1 as int),
                decreases ey - k,
            {
                out.push('\n');
                out.extend_from_slice(self.lines[k].text.as_slice());
                proof {
                    assert(ol[k as int].take(ol[k as int].len() as int) =~= ol[k as int]);
                    assert(out@ =~= region_text(ol, sx as int, sy as int,
                        ol[k - 1 as int].len() as int, k - 1 as int) + seq!['\n'] + ol[k as int]);
                }
                k = k + 1;
            }
            out.push('\n');
            let mut last = clone_chars(&self.lines[ey].text);
            let _tail = last.split_off(ex);
            let mut lst = last;
            out.append(&mut lst);
            proof {
                assert(out@ =~= region_text(ol, sx as int, sy as int,
                    ol[ey - 1 as int].len() as int, ey - 1 as int) + seq!['\n']
                    + ol[ey as int].take(ex as int));
            }
            out
        }
    }

    /// The text the selection covers, or `None` without a mark.  The
    /// buffer itself is untouched.
    pub fn copy_region(&self) -> (r: Option<Vec<char>>)
        requires
            self.wf(),
        ensures
            r is Some <==> spec_selection(self@) is Some,
            r is Some ==> ({
                let ((sx, sy), (ex, ey)) = spec_selection(self@)->0;
                r->0@ == region_text(self@.lines, sx, sy, ex, ey)
            }),
    {
        match self.selection() {
            None => None,
            Some(s) => Some(self.region_copy(s.start_x, s.start_y, s.end_x, s.end_y)),
        }
    }

    /// Delete the selected region, clear the mark and return the text, or
    /// `None` without a mark.
    pub fn kill_region(&mut self) -> (r: Option<Vec<char>>)
        requires
            old(self).wf(),
        ensures
            final(self).wf(),
            spec_selection(old(self)@) is None ==> r is None && *final(self) == *old(self),
            spec_selection(old(self)@) is Some ==> ({
                let ((sx, sy), (ex, ey)) = spec_selection(old(self)@)->0;
                &&& r is Some
                &&& r->0@ == region_text(old(self)@.lines, sx, sy, ex, ey)
                &&& final(self)@ == (BufView {
                    mark: None::<(int, int)>,
                    ..old(self).edited(
                        lines_after_delete(old(self)@.lines, sx, sy, ex, ey),
                        sx,
                        sy,
                        UAct::Delete {
                            x: sx,
                            y: sy,
                            text: region_text(old(self)@.lines, sx, sy, ex, ey),
                        },
                    )
                })
                &&& final(self).visual.dirty
            }),
    {
        match self.selection() {
            None => None,
            Some(s) => {
                let r = self.delete_range(s.start_x, s.start_y, s.end_x, s.end_y);
                self.mark = None;
                Some(r)
            },
        }
    }
}

} // verus!

verus! {

/// Sentence-ending punctuation.
pub open spec fn is_sentence_punct(c: char) -> bool {
    c == '.' || c == '!' || c == '?'
}

/// Where a sentence kill starting at `x` ends: one past the first `.`,
/// `!` or `?` that is followed by the end of the line or whitespace,
/// plus one consumed trailing whitespace; the end of the line when the
/// rest holds no sentence end.
pub open spec fn sentence_end(l: Seq<char>, x: int) -> int
    decreases l.len() - x when 0 <= x <= l.len()
{
    if x >= l.len() {
        l.len() as int
    } else if is_sentence_punct(l[x]) && (x + 1 == l.len() || is_word_sep(l[x + 1])) {
        if x + 1 < l.len() && is_word_sep(l[x + 1]) {
            x + 2
        } else {
            x + 1
        }
    } else {
        sentence_end(l, x + 1)
    }
}

pub proof fn lemma_sentence_end_bounds(l: Seq<char>, x: int)
    requires
        0 <= x <= l.len(),
    ensures
        x <= sentence_end(l, x) <= l.len(),
    decreases l.len() - x,
{
    if x < l.len() && !(is_sentence_punct(l[x]) && (x + 1 == l.len() || is_word_sep(l[x + 1]))) {
        lemma_sentence_end_bounds(l, x + 1);
    }
}

impl Buffer {
    /// The result every line-local kill shares: the range `[from, to)` of
    /// the current line deleted, the cursor at `from`, one `Delete` entry.
    pub open spec fn line_kill_view(self, from: int, to: int) -> BufView {
        self.edited(
            lines_after_delete(self@.lines, from, self@.cy, to, self@.cy),
            from,
            self@.cy,
            UAct::Delete {
                x: from,
                y: self@.cy,
                text: self@.lines[self@.cy].subrange(from, to),
            },
        )
    }

    /// Kill forward to the end of the word the cursor is on or before;
    /// `None` at the end of the line.
    pub fn kill_word(&mut self) -> (r: Option<Vec<char>>)
        requires
            old(self).wf(),
        ensures
            final(self).wf(),
            ({
                let l = old(self)@.lines[old(self)@.cy];
                let e = word_right_in_line(l, old(self)@.cx);
                if old(self)@.cx == l.len() {
                    r is None && *final(self) == *old(self)
                } else {
                    &&& r is Some
                    &&& r->0@ == l.subrange(old(self)@.cx, e)
                    &&& final(self)@ == old(self).line_kill_view(old(self)@.cx, e)
                    &&& final(self).visual.dirty
                }
            }),
    {
        let ghost l = self@.lines[self@.cy];
        let y = self.cursor_y;
        let x = self.cursor_x;
        let len = self.lines[y].char_len;
        if x == len {
            return None;
        }
        proof {
            lemma_skip_fwd_bounds(l, x as int);
            lemma_skip_fwd_bounds(l, skip_sep_fwd(l, x as int));
        }
        let mut i: usize = x;
        while i < len && word_sep(self.lines[y].text[i])
            invariant
                self.wf(),
                y == self@.cy,
                l == self@.lines[self@.cy],
                len == l.len(),
                x <= i <= len,
                skip_sep_fwd(l, x as int) == skip_sep_fwd(l, i as int),
            decreases len - i,
        {
            i = i + 1;
        }
        while i < len && !word_sep(self.lines[y].text[i])
            invariant
                self.wf(),
                y == self@.cy,
                l == self@.lines[self@.cy],
                len == l.len(),
                x <= i <= len,
                word_right_in_line(l, x as int) == skip_word_fwd(l, i as int),
            decreases len - i,
        {
            i = i + 1;
        }
        let r = self.delete_range(x, y, i, y);
        Some(r)
    }

    /// Kill backward to the start of the word before the cursor; `None`
    /// at the start of the line.
    pub fn kill_backward_word(&mut self) -> (r: Option<Vec<char>>)
        requires
            old(self).wf(),
        ensures
            final(self).wf(),
            ({
                let l = old(self)@.lines[old(self)@.cy];
                let s = word_left_in_line(l, old(self)@.cx);
                if old(self)@.cx == 0 {
                    r is None && *final(self) == *old(self)
                } else {
                    &&& r is Some
                    &&& r->0@ == l.subrange(s, old(self)@.cx)
                    &&& final(self)@ == old(self).line_kill_view(s, old(self)@.cx)
                    &&& final(self).visual.dirty
                }
            }),
    {
        let ghost l = self@.lines[self@.cy];
        let y = self.cursor_y;
        let x = self.cursor_x;
        if x == 0 {
            return None;
        }
        proof {
            lemma_skip_back_bounds(l, x as int);
            lemma_skip_back_bounds(l, skip_sep_back(l, x as int));
        }
        let mut i: usize = x;
        while i > 0 && word_sep(self.lines[y].text[i - 1])
            invariant
                self.wf(),
                y == self@.cy,
                l == self@.lines[self@.cy],
                0 <= i <= x <= l.len(),
                skip_sep_back(l, x as int) == skip_sep_back(l, i as int),
            decreases i,
        {
            i = i - 1;
        }
        while i > 0 && !word_sep(self.lines[y].text[i - 1])
            invariant
                self.wf(),
                y == self@.cy,
                l == self@.lines[self@.cy],
                0 <= i <= x <= l.len(),
                word_left_in_line(l, x as int) == skip_word_back(l, i as int),
            decreases i,
        {
            i = i - 1;
        }
        let r = self.delete_range(i, y, x, y);
        Some(r)
    }

    /// Kill forward to the end of the sentence, or to the end of the line
    /// when none ends there; `None` at the end of the line.
    pub fn kill_sentence(&mut self) -> (r: Option<Vec<char>>)
        requires
            old(self).wf(),
        ensures
            final(self).wf(),
            ({
                let l = old(self)@.lines[old(self)@.cy];
                let e = sentence_end(l, old(self)@.cx);
                if old(self)@.cx == l.len() {
                    r is None && *final(self) == *old(self)
                } else {
                    &&& r is Some
                    &&& r->0@ == l.subrange(old(self)@.cx, e)
                    &&& final(self)@ == old(self).line_kill_view(old(self)@.cx, e)
                    &&& final(self).visual.dirty
                }
            }),
    {
        let ghost l = self@.lines[self@.cy];
        let y = self.cursor_y;
        let x = self.cursor_x;
        let len = self.lines[y].char_len;
        if x == len {
            return None;
        }
        proof {
            lemma_sentence_end_bounds(l, x as int);
        }
        let mut i: usize = x;
        let mut e: usize = len;
        let mut found: bool = false;
        while i < len && !found
            invariant
                self.wf(),
                y == self@.cy,
                l == self@.lines[self@.cy],
                len == l.len(),
                x <= i <= len,
                !found ==> sentence_end(l, x as int) == sentence_end(l, i as int),
                found ==> x <= e <= len && e == sentence_end(l, x as int),
                !found ==> e == len,
            decreases len - i + (if found { 0int } else { 1 }),
        {
            let c = self.lines[y].text[i];
            if c == '.' || c == '!' || c == '?' {
                if i + 1 == len {
                    e = i + 1;
                    found = true;
                } else if word_sep(self.lines[y].text[i + 1]) {
                    e = i + 2;
                    found = true;
                } else {
                    i = i + 1;
                }
            } else {
                i = i + 1;
            }
        }
        proof {
            if !found {
                assert(sentence_end(l, i as int) == len);
            }
            lemma_sentence_end_bounds(l, x as int);
        }
        let r = self.delete_range(x, y, e, y);
        Some(r)
    }

    /// Kill from the cursor to the end of the line; `None` at its end.
    pub fn kill_line(&mut self) -> (r: Option<Vec<char>>)
        requires
            old(self).wf(),
        ensures
            final(self).wf(),
            ({
                let l = old(self)@.lines[old(self)@.cy];
                if old(self)@.cx == l.len() {
                    r is None && *final(self) == *old(self)
                } else {
                    &&& r is Some
                    &&& r->0@ == l.subrange(old(self)@.cx, l.len() as int)
                    &&& final(self)@ == old(self).line_kill_view(old(self)@.cx, l.len() as int)
                    &&& final(self).visual.dirty
                }
            }),
    {
        let y = self.cursor_y;
        let x = self.cursor_x;
        let len = self.lines[y].char_len;
        if x == len {
            return None;
        }
        let r = self.delete_range(x, y, len, y);
        Some(r)
    }
}

} // verus!
