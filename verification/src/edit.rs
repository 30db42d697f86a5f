//! Editing primitives of the buffer: insertion, deletion, line splitting
//! and joining, multi-line paste, and undo.
//!
//! Every public primitive records one [`UndoAction`](crate::buffer::UndoAction),
//! sets the modified flag and dirties the visual cache; `undo` pops one
//! action and applies its inverse.

use vstd::prelude::*;

use crate::buffer::{Buffer, BufView, Line, UAct, UndoAction};
use crate::text::{split_text, splice_line, texts_of, split_chars, clone_chars, find_nl};

verus! {

// ---------------------------------------------------------------------
// View algebra: how `Vec<Line>` edits show up in the sequence of texts.
// ---------------------------------------------------------------------

pub open spec fn line_texts(lines: Seq<Line>) -> Seq<Seq<char>> {
    lines.map(|i: int, l: Line| l.text@)
}

pub proof fn lemma_texts_update(lines: Seq<Line>, i: int, l: Line)
    requires
        0 <= i < lines.len(),
    ensures
        line_texts(lines.update(i, l)) == line_texts(lines).update(i, l.text@),
{
    assert(line_texts(lines.update(i, l)) =~= line_texts(lines).update(i, l.text@));
}

pub proof fn lemma_texts_insert(lines: Seq<Line>, i: int, l: Line)
    requires
        0 <= i <= lines.len(),
    ensures
        line_texts(lines.insert(i, l)) == line_texts(lines).insert(i, l.text@),
{
    assert(line_texts(lines.insert(i, l)) =~= line_texts(lines).insert(i, l.text@));
}

pub proof fn lemma_texts_remove(lines: Seq<Line>, i: int)
    requires
        0 <= i < lines.len(),
    ensures
        line_texts(lines.remove(i)) == line_texts(lines).remove(i),
{
    assert(line_texts(lines.remove(i)) =~= line_texts(lines).remove(i));
}

// ---------------------------------------------------------------------
// Spec-level results of the editing primitives.
// ---------------------------------------------------------------------

/// Lines after deleting the region from `(sx, sy)` to `(ex, ey)`:
/// within one line a plain cut, across lines the head of the first line
/// is merged with the tail of the last and the lines between vanish.
pub open spec fn lines_after_delete(
    lines: Seq<Seq<char>>,
    sx: int,
    sy: int,
    ex: int,
    ey: int,
) -> Seq<Seq<char>> {
    if sy == ey {
        lines.update(sy, lines[sy].take(sx) + lines[sy].skip(ex))
    } else {
        lines.take(sy) + seq![lines[sy].take(sx) + lines[ey].skip(ex)] + lines.skip(ey + 1)
    }
}

/// The text of the region from `(sx, sy)` to `(ex, ey)`: a single newline
/// between lines, no trailing newline.
pub open spec fn region_text(
    lines: Seq<Seq<char>>,
    sx: int,
    sy: int,
    ex: int,
    ey: int,
) -> Seq<char>
    decreases ey - sy when sy <= ey
{
    if sy >= ey {
        lines[sy].subrange(sx, ex)
    } else {
        region_text(lines, sx, sy, lines[ey - 1].len() as int, ey - 1) + seq!['\n']
            + lines[ey].take(ex)
    }
}

/// Lines after inserting the parts of a (possibly multi-line) text at
/// `(x, y)`: the first part extends the head of line `y`, the last part
/// is prefixed to its tail, the parts between become lines of their own.
pub open spec fn lines_after_insert(
    lines: Seq<Seq<char>>,
    x: int,
    y: int,
    parts: Seq<Seq<char>>,
) -> Seq<Seq<char>> {
    if parts.len() <= 1 {
        let ins: Seq<char> = if parts.len() == 1 {
            parts[0]
        } else {
            Seq::empty()
        };
        lines.update(y, splice_line(lines[y], x, ins))
    } else {
        lines.take(y) + seq![lines[y].take(x) + parts[0]] + parts.subrange(
            1,
            parts.len() - 1,
        ) + seq![parts[parts.len() - 1] + lines[y].skip(x)] + lines.skip(y + 1)
    }
}

/// Where the cursor stands after inserting `text` at `(x, y)`.
pub open spec fn insert_end_pos(x: int, y: int, text: Seq<char>) -> (int, int) {
    let parts = split_text(text);
    if parts.len() == 1 {
        (x + text.len(), y)
    } else {
        (parts[parts.len() - 1].len() as int, y + parts.len() - 1)
    }
}

impl Buffer {
    /// The view after an edit: new lines and cursor, one more undo entry,
    /// the modified flag set, mark and path untouched.
    pub open spec fn edited(
        self,
        lines: Seq<Seq<char>>,
        cx: int,
        cy: int,
        act: UAct,
    ) -> BufView {
        BufView {
            lines: lines,
            cx: cx,
            cy: cy,
            modified: true,
            undo: self@.undo.push(act),
            ..self@
        }
    }

    /// Insert one character at the cursor and advance the cursor past it.
    /// Lines never hold a newline — splitting a line is `insert_newline` —
    /// so the recorded inverse is a one-character deletion.
    pub fn insert_char(&mut self, c: char)
        requires
            old(self).wf(),
            c != '\n',
        ensures
            final(self).wf(),
            final(self)@ == old(self).edited(
                old(self)@.lines.update(
                    old(self)@.cy,
                    splice_line(old(self)@.lines[old(self)@.cy], old(self)@.cx, seq![c]),
                ),
                old(self)@.cx + 1,
                old(self)@.cy,
                UAct::Insert { x: old(self)@.cx, y: old(self)@.cy, text: seq![c] },
            ),
            final(self).visual.dirty,
    {
        let y = self.cursor_y;
        let x = self.cursor_x;
        let mut t = clone_chars(&self.lines[y].text);
        t.insert(x, c);
        let nl = t.len();
        let vh = self.lines[y].visual_height;
        proof {
            assert(t@ =~= splice_line(self@.lines[y as int], x as int, seq![c]));
            lemma_texts_update(
                self.lines@,
                y as int,
                Line { text: t, char_len: nl, visual_height: vh, dirty: true },
            );
        }
        self.lines[y] = Line { text: t, char_len: nl, visual_height: vh, dirty: true };
        self.cursor_x = x + 1;
        let mut one: Vec<char> = Vec::new();
        one.push(c);
        self.undo_stack.push(UndoAction::Insert { x, y, text: one });
        self.modified = true;
        self.visual.dirty = true;
        proof {
            assert(self@.undo =~= old(self)@.undo.push(
                UAct::Insert { x: x as int, y: y as int, text: seq![c] },
            ));
            assert(self@ =~= old(self).edited(
                old(self)@.lines.update(
                    old(self)@.cy,
                    splice_line(old(self)@.lines[old(self)@.cy], old(self)@.cx, seq![c]),
                ),
                old(self)@.cx + 1,
                old(self)@.cy,
                UAct::Insert { x: old(self)@.cx, y: old(self)@.cy, text: seq![c] },
            ));
        }
    }

    /// Insert a single-line fragment at `(x, y)` and leave the cursor at
    /// its end.
    pub fn insert_text_at(&mut self, x: usize, y: usize, text: &Vec<char>)
        requires
            old(self).wf(),
            y < old(self)@.lines.len(),
            x <= old(self)@.lines[y as int].len(),
            forall|j: int| 0 <= j < text@.len() ==> text@[j] != '\n',
        ensures
            final(self).wf(),
            final(self)@ == old(self).edited(
                old(self)@.lines.update(
                    y as int,
                    splice_line(old(self)@.lines[y as int], x as int, text@),
                ),
                x + text@.len(),
                y as int,
                UAct::Insert { x: x as int, y: y as int, text: text@ },
            ),
            final(self).visual.dirty,
    {
        let mut t = clone_chars(&self.lines[y].text);
        let tail = t.split_off(x);
        let mut ins = clone_chars(text);
        let mut tl = tail;
        t.append(&mut ins);
        t.append(&mut tl);
        let nl = t.len();
        let vh = self.lines[y].visual_height;
        proof {
            assert(t@ =~= splice_line(old(self)@.lines[y as int], x as int, text@));
            lemma_texts_update(
                self.lines@,
                y as int,
                Line { text: t, char_len: nl, visual_height: vh, dirty: true },
            );
        }
        self.lines[y] = Line { text: t, char_len: nl, visual_height: vh, dirty: true };
        self.cursor_x = x + text.len();
        self.cursor_y = y;
        self.undo_stack.push(UndoAction::Insert { x, y, text: clone_chars(text) });
        self.modified = true;
        self.visual.dirty = true;
        proof {
            assert(self@.undo =~= old(self)@.undo.push(
                UAct::Insert { x: x as int, y: y as int, text: text@ },
            ));
            assert(self@ =~= old(self).edited(
                old(self)@.lines.update(
                    y as int,
                    splice_line(old(self)@.lines[y as int], x as int, text@),
                ),
                x + text@.len(),
                y as int,
                UAct::Insert { x: x as int, y: y as int, text: text@ },
            ));
        }
    }

    /// Split the current line at the cursor; the tail becomes a new line
    /// below and the cursor moves to its start.
    pub fn insert_newline(&mut self)
        requires
            old(self).wf(),
        ensures
            final(self).wf(),
            final(self)@ == old(self).edited(
                old(self)@.lines.update(
                    old(self)@.cy,
                    old(self)@.lines[old(self)@.cy].take(old(self)@.cx),
                ).insert(old(self)@.cy + 1, old(self)@.lines[old(self)@.cy].skip(old(self)@.cx)),
                0,
                old(self)@.cy + 1,
                UAct::InsertNewline { x: old(self)@.cx, y: old(self)@.cy },
            ),
            final(self).visual.dirty,
    {
        let y = self.cursor_y;
        let x = self.cursor_x;
        let n = self.lines.len();
        assert(y < n);
        let mut head = clone_chars(&self.lines[y].text);
        let tail = head.split_off(x);
        let vh = self.lines[y].visual_height;
        let head_len = x;
        let tail_len = self.lines[y].char_len - x;
        proof {
            assert(head@ =~= old(self)@.lines[y as int].take(x as int));
            assert(tail@ =~= old(self)@.lines[y as int].skip(x as int));
            lemma_texts_update(
                self.lines@,
                y as int,
                Line { text: head, char_len: head_len, visual_height: vh, dirty: true },
            );
        }
        self.lines[y] = Line { text: head, char_len: head_len, visual_height: vh, dirty: true };
        proof {
            lemma_texts_insert(
                self.lines@,
                y + 1 as int,
                Line { text: tail, char_len: tail_len, visual_height: 1, dirty: true },
            );
        }
        self.lines.insert(y + 1, Line {
            text: tail,
            char_len: tail_len,
            visual_height: 1,
            dirty: true,
        });
        self.cursor_y = y + 1;
        self.cursor_x = 0;
        self.undo_stack.push(UndoAction::InsertNewline { x, y });
        self.modified = true;
        self.visual.dirty = true;
        proof {
            assert(self@.undo =~= old(self)@.undo.push(
                UAct::InsertNewline { x: x as int, y: y as int },
            ));
            assert(self@ =~= old(self).edited(
                old(self)@.lines.update(y as int, old(self)@.lines[y as int].take(x as int)).insert(
                    y + 1 as int,
                    old(self)@.lines[y as int].skip(x as int),
                ),
                0,
                y + 1 as int,
                UAct::InsertNewline { x: x as int, y: y as int },
            ));
        }
    }
}

} // verus!

verus! {

impl Buffer {
    /// Cut the region without recording undo or touching the modified
    /// flag; the cursor moves to the start of the region.
    fn raw_delete_range(&mut self, sx: usize, sy: usize, ex: usize, ey: usize) -> (r: Vec<char>)
        requires
            old(self).wf(),
            sy <= ey < old(self)@.lines.len(),
            sx <= old(self)@.lines[sy as int].len(),
            ex <= old(self)@.lines[ey as int].len(),
            sy == ey ==> sx <= ex,
        ensures
            final(self).wf(),
            r@ == region_text(old(self)@.lines, sx as int, sy as int, ex as int, ey as int),
            final(self)@ == (BufView {
                lines: lines_after_delete(old(self)@.lines, sx as int, sy as int, ex as int,
                    ey as int),
                cx: sx as int,
                cy: sy as int,
                ..old(self)@
            }),
            final(self).visual.dirty,
            final(self).undo_stack == old(self).undo_stack,
    {
        let ghost ol = self@.lines;
        let n = self.lines.len();
        if sy == ey {
            let mut head = clone_chars(&self.lines[sy].text);
            let tail = head.split_off(ex);
            let deleted = head.split_off(sx);
            let mut tl = tail;
            head.append(&mut tl);
            let nl = head.len();
            let vh = self.lines[sy].visual_height;
            proof {
                assert(head@ =~= ol[sy as int].take(sx as int) + ol[sy as int].skip(ex as int));
                assert(deleted@ =~= region_text(ol, sx as int, sy as int, ex as int, ey as int));
                lemma_texts_update(
                    self.lines@,
                    sy as int,
                    Line { text: head, char_len: nl, visual_height: vh, dirty: true },
                );
            }
            self.lines[sy] = Line { text: head, char_len: nl, visual_height: vh, dirty: true };
            self.cursor_x = sx;
            self.cursor_y = sy;
            self.visual.dirty = true;
            proof {
                assert(self@ =~= (BufView {
                    lines: lines_after_delete(ol, sx as int, sy as int, ex as int, ey as int),
                    cx: sx as int,
                    cy: sy as int,
                    ..old(self)@
                }));
            }
            deleted
        } else {
            // Gather the region text.
            let mut head = clone_chars(&self.lines[sy].text);
            let mut deleted = head.split_off(sx);
            proof {
                assert(deleted@ =~= ol[sy as int].subrange(sx as int,
                    ol[sy as int].len() as int));
                assert(deleted@ == region_text(ol, sx as int, sy as int,
                    ol[sy as int].len() as int, sy as int));
            }
            let mut k: usize = sy + 1;
            while k < ey
                invariant
                    sy < k <= ey < ol.len(),
                    self.wf(),
                    self@.lines == ol,
                    self.lines@.len() == ol.len(),
                    deleted@ == region_text(ol, sx as int, sy as int,
                        ol[k - 1 as int].len() as int, k - 1 as int),
                decreases ey - k,
            {
                deleted.push('\n');
                deleted.extend_from_slice(self.lines[k].text.as_slice());
                proof {
                    assert(ol[k as int].take(ol[k as int].len() as int) =~= ol[k as int]);
                    assert(deleted@ =~= region_text(ol, sx as int, sy as int,
                        ol[k - 1 as int].len() as int, k - 1 as int) + seq!['\n'] + ol[k as int]);
                }
                k = k + 1;
            }
            deleted.push('\n');
            let mut last = clone_chars(&self.lines[ey].text);
            let tail = last.split_off(ex);
            let mut lst = last;
            deleted.append(&mut lst);
            proof {
                assert(deleted@ =~= region_text(ol, sx as int, sy as int,
                    ol[ey - 1 as int].len() as int, ey - 1 as int) + seq!['\n']
                    + ol[ey as int].take(ex as int));
                assert(deleted@ == region_text(ol, sx as int, sy as int, ex as int, ey as int));
            }
            // Merge the head of the first line with the tail of the last.
            let mut merged = head;
            let mut tl = tail;
            merged.append(&mut tl);
            let nl = merged.len();
            let vh = self.lines[sy].visual_height;
            proof {
                assert(merged@ =~= ol[sy as int].take(sx as int) + ol[ey as int].skip(ex as int));
            }
            // Drop the swallowed lines.
            let ghost oll = self.lines@;
            let mut r: usize = 0;
            while r < ey - sy
                invariant
                    0 <= r <= ey - sy,
                    sy <= ey < oll.len(),
                    self.lines@.len() == oll.len() - r,
                    self.lines@ == oll.take(sy + 1 as int) + oll.skip(sy + 1 + r as int),
                    forall|i: int|
                        0 <= i < oll.len() ==> (#[trigger] oll[i]).char_len == oll[i].text@.len(),
                    self.cursor_x == old(self).cursor_x,
                    self.cursor_y == old(self).cursor_y,
                    self.mark == old(self).mark,
                    self.file_path == old(self).file_path,
                    self.modified == old(self).modified,
                    self.undo_stack == old(self).undo_stack,
                    self.visual == old(self).visual,
                decreases ey - sy - r,
            {
                proof {
                    assert(self.lines@.len() > sy + 1);
                }
                self.lines.remove(sy + 1);
                proof {
                    assert((oll.take(sy + 1 as int) + oll.skip(sy + 1 + r as int)).remove(
                        sy + 1 as int,
                    ) =~= oll.take(sy + 1 as int) + oll.skip(sy + 1 + (r + 1) as int));
                }
                r = r + 1;
            }
            proof {
                assert(self.lines@.len() > sy);
                lemma_texts_update(
                    self.lines@,
                    sy as int,
                    Line { text: merged, char_len: nl, visual_height: vh, dirty: true },
                );
            }
            self.lines[sy] = Line { text: merged, char_len: nl, visual_height: vh, dirty: true };
            self.cursor_x = sx;
            self.cursor_y = sy;
            self.visual.dirty = true;
            proof {
                let target = lines_after_delete(ol, sx as int, sy as int, ex as int, ey as int);
                assert(self@.lines =~~= target);
                assert(self@ =~= (BufView {
                    lines: target,
                    cx: sx as int,
                    cy: sy as int,
                    ..old(self)@
                }));
            }
            deleted
        }
    }

    /// Delete the region from `(sx, sy)` to `(ex, ey)` and return its
    /// text.  The cursor moves to the start of the region and one
    /// `Delete` entry is recorded.
    pub fn delete_range(&mut self, sx: usize, sy: usize, ex: usize, ey: usize) -> (r: Vec<char>)
        requires
            old(self).wf(),
            sy <= ey < old(self)@.lines.len(),
            sx <= old(self)@.lines[sy as int].len(),
            ex <= old(self)@.lines[ey as int].len(),
            sy == ey ==> sx <= ex,
        ensures
            final(self).wf(),
            r@ == region_text(old(self)@.lines, sx as int, sy as int, ex as int, ey as int),
            final(self)@ == old(self).edited(
                lines_after_delete(old(self)@.lines, sx as int, sy as int, ex as int, ey as int),
                sx as int,
                sy as int,
                UAct::Delete {
                    x: sx as int,
                    y: sy as int,
                    text: region_text(old(self)@.lines, sx as int, sy as int, ex as int,
                        ey as int),
                },
            ),
            final(self).visual.dirty,
    {
        let r = self.raw_delete_range(sx, sy, ex, ey);
        self.undo_stack.push(UndoAction::Delete { x: sx, y: sy, text: clone_chars(&r) });
        self.modified = true;
        proof {
            assert(self@.undo =~= old(self)@.undo.push(
                UAct::Delete { x: sx as int, y: sy as int, text: r@ },
            ));
            assert(self@ =~= old(self).edited(
                lines_after_delete(old(self)@.lines, sx as int, sy as int, ex as int, ey as int),
                sx as int,
                sy as int,
                UAct::Delete { x: sx as int, y: sy as int, text: r@ },
            ));
        }
        r
    }

    /// Delete the character under the cursor; nothing happens at the end
    /// of a line.
    pub fn delete_char(&mut self)
        requires
            old(self).wf(),
        ensures
            final(self).wf(),
            old(self)@.cx < old(self)@.lines[old(self)@.cy].len() ==> final(self)@ == old(
                self,
            ).edited(
                lines_after_delete(old(self)@.lines, old(self)@.cx, old(self)@.cy,
                    old(self)@.cx + 1, old(self)@.cy),
                old(self)@.cx,
                old(self)@.cy,
                UAct::Delete {
                    x: old(self)@.cx,
                    y: old(self)@.cy,
                    text: seq![old(self)@.lines[old(self)@.cy][old(self)@.cx]],
                },
            ) && final(self).visual.dirty,
            old(self)@.cx >= old(self)@.lines[old(self)@.cy].len() ==> *final(self) == *old(self),
    {
        let y = self.cursor_y;
        let x = self.cursor_x;
        if x < self.lines[y].char_len {
            proof {
                assert(old(self)@.lines[y as int].subrange(x as int, x + 1 as int)
                    =~= seq![old(self)@.lines[y as int][x as int]]);
            }
            let _ = self.delete_range(x, y, x + 1, y);
        }
    }

    /// Join line `y` onto the line above it, without recording undo.
    fn raw_join(&mut self, y: usize) -> (px: usize)
        requires
            old(self).wf(),
            1 <= y < old(self)@.lines.len(),
        ensures
            final(self).wf(),
            px == old(self)@.lines[y - 1 as int].len(),
            final(self)@ == (BufView {
                lines: old(self)@.lines.update(y - 1 as int, old(self)@.lines[y - 1 as int]
                    + old(self)@.lines[y as int]).remove(y as int),
                cx: old(self)@.lines[y - 1 as int].len() as int,
                cy: y - 1 as int,
                ..old(self)@
            }),
            final(self).visual.dirty,
            final(self).undo_stack == old(self).undo_stack,
    {
        let ghost ol = self@.lines;
        let px = self.lines[y - 1].char_len;
        let mut merged = clone_chars(&self.lines[y - 1].text);
        merged.extend_from_slice(self.lines[y].text.as_slice());
        let nl = merged.len();
        let vh = self.lines[y - 1].visual_height;
        proof {
            assert(merged@ =~= ol[y - 1 as int] + ol[y as int]);
            lemma_texts_update(
                self.lines@,
                y - 1 as int,
                Line { text: merged, char_len: nl, visual_height: vh, dirty: true },
            );
        }
        self.lines[y - 1] = Line { text: merged, char_len: nl, visual_height: vh, dirty: true };
        proof {
            lemma_texts_remove(self.lines@, y as int);
        }
        self.lines.remove(y);
        self.cursor_x = px;
        self.cursor_y = y - 1;
        self.visual.dirty = true;
        proof {
            assert(self@ =~= (BufView {
                lines: ol.update(y - 1 as int, ol[y - 1 as int] + ol[y as int]).remove(y as int),
                cx: ol[y - 1 as int].len() as int,
                cy: y - 1 as int,
                ..old(self)@
            }));
        }
        px
    }

    /// Delete the character before the cursor; at the start of a line the
    /// line is joined onto the one above, and at the very start of the
    /// buffer nothing happens.
    pub fn backward_delete_char(&mut self)
        requires
            old(self).wf(),
        ensures
            final(self).wf(),
            old(self)@.cx > 0 ==> final(self)@ == old(self).edited(
                lines_after_delete(old(self)@.lines, old(self)@.cx - 1, old(self)@.cy,
                    old(self)@.cx, old(self)@.cy),
                old(self)@.cx - 1,
                old(self)@.cy,
                UAct::Delete {
                    x: old(self)@.cx - 1,
                    y: old(self)@.cy,
                    text: seq![old(self)@.lines[old(self)@.cy][old(self)@.cx - 1]],
                },
            ) && final(self).visual.dirty,
            old(self)@.cx == 0 && old(self)@.cy > 0 ==> final(self)@ == old(self).edited(
                old(self)@.lines.update(old(self)@.cy - 1, old(self)@.lines[old(self)@.cy - 1]
                    + old(self)@.lines[old(self)@.cy]).remove(old(self)@.cy),
                old(self)@.lines[old(self)@.cy - 1].len() as int,
                old(self)@.cy - 1,
                UAct::JoinLine {
                    x: old(self)@.lines[old(self)@.cy - 1].len() as int,
                    y: old(self)@.cy - 1,
                },
            ) && final(self).visual.dirty,
            old(self)@.cx == 0 && old(self)@.cy == 0 ==> *final(self) == *old(self),
    {
        let y = self.cursor_y;
        let x = self.cursor_x;
        if x > 0 {
            proof {
                assert(old(self)@.lines[y as int].subrange(x - 1 as int, x as int)
                    =~= seq![old(self)@.lines[y as int][x - 1 as int]]);
            }
            let _ = self.delete_range(x - 1, y, x, y);
        } else if y > 0 {
            let px = self.raw_join(y);
            self.undo_stack.push(UndoAction::JoinLine { x: px, y: y - 1 });
            self.modified = true;
            proof {
                assert(self@.undo =~= old(self)@.undo.push(
                    UAct::JoinLine { x: px as int, y: y - 1 as int },
                ));
                assert(self@ =~= old(self).edited(
                    old(self)@.lines.update(y - 1 as int, old(self)@.lines[y - 1 as int]
                        + old(self)@.lines[y as int]).remove(y as int),
                    old(self)@.lines[y - 1 as int].len() as int,
                    y - 1 as int,
                    UAct::JoinLine {
                        x: old(self)@.lines[y - 1 as int].len() as int,
                        y: y - 1 as int,
                    },
                ));
            }
        }
    }
}

} // verus!

verus! {

impl Buffer {
    /// Insert a possibly multi-line text at `(x, y)` without recording
    /// undo or touching the modified flag; the cursor moves to the end of
    /// the inserted text.
    fn raw_insert_at(&mut self, x: usize, y: usize, text: &Vec<char>)
        requires
            old(self).wf(),
            y < old(self)@.lines.len(),
            x <= old(self)@.lines[y as int].len(),
        ensures
            final(self).wf(),
            final(self)@ == (BufView {
                lines: lines_after_insert(old(self)@.lines, x as int, y as int,
                    split_text(text@)),
                cx: insert_end_pos(x as int, y as int, text@).0,
                cy: insert_end_pos(x as int, y as int, text@).1,
                ..old(self)@
            }),
            final(self).visual.dirty,
            final(self).undo_stack == old(self).undo_stack,
    {
        let ghost ol = self@.lines;
        let parts = split_chars(text);
        let ghost p = split_text(text@);
        let np = parts.len();
        let ll = self.lines.len();
        if np == 1 {
            proof {
                crate::text::lemma_find_nl(text@);
                if find_nl(text@) < text@.len() {
                    crate::text::lemma_split_text_len(
                        text@.subrange(find_nl(text@) + 1, text@.len() as int),
                    );
                    assert(p.len() >= 2);
                }
                assert(p == seq![text@]);
                assert(p[0] == text@);
            }
            let mut t = clone_chars(&self.lines[y].text);
            let tail = t.split_off(x);
            let mut ins = clone_chars(&parts[0]);
            let mut tl = tail;
            t.append(&mut ins);
            t.append(&mut tl);
            let nl = t.len();
            let vh = self.lines[y].visual_height;
            proof {
                assert(t@ =~= splice_line(ol[y as int], x as int, text@));
                lemma_texts_update(
                    self.lines@,
                    y as int,
                    Line { text: t, char_len: nl, visual_height: vh, dirty: true },
                );
            }
            self.lines[y] = Line { text: t, char_len: nl, visual_height: vh, dirty: true };
            assert(x + text.len() <= nl);
            self.cursor_x = x + text.len();
            self.cursor_y = y;
            self.visual.dirty = true;
            proof {
                assert(lines_after_insert(ol, x as int, y as int, p) =~= ol.update(
                    y as int,
                    splice_line(ol[y as int], x as int, text@),
                ));
                assert(self@ =~= (BufView {
                    lines: lines_after_insert(ol, x as int, y as int, p),
                    cx: insert_end_pos(x as int, y as int, text@).0,
                    cy: insert_end_pos(x as int, y as int, text@).1,
                    ..old(self)@
                }));
            }
        } else {
            let mut first = clone_chars(&self.lines[y].text);
            let tail = first.split_off(x);
            let mut p0 = clone_chars(&parts[0]);
            first.append(&mut p0);
            let nl0 = first.len();
            let vh = self.lines[y].visual_height;
            proof {
                assert(first@ =~= ol[y as int].take(x as int) + p[0]);
                lemma_texts_update(
                    self.lines@,
                    y as int,
                    Line { text: first, char_len: nl0, visual_height: vh, dirty: true },
                );
            }
            self.lines[y] = Line { text: first, char_len: nl0, visual_height: vh, dirty: true };
            let mut k: usize = 1;
            while k < np - 1
                invariant
                    1 <= k <= np - 1,
                    np == p.len(),
                    np == parts@.len(),
                    2 <= np,
                    texts_of(parts@) == p,
                    y < ll,
                    ll == ol.len(),
                    self.lines@.len() == ll + k - 1,
                    line_texts(self.lines@) == ol.take(y as int).push(ol[y as int].take(x as int)
                        + p[0]) + p.subrange(1, k as int) + ol.skip(y + 1 as int),
                    forall|i: int|
                        0 <= i < self.lines@.len() ==> (#[trigger] self.lines@[i]).char_len
                            == self.lines@[i].text@.len(),
                    self.cursor_x == old(self).cursor_x,
                    self.cursor_y == old(self).cursor_y,
                    self.mark == old(self).mark,
                    self.file_path == old(self).file_path,
                    self.modified == old(self).modified,
                    self.undo_stack == old(self).undo_stack,
                    self.visual == old(self).visual,
                decreases np - k,
            {
                let cur = self.lines.len();
                assert(y + k <= cur);
                let pk = clone_chars(&parts[k]);
                let npk = pk.len();
                proof {
                    lemma_texts_insert(
                        self.lines@,
                        y + k as int,
                        Line { text: pk, char_len: npk, visual_height: 1, dirty: true },
                    );
                }
                self.lines.insert(y + k, Line {
                    text: pk,
                    char_len: npk,
                    visual_height: 1,
                    dirty: true,
                });
                proof {
                    assert(line_texts(self.lines@) =~= ol.take(y as int).push(
                        ol[y as int].take(x as int) + p[0],
                    ) + p.subrange(1, k + 1 as int) + ol.skip(y + 1 as int));
                }
                k = k + 1;
            }
            let cur = self.lines.len();
            assert(y + k <= cur);
            let pl = self.lines_last_part_len(&parts, np - 1);
            let mut lastv = clone_chars(&parts[np - 1]);
            let mut tl = tail;
            lastv.append(&mut tl);
            let nll = lastv.len();
            proof {
                assert(lastv@ =~= p[np - 1 as int] + ol[y as int].skip(x as int));
                lemma_texts_insert(
                    self.lines@,
                    y + (np - 1) as int,
                    Line { text: lastv, char_len: nll, visual_height: 1, dirty: true },
                );
            }
            self.lines.insert(y + (np - 1), Line {
                text: lastv,
                char_len: nll,
                visual_height: 1,
                dirty: true,
            });
            self.cursor_y = y + (np - 1);
            self.cursor_x = pl;
            self.visual.dirty = true;
            proof {
                let target = lines_after_insert(ol, x as int, y as int, p);
                assert(line_texts(self.lines@) =~= ol.take(y as int).push(
                    ol[y as int].take(x as int) + p[0],
                ) + p.subrange(1, np - 1 as int) + ol.skip(y + 1 as int).insert(
                    0,
                    p[np - 1 as int] + ol[y as int].skip(x as int),
                ));
                assert(self@.lines =~~= target);
                assert(self@ =~= (BufView {
                    lines: target,
                    cx: insert_end_pos(x as int, y as int, text@).0,
                    cy: insert_end_pos(x as int, y as int, text@).1,
                    ..old(self)@
                }));
            }
        }
    }

    /// Length of part `i`; a helper kept separate so the borrow of
    /// `parts` ends before the buffer is mutated.
    fn lines_last_part_len(&self, parts: &Vec<Vec<char>>, i: usize) -> (n: usize)
        requires
            i < parts@.len(),
        ensures
            n == parts@[i as int]@.len(),
    {
        parts[i].len()
    }

    /// Paste `text` at the cursor, splitting it at newlines; the whole
    /// paste is one undo entry.
    pub fn yank(&mut self, text: &Vec<char>)
        requires
            old(self).wf(),
        ensures
            final(self).wf(),
            final(self)@ == old(self).edited(
                lines_after_insert(old(self)@.lines, old(self)@.cx, old(self)@.cy,
                    split_text(text@)),
                insert_end_pos(old(self)@.cx, old(self)@.cy, text@).0,
                insert_end_pos(old(self)@.cx, old(self)@.cy, text@).1,
                UAct::Insert { x: old(self)@.cx, y: old(self)@.cy, text: text@ },
            ),
            final(self).visual.dirty,
    {
        let x = self.cursor_x;
        let y = self.cursor_y;
        self.raw_insert_at(x, y, text);
        self.undo_stack.push(UndoAction::Insert { x, y, text: clone_chars(text) });
        self.modified = true;
        proof {
            assert(self@.undo =~= old(self)@.undo.push(
                UAct::Insert { x: x as int, y: y as int, text: text@ },
            ));
            assert(self@ =~= old(self).edited(
                lines_after_insert(old(self)@.lines, old(self)@.cx, old(self)@.cy,
                    split_text(text@)),
                insert_end_pos(old(self)@.cx, old(self)@.cy, text@).0,
                insert_end_pos(old(self)@.cx, old(self)@.cy, text@).1,
                UAct::Insert { x: old(self)@.cx, y: old(self)@.cy, text: text@ },
            ));
        }
    }
}

} // verus!

verus! {

impl Buffer {
    /// Split line `y` at column `x` without recording undo; the cursor
    /// moves to the start of the new line below.
    fn raw_split(&mut self, x: usize, y: usize)
        requires
            old(self).wf(),
            y < old(self)@.lines.len(),
            x <= old(self)@.lines[y as int].len(),
        ensures
            final(self).wf(),
            final(self)@ == (BufView {
                lines: old(self)@.lines.update(y as int, old(self)@.lines[y as int].take(
                    x as int,
                )).insert(y + 1 as int, old(self)@.lines[y as int].skip(x as int)),
                cx: 0,
                cy: y + 1 as int,
                ..old(self)@
            }),
            final(self).visual.dirty,
            final(self).undo_stack == old(self).undo_stack,
    {
        let n = self.lines.len();
        assert(y < n);
        let mut head = clone_chars(&self.lines[y].text);
        let tail = head.split_off(x);
        let vh = self.lines[y].visual_height;
        let head_len = head.len();
        let tail_len = tail.len();
        proof {
            assert(head@ =~= old(self)@.lines[y as int].take(x as int));
            assert(tail@ =~= old(self)@.lines[y as int].skip(x as int));
            lemma_texts_update(
                self.lines@,
                y as int,
                Line { text: head, char_len: head_len, visual_height: vh, dirty: true },
            );
        }
        self.lines[y] = Line { text: head, char_len: head_len, visual_height: vh, dirty: true };
        proof {
            lemma_texts_insert(
                self.lines@,
                y + 1 as int,
                Line { text: tail, char_len: tail_len, visual_height: 1, dirty: true },
            );
        }
        self.lines.insert(y + 1, Line {
            text: tail,
            char_len: tail_len,
            visual_height: 1,
            dirty: true,
        });
        self.cursor_y = y + 1;
        self.cursor_x = 0;
        self.visual.dirty = true;
        proof {
            assert(self@ =~= (BufView {
                lines: old(self)@.lines.update(y as int, old(self)@.lines[y as int].take(
                    x as int,
                )).insert(y + 1 as int, old(self)@.lines[y as int].skip(x as int)),
                cx: 0,
                cy: y + 1 as int,
                ..old(self)@
            }));
        }
    }

    /// Whether the inverse of `a` can be applied to `lines`.  Entries are
    /// recorded by the primitives themselves, so right after the edit the
    /// inverse always applies; the predicate guards against stale stacks.
    pub open spec fn inverse_applicable(lines: Seq<Seq<char>>, a: UAct) -> bool {
        match a {
            UAct::Insert { x, y, text } => {
                let parts = split_text(text);
                let ey = y + parts.len() - 1;
                let ex = if parts.len() == 1 {
                    x + text.len()
                } else {
                    parts[parts.len() - 1].len() as int
                };
                &&& 0 <= y
                &&& ey < lines.len()
                &&& 0 <= x <= lines[y].len()
                &&& ex <= lines[ey].len()
                &&& (parts.len() == 1 ==> x + text.len() <= usize::MAX)
            },
            UAct::Delete { x, y, text } => 0 <= y < lines.len() && 0 <= x <= lines[y].len(),
            UAct::InsertNewline { x, y } => 0 <= y && y + 1 < lines.len(),
            UAct::JoinLine { x, y } => 0 <= y < lines.len() && 0 <= x <= lines[y].len(),
        }
    }

    /// The state the inverse of `a` leaves behind: `Insert` deletes its
    /// text again, `Delete` re-inserts it, `InsertNewline` joins the two
    /// halves, `JoinLine` splits them apart.  The modified flag stays set.
    pub open spec fn apply_inverse(v: BufView, a: UAct) -> BufView {
        match a {
            UAct::Insert { x, y, text } => {
                let (ex, ey) = insert_end_pos(x, y, text);
                BufView {
                    lines: lines_after_delete(v.lines, x, y, ex, ey),
                    cx: x,
                    cy: y,
                    modified: true,
                    ..v
                }
            },
            UAct::Delete { x, y, text } => {
                let (ex, ey) = insert_end_pos(x, y, text);
                BufView {
                    lines: lines_after_insert(v.lines, x, y, split_text(text)),
                    cx: ex,
                    cy: ey,
                    modified: true,
                    ..v
                }
            },
            UAct::InsertNewline { x, y } => {
                let merged = v.lines[y] + v.lines[y + 1];
                BufView {
                    lines: v.lines.update(y, merged).remove(y + 1),
                    cx: if x <= merged.len() {
                        x as int
                    } else {
                        merged.len() as int
                    },
                    cy: y,
                    modified: true,
                    ..v
                }
            },
            UAct::JoinLine { x, y } => BufView {
                lines: v.lines.update(y, v.lines[y].take(x)).insert(y + 1, v.lines[y].skip(x)),
                cx: 0,
                cy: y + 1,
                modified: true,
                ..v
            },
        }
    }

    /// Pop the newest undo entry and apply its inverse.  An empty stack
    /// is a no-op; an entry whose inverse no longer fits the buffer is
    /// dropped without effect.  Returns whether an inverse was applied.
    pub fn undo(&mut self) -> (did: bool)
        requires
            old(self).wf(),
        ensures
            final(self).wf(),
            old(self)@.undo.len() == 0 ==> !did && *final(self) == *old(self),
            old(self)@.undo.len() > 0 ==> ({
                let a = old(self)@.undo.last();
                let popped = (BufView { undo: old(self)@.undo.drop_last(), ..old(self)@ });
                if Buffer::inverse_applicable(old(self)@.lines, a) {
                    did && final(self)@ == Buffer::apply_inverse(popped, a)
                } else {
                    !did && final(self)@ == popped
                }
            }),
    {
        if self.undo_stack.len() == 0 {
            return false;
        }
        let entry = match self.undo_stack.pop() {
            None => {
                return false;
            },
            Some(e) => e,
        };
        let total_lines = self.lines.len();
        proof {
            assert(old(self)@.undo.len() > 0);
            assert(entry@ == old(self)@.undo.last());
            assert(self@.undo =~= old(self)@.undo.drop_last());
            assert(self@ =~= (BufView { undo: old(self)@.undo.drop_last(), ..old(self)@ }));
        }
        let ghost popped = self@;
        let ghost a = entry@;
        match entry {
            UndoAction::Insert { x, y, text } => {
                let parts = split_chars(&text);
                let np = parts.len();
                let ex: usize;
                let ey: usize;
                if np == 1 {
                    match x.checked_add(text.len()) {
                        Some(e) => {
                            ex = e;
                        },
                        None => {
                            return false;
                        },
                    }
                    ey = y;
                } else {
                    match y.checked_add(np - 1) {
                        Some(e) => {
                            ey = e;
                        },
                        None => {
                            proof {
                                assert(self@.lines.len() == total_lines as int);
                                assert(y + split_text(text@).len() - 1 > usize::MAX);
                            }
                            return false;
                        },
                    }
                    ex = self.lines_last_part_len(&parts, np - 1);
                }
                if ey >= self.lines.len() {
                    return false;
                }
                if x > self.lines[y].char_len {
                    return false;
                }
                if ex > self.lines[ey].char_len {
                    return false;
                }
                proof {
                    assert(Buffer::inverse_applicable(old(self)@.lines, a));
                }
                let _ = self.raw_delete_range(x, y, ex, ey);
                self.modified = true;
                proof {
                    assert(self@ =~= Buffer::apply_inverse(popped, a));
                }
                true
            },
            UndoAction::Delete { x, y, text } => {
                if y >= self.lines.len() {
                    return false;
                }
                if x > self.lines[y].char_len {
                    return false;
                }
                self.raw_insert_at(x, y, &text);
                self.modified = true;
                proof {
                    assert(self@ =~= Buffer::apply_inverse(popped, a));
                }
                true
            },
            UndoAction::InsertNewline { x, y } => {
                let n = self.lines.len();
                if y >= n || y + 1 >= n {
                    return false;
                }
                let _ = self.raw_join(y + 1);
                let ml = self.lines[y].char_len;
                if x <= ml {
                    self.cursor_x = x;
                } else {
                    self.cursor_x = ml;
                }
                self.modified = true;
                proof {
                    assert(self@ =~= Buffer::apply_inverse(popped, a));
                }
                true
            },
            UndoAction::JoinLine { x, y } => {
                if y >= self.lines.len() {
                    return false;
                }
                if x > self.lines[y].char_len {
                    return false;
                }
                self.raw_split(x, y);
                self.modified = true;
                proof {
                    assert(self@ =~= Buffer::apply_inverse(popped, a));
                }
                true
            },
        }
    }
}

} // verus!
