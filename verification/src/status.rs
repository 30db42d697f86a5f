//! The status line's data: file name, modified flag, undo depth, cursor
//! position and the scroll indicator.

use vstd::prelude::*;

use crate::buffer::sum_heights;
use crate::editor::Editor;
use crate::metrics::heights_fit;
use crate::text::{to_chars, dec_digits, usize_to_chars, push_all};

verus! {

/// What the host renders into the status bar.
pub struct StatusInfo {
    /// The buffer's file name, or a placeholder without one.
    pub file_name: Vec<char>,
    pub modified: bool,
    pub undo_depth: usize,
    /// One-based cursor line.
    pub cursor_line: usize,
    /// One-based cursor column.
    pub cursor_col: usize,
    /// `All`, `Top`, `Bot` or a percentage.
    pub scroll_percent: Vec<char>,
}

/// The scroll indicator's text: `All` when everything fits, `Top` and
/// `Bot` at the edges, else the scroll position as a percentage of the
/// scrollable range.
pub open spec fn spec_indicator(total: int, h: int, sy: int) -> Seq<char> {
    if total <= h {
        "All"@
    } else if sy == 0 {
        "Top"@
    } else if sy >= total - h {
        "Bot"@
    } else {
        dec_digits(sy * 100 / (if total - h >= 1 {
            total - h
        } else {
            1
        })) + "%"@
    }
}

impl Editor {
    /// The scroll indicator for the current viewport.
    pub fn scroll_indicator(&mut self) -> (r: Vec<char>)
        requires
            old(self).wf(),
        ensures
            final(self).wf(),
            *final(self) == (Editor { buffer: final(self).buffer, ..*old(self) }),
            final(self).buffer@ == old(self).buffer@,
            final(self).buffer.undo_stack == old(self).buffer.undo_stack,
            (heights_fit(old(self).buffer@.lines, old(self).viewport_width as nat,
                old(self).wrap_mode) && old(self).scroll_y * 100 <= usize::MAX) ==> r@
                == spec_indicator(
                sum_heights(old(self).buffer@.lines, old(self).viewport_width as nat,
                    old(self).wrap_mode, old(self).buffer@.lines.len() as int) as int,
                old(self).viewport_height as int,
                old(self).scroll_y as int,
            ),
    {
        let w = self.viewport_width;
        let wrap = self.wrap_mode;
        self.buffer.ensure_visuals(w, wrap);
        if self.buffer.visual.dirty {
            return to_chars("All");
        }
        let n = self.buffer.lines.len();
        let last_base = self.buffer.visual.prefix_sum[n - 1];
        let last_h = self.buffer.lines[n - 1].visual_height;
        let total = match last_base.checked_add(last_h) {
            Some(t) => t,
            None => {
                proof {
                    crate::metrics::lemma_sum_heights_step(self.buffer@.lines, w as nat, wrap,
                        n - 1 as int);
                }
                return to_chars("All");
            },
        };
        proof {
            crate::metrics::lemma_sum_heights_step(self.buffer@.lines, w as nat, wrap, n - 1 as int);
        }
        let h = self.viewport_height;
        if total <= h {
            return to_chars("All");
        }
        if self.scroll_y == 0 {
            return to_chars("Top");
        }
        if self.scroll_y >= total - h {
            return to_chars("Bot");
        }
        let span = total - h;
        let d: usize = if span >= 1 {
            span
        } else {
            1
        };
        let num = match self.scroll_y.checked_mul(100) {
            Some(v) => v,
            None => usize::MAX,
        };
        let mut r = usize_to_chars(num / d);
        r.push('%');
        proof {
            reveal_strlit("%");
            if old(self).scroll_y * 100 <= usize::MAX {
                assert(r@ =~= dec_digits(old(self).scroll_y * 100 / d as int) + "%"@);
            }
        }
        r
    }

    /// Gather the data the status bar shows.
    pub fn build_status(&mut self) -> (r: StatusInfo)
        requires
            old(self).wf(),
        ensures
            final(self).wf(),
            *final(self) == (Editor { buffer: final(self).buffer, ..*old(self) }),
            final(self).buffer@ == old(self).buffer@,
            r.modified == old(self).buffer@.modified,
            r.undo_depth == old(self).buffer@.undo.len(),
            r.cursor_line as int == old(self).buffer@.cy + 1,
            old(self).buffer@.cx < usize::MAX ==> r.cursor_col as int == old(self).buffer@.cx + 1,
            old(self).buffer@.path is Some ==> r.file_name@ == old(self).buffer@.path->0,
            old(self).buffer@.path is None ==> r.file_name@ == "[No Name]"@,
    {
        let file_name: Vec<char> = match &self.buffer.file_path {
            Some(p) => to_chars(p.as_str()),
            None => to_chars("[No Name]"),
        };
        let modified = self.buffer.is_modified();
        let undo_depth = self.buffer.undo_depth();
        let nlines = self.buffer.lines.len();
        proof {
            assert(self.buffer@.cy < self.buffer@.lines.len());
        }
        let cursor_line = self.buffer.cursor_y + 1;
        let cursor_col = match self.buffer.cursor_x.checked_add(1) {
            Some(v) => v,
            None => usize::MAX,
        };
        proof {
            let y = self.buffer@.cy;
            assert(self.buffer@.cx <= self.buffer@.lines[y].len());
            assert(self.buffer.lines@[y].char_len == self.buffer.lines@[y].text@.len());
        }
        let scroll_percent = self.scroll_indicator();
        StatusInfo { file_name, modified, undo_depth, cursor_line, cursor_col, scroll_percent }
    }
}

} // verus!
