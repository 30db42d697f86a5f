//! Scrolling: the cursor's global visual row, keeping the cursor inside
//! the viewport, manual scrolling commands, and the cursor's position on
//! screen.
//!
//! All row arithmetic goes through the buffer's prefix-sum cache; every
//! function that needs it makes the cache valid first.  The contracts
//! hold whenever the buffer's total visual height fits a machine word,
//! which is true of every buffer that exists in memory.

use vstd::prelude::*;

use crate::buffer::{Buffer, sum_heights};
use crate::editor::{Editor, ScrollIntent, VisualLine};
use crate::layout::{LineWrapMode, spec_visual_height};
use crate::metrics::{heights_fit, lemma_sum_heights_monotone, lemma_sum_heights_step};

verus! {

/// Under `Truncate` every line is one row, so prefix sums are indices.
pub proof fn lemma_sum_truncate(lines: Seq<Seq<char>>, w: nat, i: int)
    requires
        0 <= i <= lines.len(),
    ensures
        sum_heights(lines, w, LineWrapMode::Truncate, i) == i,
    decreases i,
{
    if i > 0 {
        lemma_sum_truncate(lines, w, i - 1);
    }
}

/// The cursor's wrapped sub-row never reaches past its line's height.
pub proof fn lemma_subrow_lt_height(len: nat, w: nat, cx: nat)
    requires
        cx <= len,
    ensures
        cx as int / (if w == 0 {
            1int
        } else {
            w as int
        }) <= spec_visual_height(len, w, LineWrapMode::Wrap),
{
    let w1: int = if w == 0 {
        1
    } else {
        w as int
    };
    let l: int = if len == 0 {
        1
    } else {
        len as int
    };
    assert(cx as int / w1 <= (l + w1 - 1) / w1) by (nonlinear_arith)
        requires
            w1 >= 1,
            l >= 1,
            0 <= cx <= l,
    ;
}

impl Editor {
    /// The global visual row of the cursor: rows of the lines above it,
    /// plus its wrapped sub-row.
    pub open spec fn spec_cgvy(&self) -> int {
        sum_heights(
            self.buffer@.lines,
            self.viewport_width as nat,
            self.wrap_mode,
            self.buffer@.cy,
        ) + if self.wrap_mode == LineWrapMode::Wrap {
            self.buffer@.cx / (if self.viewport_width == 0 {
                1int
            } else {
                self.viewport_width as int
            })
        } else {
            0
        }
    }

    /// The cursor's global row stays within the total visual height.
    pub proof fn lemma_cgvy_in_total(&self)
        requires
            self.wf(),
        ensures
            self.spec_cgvy() <= sum_heights(
                self.buffer@.lines,
                self.viewport_width as nat,
                self.wrap_mode,
                self.buffer@.lines.len() as int,
            ),
    {
        let lines = self.buffer@.lines;
        let w = self.viewport_width as nat;
        let cy = self.buffer@.cy;
        lemma_sum_heights_step(lines, w, self.wrap_mode, cy);
        lemma_sum_heights_monotone(lines, w, self.wrap_mode, cy + 1, lines.len() as int);
        match self.wrap_mode {
            LineWrapMode::Truncate => {},
            LineWrapMode::Wrap => {
                lemma_subrow_lt_height(lines[cy].len(), w, self.buffer@.cx as nat);
            },
        }
    }

    /// The cursor's global visual row, from a valid cache; saturates at
    /// the machine limit, which a buffer whose height fits never reaches.
    pub fn cursor_global_visual_y(&self) -> (r: usize)
        requires
            self.wf(),
            self.buffer.visuals_valid(self.viewport_width as nat, self.wrap_mode),
        ensures
            r as int == if self.spec_cgvy() <= usize::MAX as int {
                self.spec_cgvy()
            } else {
                usize::MAX as int
            },
            heights_fit(self.buffer@.lines, self.viewport_width as nat, self.wrap_mode)
                ==> r as int == self.spec_cgvy(),
    {
        proof {
            self.lemma_cgvy_in_total();
        }
        let cy = self.buffer.cursor_y;
        let base = self.buffer.visual.prefix_sum[cy];
        match self.wrap_mode {
            LineWrapMode::Truncate => base,
            LineWrapMode::Wrap => {
                let w: usize = if self.viewport_width == 0 {
                    1
                } else {
                    self.viewport_width
                };
                let sub = self.buffer.cursor_x / w;
                match base.checked_add(sub) {
                    Some(v) => v,
                    None => usize::MAX,
                }
            },
        }
    }

    /// The largest sensible first visible row: under `Truncate` the line
    /// count minus the viewport, under `Wrap` unbounded.
    pub open spec fn spec_max_scroll_y(&self) -> int {
        match self.wrap_mode {
            LineWrapMode::Truncate => {
                if self.buffer@.lines.len() >= self.viewport_height {
                    self.buffer@.lines.len() - self.viewport_height
                } else {
                    0
                }
            },
            LineWrapMode::Wrap => usize::MAX as int,
        }
    }

    fn max_scroll_y(&self) -> (r: usize)
        requires
            self.wf(),
        ensures
            r as int == self.spec_max_scroll_y(),
    {
        match self.wrap_mode {
            LineWrapMode::Truncate => {
                let n = self.buffer.lines.len();
                if n >= self.viewport_height {
                    n - self.viewport_height
                } else {
                    0
                }
            },
            LineWrapMode::Wrap => usize::MAX,
        }
    }

    /// Pull the first visible row back into range.
    pub fn clamp_scroll(&mut self)
        requires
            old(self).wf(),
        ensures
            final(self).wf(),
            *final(self) == (Editor {
                scroll_y: if old(self).scroll_y as int <= old(self).spec_max_scroll_y() {
                    old(self).scroll_y
                } else {
                    final(self).scroll_y
                },
                ..*old(self)
            }),
            final(self).scroll_y as int == if old(self).scroll_y as int <= old(
                self,
            ).spec_max_scroll_y() {
                old(self).scroll_y as int
            } else {
                old(self).spec_max_scroll_y()
            },
    {
        let m = self.max_scroll_y();
        if self.scroll_y > m {
            self.scroll_y = m;
        }
    }

    /// Bring the cursor into the viewport, unless scrolling was placed by
    /// hand.  Afterwards — whenever the buffer's visual height fits a
    /// machine word — the cursor's global row lies in
    /// `[scroll_y, scroll_y + max(viewport_height, 1))`, and under
    /// `Truncate` its column lies in `[scroll_x, scroll_x + max(viewport_width, 1)]`.
    #[verifier::rlimit(100)]
    pub fn ensure_cursor_visible(&mut self)
        requires
            old(self).wf(),
        ensures
            final(self).wf(),
            *final(self) == (Editor {
                buffer: final(self).buffer,
                scroll_x: final(self).scroll_x,
                scroll_y: final(self).scroll_y,
                ..*old(self)
            }),
            final(self).buffer@ == old(self).buffer@,
            final(self).buffer.undo_stack == old(self).buffer.undo_stack,
            old(self).scroll_intent == ScrollIntent::Manual ==> *final(self) == *old(self),
            (old(self).scroll_intent == ScrollIntent::FollowCursor && heights_fit(
                old(self).buffer@.lines,
                old(self).viewport_width as nat,
                old(self).wrap_mode,
            )) ==> ({
                let h1: int = if old(self).viewport_height == 0 {
                    1
                } else {
                    old(self).viewport_height as int
                };
                &&& final(self).buffer.visuals_valid(
                    final(self).viewport_width as nat,
                    final(self).wrap_mode,
                )
                &&& final(self).scroll_y as int <= final(self).spec_cgvy()
                &&& final(self).spec_cgvy() < final(self).scroll_y as int + h1
                &&& final(self).scroll_y as int <= final(self).spec_max_scroll_y()
                &&& (final(self).wrap_mode == LineWrapMode::Truncate ==> ({
                    let w1: int = if final(self).viewport_width == 0 {
                        1
                    } else {
                        final(self).viewport_width as int
                    };
                    final(self).scroll_x as int <= final(self).buffer@.cx
                        && final(self).buffer@.cx <= final(self).scroll_x as int + w1
                }))
                &&& (old(self).wrap_mode == LineWrapMode::Truncate ==> ({
                    // A first column that already shows the cursor and does
                    // not overhang the line is kept.
                    let w1: int = if old(self).viewport_width == 0 {
                        1
                    } else {
                        old(self).viewport_width as int
                    };
                    let b = old(self).buffer@;
                    let linemax: int = if b.lines[b.cy].len() >= w1 {
                        b.lines[b.cy].len() - w1
                    } else {
                        0
                    };
                    (old(self).scroll_x as int <= b.cx && b.cx < old(self).scroll_x as int + w1
                        && old(self).scroll_x as int <= linemax) ==> final(self).scroll_x == old(
                        self,
                    ).scroll_x
                }))
            }),
            old(self).wrap_mode == LineWrapMode::Wrap ==> final(self).scroll_x == old(
                self,
            ).scroll_x,
    {
        if let ScrollIntent::Manual = self.scroll_intent {
            return ;
        }
        let w = self.viewport_width;
        let wrap = self.wrap_mode;
        self.buffer.ensure_visuals(w, wrap);
        if self.buffer.visual.dirty {
            // The total visual height does not fit a machine word; no
            // buffer that exists in memory reaches this.
            self.clamp_scroll();
            return ;
        }
        let height: usize = if self.viewport_height == 0 {
            1
        } else {
            self.viewport_height
        };
        proof {
            self.lemma_cgvy_in_total();
        }
        let cy = self.cursor_global_visual_y();
        if cy < self.scroll_y {
            self.scroll_y = cy;
        } else if cy - self.scroll_y >= height {
            self.scroll_y = cy - (height - 1);
        }
        if let LineWrapMode::Truncate = self.wrap_mode {
            let width: usize = if self.viewport_width == 0 {
                1
            } else {
                self.viewport_width
            };
            let cx = self.buffer.cursor_x;
            if cx < self.scroll_x {
                self.scroll_x = cx;
            } else if cx - self.scroll_x >= width {
                self.scroll_x = cx - (width - 1);
            }
            let llen = self.buffer.lines[self.buffer.cursor_y].char_len;
            let max_x: usize = if llen >= width {
                llen - width
            } else {
                0
            };
            if self.scroll_x > max_x {
                self.scroll_x = max_x;
            }
        }
        proof {
            if self.wrap_mode == LineWrapMode::Truncate {
                lemma_sum_truncate(self.buffer@.lines, w as nat, self.buffer@.cy);
                lemma_sum_truncate(self.buffer@.lines, w as nat, self.buffer@.lines.len() as int);
            }
        }
        self.clamp_scroll();
    }
}

} // verus!

verus! {

impl Editor {
    /// The cursor's position on screen: global row minus the first
    /// visible row, and the column relative to the viewport.
    pub fn cursor_visual_pos(&mut self) -> (r: (usize, usize))
        requires
            old(self).wf(),
        ensures
            final(self).wf(),
            *final(self) == (Editor { buffer: final(self).buffer, ..*old(self) }),
            final(self).buffer@ == old(self).buffer@,
            final(self).buffer.undo_stack == old(self).buffer.undo_stack,
            heights_fit(old(self).buffer@.lines, old(self).viewport_width as nat, old(self).wrap_mode)
                ==> ({
                let w1: int = if old(self).viewport_width == 0 {
                    1
                } else {
                    old(self).viewport_width as int
                };
                &&& r.1 as int == if old(self).spec_cgvy() >= old(self).scroll_y as int {
                    old(self).spec_cgvy() - old(self).scroll_y as int
                } else {
                    0
                }
                &&& (old(self).wrap_mode == LineWrapMode::Wrap ==> r.0 as int == old(
                    self,
                ).buffer@.cx % w1)
                &&& (old(self).wrap_mode == LineWrapMode::Truncate ==> r.0 as int == if old(
                    self,
                ).buffer@.cx >= old(self).scroll_x as int {
                    old(self).buffer@.cx - old(self).scroll_x as int
                } else {
                    0
                })
            }),
    {
        let w = self.viewport_width;
        let wrap = self.wrap_mode;
        self.buffer.ensure_visuals(w, wrap);
        if self.buffer.visual.dirty {
            // Unreachable for any buffer whose visual height fits a
            // machine word.
            return (0, 0);
        }
        let vy = self.cursor_global_visual_y();
        let sy: usize = if vy >= self.scroll_y {
            vy - self.scroll_y
        } else {
            0
        };
        let w1: usize = if self.viewport_width == 0 {
            1
        } else {
            self.viewport_width
        };
        let sx: usize = match self.wrap_mode {
            LineWrapMode::Truncate => {
                if self.buffer.cursor_x >= self.scroll_x {
                    self.buffer.cursor_x - self.scroll_x
                } else {
                    0
                }
            },
            LineWrapMode::Wrap => self.buffer.cursor_x % w1,
        };
        (sx, sy)
    }

    /// Jump to a one-based line number, clamped into the buffer; the
    /// column is clamped onto the target line.
    pub fn goto_line(&mut self, line_1based: usize)
        requires
            old(self).wf(),
        ensures
            final(self).wf(),
            *final(self) == (Editor {
                buffer: final(self).buffer,
                scroll_x: final(self).scroll_x,
                scroll_y: final(self).scroll_y,
                ..*old(self)
            }),
            ({
                let n = old(self).buffer@.lines.len();
                let y: int = if line_1based as int >= 1 {
                    if line_1based - 1 < n {
                        line_1based - 1
                    } else {
                        n - 1
                    }
                } else {
                    0
                };
                let x: int = if old(self).buffer@.cx <= old(self).buffer@.lines[y].len() {
                    old(self).buffer@.cx
                } else {
                    old(self).buffer@.lines[y].len() as int
                };
                final(self).buffer@ == (crate::buffer::BufView {
                    cx: x,
                    cy: y,
                    ..old(self).buffer@
                })
            }),
            final(self).buffer.undo_stack == old(self).buffer.undo_stack,
            (old(self).scroll_intent == ScrollIntent::FollowCursor && heights_fit(
                old(self).buffer@.lines,
                old(self).viewport_width as nat,
                old(self).wrap_mode,
            )) ==> ({
                let h1: int = if old(self).viewport_height == 0 {
                    1
                } else {
                    old(self).viewport_height as int
                };
                final(self).scroll_y as int <= final(self).spec_cgvy() && final(self).spec_cgvy()
                    < final(self).scroll_y as int + h1
            }),
    {
        let n = self.buffer.lines.len();
        let mut y: usize = if line_1based >= 1 {
            line_1based - 1
        } else {
            0
        };
        if y >= n {
            y = n - 1;
        }
        self.buffer.cursor_y = y;
        let ll = self.buffer.lines[y].char_len;
        if self.buffer.cursor_x > ll {
            self.buffer.cursor_x = ll;
        }
        self.ensure_cursor_visible();
    }

    /// One visual row up; scrolling becomes manual.
    pub fn scroll_up(&mut self)
        requires
            old(self).wf(),
        ensures
            final(self).wf(),
            *final(self) == (Editor {
                scroll_y: final(self).scroll_y,
                scroll_intent: ScrollIntent::Manual,
                ..*old(self)
            }),
            final(self).scroll_y as int == ({
                let dec: int = if old(self).scroll_y > 0 {
                    old(self).scroll_y - 1
                } else {
                    0
                };
                if dec <= old(self).spec_max_scroll_y() {
                    dec
                } else {
                    old(self).spec_max_scroll_y()
                }
            }),
    {
        self.scroll_intent = ScrollIntent::Manual;
        if self.scroll_y > 0 {
            self.scroll_y = self.scroll_y - 1;
        }
        self.clamp_scroll();
    }

    /// One visual row down; scrolling becomes manual.
    pub fn scroll_down(&mut self)
        requires
            old(self).wf(),
        ensures
            final(self).wf(),
            *final(self) == (Editor {
                scroll_y: final(self).scroll_y,
                scroll_intent: ScrollIntent::Manual,
                ..*old(self)
            }),
            final(self).scroll_y as int == ({
                let inc: int = if old(self).scroll_y < usize::MAX {
                    old(self).scroll_y + 1
                } else {
                    usize::MAX as int
                };
                if inc <= old(self).spec_max_scroll_y() {
                    inc
                } else {
                    old(self).spec_max_scroll_y()
                }
            }),
    {
        self.scroll_intent = ScrollIntent::Manual;
        if self.scroll_y < usize::MAX {
            self.scroll_y = self.scroll_y + 1;
        }
        self.clamp_scroll();
    }

    /// Page down: the first visible row jumps by a viewport height,
    /// bounded by the last line, and the cursor is dragged along.
    pub fn scroll_down_command(&mut self)
        requires
            old(self).wf(),
        ensures
            final(self).wf(),
            *final(self) == (Editor {
                buffer: final(self).buffer,
                scroll_y: final(self).scroll_y,
                scroll_intent: ScrollIntent::Manual,
                ..*old(self)
            }),
            ({
                let maxy: int = old(self).buffer@.lines.len() - 1;
                let target: int = if old(self).scroll_y + old(self).viewport_height <= maxy {
                    old(self).scroll_y + old(self).viewport_height
                } else {
                    maxy
                };
                &&& final(self).scroll_y as int == target
                &&& final(self).buffer@ == (crate::buffer::BufView {
                    cx: final(self).buffer@.cx,
                    cy: final(self).buffer@.cy,
                    ..old(self).buffer@
                })
                &&& (old(self).buffer@.cy >= target ==> final(self).buffer@.cy == old(
                    self,
                ).buffer@.cy && final(self).buffer@.cx == old(self).buffer@.cx)
                &&& (old(self).buffer@.cy < target ==> final(self).buffer@.cy == target && final(self).buffer@.cx as int == (if old(self).buffer@.cx
                    <= old(self).buffer@.lines[target].len() {
                    old(self).buffer@.cx as int
                } else {
                    old(self).buffer@.lines[target].len() as int
                }))
            }),
            final(self).buffer.undo_stack == old(self).buffer.undo_stack,
    {
        self.scroll_intent = ScrollIntent::Manual;
        let n = self.buffer.lines.len();
        let maxy = n - 1;
        let target: usize = if self.viewport_height <= maxy && self.scroll_y <= maxy
            - self.viewport_height {
            self.scroll_y + self.viewport_height
        } else {
            maxy
        };
        self.scroll_y = target;
        if self.buffer.cursor_y < target {
            self.buffer.cursor_y = target;
            let ll = self.buffer.lines[target].char_len;
            if self.buffer.cursor_x > ll {
                self.buffer.cursor_x = ll;
            }
        }
    }

    /// Page up: the first visible row jumps back by a viewport height and
    /// the cursor is dragged along.
    pub fn scroll_up_command(&mut self)
        requires
            old(self).wf(),
        ensures
            final(self).wf(),
            *final(self) == (Editor {
                buffer: final(self).buffer,
                scroll_y: final(self).scroll_y,
                scroll_intent: ScrollIntent::Manual,
                ..*old(self)
            }),
            ({
                let target: int = if old(self).scroll_y >= old(self).viewport_height {
                    old(self).scroll_y - old(self).viewport_height
                } else {
                    0
                };
                let ny: int = if old(self).scroll_y >= old(self).viewport_height && old(
                    self,
                ).buffer@.cy >= old(self).viewport_height {
                    old(self).buffer@.cy - old(self).viewport_height
                } else if old(self).scroll_y >= old(self).viewport_height {
                    0
                } else {
                    old(self).buffer@.cy
                };
                let lifted: int = if ny >= target {
                    ny
                } else {
                    target
                };
                let ny2: int = if lifted < old(self).buffer@.lines.len() {
                    lifted
                } else {
                    old(self).buffer@.lines.len() - 1
                };
                &&& final(self).scroll_y as int == target
                &&& final(self).buffer@.cy == ny2
                &&& final(self).buffer@ == (crate::buffer::BufView {
                    cx: final(self).buffer@.cx,
                    cy: ny2,
                    ..old(self).buffer@
                })
                &&& final(self).buffer@.cx as int == (if old(self).buffer@.cx <= old(
                    self,
                ).buffer@.lines[ny2].len() {
                    old(self).buffer@.cx as int
                } else {
                    old(self).buffer@.lines[ny2].len() as int
                })
            }),
            final(self).buffer.undo_stack == old(self).buffer.undo_stack,
    {
        self.scroll_intent = ScrollIntent::Manual;
        if self.scroll_y >= self.viewport_height {
            self.scroll_y = self.scroll_y - self.viewport_height;
            if self.buffer.cursor_y >= self.viewport_height {
                self.buffer.cursor_y = self.buffer.cursor_y - self.viewport_height;
            } else {
                self.buffer.cursor_y = 0;
            }
        } else {
            self.scroll_y = 0;
        }
        if self.buffer.cursor_y < self.scroll_y {
            self.buffer.cursor_y = self.scroll_y;
        }
        let n = self.buffer.lines.len();
        if self.buffer.cursor_y >= n {
            self.buffer.cursor_y = n - 1;
        }
        let ll = self.buffer.lines[self.buffer.cursor_y].char_len;
        if self.buffer.cursor_x > ll {
            self.buffer.cursor_x = ll;
        }
        proof {
            assert(self.buffer@ =~= (crate::buffer::BufView {
                cx: self.buffer@.cx,
                cy: self.buffer@.cy,
                ..old(self).buffer@
            }));
        }
    }

    /// Four columns left, under `Truncate` only; scrolling becomes manual.
    pub fn scroll_left(&mut self)
        requires
            old(self).wf(),
        ensures
            final(self).wf(),
            old(self).wrap_mode == LineWrapMode::Wrap ==> *final(self) == *old(self),
            old(self).wrap_mode == LineWrapMode::Truncate ==> *final(self) == (Editor {
                scroll_x: final(self).scroll_x,
                scroll_intent: ScrollIntent::Manual,
                ..*old(self)
            }) && final(self).scroll_x as int == (if old(self).scroll_x >= 4 {
                old(self).scroll_x - 4
            } else {
                0
            }),
    {
        if let LineWrapMode::Truncate = self.wrap_mode {
            self.scroll_intent = ScrollIntent::Manual;
            if self.scroll_x >= 4 {
                self.scroll_x = self.scroll_x - 4;
            } else {
                self.scroll_x = 0;
            }
        }
    }

    /// Four columns right, under `Truncate` only, bounded by the current
    /// line's width overhang; scrolling becomes manual.
    pub fn scroll_right(&mut self)
        requires
            old(self).wf(),
        ensures
            final(self).wf(),
            old(self).wrap_mode == LineWrapMode::Wrap ==> *final(self) == *old(self),
            old(self).wrap_mode == LineWrapMode::Truncate ==> *final(self) == (Editor {
                scroll_x: final(self).scroll_x,
                scroll_intent: ScrollIntent::Manual,
                ..*old(self)
            }) && final(self).scroll_x as int == ({
                let w1: int = if old(self).viewport_width == 0 {
                    1
                } else {
                    old(self).viewport_width as int
                };
                let linemax: int = if old(self).buffer@.lines[old(self).buffer@.cy].len() >= w1 {
                    old(self).buffer@.lines[old(self).buffer@.cy].len() - w1
                } else {
                    0
                };
                let inc: int = if old(self).scroll_x + 4 <= usize::MAX {
                    old(self).scroll_x + 4
                } else {
                    usize::MAX as int
                };
                if inc <= linemax {
                    inc
                } else {
                    linemax
                }
            }),
    {
        if let LineWrapMode::Truncate = self.wrap_mode {
            self.scroll_intent = ScrollIntent::Manual;
            let w1: usize = if self.viewport_width == 0 {
                1
            } else {
                self.viewport_width
            };
            let ll = self.buffer.lines[self.buffer.cursor_y].char_len;
            let linemax: usize = if ll >= w1 {
                ll - w1
            } else {
                0
            };
            let inc: usize = if self.scroll_x <= usize::MAX - 4 {
                self.scroll_x + 4
            } else {
                usize::MAX
            };
            self.scroll_x = if inc <= linemax {
                inc
            } else {
                linemax
            };
        }
    }

    /// Switch wrap modes; the horizontal scroll resets.
    pub fn set_wrap_mode(&mut self, mode: LineWrapMode)
        requires
            old(self).wf(),
        ensures
            final(self).wf(),
            old(self).wrap_mode == mode ==> *final(self) == *old(self),
            old(self).wrap_mode != mode ==> *final(self) == (Editor {
                wrap_mode: mode,
                scroll_x: 0,
                ..*old(self)
            }),
    {
        let same = match (self.wrap_mode, mode) {
            (LineWrapMode::Wrap, LineWrapMode::Wrap) => true,
            (LineWrapMode::Truncate, LineWrapMode::Truncate) => true,
            _ => false,
        };
        if !same {
            self.wrap_mode = mode;
            self.scroll_x = 0;
        }
    }
}

} // verus!

verus! {

impl Editor {
    /// The greatest line whose prefix sum is at or below row `v`.
    fn start_line(&self, v: usize) -> (y: usize)
        requires
            self.wf(),
            self.buffer.visuals_valid(self.viewport_width as nat, self.wrap_mode),
        ensures
            y < self.buffer@.lines.len(),
            sum_heights(self.buffer@.lines, self.viewport_width as nat, self.wrap_mode, y as int)
                <= v as int,
            y + 1 < self.buffer@.lines.len() ==> sum_heights(
                self.buffer@.lines,
                self.viewport_width as nat,
                self.wrap_mode,
                y + 1 as int,
            ) > v as int,
    {
        let ghost lines = self.buffer@.lines;
        let ghost w = self.viewport_width as nat;
        let ghost wrap = self.wrap_mode;
        let n = self.buffer.lines.len();
        let ps = &self.buffer.visual.prefix_sum;
        let mut lo: usize = 0;
        let mut hi: usize = n - 1;
        while lo < hi
            invariant
                0 <= lo <= hi < n,
                n == lines.len(),
                ps@.len() == n,
                ps@ == self.buffer.visual.prefix_sum@,
                self.buffer.visuals_valid(w, wrap),
                lines == self.buffer@.lines,
                w == self.viewport_width as nat,
                wrap == self.wrap_mode,
                sum_heights(lines, w, wrap, lo as int) <= v as int,
                hi + 1 < n ==> sum_heights(lines, w, wrap, hi + 1 as int) > v as int,
            decreases hi - lo,
        {
            let mid = lo + (hi - lo + 1) / 2;
            proof {
                assert(self.buffer.visual.prefix_sum@[mid as int] == sum_heights(lines, w, wrap,
                    mid as int));
            }
            if ps[mid] <= v {
                lo = mid;
            } else {
                hi = mid - 1;
            }
        }
        lo
    }

    /// The screen rows currently visible: starting at `scroll_y`, up to a
    /// viewport's worth of visual lines.  Each descriptor names the
    /// buffer line a row comes from and the column the row starts at:
    /// the horizontal scroll under `Truncate`, the wrapped sub-row times
    /// the width under `Wrap`.
    #[verifier::rlimit(50)]
    pub fn visible_visual_lines(&mut self) -> (r: Vec<VisualLine>)
        requires
            old(self).wf(),
        ensures
            final(self).wf(),
            *final(self) == (Editor { buffer: final(self).buffer, ..*old(self) }),
            final(self).buffer@ == old(self).buffer@,
            final(self).buffer.undo_stack == old(self).buffer.undo_stack,
            heights_fit(old(self).buffer@.lines, old(self).viewport_width as nat, old(self).wrap_mode)
                ==> ({
                let lines = old(self).buffer@.lines;
                let w = old(self).viewport_width as nat;
                let wrap = old(self).wrap_mode;
                let total = sum_heights(lines, w, wrap, lines.len() as int);
                let sy = old(self).scroll_y as int;
                &&& r@.len() == (if sy < total {
                    if old(self).viewport_height as int <= total - sy {
                        old(self).viewport_height as int
                    } else {
                        total - sy
                    }
                } else {
                    0
                })
                &&& forall|k: int|
                    0 <= k < r@.len() ==> ({
                        let row = sy + k;
                        let y = (#[trigger] r@[k]).buffer_y as int;
                        &&& 0 <= y < lines.len()
                        &&& sum_heights(lines, w, wrap, y) <= row
                        &&& row < sum_heights(lines, w, wrap, y) + spec_visual_height(
                            lines[y].len(),
                            w,
                            wrap,
                        )
                        &&& r@[k].len == old(self).viewport_width
                        &&& (wrap == LineWrapMode::Truncate ==> r@[k].start_x == old(
                            self,
                        ).scroll_x)
                        &&& (wrap == LineWrapMode::Wrap ==> r@[k].start_x as int == (row
                            - sum_heights(lines, w, wrap, y)) * old(self).viewport_width as int)
                    })
            }),
    {
        let w = self.viewport_width;
        let wrap = self.wrap_mode;
        self.buffer.ensure_visuals(w, wrap);
        if self.buffer.visual.dirty {
            // Unreachable for any buffer whose visual height fits a
            // machine word.
            return Vec::new();
        }
        let ghost lines = self.buffer@.lines;
        let n = self.buffer.lines.len();
        let last_base = self.buffer.visual.prefix_sum[n - 1];
        let last_h = self.buffer.lines[n - 1].visual_height;
        let total = match last_base.checked_add(last_h) {
            Some(t) => t,
            None => {
                proof {
                    lemma_sum_heights_step(lines, w as nat, wrap, n - 1 as int);
                }
                return Vec::new();
            },
        };
        proof {
            lemma_sum_heights_step(lines, w as nat, wrap, n - 1 as int);
        }
        if self.scroll_y >= total {
            return Vec::new();
        }
        let sy = self.scroll_y;
        let avail = total - sy;
        let count: usize = if self.viewport_height <= avail {
            self.viewport_height
        } else {
            avail
        };
        let mut y = self.start_line(sy);
        let mut base = self.buffer.visual.prefix_sum[y];
        let mut out: Vec<VisualLine> = Vec::new();
        let mut k: usize = 0;
        while k < count
            invariant
                0 <= k <= count,
                sy + count <= total,
                n == lines.len(),
                y < n,
                self.wf(),
                self.buffer.visuals_valid(w as nat, wrap),
                lines == self.buffer@.lines,
                w == self.viewport_width,
                wrap == self.wrap_mode,
                sy == self.scroll_y,
                total as int == sum_heights(lines, w as nat, wrap, n as int),
                base as int == sum_heights(lines, w as nat, wrap, y as int),
                base <= sy + k,
                out@.len() == k,
                forall|j: int|
                    0 <= j < k ==> ({
                        let row = sy + j;
                        let yy = (#[trigger] out@[j]).buffer_y as int;
                        &&& 0 <= yy < lines.len()
                        &&& sum_heights(lines, w as nat, wrap, yy) <= row
                        &&& row < sum_heights(lines, w as nat, wrap, yy) + spec_visual_height(
                            lines[yy].len(),
                            w as nat,
                            wrap,
                        )
                        &&& out@[j].len == w
                        &&& (wrap == LineWrapMode::Truncate ==> out@[j].start_x == self.scroll_x)
                        &&& (wrap == LineWrapMode::Wrap ==> out@[j].start_x as int == (row
                            - sum_heights(lines, w as nat, wrap, yy)) * w as int)
                    }),
            decreases count - k,
        {
            let row = sy + k;
            // Advance to the line containing this row.
            while row - base >= self.buffer.lines[y].visual_height
                invariant
                    y < n,
                    n == lines.len(),
                    self.wf(),
                    self.buffer.visuals_valid(w as nat, wrap),
                    lines == self.buffer@.lines,
                    w == self.viewport_width,
                    wrap == self.wrap_mode,
                    total as int == sum_heights(lines, w as nat, wrap, n as int),
                    base as int == sum_heights(lines, w as nat, wrap, y as int),
                    base <= row,
                    row < total,
                decreases n - y,
            {
                let h_y = self.buffer.lines[y].visual_height;
                proof {
                    lemma_sum_heights_step(lines, w as nat, wrap, y as int);
                    lemma_sum_heights_monotone(lines, w as nat, wrap, y + 1 as int, n as int);
                    assert(y + 1 < n) by {
                        if y + 1 == n {
                            assert(sum_heights(lines, w as nat, wrap, y + 1 as int)
                                == total as int);
                        }
                    }
                }
                base = base + h_y;
                y = y + 1;
            }
            proof {
                lemma_sum_heights_step(lines, w as nat, wrap, y as int);
            }
            let sub = row - base;
            let sx: usize = match wrap {
                LineWrapMode::Truncate => self.scroll_x,
                LineWrapMode::Wrap => {
                    if w == 0 {
                        0
                    } else {
                        proof {
                            let l: int = lines[y as int].len() as int;
                            let subi: int = sub as int;
                            let wi: int = w as int;
                            let vh: int = spec_visual_height(
                                lines[y as int].len(),
                                w as nat,
                                wrap,
                            ) as int;
                            assert(subi * wi <= usize::MAX) by (nonlinear_arith)
                                requires
                                    wi >= 1,
                                    0 <= subi,
                                    subi < vh,
                                    vh == ((if l == 0 {
                                        1int
                                    } else {
                                        l
                                    }) + wi - 1) / wi,
                                    l <= usize::MAX,
                            ;
                        }
                        sub * w
                    }
                },
            };
            out.push(VisualLine { buffer_y: y, start_x: sx, len: w });
            k = k + 1;
        }
        out
    }
}

} // verus!
