//! Maintenance of the visual-layout cache: rebuilding the per-line
//! heights and the prefix sum, and the lazy `ensure_visuals` entry point.
//!
//! The `(width, wrap)` pair is the cache key.  Every buffer mutation sets
//! the global dirty flag; `ensure_visuals` is the only function that
//! rebuilds, and it does nothing while the key matches and the cache is
//! clean.

use vstd::prelude::*;

use crate::buffer::{Buffer, Line, VisualMetrics, sum_heights};
use crate::layout::{LineWrapMode, spec_visual_height, visual_height_of,
    lemma_visual_height_at_least_one};
use crate::text::clone_chars;

verus! {

/// The total visual height of the buffer fits the machine word; true of
/// every buffer that fits in memory.
pub open spec fn heights_fit(lines: Seq<Seq<char>>, w: nat, wrap: LineWrapMode) -> bool {
    sum_heights(lines, w, wrap, lines.len() as int) <= usize::MAX
}

/// Prefix sums of visual heights never decrease.
pub proof fn lemma_sum_heights_monotone(
    lines: Seq<Seq<char>>,
    w: nat,
    wrap: LineWrapMode,
    i: int,
    j: int,
)
    requires
        0 <= i <= j,
    ensures
        sum_heights(lines, w, wrap, i) <= sum_heights(lines, w, wrap, j),
    decreases j - i,
{
    if i < j {
        lemma_sum_heights_monotone(lines, w, wrap, i, j - 1);
    }
}

/// Each line contributes at least one row to the prefix sums.
pub proof fn lemma_sum_heights_step(lines: Seq<Seq<char>>, w: nat, wrap: LineWrapMode, i: int)
    requires
        0 <= i < lines.len(),
    ensures
        sum_heights(lines, w, wrap, i + 1) == sum_heights(lines, w, wrap, i)
            + spec_visual_height(lines[i].len(), w, wrap),
        sum_heights(lines, w, wrap, i + 1) >= sum_heights(lines, w, wrap, i) + 1,
{
    lemma_visual_height_at_least_one(lines[i].len(), w, wrap);
}

impl Buffer {
    /// Recompute every line's visual height and the prefix sum for the
    /// layout key `(width, wrap)` and clear the dirty flags.  When the
    /// total height does not fit a machine word — impossible for a buffer
    /// that exists in memory — the cache stays dirty.
    pub fn rebuild_visual_metrics(&mut self, width: usize, wrap: LineWrapMode)
        requires
            old(self).wf(),
        ensures
            final(self).wf(),
            final(self)@ == old(self)@,
            final(self).undo_stack == old(self).undo_stack,
            final(self).visual.key_width == width,
            final(self).visual.key_wrap == wrap,
            heights_fit(old(self)@.lines, width as nat, wrap) ==> final(self).visuals_valid(
                width as nat,
                wrap,
            ),
            !heights_fit(old(self)@.lines, width as nat, wrap) ==> final(self).visual.dirty,
    {
        let ghost ol = self@.lines;
        let n = self.lines.len();
        let mut ps: Vec<usize> = Vec::new();
        let mut acc: usize = 0;
        let mut ok: bool = true;
        let mut i: usize = 0;
        while i < n
            invariant
                0 <= i <= n,
                n == ol.len(),
                self.lines@.len() == n,
                self@.lines == ol,
                self@ == old(self)@,
                ps@.len() == i,
                forall|k: int|
                    0 <= k < self.lines@.len() ==> (#[trigger] self.lines@[k]).char_len
                        == self.lines@[k].text@.len(),
                forall|k: int|
                    0 <= k < i ==> (#[trigger] self.lines@[k]).visual_height
                        == spec_visual_height(ol[k].len(), width as nat, wrap),
                ok ==> acc == sum_heights(ol, width as nat, wrap, i as int),
                ok ==> forall|k: int|
                    0 <= k < i ==> (#[trigger] ps@[k]) == sum_heights(ol, width as nat, wrap, k),
                !ok ==> !heights_fit(ol, width as nat, wrap),
                self.cursor_x == old(self).cursor_x,
                self.cursor_y == old(self).cursor_y,
                self.mark == old(self).mark,
                self.file_path == old(self).file_path,
                self.modified == old(self).modified,
                self.undo_stack == old(self).undo_stack,
            decreases n - i,
        {
            ps.push(acc);
            let cl = self.lines[i].char_len;
            let h = visual_height_of(cl, width, wrap);
            let t = clone_chars(&self.lines[i].text);
            proof {
                crate::edit::lemma_texts_update(
                    self.lines@,
                    i as int,
                    Line { text: t, char_len: cl, visual_height: h, dirty: false },
                );
                assert(self@.lines.update(i as int, t@) =~= ol);
            }
            self.lines[i] = Line { text: t, char_len: cl, visual_height: h, dirty: false };
            proof {
                assert(self@ =~= old(self)@);
                lemma_sum_heights_step(ol, width as nat, wrap, i as int);
            }
            match acc.checked_add(h) {
                Some(a) => {
                    acc = a;
                },
                None => {
                    proof {
                        if ok {
                            lemma_sum_heights_monotone(ol, width as nat, wrap, i + 1, n as int);
                        }
                    }
                    ok = false;
                    acc = usize::MAX;
                },
            }
            i = i + 1;
        }
        self.visual = VisualMetrics { prefix_sum: ps, key_width: width, key_wrap: wrap, dirty: !ok };
        proof {
            assert(self@ =~= old(self)@);
        }
    }

    /// Make the visual cache valid for `(width, wrap)`: a no-op while the
    /// key matches and nothing changed, otherwise a full rebuild.
    pub fn ensure_visuals(&mut self, width: usize, wrap: LineWrapMode)
        requires
            old(self).wf(),
        ensures
            final(self).wf(),
            final(self)@ == old(self)@,
            final(self).undo_stack == old(self).undo_stack,
            final(self).visual.key_width == width,
            final(self).visual.key_wrap == wrap,
            heights_fit(old(self)@.lines, width as nat, wrap) ==> final(self).visuals_valid(
                width as nat,
                wrap,
            ),
    {
        if self.visual.key_width == width && (match (self.visual.key_wrap, wrap) {
            (LineWrapMode::Wrap, LineWrapMode::Wrap) => true,
            (LineWrapMode::Truncate, LineWrapMode::Truncate) => true,
            _ => false,
        }) && !self.visual.dirty {
            proof {
                assert(self.visuals_valid(width as nat, wrap));
            }
        } else {
            self.rebuild_visual_metrics(width, wrap);
        }
    }
}

} // verus!
