//! Command dispatch: resolving a name to its built-in body, the hook
//! bracket around every command, prefix-argument consumption, interactive
//! prompting, minibuffer submission and the per-tick event drain.
//!
//! Built-in command names are the contract surface; `builtin_post` states
//! what each of them does to the editor.

use vstd::prelude::*;

use crate::buffer::{Buffer, BufView, UAct};
use crate::command::{Interactive, InteractiveV, commands_view, find_command,
    spec_modifies_prefix};
use crate::edit::{lines_after_delete, region_text, insert_end_pos, lines_after_insert};
use crate::editor::{Editor, InputMode, ISearchDir, ScrollIntent, cursor_moved_arg, copy_str,
    FileReadOutcome};
use crate::events::{EditorEvent, IoRequest, outbox_view, event_text, spec_event_text};
use crate::keys::PhysicalModifiers;
use crate::layout::LineWrapMode;
use crate::minibuffer::{MiniBuffer, MiniBufferMode};
use crate::motion::{Motion, motion_dest, lemma_motion_dest_in_bounds};
use crate::prefix::{PrefixState, digit_step, universal_step, spec_prefix_value};
use crate::region::{spec_selection, sentence_end};
use crate::motion::{word_right_in_line, word_left_in_line};
use crate::text::{to_chars, push_all, clone_chars, str_eq, dec_digits, i64_to_chars, split_text,
    join_texts, usize_to_chars};

verus! {

/// How many times a prefix argument repeats a motion: at least once, and
/// capped at the machine limit.
pub open spec fn rep_count(n: Option<int>) -> int {
    match n {
        None => 1,
        Some(v) => if v < 1 {
            1
        } else if v > usize::MAX {
            usize::MAX as int
        } else {
            v
        },
    }
}

/// Where `k` repetitions of one motion leave the cursor.
pub open spec fn repeat_dest(lines: Seq<Seq<char>>, cx: int, cy: int, m: Motion, k: int) -> (
    int,
    int,
)
    decreases k when k >= 0
{
    if k <= 0 {
        (cx, cy)
    } else {
        let (nx, ny) = motion_dest(lines, cx, cy, m);
        repeat_dest(lines, nx, ny, m, k - 1)
    }
}

/// Repeated motions keep the cursor inside the buffer.
pub proof fn lemma_repeat_dest_in_bounds(
    lines: Seq<Seq<char>>,
    cx: int,
    cy: int,
    m: Motion,
    k: int,
)
    requires
        lines.len() >= 1,
        0 <= cy < lines.len(),
        0 <= cx <= lines[cy].len(),
        k >= 0,
    ensures
        ({
            let (nx, ny) = repeat_dest(lines, cx, cy, m, k);
            0 <= ny < lines.len() && 0 <= nx <= lines[ny].len()
        }),
    decreases k,
{
    if k > 0 {
        lemma_motion_dest_in_bounds(lines, cx, cy, m);
        let (nx, ny) = motion_dest(lines, cx, cy, m);
        lemma_repeat_dest_in_bounds(lines, nx, ny, m, k - 1);
    }
}

/// The `C-u n` text shown while a prefix accumulates.
pub open spec fn prefix_shown(v: int) -> Seq<char> {
    "C-u "@ + dec_digits(v)
}

/// The digit a digit-command's final character names; other characters
/// count as zero.
pub open spec fn digit_val(c: char) -> int {
    if c == '0' { 0 } else if c == '1' { 1 } else if c == '2' { 2 } else if c == '3' { 3 }
    else if c == '4' { 4 } else if c == '5' { 5 } else if c == '6' { 6 } else if c == '7' { 7 }
    else if c == '8' { 8 } else if c == '9' { 9 } else { 0 }
}

/// The motion a motion command name stands for.
pub open spec fn motion_of_name(name: Seq<char>) -> Option<Motion> {
    if name == "move-left"@ {
        Some(Motion::Left)
    } else if name == "move-right"@ {
        Some(Motion::Right)
    } else if name == "move-up"@ {
        Some(Motion::Up)
    } else if name == "move-down"@ {
        Some(Motion::Down)
    } else if name == "move-beginning-of-line"@ {
        Some(Motion::Bol)
    } else if name == "move-end-of-line"@ {
        Some(Motion::Eol)
    } else if name == "move-beginning-of-buffer"@ {
        Some(Motion::BufferStart)
    } else if name == "move-end-of-buffer"@ {
        Some(Motion::BufferEnd)
    } else if name == "move-word-left"@ {
        Some(Motion::WordLeft)
    } else if name == "move-word-right"@ {
        Some(Motion::WordRight)
    } else {
        None
    }
}

/// What each built-in command body does.  The hook outbox, the reported
/// cursor, the prefix accumulator (consumed by the dispatcher), scrolling
/// and the visual cache are governed by the dispatcher's own clauses, so
/// this relation leaves them open; every other field is pinned.
pub open spec fn builtin_post(pre: &Editor, post: &Editor, name: Seq<char>, n: Option<int>) -> bool {
    let b = pre.buffer@;
    if name == "scroll-up-command"@ {
        // A page up; the cursor is dragged along.  The first visible row
        // is then re-placed by the dispatcher's cursor-visibility pass.
        &&& dispatch_frame_scroll(pre, post)
        &&& post.buffer.undo_stack == pre.buffer.undo_stack
        &&& ({
            let target: int = if pre.scroll_y >= pre.viewport_height {
                pre.scroll_y - pre.viewport_height
            } else {
                0
            };
            let ny: int = if pre.scroll_y >= pre.viewport_height && b.cy >= pre.viewport_height {
                b.cy - pre.viewport_height
            } else if pre.scroll_y >= pre.viewport_height {
                0
            } else {
                b.cy
            };
            let lifted: int = if ny >= target {
                ny
            } else {
                target
            };
            let ny2: int = if lifted < b.lines.len() {
                lifted
            } else {
                b.lines.len() - 1
            };
            &&& post.buffer@ == (BufView {
                cx: if b.cx <= b.lines[ny2].len() {
                    b.cx
                } else {
                    b.lines[ny2].len() as int
                },
                cy: ny2,
                ..b
            })
        })
    } else if name == "scroll-down-command"@ {
        // A page down, bounded by the last line; the cursor is dragged
        // along.
        &&& dispatch_frame_scroll(pre, post)
        &&& post.buffer.undo_stack == pre.buffer.undo_stack
        &&& ({
            let maxy: int = b.lines.len() - 1;
            let target: int = if pre.scroll_y + pre.viewport_height <= maxy {
                pre.scroll_y + pre.viewport_height
            } else {
                maxy
            };
            &&& (b.cy >= target ==> post.buffer@ == b)
            &&& (b.cy < target ==> post.buffer@ == (BufView {
                cx: if b.cx <= b.lines[target].len() {
                    b.cx
                } else {
                    b.lines[target].len() as int
                },
                cy: target,
                ..b
            }))
        })
    } else if name == "scroll-left-command"@ || name == "scroll-right-command"@ {
        // Four columns sideways under Truncate; the first visible column
        // is then re-placed by the dispatcher's cursor-visibility pass.
        &&& dispatch_frame_scroll(pre, post)
        &&& post.buffer@ == b
        &&& post.buffer.undo_stack == pre.buffer.undo_stack
    } else if motion_of_name(name) is Some {
        let m = motion_of_name(name)->0;
        let (nx, ny) = repeat_dest(b.lines, b.cx, b.cy, m, rep_count(n));
        &&& dispatch_frame_buffer(pre, post)
        &&& post.buffer@ == (BufView { cx: nx, cy: ny, ..b })
        &&& post.buffer.undo_stack == pre.buffer.undo_stack
    } else if name == "undo"@ {
        &&& dispatch_frame_buffer(pre, post)
        &&& (b.undo.len() == 0 ==> post.buffer@ == b)
        &&& (b.undo.len() > 0 ==> ({
            let a = b.undo.last();
            let popped = (BufView { undo: b.undo.drop_last(), ..b });
            if Buffer::inverse_applicable(b.lines, a) {
                post.buffer@ == Buffer::apply_inverse(popped, a)
            } else {
                post.buffer@ == popped
            }
        }))
    } else if name == "keyboard-quit"@ {
        if pre.minibuffer.active {
            &&& dispatch_frame_minibuffer(pre, post)
            &&& post.mode == InputMode::Normal
            &&& post.minibuffer.text@ == "Quit"@
            &&& post.minibuffer.mode == (MiniBufferMode::Message { ttl: 2 })
        } else {
            &&& dispatch_frame_buffer(pre, post)
            &&& post.buffer@ == (BufView { mark: None::<(int, int)>, ..b })
        }
    } else if name == "kill-remux"@ {
        *post == (Editor { should_quit: true, ..dispatch_open(pre, post) })
    } else if name == "delete-char"@ {
        &&& dispatch_frame_buffer(pre, post)
        &&& (b.cx < b.lines[b.cy].len() ==> post.buffer@ == pre.buffer.edited(
            lines_after_delete(b.lines, b.cx, b.cy, b.cx + 1, b.cy),
            b.cx,
            b.cy,
            UAct::Delete { x: b.cx, y: b.cy, text: seq![b.lines[b.cy][b.cx]] },
        ))
        &&& (b.cx >= b.lines[b.cy].len() ==> post.buffer@ == b)
    } else if name == "backward-delete-char"@ {
        &&& dispatch_frame_buffer(pre, post)
        &&& (b.cx > 0 ==> post.buffer@ == pre.buffer.edited(
            lines_after_delete(b.lines, b.cx - 1, b.cy, b.cx, b.cy),
            b.cx - 1,
            b.cy,
            UAct::Delete { x: b.cx - 1, y: b.cy, text: seq![b.lines[b.cy][b.cx - 1]] },
        ))
        &&& (b.cx == 0 && b.cy > 0 ==> post.buffer@ == pre.buffer.edited(
            b.lines.update(b.cy - 1, b.lines[b.cy - 1] + b.lines[b.cy]).remove(b.cy),
            b.lines[b.cy - 1].len() as int,
            b.cy - 1,
            UAct::JoinLine { x: b.lines[b.cy - 1].len() as int, y: b.cy - 1 },
        ))
        &&& (b.cx == 0 && b.cy == 0 ==> post.buffer@ == b)
    } else if name == "set-mark-command"@ {
        &&& dispatch_frame_buffer(pre, post)
        &&& (b.mark is None ==> post.buffer@ == (BufView { mark: Some((b.cx, b.cy)), ..b }))
        &&& (b.mark is Some ==> post.buffer@ == (BufView { mark: None::<(int, int)>, ..b }))
    } else if name == "newline"@ {
        &&& dispatch_frame_buffer(pre, post)
        &&& post.buffer@ == pre.buffer.edited(
            b.lines.update(b.cy, b.lines[b.cy].take(b.cx)).insert(b.cy + 1, b.lines[b.cy].skip(b.cx)),
            0,
            b.cy + 1,
            UAct::InsertNewline { x: b.cx, y: b.cy },
        )
    } else if name == "kill-word"@ || name == "kill-backward-word"@ || name == "kill-sentence"@
        || name == "kill-line"@ {
        let l = b.lines[b.cy];
        let cuts_nothing = if name == "kill-backward-word"@ {
            b.cx == 0
        } else {
            b.cx == l.len()
        };
        let from: int = if name == "kill-backward-word"@ {
            word_left_in_line(l, b.cx)
        } else {
            b.cx
        };
        let to: int = if name == "kill-word"@ {
            word_right_in_line(l, b.cx)
        } else if name == "kill-sentence"@ {
            sentence_end(l, b.cx)
        } else if name == "kill-line"@ {
            l.len() as int
        } else {
            b.cx
        };
        if cuts_nothing {
            &&& dispatch_frame_minibuffer(pre, post)
            &&& post.buffer@ == b
            &&& post.minibuffer.text@ == "Nothing to kill"@
        } else {
            &&& dispatch_frame_kill(pre, post)
            &&& post.buffer@ == pre.buffer.line_kill_view(from, to)
            &&& post.kill_buffer is Some
            &&& post.kill_buffer->0@ == l.subrange(from, to)
        }
    } else if name == "kill-region"@ {
        match spec_selection(b) {
            None => {
                &&& dispatch_frame_minibuffer(pre, post)
                &&& post.buffer@ == b
                &&& post.minibuffer.text@ == "Nothing to kill"@
            },
            Some(((sx, sy), (ex, ey))) => {
                &&& dispatch_frame_kill(pre, post)
                &&& post.buffer@ == (BufView {
                    mark: None::<(int, int)>,
                    ..pre.buffer.edited(
                        lines_after_delete(b.lines, sx, sy, ex, ey),
                        sx,
                        sy,
                        UAct::Delete { x: sx, y: sy, text: region_text(b.lines, sx, sy, ex, ey) },
                    )
                })
                &&& post.kill_buffer is Some
                &&& post.kill_buffer->0@ == region_text(b.lines, sx, sy, ex, ey)
            },
        }
    } else if name == "kill-ring-save"@ {
        match spec_selection(b) {
            None => {
                &&& dispatch_frame_minibuffer(pre, post)
                &&& post.buffer@ == b
                &&& post.minibuffer.text@ == "No active region"@
            },
            Some(((sx, sy), (ex, ey))) => {
                let t = region_text(b.lines, sx, sy, ex, ey);
                &&& dispatch_frame_kill(pre, post)
                &&& post.buffer@ == (BufView { mark: None::<(int, int)>, ..b })
                &&& post.kill_buffer is Some
                &&& post.kill_buffer->0@ == t
                &&& post.minibuffer.text@ == "Copied "@ + dec_digits(t.len() as int) + " chars"@
                &&& post.minibuffer.mode == (MiniBufferMode::Message { ttl: 2 })
            },
        }
    } else if name == "yank"@ {
        match pre.kill_buffer {
            None => {
                &&& dispatch_frame_minibuffer(pre, post)
                &&& post.buffer@ == b
                &&& post.minibuffer.text@ == "Kill buffer empty"@
            },
            Some(t) => {
                &&& dispatch_frame_kill(pre, post)
                &&& post.kill_buffer == pre.kill_buffer
                &&& post.buffer@ == pre.buffer.edited(
                    lines_after_insert(b.lines, b.cx, b.cy, split_text(t@)),
                    insert_end_pos(b.cx, b.cy, t@).0,
                    insert_end_pos(b.cx, b.cy, t@).1,
                    UAct::Insert { x: b.cx, y: b.cy, text: t@ },
                )
                &&& post.minibuffer.text@ == "Yanked"@
                &&& post.minibuffer.mode == (MiniBufferMode::Message { ttl: 2 })
            },
        }
    } else if name == "save-buffer"@ {
        match b.path {
            Some(p) => {
                &&& dispatch_frame_io(pre, post)
                &&& post.buffer@ == b
                &&& post.io_queue@.len() == pre.io_queue@.len() + 1
                &&& post.io_queue@.subrange(0, pre.io_queue@.len() as int) == pre.io_queue@
                &&& post.io_queue@.last()@ == (crate::events::IoReqV::SaveFile {
                    path: p,
                    content: join_texts(b.lines),
                })
            },
            None => {
                &&& dispatch_frame_prompt(pre, post)
                &&& post.buffer@ == b
                &&& post.mode == InputMode::MiniBuffer
                &&& post.pending_command is Some
                &&& post.pending_command->0@ == "save-buffer"@
                &&& post.minibuffer.text@ == "Save buffer as: "@
                &&& post.minibuffer.mode == MiniBufferMode::SaveBuffer
            },
        }
    } else if name == "toggle-line-wrap"@ {
        &&& dispatch_frame_wrap(pre, post)
        &&& post.buffer@ == b
        &&& post.wrap_mode == (if pre.wrap_mode == LineWrapMode::Wrap {
            LineWrapMode::Truncate
        } else {
            LineWrapMode::Wrap
        })
        &&& post.minibuffer.text@ == "Toggled LineWrap Mode"@
    } else if name == "isearch-forward"@ || name == "isearch-backward"@ {
        let dir = if name == "isearch-forward"@ {
            ISearchDir::Forward
        } else {
            ISearchDir::Backward
        };
        &&& dispatch_frame_isearch(pre, post)
        &&& post.buffer@ == (BufView { cx: post.buffer@.cx, cy: post.buffer@.cy, ..b })
        &&& post.buffer.undo_stack == pre.buffer.undo_stack
        &&& (pre.isearch is None ==> ({
            &&& post.buffer@ == b
            &&& post.isearch is Some
            &&& post.isearch->0.original_x == pre.buffer.cursor_x
            &&& post.isearch->0.original_y == pre.buffer.cursor_y
            &&& post.isearch->0.query@ == Seq::<char>::empty()
            &&& post.isearch->0.dir == dir
            &&& post.isearch->0.last_match is None
            &&& post.mode == InputMode::MiniBuffer
            &&& post.minibuffer.active
        }))
        &&& (pre.isearch is Some ==> ({
            // A repeated search command turns the running session and
            // steps past the remembered match.
            let st = pre.isearch->0;
            let q = st.query@;
            &&& post.isearch is Some
            &&& post.isearch->0.dir == dir
            &&& post.isearch->0.original_x == st.original_x
            &&& post.isearch->0.original_y == st.original_y
            &&& post.isearch->0.query@ == q
            &&& (q.len() == 0 ==> post.buffer@ == b && post.isearch->0.last_match
                == st.last_match)
            &&& (q.len() > 0 ==> ({
                let fx: int = match st.last_match {
                    Some(p) => p.0 as int,
                    None => b.cx,
                };
                let fy: int = match st.last_match {
                    Some(p) => p.1 as int,
                    None => b.cy,
                };
                let n = b.lines.len();
                let syc: int = if fy < n {
                    fy
                } else {
                    n - 1
                };
                match dir {
                    ISearchDir::Forward => ({
                        let sx: int = if fx < usize::MAX {
                            fx + 1
                        } else {
                            fx
                        };
                        crate::isearch::search_step_post(pre, post, q, sx, syc, dir)
                    }),
                    ISearchDir::Backward => {
                        if fx > 0 {
                            crate::isearch::search_step_post(pre, post, q, fx - 1, syc, dir)
                        } else if fy > 0 && fy - 1 < n {
                            crate::isearch::search_step_post(pre, post, q,
                                b.lines[fy - 1].len() as int, fy - 1, dir)
                        } else {
                            post.buffer@ == b && post.isearch->0.last_match == st.last_match
                        }
                    },
                }
            }))
        }))
    } else if name.len() >= "digit-argument-"@.len() && name.subrange(
        0,
        "digit-argument-"@.len() as int,
    ) == "digit-argument-"@ {
        &&& dispatch_frame_prefix(pre, post)
        &&& post.buffer@ == b
        &&& post.prefix == digit_step(pre.prefix, digit_val(name.last()))
        &&& post.minibuffer.text@ == prefix_shown(spec_prefix_value(post.prefix))
        &&& post.minibuffer.mode == (MiniBufferMode::Message { ttl: 2 })
    } else if name == "universal-argument"@ {
        &&& dispatch_frame_prefix(pre, post)
        &&& post.buffer@ == b
        &&& post.prefix == universal_step(pre.prefix)
        &&& post.minibuffer.text@ == prefix_shown(spec_prefix_value(post.prefix))
        &&& post.minibuffer.mode == (MiniBufferMode::Message { ttl: 2 })
    } else {
        dispatch_frame_buffer(pre, post) && post.buffer@ == b
    }
}

/// The fields every command leaves to the dispatcher: the buffer's visual
/// cache, scrolling, the hook outbox, the last reported cursor, the
/// prefix accumulator and the scroll intent.
pub open spec fn dispatch_open(pre: &Editor, post: &Editor) -> Editor {
    Editor {
        buffer: post.buffer,
        scroll_x: post.scroll_x,
        scroll_y: post.scroll_y,
        hook_outbox: post.hook_outbox,
        last_cursor: post.last_cursor,
        prefix: post.prefix,
        scroll_intent: post.scroll_intent,
        ..*pre
    }
}

/// Only the buffer (and the dispatcher's fields) may differ.
pub open spec fn dispatch_frame_buffer(pre: &Editor, post: &Editor) -> bool {
    *post == dispatch_open(pre, post)
}

/// The buffer and the minibuffer (and the dispatcher's fields) may differ.
pub open spec fn dispatch_frame_minibuffer(pre: &Editor, post: &Editor) -> bool {
    *post == (Editor { minibuffer: post.minibuffer, mode: post.mode, ..dispatch_open(pre, post) })
}

/// A kill: buffer, kill ring and minibuffer may differ.
pub open spec fn dispatch_frame_kill(pre: &Editor, post: &Editor) -> bool {
    *post == (Editor {
        minibuffer: post.minibuffer,
        kill_buffer: post.kill_buffer,
        ..dispatch_open(pre, post)
    })
}

/// A save request: the I/O queue may grow.
pub open spec fn dispatch_frame_io(pre: &Editor, post: &Editor) -> bool {
    *post == (Editor { io_queue: post.io_queue, ..dispatch_open(pre, post) })
}

/// An interactive prompt: mode, minibuffer and pending command change.
pub open spec fn dispatch_frame_prompt(pre: &Editor, post: &Editor) -> bool {
    *post == (Editor {
        minibuffer: post.minibuffer,
        mode: post.mode,
        pending_command: post.pending_command,
        ..dispatch_open(pre, post)
    })
}

/// A wrap toggle: the wrap mode and the minibuffer change.
pub open spec fn dispatch_frame_wrap(pre: &Editor, post: &Editor) -> bool {
    *post == (Editor {
        minibuffer: post.minibuffer,
        wrap_mode: post.wrap_mode,
        ..dispatch_open(pre, post)
    })
}

/// A search session change: the session, mode and minibuffer change.
pub open spec fn dispatch_frame_isearch(pre: &Editor, post: &Editor) -> bool {
    *post == (Editor {
        minibuffer: post.minibuffer,
        mode: post.mode,
        isearch: post.isearch,
        ..dispatch_open(pre, post)
    })
}

/// Scroll commands leave everything but the dispatcher's fields alone.
pub open spec fn dispatch_frame_scroll(pre: &Editor, post: &Editor) -> bool {
    *post == dispatch_open(pre, post)
}

} // verus!

verus! {

/// Digit and universal prefix commands (and the minibuffer they drive)
/// change; everything else is the dispatcher's.
pub open spec fn dispatch_frame_prefix(pre: &Editor, post: &Editor) -> bool {
    *post == (Editor { minibuffer: post.minibuffer, ..dispatch_open(pre, post) })
}

/// Spec view of an optional numeric argument.
pub open spec fn opt_int(n: Option<i64>) -> Option<int> {
    match n {
        None => None,
        Some(v) => Some(v as int),
    }
}

/// The exec side of [`motion_of_name`].
fn motion_for(name: &str) -> (r: Option<Motion>)
    ensures
        r == motion_of_name(name@),
{
    if str_eq(name, "move-left") {
        Some(Motion::Left)
    } else if str_eq(name, "move-right") {
        Some(Motion::Right)
    } else if str_eq(name, "move-up") {
        Some(Motion::Up)
    } else if str_eq(name, "move-down") {
        Some(Motion::Down)
    } else if str_eq(name, "move-beginning-of-line") {
        Some(Motion::Bol)
    } else if str_eq(name, "move-end-of-line") {
        Some(Motion::Eol)
    } else if str_eq(name, "move-beginning-of-buffer") {
        Some(Motion::BufferStart)
    } else if str_eq(name, "move-end-of-buffer") {
        Some(Motion::BufferEnd)
    } else if str_eq(name, "move-word-left") {
        Some(Motion::WordLeft)
    } else if str_eq(name, "move-word-right") {
        Some(Motion::WordRight)
    } else {
        None
    }
}

impl Editor {
    /// Apply one motion `k` times.
    #[verifier::loop_isolation(false)]
    fn repeat_motion(&mut self, m: Motion, k: usize)
        requires
            old(self).wf(),
        ensures
            final(self).wf(),
            dispatch_frame_buffer(old(self), final(self)),
            final(self).scroll_x == old(self).scroll_x,
            final(self).scroll_y == old(self).scroll_y,
            final(self).hook_outbox == old(self).hook_outbox,
            final(self).last_cursor == old(self).last_cursor,
            final(self).prefix == old(self).prefix,
            final(self).scroll_intent == old(self).scroll_intent,
            final(self).buffer@ == ({
                let (nx, ny) = repeat_dest(old(self).buffer@.lines, old(self).buffer@.cx,
                    old(self).buffer@.cy, m, k as int);
                BufView { cx: nx, cy: ny, ..old(self).buffer@ }
            }),
            final(self).buffer.undo_stack == old(self).buffer.undo_stack,
            final(self).buffer.visual == old(self).buffer.visual,
    {
        let ghost lines = self.buffer@.lines;
        let mut i: usize = 0;
        while i < k
            invariant
                0 <= i <= k,
                self.wf(),
                self.buffer@ == ({
                    let (nx, ny) = repeat_dest(lines, old(self).buffer@.cx, old(self).buffer@.cy,
                        m, i as int);
                    BufView { cx: nx, cy: ny, ..old(self).buffer@ }
                }),
                self.buffer.lines == old(self).buffer.lines,
                self.buffer.mark == old(self).buffer.mark,
                self.buffer.file_path == old(self).buffer.file_path,
                self.buffer.modified == old(self).buffer.modified,
                self.buffer.undo_stack == old(self).buffer.undo_stack,
                self.buffer.visual == old(self).buffer.visual,
                self.keymap == old(self).keymap,
                self.kill_buffer == old(self).kill_buffer,
                self.minibuffer == old(self).minibuffer,
                self.user_config == old(self).user_config,
                self.commands == old(self).commands,
                self.hooks == old(self).hooks,
                self.mode == old(self).mode,
                self.should_quit == old(self).should_quit,
                self.event_queue == old(self).event_queue,
                self.wrap_mode == old(self).wrap_mode,
                self.scroll_y == old(self).scroll_y,
                self.scroll_x == old(self).scroll_x,
                self.viewport_height == old(self).viewport_height,
                self.viewport_width == old(self).viewport_width,
                self.pending_prefix == old(self).pending_prefix,
                self.prefix == old(self).prefix,
                self.pending_command == old(self).pending_command,
                self.last_cursor == old(self).last_cursor,
                self.scroll_intent == old(self).scroll_intent,
                self.isearch == old(self).isearch,
                self.hook_outbox == old(self).hook_outbox,
                self.io_queue == old(self).io_queue,
            decreases k - i,
        {
            proof {
                lemma_repeat_dest_in_bounds(lines, old(self).buffer@.cx, old(self).buffer@.cy, m,
                    i as int);
            }
            self.buffer.move_cursor(m);
            proof {
                assert(self.buffer@ =~= ({
                    let (nx, ny) = repeat_dest(lines, old(self).buffer@.cx, old(self).buffer@.cy,
                        m, i + 1 as int);
                    BufView { cx: nx, cy: ny, ..old(self).buffer@ }
                })) by {
                    lemma_repeat_step(lines, old(self).buffer@.cx, old(self).buffer@.cy, m,
                        i + 1 as int);
                }
            }
            i = i + 1;
        }
    }
}

/// Unrolling one repetition from the front.
proof fn lemma_repeat_step(lines: Seq<Seq<char>>, cx: int, cy: int, m: Motion, k: int)
    requires
        k >= 1,
    ensures
        ({
            let (mx, my) = repeat_dest(lines, cx, cy, m, k - 1);
            repeat_dest(lines, cx, cy, m, k) == motion_dest(lines, mx, my, m)
        }),
    decreases k,
{
    let (nx, ny) = motion_dest(lines, cx, cy, m);
    if k == 1 {
        assert(repeat_dest(lines, cx, cy, m, 0) == (cx, cy));
        assert(repeat_dest(lines, nx, ny, m, 0) == (nx, ny));
        assert(repeat_dest(lines, cx, cy, m, 1) == (nx, ny));
    } else {
        lemma_repeat_step(lines, nx, ny, m, k - 1);
        assert(repeat_dest(lines, cx, cy, m, k) == repeat_dest(lines, nx, ny, m, k - 1));
        assert(repeat_dest(lines, cx, cy, m, k - 1) == repeat_dest(lines, nx, ny, m, k - 2));
    }
}

} // verus!

verus! {

impl Editor {
    /// Run the body of the named built-in command with an optional
    /// numeric argument.  Unknown names do nothing.
    #[verifier::rlimit(100)]
    pub fn apply_builtin(&mut self, name: &str, n: Option<i64>)
        requires
            old(self).wf(),
        ensures
            final(self).wf(),
            builtin_post(old(self), final(self), name@, opt_int(n)),
            !spec_modifies_prefix(name@) ==> final(self).prefix == old(self).prefix,
            final(self).hook_outbox == old(self).hook_outbox,
            final(self).last_cursor == old(self).last_cursor,
            name@ == "scroll-left-command"@ ==> ({
                &&& (old(self).wrap_mode == LineWrapMode::Wrap ==> *final(self) == *old(self))
                &&& (old(self).wrap_mode == LineWrapMode::Truncate ==> *final(self) == (Editor {
                    scroll_x: final(self).scroll_x,
                    scroll_intent: ScrollIntent::Manual,
                    ..*old(self)
                }) && final(self).scroll_x as int == (if old(self).scroll_x >= 4 {
                    old(self).scroll_x - 4
                } else {
                    0int
                }))
            }),
            name@ == "scroll-right-command"@ ==> ({
                &&& (old(self).wrap_mode == LineWrapMode::Wrap ==> *final(self) == *old(self))
                &&& (old(self).wrap_mode == LineWrapMode::Truncate ==> *final(self) == (Editor {
                    scroll_x: final(self).scroll_x,
                    scroll_intent: ScrollIntent::Manual,
                    ..*old(self)
                }) && final(self).scroll_x as int == ({
                    let b = old(self).buffer@;
                    let w1: int = if old(self).viewport_width == 0 {
                        1
                    } else {
                        old(self).viewport_width as int
                    };
                    let linemax: int = if b.lines[b.cy].len() >= w1 {
                        b.lines[b.cy].len() - w1
                    } else {
                        0
                    };
                    let inc: int = if old(self).scroll_x + 4 <= usize::MAX {
                        old(self).scroll_x + 4
                    } else {
                        usize::MAX as int
                    };
                    if inc <= linemax {
                        inc
                    } else {
                        linemax
                    }
                }))
            }),
    {
        if str_eq(name, "scroll-up-command") {
            proof {
                lemma_scroll_names();
            }
            self.scroll_up_command();
            return ;
        }
        if str_eq(name, "scroll-down-command") {
            proof {
                lemma_scroll_names();
            }
            self.scroll_down_command();
            return ;
        }
        if str_eq(name, "scroll-left-command") {
            proof {
                lemma_scroll_names();
            }
            self.scroll_left();
            return ;
        }
        if str_eq(name, "scroll-right-command") {
            self.scroll_right();
            return ;
        }
        match motion_for(name) {
            Some(m) => {
                let k: usize = match n {
                    None => 1,
                    Some(v) => {
                        if v < 1 {
                            1
                        } else if v as u64 > usize::MAX as u64 {
                            usize::MAX
                        } else {
                            v as usize
                        }
                    },
                };
                self.repeat_motion(m, k);
                return ;
            },
            None => {},
        }
        if str_eq(name, "undo") {
            let _ = self.buffer.undo();
        } else if str_eq(name, "keyboard-quit") {
            if self.minibuffer.is_active() {
                self.minibuffer.deactivate();
                self.mode = InputMode::Normal;
                self.minibuffer.message("Quit");
            } else {
                self.buffer.clear_mark();
            }
        } else if str_eq(name, "kill-remux") {
            self.should_quit = true;
        } else if str_eq(name, "delete-char") {
            self.buffer.delete_char();
        } else if str_eq(name, "backward-delete-char") {
            self.buffer.backward_delete_char();
        } else if str_eq(name, "set-mark-command") {
            self.buffer.toggle_mark();
        } else if str_eq(name, "newline") {
            self.buffer.insert_newline();
        } else if str_eq(name, "kill-word") {
            proof {
                lemma_kill_names();
            }
            let r = self.buffer.kill_word();
            match r {
                Some(t) => {
                    self.kill_buffer = Some(t);
                },
                None => {
                    self.minibuffer.message("Nothing to kill");
                },
            }
        } else if str_eq(name, "kill-backward-word") {
            proof {
                lemma_kill_names();
            }
            let r = self.buffer.kill_backward_word();
            match r {
                Some(t) => {
                    self.kill_buffer = Some(t);
                },
                None => {
                    self.minibuffer.message("Nothing to kill");
                },
            }
        } else if str_eq(name, "kill-sentence") {
            proof {
                lemma_kill_names();
            }
            let r = self.buffer.kill_sentence();
            match r {
                Some(t) => {
                    self.kill_buffer = Some(t);
                },
                None => {
                    self.minibuffer.message("Nothing to kill");
                },
            }
        } else if str_eq(name, "kill-line") {
            proof {
                lemma_kill_names();
            }
            let r = self.buffer.kill_line();
            match r {
                Some(t) => {
                    self.kill_buffer = Some(t);
                },
                None => {
                    self.minibuffer.message("Nothing to kill");
                },
            }
        } else if str_eq(name, "kill-region") {
            let r = self.buffer.kill_region();
            match r {
                Some(t) => {
                    self.kill_buffer = Some(t);
                },
                None => {
                    self.minibuffer.message("Nothing to kill");
                },
            }
        } else if str_eq(name, "kill-ring-save") {
            let r = self.buffer.copy_region();
            match r {
                Some(t) => {
                    let mut msg = to_chars("Copied ");
                    let digits = usize_to_chars(t.len());
                    push_all(&mut msg, &digits);
                    let tail = to_chars(" chars");
                    push_all(&mut msg, &tail);
                    self.kill_buffer = Some(t);
                    self.minibuffer.message_chars(msg);
                    self.buffer.clear_mark();
                },
                None => {
                    self.minibuffer.message("No active region");
                },
            }
        } else if str_eq(name, "yank") {
            let t = match &self.kill_buffer {
                Some(t) => Some(clone_chars(t)),
                None => None,
            };
            match t {
                Some(t) => {
                    self.buffer.yank(&t);
                    self.minibuffer.message("Yanked");
                },
                None => {
                    self.minibuffer.message("Kill buffer empty");
                },
            }
        } else if str_eq(name, "save-buffer") {
            let path = match &self.buffer.file_path {
                Some(p) => Some(copy_str(p.as_str())),
                None => None,
            };
            match path {
                Some(p) => {
                    let content = self.buffer.contents();
                    self.io_queue.push(IoRequest::SaveFile { path: p, content });
                    proof {
                        assert(self.io_queue@.subrange(0, old(self).io_queue@.len() as int)
                            =~= old(self).io_queue@);
                    }
                },
                None => {
                    self.mode = InputMode::MiniBuffer;
                    self.pending_command = Some(copy_str("save-buffer"));
                    self.minibuffer.activate("Save buffer as: ", MiniBufferMode::SaveBuffer);
                },
            }
        } else if str_eq(name, "toggle-line-wrap") {
            self.wrap_mode = match self.wrap_mode {
                LineWrapMode::Wrap => LineWrapMode::Truncate,
                LineWrapMode::Truncate => LineWrapMode::Wrap,
            };
            self.minibuffer.message("Toggled LineWrap Mode");
            self.scroll_x = 0;
        } else if str_eq(name, "isearch-forward") {
            self.isearch_start(ISearchDir::Forward);
        } else if str_eq(name, "isearch-backward") {
            self.isearch_start(ISearchDir::Backward);
        } else if str_starts_with_exec(name, "digit-argument-") {
            proof {
                reveal_strlit("digit-argument-");
            }
            let nl: usize = name.unicode_len();
            assert(nl >= 15);
            let c = name.get_char(nl - 1);
            let d: i64 = match c {
                '0' => 0,
                '1' => 1,
                '2' => 2,
                '3' => 3,
                '4' => 4,
                '5' => 5,
                '6' => 6,
                '7' => 7,
                '8' => 8,
                '9' => 9,
                _ => 0,
            };
            self.prefix.digit(d);
            self.show_prefix();
        } else if str_eq(name, "universal-argument") {
            self.prefix.universal();
            self.show_prefix();
        }
    }

    /// Show the accumulating prefix value in the minibuffer.
    fn show_prefix(&mut self)
        requires
            crate::prefix::prefix_inv(old(self).prefix),
        ensures
            *final(self) == (Editor { minibuffer: final(self).minibuffer, ..*old(self) }),
            final(self).minibuffer.text@ == prefix_shown(spec_prefix_value(old(self).prefix)),
            final(self).minibuffer.mode == (MiniBufferMode::Message { ttl: 2 }),
            final(self).minibuffer.active,
    {
        let v = self.prefix.value_shown();
        let mut msg = to_chars("C-u ");
        let digits = i64_to_chars(v);
        push_all(&mut msg, &digits);
        self.minibuffer.message_chars(msg);
    }
}


/// A search step's statement depends only on the pre-state's buffer and
/// session.
proof fn lemma_step_pre_stable(
    a: Editor,
    b: Editor,
    post: Editor,
    q: Seq<char>,
    sx: int,
    sy: int,
    dir: ISearchDir,
)
    requires
        crate::isearch::search_step_post(&b, &post, q, sx, sy, dir),
        a.buffer == b.buffer,
        a.isearch == b.isearch,
    ensures
        crate::isearch::search_step_post(&a, &post, q, sx, sy, dir),
{
}

/// A search step's statement about the post-state depends only on its
/// buffer view, cursor and session.
proof fn lemma_step_post_stable(
    pre: Editor,
    mid: Editor,
    done: Editor,
    q: Seq<char>,
    sx: int,
    sy: int,
    dir: ISearchDir,
)
    requires
        crate::isearch::search_step_post(&pre, &mid, q, sx, sy, dir),
        done.isearch == mid.isearch,
        done.buffer@ == mid.buffer@,
        done.buffer.cursor_x == mid.buffer.cursor_x,
        done.buffer.cursor_y == mid.buffer.cursor_y,
    ensures
        crate::isearch::search_step_post(&pre, &done, q, sx, sy, dir),
{
}

/// `builtin_post` does not care about the prefix accumulator or the hook
/// outbox of the pre-state (for a command that does not feed the prefix).
#[verifier::rlimit(100)]
#[verifier::spinoff_prover]
proof fn lemma_builtin_pre_frame(a: Editor, b: Editor, post: Editor, name: Seq<char>, n: Option<int>)
    requires
        builtin_post(&b, &post, name, n),
        b == (Editor { prefix: b.prefix, hook_outbox: b.hook_outbox, ..a }),
        spec_modifies_prefix(name) ==> b.prefix == a.prefix,
    ensures
        builtin_post(&a, &post, name, n),
{
    assert(dispatch_open(&a, &post) == dispatch_open(&b, &post));
    assert(a.buffer == b.buffer);
    assert(a.minibuffer == b.minibuffer);
    assert(a.kill_buffer == b.kill_buffer);
    assert(a.io_queue == b.io_queue);
    assert(a.isearch == b.isearch);
    assert(a.wrap_mode == b.wrap_mode);
    assert(a.mode == b.mode);
    if (name == "isearch-forward"@ || name == "isearch-backward"@) && b.isearch is Some {
        let dir = if name == "isearch-forward"@ {
            ISearchDir::Forward
        } else {
            ISearchDir::Backward
        };
        let st = b.isearch->0;
        let q = st.query@;
        let bb = b.buffer@;
        if q.len() > 0 {
            let fx: int = match st.last_match {
                Some(p) => p.0 as int,
                None => bb.cx,
            };
            let fy: int = match st.last_match {
                Some(p) => p.1 as int,
                None => bb.cy,
            };
            let nn = bb.lines.len();
            let syc: int = if fy < nn {
                fy
            } else {
                nn - 1
            };
            match dir {
                ISearchDir::Forward => {
                    let sx: int = if fx < usize::MAX {
                        fx + 1
                    } else {
                        fx
                    };
                    if crate::isearch::search_step_post(&b, &post, q, sx, syc, dir) {
                        lemma_step_pre_stable(a, b, post, q, sx, syc, dir);
                    }
                },
                ISearchDir::Backward => {
                    if fx > 0 {
                        if crate::isearch::search_step_post(&b, &post, q, fx - 1, syc, dir) {
                            lemma_step_pre_stable(a, b, post, q, fx - 1, syc, dir);
                        }
                    } else if fy > 0 && fy - 1 < nn {
                        if crate::isearch::search_step_post(&b, &post, q,
                            bb.lines[fy - 1].len() as int, fy - 1, dir) {
                            lemma_step_pre_stable(a, b, post, q, bb.lines[fy - 1].len() as int,
                                fy - 1, dir);
                        }
                    }
                },
            }
        }
    }
}

/// `builtin_post` survives the dispatcher's own follow-up work: hook
/// dispatches, the cursor report, the scroll intent and pulling the
/// cursor into view change only fields the relation leaves open.
#[verifier::rlimit(100)]
#[verifier::spinoff_prover]
proof fn lemma_builtin_post_frame(
    pre: Editor,
    mid: Editor,
    done: Editor,
    name: Seq<char>,
    n: Option<int>,
)
    requires
        builtin_post(&pre, &mid, name, n),
        done == (Editor {
            buffer: done.buffer,
            scroll_x: done.scroll_x,
            scroll_y: done.scroll_y,
            hook_outbox: done.hook_outbox,
            last_cursor: done.last_cursor,
            scroll_intent: done.scroll_intent,
            ..mid
        }),
        done.buffer@ == mid.buffer@,
        done.buffer.undo_stack == mid.buffer.undo_stack,
    ensures
        builtin_post(&pre, &done, name, n),
{
    assert(done.buffer.cursor_x == mid.buffer.cursor_x && done.buffer.cursor_y
        == mid.buffer.cursor_y);
    assert(done.minibuffer == mid.minibuffer);
    assert(done.kill_buffer == mid.kill_buffer);
    assert(done.io_queue == mid.io_queue);
    assert(done.isearch == mid.isearch);
    assert(done.wrap_mode == mid.wrap_mode);
    assert(done.mode == mid.mode);
    assert(done.prefix == mid.prefix);
    assert(done.should_quit == mid.should_quit);
    if (name == "isearch-forward"@ || name == "isearch-backward"@) && pre.isearch is Some {
        let dir = if name == "isearch-forward"@ {
            ISearchDir::Forward
        } else {
            ISearchDir::Backward
        };
        let st = pre.isearch->0;
        let q = st.query@;
        let bb = pre.buffer@;
        if q.len() > 0 {
            let fx: int = match st.last_match {
                Some(p) => p.0 as int,
                None => bb.cx,
            };
            let fy: int = match st.last_match {
                Some(p) => p.1 as int,
                None => bb.cy,
            };
            let nn = bb.lines.len();
            let syc: int = if fy < nn {
                fy
            } else {
                nn - 1
            };
            match dir {
                ISearchDir::Forward => {
                    let sx: int = if fx < usize::MAX {
                        fx + 1
                    } else {
                        fx
                    };
                    if crate::isearch::search_step_post(&pre, &mid, q, sx, syc, dir) {
                        lemma_step_post_stable(pre, mid, done, q, sx, syc, dir);
                    }
                },
                ISearchDir::Backward => {
                    if fx > 0 {
                        if crate::isearch::search_step_post(&pre, &mid, q, fx - 1, syc, dir) {
                            lemma_step_post_stable(pre, mid, done, q, fx - 1, syc, dir);
                        }
                    } else if fy > 0 && fy - 1 < nn {
                        if crate::isearch::search_step_post(&pre, &mid, q,
                            bb.lines[fy - 1].len() as int, fy - 1, dir) {
                            lemma_step_post_stable(pre, mid, done, q,
                                bb.lines[fy - 1].len() as int, fy - 1, dir);
                        }
                    }
                },
            }
        }
    }
}

/// The four scroll commands have distinct names.
proof fn lemma_scroll_names()
    ensures
        "scroll-left-command"@ != "scroll-right-command"@,
        "scroll-up-command"@ != "scroll-left-command"@,
        "scroll-up-command"@ != "scroll-right-command"@,
        "scroll-down-command"@ != "scroll-left-command"@,
        "scroll-down-command"@ != "scroll-right-command"@,
{
    reveal_strlit("scroll-up-command");
    reveal_strlit("scroll-down-command");
    reveal_strlit("scroll-left-command");
    reveal_strlit("scroll-right-command");
    assert("scroll-up-command"@.len() == 17);
    assert("scroll-down-command"@.len() == 19);
    assert("scroll-left-command"@.len() == 19);
    assert("scroll-right-command"@.len() == 20);
    assert("scroll-down-command"@[7] != "scroll-left-command"@[7]);
}

/// The four line-local kill commands have distinct names.
proof fn lemma_kill_names()
    ensures
        "kill-word"@ != "kill-backward-word"@,
        "kill-sentence"@ != "kill-backward-word"@,
        "kill-line"@ != "kill-backward-word"@,
        "kill-sentence"@ != "kill-word"@,
        "kill-line"@ != "kill-word"@,
        "kill-line"@ != "kill-sentence"@,
{
    reveal_strlit("kill-word");
    reveal_strlit("kill-backward-word");
    reveal_strlit("kill-sentence");
    reveal_strlit("kill-line");
    assert("kill-word"@.len() == 9);
    assert("kill-backward-word"@.len() == 18);
    assert("kill-sentence"@.len() == 13);
    assert("kill-line"@.len() == 9);
    assert("kill-line"@[5] != "kill-word"@[5]);
}

/// The exec side of a prefix test on command names.
fn str_starts_with_exec(a: &str, prefix: &str) -> (r: bool)
    ensures
        r == (a@.len() >= prefix@.len() && a@.subrange(0, prefix@.len() as int) == prefix@),
{
    crate::text::str_starts_with(a, prefix)
}

} // verus!

verus! {

/// The minibuffer mode a prompting command reads its input in.
pub open spec fn prompt_mode_for(name: Seq<char>) -> MiniBufferMode {
    if name == "save-buffer-as"@ {
        MiniBufferMode::SaveBuffer
    } else if name == "find-file"@ {
        MiniBufferMode::FindFile
    } else if name == "goto-line"@ {
        MiniBufferMode::GotoLine
    } else if name == "isearch-forward"@ {
        MiniBufferMode::ISearchForward
    } else {
        MiniBufferMode::Command
    }
}

/// What the user typed after the prompt, trimmed of blanks; empty when
/// the prompt is missing.
pub open spec fn minibuffer_input(text: Seq<char>, prompt: Seq<char>) -> Seq<char> {
    if text.len() >= prompt.len() && text.subrange(0, prompt.len() as int) == prompt {
        crate::text::trimmed(text.skip(prompt.len() as int))
    } else {
        crate::text::trimmed(Seq::<char>::empty())
    }
}

/// Strip a prompt off the minibuffer text and trim the rest.
fn input_after_prompt(text: &Vec<char>, prompt: &str) -> (r: Vec<char>)
    ensures
        r@ == minibuffer_input(text@, prompt@),
{
    let np: usize = prompt.unicode_len();
    let n = text.len();
    if n < np {
        proof {
            assert(crate::text::trimmed(Seq::<char>::empty()) == Seq::<char>::empty());
        }
        return Vec::new();
    }
    let mut i: usize = 0;
    while i < np
        invariant
            0 <= i <= np <= n,
            n == text@.len(),
            np == prompt@.len(),
            forall|j: int| 0 <= j < i ==> text@[j] == prompt@[j],
        decreases np - i,
    {
        if text[i] != prompt.get_char(i) {
            proof {
                assert(text@.subrange(0, np as int)[i as int] != prompt@[i as int]);
                assert(crate::text::trimmed(Seq::<char>::empty()) == Seq::<char>::empty());
            }
            return Vec::new();
        }
        i = i + 1;
    }
    proof {
        assert(text@.subrange(0, np as int) =~= prompt@);
    }
    let rest = crate::text::drop_prefix(text, np);
    crate::text::trim_chars(&rest)
}

impl Editor {
    /// Insert a printable character at the cursor: the raw-typing path,
    /// bracketed by the `before-insert-char` / `after-insert-char` hooks
    /// with `cursor-moved` and `buffer-changed` in between.
    pub fn insert_char(&mut self, c: char)
        requires
            old(self).wf(),
            c != '\n',
        ensures
            final(self).wf(),
            insert_char_post(old(self), final(self), c),
            crate::metrics::heights_fit(final(self).buffer@.lines,
                old(self).viewport_width as nat, old(self).wrap_mode) ==> ({
                let h1: int = if old(self).viewport_height == 0 {
                    1
                } else {
                    old(self).viewport_height as int
                };
                final(self).scroll_y as int <= final(self).spec_cgvy() && final(self).spec_cgvy()
                    < final(self).scroll_y as int + h1
            }),
    {
        self.fire("before-insert-char", Vec::new());
        self.buffer.insert_char(c);
        self.scroll_intent = ScrollIntent::FollowCursor;
        self.ensure_cursor_visible();
        self.emit_cursor_moved();
        self.emit_buffer_changed("insert-char");
        self.fire("after-insert-char", Vec::new());
    }

    /// Split the line at the cursor and keep the cursor visible.
    pub fn insert_newline(&mut self)
        requires
            old(self).wf(),
        ensures
            final(self).wf(),
            final(self).buffer@ == old(self).buffer.edited(
                old(self).buffer@.lines.update(
                    old(self).buffer@.cy,
                    old(self).buffer@.lines[old(self).buffer@.cy].take(old(self).buffer@.cx),
                ).insert(old(self).buffer@.cy + 1, old(self).buffer@.lines[old(self).buffer@.cy].skip(old(self).buffer@.cx)),
                0,
                old(self).buffer@.cy + 1,
                UAct::InsertNewline { x: old(self).buffer@.cx, y: old(self).buffer@.cy },
            ),
            *final(self) == (Editor {
                buffer: final(self).buffer,
                scroll_x: final(self).scroll_x,
                scroll_y: final(self).scroll_y,
                scroll_intent: ScrollIntent::FollowCursor,
                ..*old(self)
            }),
    {
        self.buffer.insert_newline();
        self.scroll_intent = ScrollIntent::FollowCursor;
        self.ensure_cursor_visible();
    }

    /// Run a known command body inside the `before-command` /
    /// `after-command` bracket: consume the prefix unless the command
    /// feeds it, report cursor movement, and pull the cursor back into
    /// view.  Commands run from the event drain use this directly, so a
    /// `universal-argument` arriving as an event does not drain again.
    #[verifier::rlimit(100)]
    #[verifier::spinoff_prover]
    pub fn run_named_core(&mut self, name: &str)
        requires
            old(self).wf(),
        ensures
            final(self).wf(),
            run_named_post(old(self), final(self), name@),
            ((name@ == "scroll-left-command"@ || name@ == "scroll-right-command"@)
                && find_command(commands_view(old(self).commands.commands@), name@) == Some(
                InteractiveV::Plain,
            )) ==> ({
                // The four-column sideways move, composed with the
                // cursor-visibility pass that follows every command.
                let b = old(self).buffer@;
                &&& (old(self).wrap_mode == LineWrapMode::Wrap ==> final(self).scroll_x == old(self).scroll_x)
                &&& ((old(self).wrap_mode == LineWrapMode::Truncate
                    && crate::metrics::heights_fit(b.lines, old(self).viewport_width as nat,
                    LineWrapMode::Truncate)) ==> ({
                    let w1: int = if old(self).viewport_width == 0 {
                        1
                    } else {
                        old(self).viewport_width as int
                    };
                    let linemax: int = if b.lines[b.cy].len() >= w1 {
                        b.lines[b.cy].len() - w1
                    } else {
                        0
                    };
                    let stepped: int = if name@ == "scroll-left-command"@ {
                        if old(self).scroll_x >= 4 {
                            old(self).scroll_x - 4
                        } else {
                            0
                        }
                    } else {
                        let inc: int = if old(self).scroll_x + 4 <= usize::MAX {
                            old(self).scroll_x + 4
                        } else {
                            usize::MAX as int
                        };
                        if inc <= linemax {
                            inc
                        } else {
                            linemax
                        }
                    };
                    &&& final(self).scroll_x as int <= b.cx
                    &&& b.cx <= final(self).scroll_x as int + w1
                    &&& ((stepped <= b.cx && b.cx < stepped + w1 && stepped <= linemax) ==> final(self).scroll_x as int == stepped)
                }))
            }),
    {
        let info = self.commands.get_info(name);
        match info {
            None => {
                let mut m = to_chars("Unknown command: ");
                let nm = to_chars(name);
                push_all(&mut m, &nm);
                self.minibuffer.message_chars(m);
            },
            Some(Interactive::Str { prompt }) => {
                self.set_mode(InputMode::MiniBuffer);
                self.pending_command = Some(copy_str(name));
                let mb = if str_eq(name, "save-buffer-as") {
                    MiniBufferMode::SaveBuffer
                } else if str_eq(name, "find-file") {
                    MiniBufferMode::FindFile
                } else if str_eq(name, "goto-line") {
                    MiniBufferMode::GotoLine
                } else if str_eq(name, "isearch-forward") {
                    MiniBufferMode::ISearchForward
                } else {
                    MiniBufferMode::Command
                };
                self.minibuffer.activate(prompt.as_str(), mb);
            },
            Some(Interactive::Int) => {},
            Some(Interactive::Plain) => {
                let modifies = str_eq(name, "universal-argument") || crate::text::str_starts_with(
                    name,
                    "digit-argument-",
                );
                let arg: Option<i64> = if modifies {
                    None
                } else {
                    self.prefix.consume()
                };
                let nm = to_chars(name);
                self.fire("before-command", clone_chars(&nm));
                let ghost g1 = *self;
                self.apply_builtin(name, arg);
                let ghost g2 = *self;
                self.fire("after-command", nm);
                self.emit_cursor_moved();
                self.scroll_intent = ScrollIntent::FollowCursor;
                self.ensure_cursor_visible();
                proof {
                    lemma_builtin_pre_frame(*old(self), g1, g2, name@, opt_int(arg));
                    lemma_builtin_post_frame(*old(self), g2, *self, name@, opt_int(arg));
                }
            },
        }
    }

    /// Drain the events queued so far: each one is announced through
    /// `on-event` and then handled.  Events enqueued while draining wait
    /// for the next tick.  Ends by ticking the minibuffer.
    pub fn process_events(&mut self)
        requires
            old(self).wf(),
        ensures
            final(self).wf(),
            events_drained_post(old(self), final(self)),
            final(self).event_queue@ == Seq::<EditorEvent>::empty(),
    {
        let ghost q0 = self.event_queue@;
        let ghost start = *self;
        let n = self.event_queue.len();
        proof {
            assert(q0.take(0) =~= Seq::<EditorEvent>::empty());
            assert(q0.skip(0) =~= q0);
        }
        let mut i: usize = 0;
        while i < n
            invariant
                self.wf(),
                0 <= i <= n,
                n == q0.len(),
                start.event_queue@ == q0,
                self.event_queue@ == q0.skip(i as int),
                drained_post(start, *self, q0.take(i as int)),
            decreases n - i,
        {
            let ghost prev = *self;
            let ev = self.event_queue.remove(0);
            proof {
                assert(ev == q0[i as int]);
                assert(self.event_queue@ =~= q0.skip(i + 1 as int));
            }
            let arg = event_text(&ev);
            self.fire("on-event", arg);
            let ghost mid = *self;
            proof {
                assert(announced_post(prev, mid, ev));
            }
            match &ev {
                EditorEvent::ExecuteCommand(nm) => {
                    self.run_named_core(nm.as_str());
                    proof {
                        assert((Editor { event_queue: mid.event_queue, ..*self }) == *self);
                        assert(handled_post(mid, *self, ev));
                    }
                },
                EditorEvent::Message(msg) => {
                    self.minibuffer.message(msg.as_str());
                    proof {
                        assert(handled_post(mid, *self, ev));
                    }
                },
                EditorEvent::OpenFile(path) => {
                    let p = copy_str(path.as_str());
                    self.io_queue.push(IoRequest::OpenFile { path: p });
                    proof {
                        assert(self.io_queue@.subrange(0, mid.io_queue@.len() as int)
                            =~= mid.io_queue@);
                        assert(handled_post(mid, *self, ev));
                    }
                },
                EditorEvent::AddHook { name, hook } => {
                    let h = *hook;
                    self.hooks.add(name.as_str(), h);
                    proof {
                        assert(handled_post(mid, *self, ev));
                    }
                },
            }
            proof {
                assert(event_step(prev, *self, ev));
                lemma_drained_snoc(start, prev, *self, q0.take(i as int), ev);
                assert(q0.take(i as int).push(ev) =~= q0.take(i + 1 as int));
            }
            i = i + 1;
        }
        proof {
            assert(q0.take(n as int) =~= q0);
            assert(q0.skip(n as int) =~= Seq::<EditorEvent>::empty());
        }
        let ghost g = *self;
        self.minibuffer.tick();
        proof {
            assert(drained_post(*old(self), g, old(self).event_queue@) && *final(self) == (Editor {
                minibuffer: final(self).minibuffer,
                ..g
            }) && ticked(g.minibuffer, final(self).minibuffer));
        }
    }

    /// Execute a command by name: the known-command bracket, and after a
    /// `universal-argument` also a drain of the event queue.
    pub fn execute_named(&mut self, name: &str)
        requires
            old(self).wf(),
        ensures
            final(self).wf(),
            execute_named_post(old(self), final(self), name@),
    {
        let known = match self.commands.get_info(name) {
            Some(_) => true,
            None => false,
        };
        self.run_named_core(name);
        if known && str_eq(name, "universal-argument") {
            let ghost mid = *self;
            self.process_events();
            proof {
                assert(run_named_post(old(self), &mid, name@) && events_drained_post(
                    &mid,
                    final(self),
                ));
            }
        }
    }

    /// Handle the submitted minibuffer text according to the mode it was
    /// read in, after stripping the mode's prompt.
    pub fn execute_minibuffer(&mut self)
        requires
            old(self).wf(),
        ensures
            final(self).wf(),
            minibuffer_submit_post(old(self), final(self)),
    {
        let mode = self.minibuffer.mode();
        let text = clone_chars(self.minibuffer.get());
        let input: Vec<char> = match mode {
            MiniBufferMode::Command => input_after_prompt(&text, "M-x "),
            MiniBufferMode::FindFile => input_after_prompt(&text, "Find file: "),
            MiniBufferMode::SaveBuffer => input_after_prompt(&text, "Save buffer as: "),
            MiniBufferMode::GotoLine => input_after_prompt(&text, "Goto line: "),
            _ => Vec::new(),
        };
        self.minibuffer.deactivate();
        self.set_mode(InputMode::Normal);
        match mode {
            MiniBufferMode::FindFile => {
                let path = chars_to_string(&input);
                self.io_queue.push(IoRequest::OpenFile { path });
                proof {
                    assert(self.io_queue@.last()@ == (crate::events::IoReqV::OpenFile {
                        path: minibuffer_input(old(self).minibuffer.text@, "Find file: "@),
                    }));
                    assert(self.io_queue@.subrange(0, old(self).io_queue@.len() as int)
                        =~= old(self).io_queue@);
                }
            },
            MiniBufferMode::SaveBuffer => {
                if input.len() == 0 {
                    self.minibuffer.message("Save failed: empty file name");
                } else {
                    let path = chars_to_string(&input);
                    let content = self.buffer.contents();
                    self.io_queue.push(IoRequest::SaveFile { path, content });
                    proof {
                        assert(self.io_queue@.subrange(0, old(self).io_queue@.len() as int)
                            =~= old(self).io_queue@);
                    }
                }
            },
            MiniBufferMode::GotoLine => {
                if input.len() == 0 {
                    self.minibuffer.message("Line: 1");
                } else {
                    let ln = crate::text::parse_line_number(&input);
                    self.goto_line(ln);
                }
            },
            MiniBufferMode::ISearchForward => {
                self.isearch_finish();
            },
            MiniBufferMode::ISearchBackward => {
                self.isearch_finish();
            },
            MiniBufferMode::Command => {
                let ghost mid = *self;
                let nm = chars_to_string(&input);
                self.execute_named(nm.as_str());
                proof {
                    assert(execute_named_post(&mid, final(self), minibuffer_input(
                        old(self).minibuffer.text@,
                        "M-x "@,
                    )));
                }
            },
            _ => {},
        }
    }

    /// Report a finished file read: load the text (a missing file loads
    /// as one empty line), reset scrolling, announce `buffer-loaded` and
    /// `buffer-changed`; a failure only shows a message.
    pub fn finish_open(&mut self, path: String, outcome: FileReadOutcome)
        requires
            old(self).wf(),
        ensures
            final(self).wf(),
            match outcome {
                FileReadOutcome::Content(s) => final(self).buffer@ == (BufView {
                    lines: crate::text::load_parts(s@),
                    cx: 0,
                    cy: 0,
                    mark: None::<(int, int)>,
                    path: Some(path@),
                    modified: false,
                    undo: Seq::<UAct>::empty(),
                }) && final(self).scroll_x == 0 && final(self).scroll_y == 0 && final(self).minibuffer.text@ == "Opened file"@,
                FileReadOutcome::Missing => final(self).buffer@ == (BufView {
                    lines: seq![Seq::<char>::empty()],
                    cx: 0,
                    cy: 0,
                    mark: None::<(int, int)>,
                    path: Some(path@),
                    modified: false,
                    undo: Seq::<UAct>::empty(),
                }) && final(self).scroll_x == 0 && final(self).scroll_y == 0 && final(self).minibuffer.text@ == "Opened file"@,
                FileReadOutcome::Failed(e) => final(self).buffer@ == old(self).buffer@ && final(self).minibuffer.text@ == "Open failed: "@ + e@,
            },
    {
        match outcome {
            FileReadOutcome::Content(s) => {
                let cs = to_chars(s.as_str());
                let arg = to_chars(path.as_str());
                self.buffer.load_text(&cs, path);
                self.scroll_x = 0;
                self.scroll_y = 0;
                self.minibuffer.message("Opened file");
                self.fire("buffer-loaded", arg);
                self.emit_buffer_changed("open-file");
            },
            FileReadOutcome::Missing => {
                let arg = to_chars(path.as_str());
                self.buffer.load_missing(path);
                self.scroll_x = 0;
                self.scroll_y = 0;
                self.minibuffer.message("Opened file");
                self.fire("buffer-loaded", arg);
                self.emit_buffer_changed("open-file");
            },
            FileReadOutcome::Failed(e) => {
                let mut m = to_chars("Open failed: ");
                let es = to_chars(e.as_str());
                push_all(&mut m, &es);
                self.minibuffer.message_chars(m);
            },
        }
    }

    /// Report a finished save: on success remember the path, clear the
    /// modified flag and announce `buffer-saved`; on failure only show
    /// the error.
    pub fn finish_save(&mut self, path: String, error: Option<String>)
        requires
            old(self).wf(),
        ensures
            final(self).wf(),
            match error {
                None => final(self).buffer@ == (BufView {
                    path: Some(path@),
                    modified: false,
                    ..old(self).buffer@
                }) && final(self).minibuffer.text@ == "Saved buffer!"@,
                Some(e) => final(self).buffer@ == old(self).buffer@ && final(self).minibuffer.text@ == "Save failed: "@ + e@,
            },
    {
        match error {
            None => {
                let arg = to_chars(path.as_str());
                self.buffer.note_saved(path);
                self.fire("buffer-saved", arg);
                self.minibuffer.message("Saved buffer!");
            },
            Some(e) => {
                let mut m = to_chars("Save failed: ");
                let es = to_chars(e.as_str());
                push_all(&mut m, &es);
                self.minibuffer.message_chars(m);
            },
        }
    }
}

/// Build an owned string from characters; the host needs plain strings
/// for paths and command names.
fn chars_to_string(v: &Vec<char>) -> (r: String)
    ensures
        r@ == v@,
{
    let mut s = String::new();
    let n = v.len();
    let mut i: usize = 0;
    while i < n
        invariant
            0 <= i <= n,
            n == v@.len(),
            s@ == v@.take(i as int),
        decreases n - i,
    {
        push_char(&mut s, v[i]);
        proof {
            assert(s@ =~= v@.take(i + 1 as int));
        }
        i = i + 1;
    }
    proof {
        assert(v@.take(n as int) =~= v@);
    }
    s
}

/// Append one character to a string.
/// Relies on `String::push`: it appends exactly the given character.
#[verifier::external_body]
fn push_char(s: &mut String, c: char)
    ensures
        final(s)@ == old(s)@.push(c),
{
    s.push(c);
}

} // verus!

verus! {

impl Editor {
    /// The normal-mode half of key handling: `Ctrl-c` quits, a swallowed
    /// prefix keystroke does nothing more, a bound character runs its
    /// command, an unbound plain character is inserted, the arrow,
    /// delete and enter keys act on the buffer; the cursor is then
    /// pulled back into view.
    #[verifier::rlimit(100)]
    #[verifier::spinoff_prover]
    fn key_normal(
        &mut self,
        key: crate::keys::Key,
        physical: PhysicalModifiers,
        mods: crate::keys::Modifiers,
        swallowed: bool,
    )
        requires
            old(self).wf(),
        ensures
            final(self).wf(),
            key_normal_post(old(self), final(self), key, physical, mods.bits, swallowed),
    {
        let ghost mut mid_g = *self;
        let ghost mut dispatched: Option<Seq<char>> = None;
        let ghost mut inserted: Option<char> = None;
        match key {
            crate::keys::Key::Char(c) => {
                if c == 'c' && physical.bits & crate::keys::PHYS_CTRL != 0 {
                    self.should_quit = true;
                    return ;
                }
                if !swallowed {
                    let cmd: Option<String> = match self.keymap.lookup(mods, c) {
                        Some(s) => Some(copy_str(s.as_str())),
                        None => None,
                    };
                    match cmd {
                        Some(cmdname) => {
                            self.execute_named(cmdname.as_str());
                            proof {
                                mid_g = *self;
                                dispatched = Some(cmdname@);
                            }
                        },
                        None => {
                            if mods.is_empty() && c != '\n' {
                                self.insert_char(c);
                                proof {
                                    mid_g = *self;
                                    inserted = Some(c);
                                }
                            }
                        },
                    }
                }
                // A keystroke that armed a prefix is swallowed.
            },
            crate::keys::Key::Left => self.buffer.move_cursor(Motion::Left),
            crate::keys::Key::Right => self.buffer.move_cursor(Motion::Right),
            crate::keys::Key::Up => self.buffer.move_cursor(Motion::Up),
            crate::keys::Key::Down => self.buffer.move_cursor(Motion::Down),
            crate::keys::Key::Backspace => self.buffer.backward_delete_char(),
            crate::keys::Key::Enter => self.insert_newline(),
            crate::keys::Key::Delete => self.buffer.delete_char(),
            crate::keys::Key::Esc => {},
        }
        self.ensure_cursor_visible();
        self.clamp_scroll();
        proof {
            if dispatched is Some {
                assert(execute_named_post(old(self), &mid_g, dispatched->0));
                assert(after_view_pass(mid_g, *self));
            }
            if inserted is Some {
                assert(insert_char_post(old(self), &mid_g, inserted->0));
                assert(insert_char_post(old(self), self, inserted->0));
            }
        }
    }

    /// The minibuffer half of key handling: characters edit the prompt
    /// line (updating an incremental search as they go), enter submits,
    /// escape cancels.
    #[verifier::rlimit(100)]
    #[verifier::spinoff_prover]
    fn key_minibuffer(&mut self, key: crate::keys::Key, mods: crate::keys::Modifiers)
        requires
            old(self).wf(),
        ensures
            final(self).wf(),
            key_minibuffer_post(old(self), final(self), key, mods.bits),
    {
        match key {
            crate::keys::Key::Char(c) => {
                let cmd: Option<String> = match self.keymap.lookup(mods, c) {
                    Some(s) => Some(copy_str(s.as_str())),
                    None => None,
                };
                match cmd {
                    Some(cmdname) => {
                        self.execute_named(cmdname.as_str());
                    },
                    None => {
                        if mods.is_empty() {
                            self.minibuffer.push(c);
                            let searching = match self.minibuffer.mode() {
                                MiniBufferMode::ISearchForward => true,
                                MiniBufferMode::ISearchBackward => true,
                                _ => false,
                            };
                            if searching {
                                self.isearch_update();
                            }
                        }
                    },
                }
            },
            crate::keys::Key::Backspace => {
                self.minibuffer.pop();
                let searching = match self.minibuffer.mode() {
                    MiniBufferMode::ISearchForward => true,
                    MiniBufferMode::ISearchBackward => true,
                    _ => false,
                };
                if searching {
                    self.isearch_update();
                }
            },
            crate::keys::Key::Enter => {
                self.execute_minibuffer();
            },
            crate::keys::Key::Esc => {
                self.minibuffer.deactivate();
                self.mode = InputMode::Normal;
            },
            _ => {},
        }
    }

    /// Route one decoded keystroke: resolve the modifiers (arming or
    /// consuming a prefix key), then let the current input mode handle
    /// it.  `key_normal_post` and `key_minibuffer_post` spell out the
    /// dispatch, over the state with the resolved prefix recorded.
    pub fn handle_key(&mut self, key: crate::keys::Key, physical: PhysicalModifiers)
        requires
            old(self).wf(),
        ensures
            final(self).wf(),
            ({
                let key_char = match key {
                    crate::keys::Key::Char(cc) => Some(cc),
                    _ => None,
                };
                let rp = crate::config::resolve_spec(&old(self).user_config, physical.bits,
                    key_char, old(self).pending_prefix);
                let armed = (Editor { pending_prefix: rp.1, ..*old(self) });
                &&& (old(self).mode == InputMode::Normal ==> key_normal_post(&armed, final(self),
                    key, physical, rp.0, rp.1 is Some))
                &&& (old(self).mode == InputMode::MiniBuffer ==> key_minibuffer_post(&armed,
                    final(self), key, rp.0))
            }),
    {
        let key_char: Option<char> = match key {
            crate::keys::Key::Char(c) => Some(c),
            _ => None,
        };
        let (mods, pending) = crate::config::resolve_modifiers(
            &self.user_config,
            physical,
            key_char,
            self.pending_prefix,
        );
        self.pending_prefix = pending;
        let ghost at_call = *self;
        match self.mode {
            InputMode::Normal => {
                self.key_normal(key, physical, mods, pending.is_some());
            },
            InputMode::MiniBuffer => {
                self.key_minibuffer(key, mods);
            },
        }
        proof {
            let kc = match key {
                crate::keys::Key::Char(cc) => Some(cc),
                _ => None,
            };
            let rp = crate::config::resolve_spec(&old(self).user_config, physical.bits, kc,
                old(self).pending_prefix);
            assert(at_call == (Editor { pending_prefix: rp.1, ..*old(self) }));
        }
    }
}

} // verus!

verus! {

/// The numeric argument a command receives: the prefix value unless the
/// command feeds the prefix instead of consuming it.
pub open spec fn consumed_arg(p: PrefixState, name: Seq<char>) -> Option<int> {
    if spec_modifies_prefix(name) {
        None
    } else {
        match p {
            PrefixState::Idle => None,
            PrefixState::Digits(v) => Some(v as int),
            PrefixState::Universal(v) => Some(v as int),
        }
    }
}

/// The whole effect of running one command name through the dispatcher:
/// an unknown name only shows a message; a prompting command opens the
/// minibuffer and remembers the name; a plain command consumes the
/// prefix, does what `builtin_post` states, and is bracketed by the
/// `before-command` / `after-command` hooks with at most one
/// `cursor-moved` report, fired only on actual movement.
pub open spec fn run_named_post(pre: &Editor, post: &Editor, name: Seq<char>) -> bool {
    let reg = commands_view(pre.commands.commands@);
    &&& post.wf()
    &&& post.event_queue == pre.event_queue
    &&& (find_command(reg, name) is None ==> *post == (Editor {
        minibuffer: post.minibuffer,
        ..*pre
    }) && post.minibuffer.text@ == "Unknown command: "@ + name && post.minibuffer.mode == (
    MiniBufferMode::Message { ttl: 2 }))
    &&& (match find_command(reg, name) {
        Some(InteractiveV::Str { prompt }) => {
            &&& *post == (Editor {
                mode: InputMode::MiniBuffer,
                pending_command: post.pending_command,
                minibuffer: post.minibuffer,
                hook_outbox: post.hook_outbox,
                ..*pre
            })
            &&& post.pending_command is Some
            &&& post.pending_command->0@ == name
            &&& post.minibuffer.active
            &&& post.minibuffer.text@ == prompt
            &&& post.minibuffer.mode == prompt_mode_for(name)
        },
        Some(InteractiveV::Plain) => {
            &&& builtin_post(pre, post, name, consumed_arg(pre.prefix, name))
            &&& (!spec_modifies_prefix(name) ==> post.prefix == PrefixState::Idle)
            &&& post.scroll_intent == ScrollIntent::FollowCursor
            &&& ({
                let base = outbox_view(pre.hook_outbox@).push(("before-command"@, name)).push(
                    ("after-command"@, name),
                );
                let cur = (post.buffer.cursor_x, post.buffer.cursor_y);
                if cur == pre.last_cursor {
                    outbox_view(post.hook_outbox@) == base && post.last_cursor == pre.last_cursor
                } else {
                    outbox_view(post.hook_outbox@) == base.push(
                        ("cursor-moved"@, cursor_moved_arg(cur.0 as int, cur.1 as int)),
                    ) && post.last_cursor == cur
                }
            })
        },
        Some(InteractiveV::Int) => true,
        None => true,
    })
}

/// One drained event was announced through `on-event`.
pub open spec fn announced_post(pre: Editor, post: Editor, ev: EditorEvent) -> bool {
    &&& post == (Editor { hook_outbox: post.hook_outbox, event_queue: post.event_queue, ..pre })
    &&& outbox_view(post.hook_outbox@) == outbox_view(pre.hook_outbox@).push(
        ("on-event"@, spec_event_text(ev@)),
    )
}

/// What handling one drained event does.  The event queue itself is
/// managed by the drain as a whole, so each step leaves it open.
pub open spec fn handled_post(pre: Editor, post: Editor, ev: EditorEvent) -> bool {
    match ev {
        EditorEvent::ExecuteCommand(nm) => run_named_post(
            &pre,
            &(Editor { event_queue: pre.event_queue, ..post }),
            nm@,
        ),
        EditorEvent::Message(m) => {
            &&& post == (Editor {
                minibuffer: post.minibuffer,
                event_queue: post.event_queue,
                ..pre
            })
            &&& post.minibuffer.text@ == m@
            &&& post.minibuffer.active
            &&& post.minibuffer.mode == (MiniBufferMode::Message { ttl: 2 })
        },
        EditorEvent::OpenFile(p) => {
            &&& post == (Editor { io_queue: post.io_queue, event_queue: post.event_queue, ..pre })
            &&& post.io_queue@.len() == pre.io_queue@.len() + 1
            &&& post.io_queue@.subrange(0, pre.io_queue@.len() as int) == pre.io_queue@
            &&& post.io_queue@.last()@ == (crate::events::IoReqV::OpenFile { path: p@ })
        },
        EditorEvent::AddHook { name, hook } => {
            &&& post == (Editor { hooks: post.hooks, event_queue: post.event_queue, ..pre })
            &&& crate::hooks::registry_wf(&post.hooks)
            &&& crate::hooks::hooks_of(crate::hooks::registry_view(&post.hooks), name@)
                == crate::hooks::hooks_of(crate::hooks::registry_view(&pre.hooks), name@).push(
                hook,
            )
            &&& forall|other: Seq<char>|
                other != name@ ==> #[trigger] crate::hooks::hooks_of(
                    crate::hooks::registry_view(&post.hooks),
                    other,
                ) == crate::hooks::hooks_of(crate::hooks::registry_view(&pre.hooks), other)
        },
    }
}

/// One event of the drain: announced, then handled.
pub open spec fn event_step(pre: Editor, post: Editor, ev: EditorEvent) -> bool {
    exists|mid: Editor| #[trigger] announced_post(pre, mid, ev) && handled_post(mid, post, ev)
}

/// The events were drained in order, each one announced and handled.
pub open spec fn drained_post(pre: Editor, post: Editor, evs: Seq<EditorEvent>) -> bool
    decreases evs.len(),
{
    if evs.len() == 0 {
        post == pre
    } else {
        exists|mid: Editor| #[trigger] event_step(pre, mid, evs[0]) && drained_post(
            mid,
            post,
            evs.drop_first(),
        )
    }
}

/// One minibuffer tick.
pub open spec fn ticked(pre: MiniBuffer, post: MiniBuffer) -> bool {
    match pre.mode {
        MiniBufferMode::Message { ttl } => {
            if ttl <= 1 {
                post.text@ == Seq::<char>::empty() && !post.active && post.mode
                    == MiniBufferMode::Inactive
            } else {
                post.text@ == pre.text@ && post.active == pre.active && post.mode == (
                MiniBufferMode::Message { ttl: (ttl - 1) as u32 })
            }
        },
        _ => post == pre,
    }
}

/// A full drain: the queued events handled in order, then one minibuffer
/// tick.
pub open spec fn events_drained_post(pre: &Editor, post: &Editor) -> bool {
    exists|g: Editor|
        {
            &&& #[trigger] drained_post(*pre, g, pre.event_queue@)
            &&& *post == (Editor { minibuffer: post.minibuffer, ..g })
            &&& ticked(g.minibuffer, post.minibuffer)
        }
}

/// The whole effect of `execute_named`: the command runs, and after a
/// `universal-argument` the event queue is drained as well.
pub open spec fn execute_named_post(pre: &Editor, post: &Editor, name: Seq<char>) -> bool {
    if name == "universal-argument"@ && find_command(commands_view(pre.commands.commands@), name)
        is Some {
        exists|mid: Editor|
            #[trigger] run_named_post(pre, &mid, name) && events_drained_post(&mid, post)
    } else {
        run_named_post(pre, post, name)
    }
}

/// Draining one more event extends the drain.
proof fn lemma_drained_snoc(
    a: Editor,
    b: Editor,
    c: Editor,
    evs: Seq<EditorEvent>,
    ev: EditorEvent,
)
    requires
        drained_post(a, b, evs),
        event_step(b, c, ev),
    ensures
        drained_post(a, c, evs.push(ev)),
    decreases evs.len(),
{
    if evs.len() == 0 {
        assert(b == a);
        assert(evs.push(ev)[0] == ev);
        assert(evs.push(ev).drop_first() =~= Seq::<EditorEvent>::empty());
        assert(drained_post(c, c, evs.push(ev).drop_first()));
    } else {
        let m = choose|m: Editor|
            #[trigger] event_step(a, m, evs[0]) && drained_post(m, b, evs.drop_first());
        lemma_drained_snoc(m, b, c, evs.drop_first(), ev);
        assert(evs.push(ev)[0] == evs[0]);
        assert(evs.push(ev).drop_first() =~= evs.drop_first().push(ev));
        assert(event_step(a, m, evs.push(ev)[0]) && drained_post(m, c, evs.push(ev).drop_first()));
    }
}

} // verus!

verus! {

/// The whole effect of submitting the minibuffer: the prompt is stripped
/// from the typed text, the minibuffer deactivates, the editor returns to
/// normal mode, and the saved mode decides what happens — a file request,
/// a save request (or a complaint about an empty name), a cursor jump, the
/// end of an incremental search, or running the typed command name.
pub open spec fn minibuffer_submit_post(pre: &Editor, post: &Editor) -> bool {
    let mb = pre.minibuffer.mode;
    &&& (mb == MiniBufferMode::FindFile ==> ({
        let input = minibuffer_input(pre.minibuffer.text@, "Find file: "@);
        &&& *post == (Editor {
            minibuffer: post.minibuffer,
            mode: InputMode::Normal,
            hook_outbox: post.hook_outbox,
            io_queue: post.io_queue,
            ..*pre
        })
        &&& !post.minibuffer.active
        &&& post.io_queue@.len() == pre.io_queue@.len() + 1
        &&& post.io_queue@.subrange(0, pre.io_queue@.len() as int) == pre.io_queue@
        &&& post.io_queue@.last()@ == (crate::events::IoReqV::OpenFile { path: input })
    }))
    &&& (mb == MiniBufferMode::SaveBuffer ==> ({
        let input = minibuffer_input(pre.minibuffer.text@, "Save buffer as: "@);
        if input.len() == 0 {
            &&& *post == (Editor {
                minibuffer: post.minibuffer,
                mode: InputMode::Normal,
                hook_outbox: post.hook_outbox,
                ..*pre
            })
            &&& post.minibuffer.text@ == "Save failed: empty file name"@
            &&& post.minibuffer.mode == (MiniBufferMode::Message { ttl: 2 })
        } else {
            &&& *post == (Editor {
                minibuffer: post.minibuffer,
                mode: InputMode::Normal,
                hook_outbox: post.hook_outbox,
                io_queue: post.io_queue,
                ..*pre
            })
            &&& !post.minibuffer.active
            &&& post.io_queue@.len() == pre.io_queue@.len() + 1
            &&& post.io_queue@.subrange(0, pre.io_queue@.len() as int) == pre.io_queue@
            &&& post.io_queue@.last()@ == (crate::events::IoReqV::SaveFile {
                path: input,
                content: join_texts(pre.buffer@.lines),
            })
        }
    }))
    &&& (mb == MiniBufferMode::GotoLine ==> ({
        let input = minibuffer_input(pre.minibuffer.text@, "Goto line: "@);
        if input.len() == 0 {
            &&& *post == (Editor {
                minibuffer: post.minibuffer,
                mode: InputMode::Normal,
                hook_outbox: post.hook_outbox,
                ..*pre
            })
            &&& post.minibuffer.text@ == "Line: 1"@
            &&& post.minibuffer.mode == (MiniBufferMode::Message { ttl: 2 })
        } else {
            let req = crate::text::line_number_of(input);
            let ln: int = if req <= usize::MAX as int {
                req
            } else {
                usize::MAX as int
            };
            let n = pre.buffer@.lines.len();
            let ny: int = if ln >= 1 {
                if ln - 1 < n {
                    ln - 1
                } else {
                    n - 1
                }
            } else {
                0
            };
            let nx: int = if pre.buffer@.cx <= pre.buffer@.lines[ny].len() {
                pre.buffer@.cx
            } else {
                pre.buffer@.lines[ny].len() as int
            };
            &&& *post == (Editor {
                minibuffer: post.minibuffer,
                mode: InputMode::Normal,
                hook_outbox: post.hook_outbox,
                buffer: post.buffer,
                scroll_x: post.scroll_x,
                scroll_y: post.scroll_y,
                ..*pre
            })
            &&& !post.minibuffer.active
            &&& post.buffer@ == (BufView { cx: nx, cy: ny, ..pre.buffer@ })
            &&& post.buffer.undo_stack == pre.buffer.undo_stack
        }
    }))
    &&& ((mb == MiniBufferMode::ISearchForward || mb == MiniBufferMode::ISearchBackward) ==> ({
        &&& *post == (Editor {
            minibuffer: post.minibuffer,
            mode: InputMode::Normal,
            hook_outbox: post.hook_outbox,
            isearch: None,
            ..*pre
        })
        &&& !post.minibuffer.active
    }))
    &&& (mb == MiniBufferMode::Command ==> ({
        let input = minibuffer_input(pre.minibuffer.text@, "M-x "@);
        exists|mid: Editor|
            {
                &&& mid == (Editor {
                    minibuffer: mid.minibuffer,
                    mode: InputMode::Normal,
                    hook_outbox: mid.hook_outbox,
                    ..*pre
                })
                &&& !mid.minibuffer.active
                &&& #[trigger] execute_named_post(&mid, post, input)
            }
    }))
    &&& ((mb == MiniBufferMode::Inactive || mb is Message) ==> ({
        &&& *post == (Editor {
            minibuffer: post.minibuffer,
            mode: InputMode::Normal,
            hook_outbox: post.hook_outbox,
            ..*pre
        })
        &&& !post.minibuffer.active
    }))
}

} // verus!

verus! {

/// What the raw-typing path does, as a reusable relation.
pub open spec fn insert_char_post(pre: &Editor, post: &Editor, c: char) -> bool {
    &&& post.buffer@ == pre.buffer.edited(
        pre.buffer@.lines.update(
            pre.buffer@.cy,
            crate::text::splice_line(pre.buffer@.lines[pre.buffer@.cy], pre.buffer@.cx, seq![c]),
        ),
        pre.buffer@.cx + 1,
        pre.buffer@.cy,
        UAct::Insert { x: pre.buffer@.cx, y: pre.buffer@.cy, text: seq![c] },
    )
    &&& *post == (Editor {
        buffer: post.buffer,
        scroll_x: post.scroll_x,
        scroll_y: post.scroll_y,
        scroll_intent: ScrollIntent::FollowCursor,
        last_cursor: post.last_cursor,
        hook_outbox: post.hook_outbox,
        ..*pre
    })
    &&& ({
        let base = outbox_view(pre.hook_outbox@).push(
            ("before-insert-char"@, Seq::<char>::empty()),
        );
        let cur = (post.buffer.cursor_x, post.buffer.cursor_y);
        let mid = if cur == pre.last_cursor {
            base
        } else {
            base.push(("cursor-moved"@, cursor_moved_arg(cur.0 as int, cur.1 as int)))
        };
        outbox_view(post.hook_outbox@) == mid.push(("buffer-changed"@, "insert-char"@)).push(
            ("after-insert-char"@, Seq::<char>::empty()),
        )
    })
}

/// Only the buffer and the scroll position may differ.
pub open spec fn key_frame(pre: Editor, post: Editor) -> bool {
    post == (Editor {
        buffer: post.buffer,
        scroll_x: post.scroll_x,
        scroll_y: post.scroll_y,
        ..pre
    })
}

/// The effect of the trailing cursor-visibility pass: only the scroll
/// position and the visual cache may move.
pub open spec fn after_view_pass(pre: Editor, post: Editor) -> bool {
    &&& post == (Editor {
        buffer: post.buffer,
        scroll_x: post.scroll_x,
        scroll_y: post.scroll_y,
        ..pre
    })
    &&& post.buffer@ == pre.buffer@
    &&& post.buffer.undo_stack == pre.buffer.undo_stack
}

/// A character typed or erased on the minibuffer line: the text becomes
/// `nt`, and while an incremental search is running the session follows
/// the new query.
pub open spec fn minibuffer_typed_post(pre: &Editor, post: &Editor, nt: Seq<char>) -> bool {
    let searching = pre.minibuffer.mode == MiniBufferMode::ISearchForward || pre.minibuffer.mode
        == MiniBufferMode::ISearchBackward;
    &&& post.minibuffer.text@ == nt
    &&& post.minibuffer.mode == pre.minibuffer.mode
    &&& post.minibuffer.active == pre.minibuffer.active
    &&& (!searching ==> *post == (Editor { minibuffer: post.minibuffer, ..*pre }))
    &&& (searching ==> ({
        &&& *post == (Editor {
            minibuffer: post.minibuffer,
            buffer: post.buffer,
            isearch: post.isearch,
            scroll_x: post.scroll_x,
            scroll_y: post.scroll_y,
            ..*pre
        })
        &&& post.buffer@ == (BufView { cx: post.buffer@.cx, cy: post.buffer@.cy, ..pre.buffer@ })
        &&& post.buffer.undo_stack == pre.buffer.undo_stack
        &&& (pre.isearch is None ==> post.buffer@ == pre.buffer@ && post.isearch is None)
        &&& (pre.isearch is Some ==> ({
            let st = pre.isearch->0;
            let q = crate::isearch::query_of(nt);
            &&& post.isearch is Some
            &&& post.isearch->0.query@ == q
            &&& (q.len() == 0 ==> crate::isearch::restored_to_original(pre, post)
                && post.isearch->0.last_match == st.last_match && post.isearch->0.dir == st.dir
                && post.isearch->0.original_x == st.original_x && post.isearch->0.original_y
                == st.original_y)
            &&& (q.len() > 0 ==> ({
                let fx: int = match st.last_match {
                    Some(p) => p.0 as int,
                    None => pre.buffer@.cx,
                };
                let fy: int = match st.last_match {
                    Some(p) => p.1 as int,
                    None => pre.buffer@.cy,
                };
                let n = pre.buffer@.lines.len();
                let syc: int = if fy < n {
                    fy
                } else {
                    n - 1
                };
                crate::isearch::search_step_post(pre, post, q, fx, syc, st.dir)
            }))
        }))
    }))
}

} // verus!

verus! {

/// What normal-mode key handling does, over the state with the resolved
/// prefix recorded: `Ctrl-c` quits; a keystroke swallowed as a prefix
/// changes nothing else; a bound character behaves as `execute_named`
/// followed by the cursor-visibility pass; an unbound plain character is
/// inserted; Backspace, Delete, Enter and the arrows act on the buffer
/// as the corresponding primitives state.
pub open spec fn key_normal_post(
    pre: &Editor,
    post: &Editor,
    key: crate::keys::Key,
    physical: PhysicalModifiers,
    bits: u8,
    swallowed: bool,
) -> bool {
    match key {
        crate::keys::Key::Char(c) => {
            if c == 'c' && physical.bits & crate::keys::PHYS_CTRL != 0 {
                *post == (Editor { should_quit: true, ..*pre })
            } else if swallowed {
                key_frame(*pre, *post) && post.buffer@ == pre.buffer@ && post.buffer.undo_stack
                    == pre.buffer.undo_stack
            } else {
                match crate::keys::lookup_spec(crate::keys::keymap_view(&pre.keymap), bits, c) {
                    Some(cmd) => exists|mid: Editor|
                        #[trigger] execute_named_post(pre, &mid, cmd) && after_view_pass(
                            mid,
                            *post,
                        ),
                    None => {
                        if bits == 0 && c != '\n' {
                            insert_char_post(pre, post, c)
                        } else {
                            key_frame(*pre, *post) && post.buffer@ == pre.buffer@
                                && post.buffer.undo_stack == pre.buffer.undo_stack
                        }
                    },
                }
            }
        },
        crate::keys::Key::Enter => {
            &&& *post == (Editor {
                buffer: post.buffer,
                scroll_x: post.scroll_x,
                scroll_y: post.scroll_y,
                scroll_intent: ScrollIntent::FollowCursor,
                ..*pre
            })
            &&& post.buffer@ == pre.buffer.edited(
                pre.buffer@.lines.update(
                    pre.buffer@.cy,
                    pre.buffer@.lines[pre.buffer@.cy].take(pre.buffer@.cx),
                ).insert(pre.buffer@.cy + 1, pre.buffer@.lines[pre.buffer@.cy].skip(
                    pre.buffer@.cx,
                )),
                0,
                pre.buffer@.cy + 1,
                UAct::InsertNewline { x: pre.buffer@.cx, y: pre.buffer@.cy },
            )
        },
        crate::keys::Key::Backspace => {
            let b = pre.buffer@;
            &&& key_frame(*pre, *post)
            &&& (b.cx > 0 ==> post.buffer@ == pre.buffer.edited(
                lines_after_delete(b.lines, b.cx - 1, b.cy, b.cx, b.cy),
                b.cx - 1,
                b.cy,
                UAct::Delete { x: b.cx - 1, y: b.cy, text: seq![b.lines[b.cy][b.cx - 1]] },
            ))
            &&& (b.cx == 0 && b.cy > 0 ==> post.buffer@ == pre.buffer.edited(
                b.lines.update(b.cy - 1, b.lines[b.cy - 1] + b.lines[b.cy]).remove(b.cy),
                b.lines[b.cy - 1].len() as int,
                b.cy - 1,
                UAct::JoinLine { x: b.lines[b.cy - 1].len() as int, y: b.cy - 1 },
            ))
            &&& (b.cx == 0 && b.cy == 0 ==> post.buffer@ == b)
        },
        crate::keys::Key::Delete => {
            let b = pre.buffer@;
            &&& key_frame(*pre, *post)
            &&& (b.cx < b.lines[b.cy].len() ==> post.buffer@ == pre.buffer.edited(
                lines_after_delete(b.lines, b.cx, b.cy, b.cx + 1, b.cy),
                b.cx,
                b.cy,
                UAct::Delete { x: b.cx, y: b.cy, text: seq![b.lines[b.cy][b.cx]] },
            ))
            &&& (b.cx >= b.lines[b.cy].len() ==> post.buffer@ == b)
        },
        crate::keys::Key::Esc => key_frame(*pre, *post) && post.buffer@ == pre.buffer@
            && post.buffer.undo_stack == pre.buffer.undo_stack,
        _ => {
            // An arrow key: one pure motion.
            let m = match key {
                crate::keys::Key::Left => Motion::Left,
                crate::keys::Key::Right => Motion::Right,
                crate::keys::Key::Up => Motion::Up,
                _ => Motion::Down,
            };
            let (nx, ny) = motion_dest(pre.buffer@.lines, pre.buffer@.cx, pre.buffer@.cy, m);
            key_frame(*pre, *post) && post.buffer@ == (BufView {
                cx: nx,
                cy: ny,
                ..pre.buffer@
            }) && post.buffer.undo_stack == pre.buffer.undo_stack
        },
    }
}

/// What minibuffer-mode key handling does, over the state with the
/// resolved prefix recorded: a bound character runs its command, a plain
/// one edits the prompt line (keeping an incremental search in step),
/// enter submits, escape cancels.
pub open spec fn key_minibuffer_post(
    pre: &Editor,
    post: &Editor,
    key: crate::keys::Key,
    bits: u8,
) -> bool {
    match key {
        crate::keys::Key::Char(c) => {
            match crate::keys::lookup_spec(crate::keys::keymap_view(&pre.keymap), bits, c) {
                Some(cmd) => execute_named_post(pre, post, cmd),
                None => {
                    if bits == 0 {
                        minibuffer_typed_post(pre, post, pre.minibuffer.text@.push(c))
                    } else {
                        *post == *pre
                    }
                },
            }
        },
        crate::keys::Key::Backspace => {
            let nt = if pre.minibuffer.text@.len() > 0 {
                pre.minibuffer.text@.drop_last()
            } else {
                pre.minibuffer.text@
            };
            minibuffer_typed_post(pre, post, nt)
        },
        crate::keys::Key::Enter => minibuffer_submit_post(pre, post),
        crate::keys::Key::Esc => *post == (Editor {
            minibuffer: post.minibuffer,
            mode: InputMode::Normal,
            ..*pre
        }) && !post.minibuffer.active && post.minibuffer.text@ == Seq::<char>::empty(),
        _ => *post == *pre,
    }
}

} // verus!
