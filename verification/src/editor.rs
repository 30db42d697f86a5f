//! The top-level controller: it owns the buffer, the minibuffer, the
//! registries and the event queue, routes input, executes commands and
//! drives scrolling.
//!
//! The controller never performs I/O and never calls a script.  Hook
//! dispatches are appended to `hook_outbox` and file operations to
//! `io_queue`; the host drains both, carries them out, and reports file
//! results back through `finish_open` and `finish_save`.

use vstd::prelude::*;

use crate::buffer::{Buffer, BufView, UAct};
use crate::command::CommandRegistry;
use crate::config::UserConfig;
use crate::events::{EditorEvent, IoRequest, HookRun, outbox_view};
use crate::hooks::{HookRegistry, registry_wf, registry_view};
use crate::keys::KeyMap;
use crate::layout::LineWrapMode;
use crate::minibuffer::MiniBuffer;
use crate::prefix::{PrefixState, prefix_inv};
use crate::text::{to_chars, usize_to_chars, push_all, dec_digits};

verus! {

/// Whether keystrokes edit the buffer or the minibuffer.
#[derive(Clone, Copy, PartialEq, Eq, Structural, Debug)]
pub enum InputMode {
    Normal,
    MiniBuffer,
}

impl InputMode {
    pub fn as_str(&self) -> (r: &'static str)
        ensures
            *self == InputMode::Normal ==> r@ == "normal"@,
            *self == InputMode::MiniBuffer ==> r@ == "minibuffer"@,
    {
        match self {
            InputMode::Normal => "normal",
            InputMode::MiniBuffer => "minibuffer",
        }
    }
}

/// Whether scrolling follows the cursor or was placed by hand.
#[derive(Clone, Copy, PartialEq, Eq, Structural, Debug)]
pub enum ScrollIntent {
    FollowCursor,
    Manual,
}

#[derive(Clone, Copy, PartialEq, Eq, Structural, Debug)]
pub enum ISearchDir {
    Forward,
    Backward,
}

/// The state of an incremental-search session.
pub struct ISearchState {
    /// Cursor position when the search started; restored on abort.
    pub original_x: usize,
    pub original_y: usize,
    pub query: Vec<char>,
    pub dir: ISearchDir,
    /// Position of the last successful match.
    pub last_match: Option<(usize, usize)>,
}

/// One screen row of the layout: a slice of a buffer line.
#[derive(Clone, Copy, PartialEq, Eq, Structural, Debug)]
pub struct VisualLine {
    pub buffer_y: usize,
    pub start_x: usize,
    pub len: usize,
}

/// What the host reading a file hands back.
pub enum FileReadOutcome {
    /// The file's text, decoded as UTF-8.
    Content(String),
    /// The file does not exist.
    Missing,
    /// Reading failed; the message describes why.
    Failed(String),
}

pub struct Editor {
    pub buffer: Buffer,
    pub keymap: KeyMap,
    /// The single-slot kill ring.
    pub kill_buffer: Option<Vec<char>>,
    pub minibuffer: MiniBuffer,
    pub user_config: UserConfig,
    pub commands: CommandRegistry,
    pub hooks: HookRegistry,
    pub mode: InputMode,
    pub should_quit: bool,
    /// Events posted by scripts and the host, drained once per tick.
    pub event_queue: Vec<EditorEvent>,
    pub wrap_mode: LineWrapMode,
    /// First visible visual row.
    pub scroll_y: usize,
    /// First visible column (Truncate mode only).
    pub scroll_x: usize,
    pub viewport_height: usize,
    pub viewport_width: usize,
    /// Prefix bit armed by the previous keystroke.
    pub pending_prefix: Option<usize>,
    pub prefix: PrefixState,
    /// Command awaiting its string argument from the minibuffer.
    pub pending_command: Option<String>,
    /// Cursor position the last `cursor-moved` hook reported.
    pub last_cursor: (usize, usize),
    pub scroll_intent: ScrollIntent,
    pub isearch: Option<ISearchState>,
    /// Hook dispatches for the host to carry out, in firing order.
    pub hook_outbox: Vec<HookRun>,
    /// File operations for the host to carry out, in order.
    pub io_queue: Vec<IoRequest>,
}

/// The argument of a `cursor-moved` hook: `"x,y"` in decimal.
pub open spec fn cursor_moved_arg(x: int, y: int) -> Seq<char> {
    dec_digits(x) + seq![','] + dec_digits(y)
}

impl Editor {
    pub open spec fn wf(&self) -> bool {
        &&& self.buffer.wf()
        &&& registry_wf(&self.hooks)
        &&& prefix_inv(self.prefix)
        &&& (self.pending_prefix is Some ==> self.pending_prefix->0 < 3)
    }

    /// A fresh editor around an empty buffer.
    pub fn new(commands: CommandRegistry, keymap: KeyMap, user_config: UserConfig) -> (r: Editor)
        ensures
            r.wf(),
            r.buffer@ == (BufView {
                lines: seq![Seq::<char>::empty()],
                cx: 0,
                cy: 0,
                mark: None::<(int, int)>,
                path: None::<Seq<char>>,
                modified: false,
                undo: Seq::<UAct>::empty(),
            }),
            r.kill_buffer is None,
            r.mode == InputMode::Normal,
            !r.should_quit,
            r.event_queue@ == Seq::<EditorEvent>::empty(),
            r.wrap_mode == LineWrapMode::Wrap,
            r.scroll_y == 0 && r.scroll_x == 0,
            r.viewport_height == 0 && r.viewport_width == 0,
            r.pending_prefix is None,
            r.prefix == PrefixState::Idle,
            r.pending_command is None,
            r.last_cursor == (0usize, 0usize),
            r.scroll_intent == ScrollIntent::FollowCursor,
            r.isearch is None,
            r.hook_outbox@ == Seq::<HookRun>::empty(),
            r.io_queue@ == Seq::<IoRequest>::empty(),
            r.keymap == keymap,
            r.commands == commands,
            r.user_config == user_config,
            registry_view(&r.hooks) == Seq::<(Seq<char>, Seq<u64>)>::empty(),
    {
        Editor {
            buffer: Buffer::new(),
            keymap,
            kill_buffer: None,
            minibuffer: MiniBuffer::new(),
            user_config,
            commands,
            hooks: HookRegistry::new(),
            mode: InputMode::Normal,
            should_quit: false,
            event_queue: Vec::new(),
            wrap_mode: LineWrapMode::Wrap,
            scroll_y: 0,
            scroll_x: 0,
            viewport_height: 0,
            viewport_width: 0,
            pending_prefix: None,
            prefix: PrefixState::Idle,
            pending_command: None,
            last_cursor: (0, 0),
            scroll_intent: ScrollIntent::FollowCursor,
            isearch: None,
            hook_outbox: Vec::new(),
            io_queue: Vec::new(),
        }
    }

    /// Request a dispatch of hook `name` with `arg`.
    pub fn fire(&mut self, name: &str, arg: Vec<char>)
        ensures
            *final(self) == (Editor {
                hook_outbox: final(self).hook_outbox,
                ..*old(self)
            }),
            outbox_view(final(self).hook_outbox@) == outbox_view(old(self).hook_outbox@).push(
                (name@, arg@),
            ),
    {
        let nm = copy_str(name);
        self.hook_outbox.push(HookRun { name: nm, arg });
        proof {
            assert(outbox_view(self.hook_outbox@) =~= outbox_view(old(self).hook_outbox@).push(
                (name@, self.hook_outbox@.last().arg@),
            ));
        }
    }

    /// Post an event for the next drain.
    pub fn execute(&mut self, ev: EditorEvent)
        ensures
            *final(self) == (Editor { event_queue: final(self).event_queue, ..*old(self) }),
            final(self).event_queue@ == old(self).event_queue@.push(ev),
    {
        self.event_queue.push(ev);
    }

    /// Ask to quit.
    pub fn quit(&mut self)
        ensures
            *final(self) == (Editor { should_quit: true, ..*old(self) }),
    {
        self.should_quit = true;
    }

    /// Store `text` in the kill ring.
    pub fn push_kill(&mut self, text: Vec<char>)
        ensures
            *final(self) == (Editor { kill_buffer: Some(text), ..*old(self) }),
    {
        self.kill_buffer = Some(text);
    }

    /// Switch input modes, announcing the change through `mode-changed`.
    pub fn set_mode(&mut self, mode: InputMode)
        ensures
            final(self).mode == mode,
            old(self).mode == mode ==> *final(self) == *old(self),
            old(self).mode != mode ==> *final(self) == (Editor {
                mode,
                hook_outbox: final(self).hook_outbox,
                ..*old(self)
            }) && outbox_view(final(self).hook_outbox@) == outbox_view(
                old(self).hook_outbox@,
            ).push(
                ("mode-changed"@, if mode == InputMode::Normal {
                    "normal"@
                } else {
                    "minibuffer"@
                }),
            ),
    {
        if !mode_eq(self.mode, mode) {
            self.mode = mode;
            let arg = to_chars(mode.as_str());
            self.fire("mode-changed", arg);
        }
    }

    /// Report the cursor position through `cursor-moved` when it changed
    /// since the last report.
    pub fn emit_cursor_moved(&mut self)
        requires
            old(self).wf(),
        ensures
            final(self).wf(),
            ({
                let cur = (old(self).buffer.cursor_x, old(self).buffer.cursor_y);
                if cur == old(self).last_cursor {
                    *final(self) == *old(self)
                } else {
                    *final(self) == (Editor {
                        last_cursor: cur,
                        hook_outbox: final(self).hook_outbox,
                        ..*old(self)
                    }) && outbox_view(final(self).hook_outbox@) == outbox_view(
                        old(self).hook_outbox@,
                    ).push(("cursor-moved"@, cursor_moved_arg(cur.0 as int, cur.1 as int)))
                }
            }),
    {
        let cx = self.buffer.cursor_x;
        let cy = self.buffer.cursor_y;
        if cx != self.last_cursor.0 || cy != self.last_cursor.1 {
            self.last_cursor = (cx, cy);
            let mut arg = usize_to_chars(cx);
            arg.push(',');
            let ys = usize_to_chars(cy);
            push_all(&mut arg, &ys);
            proof {
                assert(arg@ =~= cursor_moved_arg(cx as int, cy as int));
            }
            self.fire("cursor-moved", arg);
        }
    }

    /// Announce a buffer change through `buffer-changed`, with the
    /// reason as the argument.
    pub fn emit_buffer_changed(&mut self, reason: &str)
        ensures
            *final(self) == (Editor { hook_outbox: final(self).hook_outbox, ..*old(self) }),
            outbox_view(final(self).hook_outbox@) == outbox_view(old(self).hook_outbox@).push(
                ("buffer-changed"@, reason@),
            ),
    {
        let arg = to_chars(reason);
        self.fire("buffer-changed", arg);
    }
}

/// Copy a string slice into an owned string.
pub fn copy_str(s: &str) -> (r: String)
    ensures
        r@ == s@,
{
    String::from_str(s)
}

/// Exec equality of input modes.
pub fn mode_eq(a: InputMode, b: InputMode) -> (r: bool)
    ensures
        r == (a == b),
{
    match (a, b) {
        (InputMode::Normal, InputMode::Normal) => true,
        (InputMode::MiniBuffer, InputMode::MiniBuffer) => true,
        _ => false,
    }
}

} // verus!
