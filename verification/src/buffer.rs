//! The text buffer: an ordered, never-empty sequence of lines with a
//! character-indexed cursor, an optional mark, an undo stack and a cache
//! of visual-layout data.
//!
//! Contracts speak about the buffer through its abstract state [`BufView`]:
//! the line texts as sequences of characters, the cursor, the mark, the
//! file path, the modified flag and the undo stack.  The visual cache is
//! kept out of the view; its validity has its own predicate next to the
//! functions that maintain it.

use vstd::prelude::*;

use crate::layout::{LineWrapMode, spec_visual_height};

verus! {

/// One logical line of the buffer.
#[derive(Clone)]
pub struct Line {
    /// The characters of the line; never contains a newline.
    pub text: Vec<char>,
    /// Cached character count; well-formed buffers keep it equal to
    /// `text.len()` at all times.
    pub char_len: usize,
    /// Cached number of screen rows; meaningful only while the buffer's
    /// visual cache is valid.
    pub visual_height: usize,
    /// Set when the line changed since the visual cache was last built.
    pub dirty: bool,
}

/// One undoable primitive.  Each variant records the location where the
/// inverse operation must be applied.
#[derive(Clone)]
pub enum UndoAction {
    /// Text (possibly spanning lines, with `'\n'` separators) was inserted
    /// at `(x, y)`; the inverse deletes it.
    Insert { x: usize, y: usize, text: Vec<char> },
    /// Text was deleted at `(x, y)`; the inverse re-inserts it.
    Delete { x: usize, y: usize, text: Vec<char> },
    /// Line `y` was split at column `x`; the inverse joins the two lines.
    InsertNewline { x: usize, y: usize },
    /// Line `y + 1` was joined onto line `y` at column `x`; the inverse
    /// splits them again.
    JoinLine { x: usize, y: usize },
}

/// Spec-level mirror of [`UndoAction`].
pub enum UAct {
    Insert { x: int, y: int, text: Seq<char> },
    Delete { x: int, y: int, text: Seq<char> },
    InsertNewline { x: int, y: int },
    JoinLine { x: int, y: int },
}

impl View for UndoAction {
    type V = UAct;

    open spec fn view(&self) -> UAct {
        match self {
            UndoAction::Insert { x, y, text } => UAct::Insert {
                x: *x as int,
                y: *y as int,
                text: text@,
            },
            UndoAction::Delete { x, y, text } => UAct::Delete {
                x: *x as int,
                y: *y as int,
                text: text@,
            },
            UndoAction::InsertNewline { x, y } => UAct::InsertNewline {
                x: *x as int,
                y: *y as int,
            },
            UndoAction::JoinLine { x, y } => UAct::JoinLine { x: *x as int, y: *y as int },
        }
    }
}

/// Cache of visual-layout data: the prefix sum over per-line visual
/// heights, the layout key it was built for, and a global dirty flag.
#[derive(Clone)]
pub struct VisualMetrics {
    /// `prefix_sum[i]` is the total visual height of lines `0 .. i`.
    pub prefix_sum: Vec<usize>,
    /// Viewport width the cache was last built for.
    pub key_width: usize,
    /// Wrap mode the cache was last built for.
    pub key_wrap: LineWrapMode,
    /// Set by every buffer mutation; cleared by a rebuild.
    pub dirty: bool,
}

#[derive(Clone)]
pub struct Buffer {
    pub lines: Vec<Line>,
    /// Cursor column, in characters; `0 <= cursor_x <= len(lines[cursor_y])`.
    pub cursor_x: usize,
    /// Cursor line; `0 <= cursor_y < len(lines)`.
    pub cursor_y: usize,
    /// Optional mark, the other end of the selection.
    pub mark: Option<(usize, usize)>,
    /// Path of the file the buffer was loaded from or saved to.
    pub file_path: Option<String>,
    /// Set by every text mutation; cleared when the host saves the buffer.
    pub modified: bool,
    pub undo_stack: Vec<UndoAction>,
    pub visual: VisualMetrics,
}

/// Abstract state of a buffer.
#[verifier::ext_equal]
pub struct BufView {
    pub lines: Seq<Seq<char>>,
    pub cx: int,
    pub cy: int,
    pub mark: Option<(int, int)>,
    pub path: Option<Seq<char>>,
    pub modified: bool,
    pub undo: Seq<UAct>,
}

impl BufView {
    /// The cursor sits on an existing line, at or before its end, and the
    /// buffer holds at least one line.
    pub open spec fn wf(self) -> bool {
        &&& self.lines.len() >= 1
        &&& 0 <= self.cy < self.lines.len()
        &&& 0 <= self.cx <= self.lines[self.cy].len()
    }
}

impl View for Buffer {
    type V = BufView;

    open spec fn view(&self) -> BufView {
        BufView {
            lines: self.lines@.map(|i: int, l: Line| l.text@),
            cx: self.cursor_x as int,
            cy: self.cursor_y as int,
            mark: match self.mark {
                Some((x, y)) => Some((x as int, y as int)),
                None => None,
            },
            path: match &self.file_path {
                Some(p) => Some(p@),
                None => None,
            },
            modified: self.modified,
            undo: self.undo_stack@.map(|i: int, a: UndoAction| a@),
        }
    }
}

/// Fields a pure cursor motion leaves untouched, stated over the concrete
/// representation so that callers also keep the visual cache.
pub open spec fn same_except_cursor(a: &Buffer, b: &Buffer) -> bool {
    &&& a.lines == b.lines
    &&& a.mark == b.mark
    &&& a.file_path == b.file_path
    &&& a.modified == b.modified
    &&& a.undo_stack == b.undo_stack
    &&& a.visual == b.visual
}

/// Total visual height of the first `i` lines at width `w`.
pub open spec fn sum_heights(lines: Seq<Seq<char>>, w: nat, wrap: LineWrapMode, i: int) -> nat
    decreases i when i >= 0
{
    if i <= 0 {
        0
    } else {
        sum_heights(lines, w, wrap, i - 1) + spec_visual_height(lines[i - 1].len(), w, wrap)
    }
}

impl Buffer {
    /// The visual cache is sound for layout key `(w, wrap)`: per-line
    /// heights and the prefix sum are exactly the mathematical ones.
    pub open spec fn visuals_exact(&self, w: nat, wrap: LineWrapMode) -> bool {
        &&& self.visual.prefix_sum@.len() == self.lines@.len()
        &&& forall|i: int|
            0 <= i < self.lines@.len() ==> (#[trigger] self.lines@[i]).visual_height
                == spec_visual_height(self@.lines[i].len(), w, wrap)
        &&& forall|i: int|
            0 <= i < self.visual.prefix_sum@.len() ==> (#[trigger] self.visual.prefix_sum@[i])
                == sum_heights(self@.lines, w, wrap, i)
    }

    /// The visual cache is valid for layout key `(w, wrap)`.
    pub open spec fn visuals_valid(&self, w: nat, wrap: LineWrapMode) -> bool {
        &&& !self.visual.dirty
        &&& self.visual.key_width == w
        &&& self.visual.key_wrap == wrap
        &&& self.visuals_exact(w, wrap)
    }

    /// Well-formedness: the view is well-formed, every cached character
    /// count agrees with the line it belongs to, and a clean visual cache
    /// is sound for its stored key.
    pub open spec fn wf(&self) -> bool {
        &&& self@.wf()
        &&& forall|i: int|
            0 <= i < self.lines@.len() ==> (#[trigger] self.lines@[i]).char_len
                == self.lines@[i].text@.len()
        &&& (!self.visual.dirty ==> self.visuals_valid(
            self.visual.key_width as nat,
            self.visual.key_wrap,
        ))
    }

    /// Character count of line `y`.
    pub open spec fn line_len(&self, y: int) -> int {
        self@.lines[y].len() as int
    }

    /// A fresh buffer: a single empty line, cursor at the origin.
    pub fn new() -> (b: Buffer)
        ensures
            b.wf(),
            b@ == (BufView {
                lines: seq![Seq::<char>::empty()],
                cx: 0,
                cy: 0,
                mark: None::<(int, int)>,
                path: None::<Seq<char>>,
                modified: false,
                undo: Seq::<UAct>::empty(),
            }),
            b.visual.dirty,
    {
        let mut lines: Vec<Line> = Vec::new();
        lines.push(Line { text: Vec::new(), char_len: 0, visual_height: 1, dirty: true });
        let b = Buffer {
            lines,
            cursor_x: 0,
            cursor_y: 0,
            mark: None,
            file_path: None,
            modified: false,
            undo_stack: Vec::new(),
            visual: VisualMetrics {
                prefix_sum: Vec::new(),
                key_width: 0,
                key_wrap: LineWrapMode::Wrap,
                dirty: true,
            },
        };
        proof {
            assert(b@.lines =~= seq![Seq::<char>::empty()]);
            assert(b@.undo =~= Seq::<UAct>::empty());
            assert(b@ =~= (BufView {
                lines: seq![Seq::<char>::empty()],
                cx: 0,
                cy: 0,
                mark: None::<(int, int)>,
                path: None::<Seq<char>>,
                modified: false,
                undo: Seq::<UAct>::empty(),
            }));
        }
        b
    }

    /// Number of characters in the current line.
    pub fn current_line_len(&self) -> (n: usize)
        requires
            self.wf(),
        ensures
            n == self@.lines[self@.cy].len(),
    {
        self.lines[self.cursor_y].char_len
    }
}

} // verus!
