//! Moving whole buffers in and out of text: loading the contents of a
//! file and joining the lines back for saving.
//!
//! Reading splits on `'\n'` and keeps no terminator: a trailing newline
//! does not open one more line, and empty text gives a single empty
//! line.  Saving joins the lines with single newlines and appends no
//! trailing one.  For text in that canonical form the two are exact
//! inverses.

use vstd::prelude::*;

use crate::buffer::{Buffer, BufView, Line, UAct};
use crate::text::{load_parts, join_texts, split_text, texts_of, split_chars, clone_chars,
    lemma_join_take_step};

verus! {

impl Buffer {
    /// Replace the whole buffer with the lines of `text`, remember
    /// `path`, reset the cursor, and clear the mark, the undo stack and
    /// the modified flag.
    pub fn load_text(&mut self, text: &Vec<char>, path: String)
        requires
            old(self).wf(),
        ensures
            final(self).wf(),
            final(self)@ == (BufView {
                lines: load_parts(text@),
                cx: 0,
                cy: 0,
                mark: None::<(int, int)>,
                path: Some(path@),
                modified: false,
                undo: Seq::<UAct>::empty(),
            }),
            final(self).visual.dirty,
    {
        let mut body = clone_chars(text);
        if body.len() > 0 && body[body.len() - 1] == '\n' {
            let _ = body.pop();
            proof {
                assert(body@ =~= text@.take(text@.len() - 1));
            }
        }
        let parts = split_chars(&body);
        let ghost p = load_parts(text@);
        proof {
            assert(texts_of(parts@) == p);
        }
        let mut lines: Vec<Line> = Vec::new();
        let np = parts.len();
        let mut i: usize = 0;
        while i < np
            invariant
                0 <= i <= np,
                np == parts@.len(),
                texts_of(parts@) == p,
                lines@.len() == i,
                crate::edit::line_texts(lines@) == p.take(i as int),
                forall|k: int|
                    0 <= k < lines@.len() ==> (#[trigger] lines@[k]).char_len
                        == lines@[k].text@.len(),
            decreases np - i,
        {
            let t = clone_chars(&parts[i]);
            let cl = t.len();
            lines.push(Line { text: t, char_len: cl, visual_height: 1, dirty: true });
            proof {
                assert(crate::edit::line_texts(lines@) =~= p.take(i + 1 as int));
            }
            i = i + 1;
        }
        proof {
            assert(p.take(np as int) =~= p);
            crate::text::lemma_split_text_len(body@);
        }
        self.lines = lines;
        self.cursor_x = 0;
        self.cursor_y = 0;
        self.mark = None;
        self.file_path = Some(path);
        self.modified = false;
        self.undo_stack = Vec::new();
        self.visual.dirty = true;
        proof {
            assert(self@.undo =~= Seq::<UAct>::empty());
            assert(self@ =~= (BufView {
                lines: p,
                cx: 0,
                cy: 0,
                mark: None::<(int, int)>,
                path: Some(self@.path->0),
                modified: false,
                undo: Seq::<UAct>::empty(),
            }));
        }
    }

    /// Start over with a single empty line — the contents a missing file
    /// stands for — remembering `path`.
    pub fn load_missing(&mut self, path: String)
        requires
            old(self).wf(),
        ensures
            final(self).wf(),
            final(self)@ == (BufView {
                lines: seq![Seq::<char>::empty()],
                cx: 0,
                cy: 0,
                mark: None::<(int, int)>,
                path: Some(path@),
                modified: false,
                undo: Seq::<UAct>::empty(),
            }),
            final(self).visual.dirty,
    {
        let empty: Vec<char> = Vec::new();
        proof {
            crate::text::lemma_find_nl_none(empty@);
            assert(load_parts(empty@) =~= seq![Seq::<char>::empty()]);
            assert(load_parts(empty@)[0] =~= Seq::<char>::empty());
        }
        self.load_text(&empty, path);
    }

    /// The whole buffer as one text, lines joined by `'\n'` with no
    /// trailing newline — exactly what saving writes out.
    pub fn contents(&self) -> (r: Vec<char>)
        requires
            self.wf(),
        ensures
            r@ == join_texts(self@.lines),
    {
        let n = self.lines.len();
        let mut out = clone_chars(&self.lines[0].text);
        proof {
            assert(self@.lines.take(1) =~= seq![self@.lines[0]]);
            assert(join_texts(self@.lines.take(1)) == self@.lines[0]);
        }
        let mut k: usize = 1;
        while k < n
            invariant
                1 <= k <= n,
                self.wf(),
                n == self@.lines.len(),
                out@ == join_texts(self@.lines.take(k as int)),
            decreases n - k,
        {
            out.push('\n');
            out.extend_from_slice(self.lines[k].text.as_slice());
            proof {
                lemma_join_take_step(self@.lines, k as int);
                assert(out@ =~= join_texts(self@.lines.take(k as int)) + seq!['\n']
                    + self@.lines[k as int]);
            }
            k = k + 1;
        }
        proof {
            assert(self@.lines.take(n as int) =~= self@.lines);
        }
        out
    }

    /// Whether the buffer changed since it was last loaded or saved.
    pub fn is_modified(&self) -> (r: bool)
        ensures
            r == self@.modified,
    {
        self.modified
    }

    /// Number of entries on the undo stack.
    pub fn undo_depth(&self) -> (r: usize)
        ensures
            r == self@.undo.len(),
    {
        self.undo_stack.len()
    }

    /// Record a successful save to `path`: remember it and clear the
    /// modified flag.
    pub fn note_saved(&mut self, path: String)
        requires
            old(self).wf(),
        ensures
            final(self).wf(),
            final(self)@ == (BufView {
                path: Some(path@),
                modified: false,
                ..old(self)@
            }),
            final(self).lines == old(self).lines,
            final(self).visual == old(self).visual,
            final(self).undo_stack == old(self).undo_stack,
    {
        self.file_path = Some(path);
        self.modified = false;
    }
}

/// Loading canonical text and saving it back is the identity: for text
/// whose last line is non-empty — no trailing newline — the lines read
/// in join back to exactly the original bytes.
pub proof fn lemma_load_save_round_trip(t: Seq<char>)
    requires
        t.len() == 0 || t[t.len() - 1] != '\n',
    ensures
        join_texts(load_parts(t)) == t,
{
    crate::text::lemma_join_split(t);
}

} // verus!
