//! The incremental-search session: started from the minibuffer, it moves
//! the cursor to each match as the query grows, steps to further matches
//! on demand, and restores the original cursor position on abort.

use vstd::prelude::*;

use crate::buffer::BufView;
use crate::editor::{Editor, ISearchDir, ISearchState, InputMode};
use crate::minibuffer::MiniBufferMode;
use crate::search::{match_at, pos_le, pos_lt, first_match_from, no_match_from, last_match_upto, no_match_upto};
use crate::text::clone_chars;

verus! {

/// Index just past the first `": "` in a minibuffer text, or the text's
/// length when there is none — where the query after the prompt starts.
pub open spec fn after_prompt(t: Seq<char>) -> int
    decreases t.len(),
{
    if t.len() < 2 {
        t.len() as int
    } else if t[0] == ':' && t[1] == ' ' {
        2
    } else {
        1 + after_prompt(t.drop_first())
    }
}

pub proof fn lemma_after_prompt_bounds(t: Seq<char>)
    ensures
        0 <= after_prompt(t) <= t.len(),
    decreases t.len(),
{
    if t.len() >= 2 && !(t[0] == ':' && t[1] == ' ') {
        lemma_after_prompt_bounds(t.drop_first());
    }
}

/// The query part of a minibuffer text: everything after the first
/// `": "`, or empty when there is none.
pub open spec fn query_of(t: Seq<char>) -> Seq<char> {
    t.skip(after_prompt(t))
}

/// Extract the query from a minibuffer text.
pub fn query_from(t: &Vec<char>) -> (r: Vec<char>)
    ensures
        r@ == query_of(t@),
{
    let ghost tv = t@;
    let n = t.len();
    let mut i: usize = 0;
    proof {
        lemma_after_prompt_bounds(tv);
        assert(tv.skip(0) =~= tv);
    }
    while n - i > 1 && !(t[i] == ':' && t[i + 1] == ' ')
        invariant
            0 <= i <= n,
            n == tv.len(),
            t@ == tv,
            after_prompt(tv) == i + after_prompt(tv.skip(i as int)),
        decreases n - i,
    {
        proof {
            assert(tv.skip(i as int).drop_first() =~= tv.skip(i + 1 as int));
        }
        i = i + 1;
    }
    if n - i > 1 {
        proof {
            assert(after_prompt(tv.skip(i as int)) == 2);
        }
        crate::text::drop_prefix(t, i + 2)
    } else {
        proof {
            assert(tv.skip(i as int).len() < 2);
            assert(after_prompt(tv.skip(i as int)) == tv.skip(i as int).len());
            assert(after_prompt(tv) == n);
        }
        crate::text::drop_prefix(t, n)
    }
}

} // verus!

verus! {

/// What one search step does to the session and the cursor: on a hit the
/// cursor and the remembered match move there; on a miss both stay.
pub open spec fn search_step_post(
    pre: &Editor,
    post: &Editor,
    q: Seq<char>,
    sx: int,
    sy: int,
    dir: ISearchDir,
) -> bool {
    let lines = pre.buffer@.lines;
    &&& post.isearch is Some
    &&& post.isearch->0.query@ == q
    &&& post.isearch->0.dir == dir
    &&& post.isearch->0.original_x == pre.isearch->0.original_x
    &&& post.isearch->0.original_y == pre.isearch->0.original_y
    &&& post.buffer@.lines == lines
    &&& (match dir {
        ISearchDir::Forward => {
            if no_match_from(lines, q, sx, sy) {
                post.buffer@.cx == pre.buffer@.cx && post.buffer@.cy == pre.buffer@.cy
                    && post.isearch->0.last_match == pre.isearch->0.last_match
            } else {
                first_match_from(lines, q, sx, sy, post.buffer@.cx, post.buffer@.cy)
                    && post.isearch->0.last_match == Some(
                    (post.buffer.cursor_x, post.buffer.cursor_y),
                )
            }
        },
        ISearchDir::Backward => {
            if no_match_upto(lines, q, sx, sy) {
                post.buffer@.cx == pre.buffer@.cx && post.buffer@.cy == pre.buffer@.cy
                    && post.isearch->0.last_match == pre.isearch->0.last_match
            } else {
                last_match_upto(lines, q, sx, sy, post.buffer@.cx, post.buffer@.cy)
                    && post.isearch->0.last_match == Some(
                    (post.buffer.cursor_x, post.buffer.cursor_y),
                )
            }
        },
    })
}

/// The cursor back at the (clamped) position the search started from.
pub open spec fn restored_to_original(pre: &Editor, post: &Editor) -> bool {
    let n = pre.buffer@.lines.len();
    let oy: int = if pre.isearch->0.original_y < n {
        pre.isearch->0.original_y as int
    } else {
        n - 1
    };
    let ox: int = if pre.isearch->0.original_x <= pre.buffer@.lines[oy].len() {
        pre.isearch->0.original_x as int
    } else {
        pre.buffer@.lines[oy].len() as int
    };
    &&& post.buffer@.cx == ox
    &&& post.buffer@.cy == oy
}

/// A step to the next match in direction `dir`, starting just past the
/// remembered match (or at the cursor when none is remembered); at the
/// very start of the buffer a backward step has nowhere left to go and
/// only the session's direction may change.
pub open spec fn next_step_post(pre: &Editor, post: &Editor, q: Seq<char>, dir: ISearchDir) -> bool {
    let st = pre.isearch->0;
    let fx: int = match st.last_match {
        Some(p) => p.0 as int,
        None => pre.buffer@.cx,
    };
    let fy: int = match st.last_match {
        Some(p) => p.1 as int,
        None => pre.buffer@.cy,
    };
    let n = pre.buffer@.lines.len();
    let syc: int = if fy < n {
        fy
    } else {
        n - 1
    };
    match dir {
        ISearchDir::Forward => {
            let sx: int = if fx < usize::MAX {
                fx + 1
            } else {
                fx
            };
            search_step_post(pre, post, q, sx, syc, dir)
        },
        ISearchDir::Backward => {
            if fx > 0 {
                search_step_post(pre, post, q, fx - 1, syc, dir)
            } else if fy > 0 && fy - 1 < n {
                search_step_post(pre, post, q, pre.buffer@.lines[fy - 1].len() as int, fy - 1, dir)
            } else {
                &&& *post == (Editor { isearch: post.isearch, ..*pre })
                &&& post.isearch is Some
                &&& post.isearch->0.query@ == q
                &&& post.isearch->0.dir == dir
                &&& post.isearch->0.last_match == st.last_match
                &&& post.isearch->0.original_x == st.original_x
                &&& post.isearch->0.original_y == st.original_y
            }
        },
    }
}

impl Editor {
    /// Run one search from `(sx, sy)` in direction `dir` with query `q`,
    /// updating the session and the cursor on a hit.
    fn isearch_step(&mut self, q: &Vec<char>, sx: usize, sy: usize, dir: ISearchDir)
        requires
            old(self).wf(),
            old(self).isearch is Some,
            sy < old(self).buffer@.lines.len(),
            q@.len() > 0,
        ensures
            final(self).wf(),
            final(self).buffer@ == (BufView {
                cx: final(self).buffer@.cx,
                cy: final(self).buffer@.cy,
                ..old(self).buffer@
            }),
            search_step_post(old(self), final(self), q@, sx as int, sy as int, dir),
            final(self).buffer.undo_stack == old(self).buffer.undo_stack,
            *final(self) == (Editor {
                buffer: final(self).buffer,
                isearch: final(self).isearch,
                scroll_x: final(self).scroll_x,
                scroll_y: final(self).scroll_y,
                ..*old(self)
            }),
    {
        let found = match dir {
            ISearchDir::Forward => self.buffer.search_forward(q, sx, sy),
            ISearchDir::Backward => self.buffer.search_backward(q, sx, sy),
        };
        let st = self.isearch.take();
        let (ox, oy, lm) = match st {
            Some(s) => (s.original_x, s.original_y, s.last_match),
            None => (0, 0, None),
        };
        match found {
            Some((x, y)) => {
                self.isearch = Some(ISearchState {
                    original_x: ox,
                    original_y: oy,
                    query: clone_chars(q),
                    dir,
                    last_match: Some((x, y)),
                });
                self.buffer.cursor_x = x;
                self.buffer.cursor_y = y;
                proof {
                    assert(match_at(self.buffer@.lines, q@, x as int, y as int));
                    assert(self.buffer@ =~= (BufView {
                        cx: x as int,
                        cy: y as int,
                        ..old(self).buffer@
                    }));
                }
                self.ensure_cursor_visible();
            },
            None => {
                self.isearch = Some(ISearchState {
                    original_x: ox,
                    original_y: oy,
                    query: clone_chars(q),
                    dir,
                    last_match: lm,
                });
                proof {
                    assert(self.buffer@ =~= (BufView {
                        cx: self.buffer@.cx,
                        cy: self.buffer@.cy,
                        ..old(self).buffer@
                    }));
                }
            },
        }
    }

    /// Start an incremental search, or — when a session is already
    /// running — turn it in the given direction and step once.
    pub fn isearch_start(&mut self, dir: ISearchDir)
        requires
            old(self).wf(),
        ensures
            final(self).wf(),
            *final(self) == (Editor {
                buffer: final(self).buffer,
                isearch: final(self).isearch,
                scroll_x: final(self).scroll_x,
                scroll_y: final(self).scroll_y,
                minibuffer: final(self).minibuffer,
                mode: final(self).mode,
                ..*old(self)
            }),
            final(self).buffer@ == (crate::buffer::BufView {
                cx: final(self).buffer@.cx,
                cy: final(self).buffer@.cy,
                ..old(self).buffer@
            }),
            final(self).buffer.undo_stack == old(self).buffer.undo_stack,
            old(self).isearch is None ==> *final(self) == (Editor {
                isearch: Some(
                    ISearchState {
                        original_x: old(self).buffer.cursor_x,
                        original_y: old(self).buffer.cursor_y,
                        query: final(self).isearch->0.query,
                        dir,
                        last_match: None,
                    },
                ),
                mode: InputMode::MiniBuffer,
                minibuffer: final(self).minibuffer,
                ..*old(self)
            }) && final(self).isearch->0.query@ == Seq::<char>::empty() && final(self).minibuffer.active && final(self).minibuffer.mode == (match dir {
                ISearchDir::Forward => MiniBufferMode::ISearchForward,
                ISearchDir::Backward => MiniBufferMode::ISearchBackward,
            }) && final(self).minibuffer.text@ == (match dir {
                ISearchDir::Forward => "I-search: "@,
                ISearchDir::Backward => "I-search backward: "@,
            }),
            old(self).isearch is Some ==> ({
                let st = old(self).isearch->0;
                let q = st.query@;
                &&& final(self).isearch is Some
                &&& final(self).isearch->0.dir == dir
                &&& final(self).isearch->0.original_x == st.original_x
                &&& final(self).isearch->0.original_y == st.original_y
                &&& final(self).isearch->0.query@ == q
                &&& (q.len() == 0 ==> *final(self) == (Editor {
                    isearch: final(self).isearch,
                    ..*old(self)
                }) && final(self).isearch->0.last_match == st.last_match)
                &&& (q.len() > 0 ==> next_step_post(old(self), final(self), q, dir))
            }),
    {
        if self.isearch.is_none() {
            self.isearch = Some(ISearchState {
                original_x: self.buffer.cursor_x,
                original_y: self.buffer.cursor_y,
                query: Vec::new(),
                dir,
                last_match: None,
            });
            self.mode = InputMode::MiniBuffer;
            match dir {
                ISearchDir::Forward => {
                    self.minibuffer.activate("I-search: ", MiniBufferMode::ISearchForward);
                },
                ISearchDir::Backward => {
                    self.minibuffer.activate(
                        "I-search backward: ",
                        MiniBufferMode::ISearchBackward,
                    );
                },
            }
        } else {
            let st = self.isearch.take();
            match st {
                Some(s) => {
                    self.isearch = Some(ISearchState {
                        original_x: s.original_x,
                        original_y: s.original_y,
                        query: s.query,
                        dir,
                        last_match: s.last_match,
                    });
                },
                None => {},
            }
            self.isearch_next();
        }
    }

    /// Re-read the query from the minibuffer and search again: an empty
    /// query restores the cursor to where the search started; otherwise
    /// the search runs from the last match (or the cursor) in the
    /// session's direction.
    pub fn isearch_update(&mut self)
        requires
            old(self).wf(),
        ensures
            final(self).wf(),
            old(self).isearch is None ==> *final(self) == *old(self),
            *final(self) == (Editor {
                buffer: final(self).buffer,
                isearch: final(self).isearch,
                scroll_x: final(self).scroll_x,
                scroll_y: final(self).scroll_y,
                ..*old(self)
            }),
            final(self).buffer@ == (crate::buffer::BufView {
                cx: final(self).buffer@.cx,
                cy: final(self).buffer@.cy,
                ..old(self).buffer@
            }),
            final(self).buffer.undo_stack == old(self).buffer.undo_stack,
            old(self).isearch is Some ==> final(self).isearch is Some && final(self).isearch->0.query@ == query_of(old(self).minibuffer.text@),
            old(self).isearch is Some ==> ({
                let q = query_of(old(self).minibuffer.text@);
                let st = old(self).isearch->0;
                &&& (q.len() == 0 ==> restored_to_original(old(self), final(self)) && final(self).isearch->0.last_match == st.last_match && final(self).isearch->0.dir == st.dir
                    && final(self).isearch->0.original_x == st.original_x && final(self).isearch->0.original_y == st.original_y)
                &&& (q.len() > 0 ==> ({
                    let fx: int = match st.last_match {
                        Some(p) => p.0 as int,
                        None => old(self).buffer@.cx,
                    };
                    let fy: int = match st.last_match {
                        Some(p) => p.1 as int,
                        None => old(self).buffer@.cy,
                    };
                    let n = old(self).buffer@.lines.len();
                    let syc: int = if fy < n {
                        fy
                    } else {
                        n - 1
                    };
                    search_step_post(old(self), final(self), q, fx, syc, st.dir)
                }))
            }),
    {
        if self.isearch.is_none() {
            return ;
        }
        let mbtext = clone_chars(self.minibuffer.get());
        let q = query_from(&mbtext);
        if q.len() == 0 {
            let st = self.isearch.take();
            match st {
                Some(s) => {
                    let n = self.buffer.lines.len();
                    let oy = if s.original_y < n {
                        s.original_y
                    } else {
                        n - 1
                    };
                    let ll = self.buffer.lines[oy].char_len;
                    let ox = if s.original_x <= ll {
                        s.original_x
                    } else {
                        ll
                    };
                    self.buffer.cursor_x = ox;
                    self.buffer.cursor_y = oy;
                    self.isearch = Some(ISearchState {
                        original_x: s.original_x,
                        original_y: s.original_y,
                        query: q,
                        dir: s.dir,
                        last_match: s.last_match,
                    });
                },
                None => {},
            }
            return ;
        }
        let (sx, sy, dir) = match &self.isearch {
            Some(s) => match s.last_match {
                Some((lx, ly)) => (lx, ly, s.dir),
                None => (self.buffer.cursor_x, self.buffer.cursor_y, s.dir),
            },
            None => (0, 0, ISearchDir::Forward),
        };
        let n = self.buffer.lines.len();
        let sy2 = if sy < n {
            sy
        } else {
            n - 1
        };
        self.isearch_step(&q, sx, sy2, dir);
    }

    /// Step to the next match in the session's direction, past the last
    /// match.
    pub fn isearch_next(&mut self)
        requires
            old(self).wf(),
        ensures
            final(self).wf(),
            old(self).isearch is None ==> *final(self) == *old(self),
            *final(self) == (Editor {
                buffer: final(self).buffer,
                isearch: final(self).isearch,
                scroll_x: final(self).scroll_x,
                scroll_y: final(self).scroll_y,
                ..*old(self)
            }),
            final(self).buffer@ == (crate::buffer::BufView {
                cx: final(self).buffer@.cx,
                cy: final(self).buffer@.cy,
                ..old(self).buffer@
            }),
            final(self).buffer.undo_stack == old(self).buffer.undo_stack,
            old(self).isearch is Some && old(self).isearch->0.query@.len() == 0 ==> *final(self)
                == *old(self),
            old(self).isearch is Some && old(self).isearch->0.query@.len() > 0 ==> next_step_post(
                old(self),
                final(self),
                old(self).isearch->0.query@,
                old(self).isearch->0.dir,
            ),
    {
        let (q, dir, lm) = match &self.isearch {
            Some(s) => {
                if s.query.len() == 0 {
                    return ;
                }
                (clone_chars(&s.query), s.dir, s.last_match)
            },
            None => {
                return ;
            },
        };
        let (cx, cy) = (self.buffer.cursor_x, self.buffer.cursor_y);
        let (fx, fy) = match lm {
            Some((lx, ly)) => (lx, ly),
            None => (cx, cy),
        };
        let n = self.buffer.lines.len();
        match dir {
            ISearchDir::Forward => {
                let sy = if fy < n {
                    fy
                } else {
                    n - 1
                };
                let sx = match fx.checked_add(1) {
                    Some(v) => v,
                    None => fx,
                };
                self.isearch_step(&q, sx, sy, dir);
            },
            ISearchDir::Backward => {
                if fx > 0 {
                    let sy = if fy < n {
                        fy
                    } else {
                        n - 1
                    };
                    self.isearch_step(&q, fx - 1, sy, dir);
                } else if fy > 0 && fy - 1 < n {
                    let ll = self.buffer.lines[fy - 1].char_len;
                    self.isearch_step(&q, ll, fy - 1, dir);
                }
            },
        }
    }

    /// End the session, keeping the cursor where the search put it.
    pub fn isearch_finish(&mut self)
        requires
            old(self).wf(),
        ensures
            final(self).wf(),
            *final(self) == (Editor {
                isearch: None,
                mode: InputMode::Normal,
                minibuffer: final(self).minibuffer,
                ..*old(self)
            }),
            final(self).minibuffer.text@ == Seq::<char>::empty(),
            !final(self).minibuffer.active,
            final(self).minibuffer.mode == MiniBufferMode::Inactive,
    {
        self.isearch = None;
        self.minibuffer.deactivate();
        self.mode = InputMode::Normal;
    }

    /// Abort the session: restore the cursor to where the search started
    /// (clamped into the buffer), then end it.
    pub fn isearch_abort(&mut self)
        requires
            old(self).wf(),
        ensures
            final(self).wf(),
            *final(self) == (Editor {
                buffer: final(self).buffer,
                isearch: None,
                mode: InputMode::Normal,
                minibuffer: final(self).minibuffer,
                ..*old(self)
            }),
            final(self).buffer@ == (BufView {
                cx: final(self).buffer@.cx,
                cy: final(self).buffer@.cy,
                ..old(self).buffer@
            }),
            old(self).isearch is Some ==> ({
                let oy: int = if old(self).isearch->0.original_y < old(self).buffer@.lines.len() {
                    old(self).isearch->0.original_y as int
                } else {
                    old(self).buffer@.lines.len() - 1
                };
                let ox: int = if old(self).isearch->0.original_x
                    <= old(self).buffer@.lines[oy].len() {
                    old(self).isearch->0.original_x as int
                } else {
                    old(self).buffer@.lines[oy].len() as int
                };
                final(self).buffer@.cx == ox && final(self).buffer@.cy == oy
            }),
            old(self).isearch is None ==> final(self).buffer@ == old(self).buffer@,
            final(self).buffer.undo_stack == old(self).buffer.undo_stack,
            !final(self).minibuffer.active,
    {
        let st = self.isearch.take();
        match st {
            Some(s) => {
                let n = self.buffer.lines.len();
                let oy = if s.original_y < n {
                    s.original_y
                } else {
                    n - 1
                };
                let ll = self.buffer.lines[oy].char_len;
                let ox = if s.original_x <= ll {
                    s.original_x
                } else {
                    ll
                };
                self.buffer.cursor_x = ox;
                self.buffer.cursor_y = oy;
            },
            None => {},
        }
        self.minibuffer.deactivate();
        self.mode = InputMode::Normal;
    }
}

} // verus!
