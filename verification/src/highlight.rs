//! Highlight regions the renderer paints over the text: the selection
//! and the matches of an incremental search.  The host maps each group
//! to a concrete style; the core only computes where highlights lie.

use vstd::prelude::*;

use crate::editor::Editor;
use crate::region::spec_selection;
use crate::search::match_at;
use crate::text::clone_chars;

verus! {

#[derive(Clone, Copy, PartialEq, Eq, Structural, Debug)]
pub enum HighlightPriority {
    Low,
    Normal,
    High,
    Critical,
}

/// Rank used to pick the winning highlight where several overlap.
pub open spec fn spec_priority_rank(p: HighlightPriority) -> int {
    match p {
        HighlightPriority::Low => 0,
        HighlightPriority::Normal => 1,
        HighlightPriority::High => 2,
        HighlightPriority::Critical => 3,
    }
}

pub fn priority_rank(p: HighlightPriority) -> (r: u8)
    ensures
        r as int == spec_priority_rank(p),
{
    match p {
        HighlightPriority::Low => 0,
        HighlightPriority::Normal => 1,
        HighlightPriority::High => 2,
        HighlightPriority::Critical => 3,
    }
}

#[derive(Clone, Copy, PartialEq, Eq, Structural, Debug)]
pub enum HighlightGroup {
    ISearch,
    ISearchCurrent,
    Selection,
}

/// One highlighted stretch of one buffer line.
#[derive(Clone, Copy, PartialEq, Eq, Structural, Debug)]
pub struct Highlight {
    pub x: usize,
    pub y: usize,
    pub len: usize,
    pub group: HighlightGroup,
    pub priority: HighlightPriority,
}

impl Highlight {
    /// Whether the highlight covers position `(x, y)`.
    pub fn covers(&self, x: usize, y: usize) -> (r: bool)
        ensures
            r == spec_covers(*self, x as int, y as int),
    {
        self.y == y && x >= self.x && x - self.x < self.len
    }
}

pub open spec fn spec_covers(h: Highlight, x: int, y: int) -> bool {
    h.y == y && h.x <= x && x < h.x + h.len
}

/// The highlights the renderer consults, in no particular order.
pub struct RenderState {
    pub highlights: Vec<Highlight>,
}

impl RenderState {
    pub fn new() -> (r: RenderState)
        ensures
            r.highlights@ == Seq::<Highlight>::empty(),
    {
        RenderState { highlights: Vec::new() }
    }

    /// Drop every highlight of one group.
    pub fn clear_group(&mut self, group: HighlightGroup)
        ensures
            forall|i: int|
                0 <= i < final(self).highlights@.len() ==> (#[trigger] final(self).highlights@[
                    i
                ]).group != group,
            forall|i: int|
                0 <= i < final(self).highlights@.len() ==> old(self).highlights@.contains(
                    #[trigger] final(self).highlights@[i],
                ),
            forall|i: int|
                0 <= i < old(self).highlights@.len() && (#[trigger] old(self).highlights@[
                    i
                ]).group != group ==> final(self).highlights@.contains(old(self).highlights@[i]),
    {
        let n = self.highlights.len();
        let mut out: Vec<Highlight> = Vec::new();
        let mut i: usize = 0;
        while i < n
            invariant
                0 <= i <= n,
                n == self.highlights@.len(),
                forall|j: int|
                    0 <= j < out@.len() ==> (#[trigger] out@[j]).group != group,
                forall|j: int|
                    0 <= j < out@.len() ==> self.highlights@.contains(#[trigger] out@[j]),
                forall|j: int|
                    0 <= j < i && (#[trigger] self.highlights@[j]).group != group ==> out@.contains(
                        self.highlights@[j],
                    ),
            decreases n - i,
        {
            let h = self.highlights[i];
            let keep = match (h.group, group) {
                (HighlightGroup::ISearch, HighlightGroup::ISearch) => false,
                (HighlightGroup::ISearchCurrent, HighlightGroup::ISearchCurrent) => false,
                (HighlightGroup::Selection, HighlightGroup::Selection) => false,
                _ => true,
            };
            if keep {
                let ghost prev = out@;
                out.push(h);
                proof {
                    assert(out@.last() == self.highlights@[i as int]);
                    assert forall|e: Highlight| prev.contains(e) implies out@.contains(e) by {
                        let k = choose|k: int| 0 <= k < prev.len() && prev[k] == e;
                        assert(out@[k] == e);
                    }
                    assert(out@[out@.len() - 1] == self.highlights@[i as int]);
                    assert(self.highlights@.contains(out@.last()));
                }
            }
            i = i + 1;
        }
        self.highlights = out;
    }

    /// Add one highlight.
    pub fn add(&mut self, h: Highlight)
        ensures
            final(self).highlights@ == old(self).highlights@.push(h),
    {
        self.highlights.push(h);
    }

    /// Drop everything.
    pub fn clear(&mut self)
        ensures
            final(self).highlights@ == Seq::<Highlight>::empty(),
    {
        self.highlights = Vec::new();
    }

    /// The winning highlight group at `(x, y)`: one that covers the
    /// position and whose priority no other covering highlight beats.
    pub fn style_at(&self, x: usize, y: usize) -> (r: Option<HighlightGroup>)
        ensures
            r is None ==> forall|i: int|
                0 <= i < self.highlights@.len() ==> !spec_covers(
                    #[trigger] self.highlights@[i],
                    x as int,
                    y as int,
                ),
            r is Some ==> exists|i: int|
                0 <= i < self.highlights@.len() && spec_covers(
                    #[trigger] self.highlights@[i],
                    x as int,
                    y as int,
                ) && self.highlights@[i].group == r->0 && forall|j: int|
                    0 <= j < self.highlights@.len() && spec_covers(
                        #[trigger] self.highlights@[j],
                        x as int,
                        y as int,
                    ) ==> spec_priority_rank(self.highlights@[j].priority) <= spec_priority_rank(
                        self.highlights@[i].priority,
                    ),
    {
        let n = self.highlights.len();
        let mut best: Option<usize> = None;
        let mut best_rank: u8 = 0;
        let mut i: usize = 0;
        while i < n
            invariant
                0 <= i <= n,
                n == self.highlights@.len(),
                best is None ==> forall|j: int|
                    0 <= j < i ==> !spec_covers(#[trigger] self.highlights@[j], x as int, y as int),
                best is Some ==> ({
                    let bi = best->0 as int;
                    &&& 0 <= bi < n
                    &&& spec_covers(self.highlights@[bi], x as int, y as int)
                    &&& best_rank as int == spec_priority_rank(self.highlights@[bi].priority)
                    &&& forall|j: int|
                        0 <= j < i && spec_covers(#[trigger] self.highlights@[j], x as int,
                            y as int) ==> spec_priority_rank(self.highlights@[j].priority)
                            <= best_rank as int
                }),
            decreases n - i,
        {
            let h = self.highlights[i];
            if h.covers(x, y) {
                let rk = priority_rank(h.priority);
                match best {
                    None => {
                        best = Some(i);
                        best_rank = rk;
                    },
                    Some(_) => {
                        if rk > best_rank {
                            best = Some(i);
                            best_rank = rk;
                        }
                    },
                }
            }
            i = i + 1;
        }
        match best {
            None => None,
            Some(bi) => Some(self.highlights[bi].group),
        }
    }
}

/// Membership survives an extension: what `b` holds, any sequence that
/// keeps `b`'s entries at their indices holds too.
proof fn lemma_contains_chain_rev(a: Seq<Highlight>, b: Seq<Highlight>, h: Highlight)
    requires
        b.contains(h),
        a.len() >= b.len(),
        forall|i: int| 0 <= i < b.len() ==> a[i] == #[trigger] b[i],
    ensures
        a.contains(h),
{
    let k = choose|k: int| 0 <= k < b.len() && b[k] == h;
    assert(a[k] == h);
}

/// Everything in `c` found in `b` is also found in `a` when everything
/// in `b` is found in `a`.
proof fn lemma_contains_chain(a: Seq<Highlight>, b: Seq<Highlight>, h: Highlight)
    requires
        b.contains(h),
        forall|i: int| 0 <= i < b.len() ==> a.contains(#[trigger] b[i]),
    ensures
        a.contains(h),
{
    let k = choose|k: int| 0 <= k < b.len() && b[k] == h;
    assert(a.contains(b[k]));
}

/// Whether a highlight belongs to one of the search groups.
pub open spec fn is_search_group(g: HighlightGroup) -> bool {
    g == HighlightGroup::ISearch || g == HighlightGroup::ISearchCurrent
}

/// Some search highlight sits exactly at `(x, y)`.
pub open spec fn search_highlighted_at(hs: Seq<Highlight>, x: int, y: int) -> bool {
    exists|i: int|
        0 <= i < hs.len() && (#[trigger] hs[i]).x == x && hs[i].y == y && (hs[i].group
            == HighlightGroup::ISearch || hs[i].group == HighlightGroup::ISearchCurrent)
}

/// Position `(x, y)` lies inside the normalized selection.
pub open spec fn selected_at(b: crate::buffer::BufView, x: int, y: int) -> bool {
    match spec_selection(b) {
        None => false,
        Some(((sx, sy), (ex, ey))) => {
            &&& sy <= y <= ey
            &&& (if y == sy {
                sx
            } else {
                0int
            }) <= x
            &&& x < (if y == ey {
                ex
            } else {
                b.lines[y].len() as int
            })
        },
    }
}

/// Repaint the selection: one highlight per selected line, spanning the
/// selected columns.  Every selected character ends up covered by a
/// Selection highlight, and every Selection highlight lies inside the
/// selection.
pub fn apply_selection(ed: &Editor, render: &mut RenderState)
    requires
        ed.wf(),
    ensures
        forall|i: int|
            0 <= i < final(render).highlights@.len() && (#[trigger] final(render).highlights@[
                i
            ]).group != HighlightGroup::Selection ==> old(render).highlights@.contains(
                final(render).highlights@[i],
            ),
        forall|i: int|
            0 <= i < old(render).highlights@.len() && (#[trigger] old(render).highlights@[
                i
            ]).group != HighlightGroup::Selection ==> final(render).highlights@.contains(
                old(render).highlights@[i],
            ),
        forall|x: int, y: int|
            #[trigger] selected_at(ed.buffer@, x, y) ==> exists|i: int|
                0 <= i < final(render).highlights@.len() && spec_covers(
                    #[trigger] final(render).highlights@[i],
                    x,
                    y,
                ) && final(render).highlights@[i].group == HighlightGroup::Selection,
        forall|i: int|
            0 <= i < final(render).highlights@.len() && (#[trigger] final(render).highlights@[
                i
            ]).group == HighlightGroup::Selection ==> ({
                let h = final(render).highlights@[i];
                let b = ed.buffer@;
                match spec_selection(b) {
                    None => false,
                    Some(((sx, sy), (ex, ey))) => {
                        &&& sy <= h.y <= ey
                        &&& (h.y == sy ==> h.x == sx)
                        &&& (h.y > sy ==> h.x == 0)
                        &&& h.x + h.len <= b.lines[h.y as int].len()
                        &&& (h.y < ey ==> h.x + h.len == b.lines[h.y as int].len())
                        &&& (h.y == ey ==> h.x + h.len == ex)
                    },
                }
            }),
{
    render.clear_group(HighlightGroup::Selection);
    let sel = match ed.buffer.selection() {
        None => {
            return ;
        },
        Some(s) => s,
    };
    let mut y = sel.start_y;
    while y <= sel.end_y
        invariant
            ed.wf(),
            spec_selection(ed.buffer@) is Some,
            ({
                let ((sx, sy), (ex, ey)) = spec_selection(ed.buffer@)->0;
                &&& sel.start_x == sx && sel.start_y == sy && sel.end_x == ex && sel.end_y == ey
                &&& sy <= y
                &&& ey < ed.buffer@.lines.len()
                &&& sx <= ed.buffer@.lines[sy as int].len()
                &&& ex <= ed.buffer@.lines[ey as int].len()
            }),
            forall|i: int|
                0 <= i < render.highlights@.len() && (#[trigger] render.highlights@[i]).group
                    == HighlightGroup::Selection ==> ({
                    let h = render.highlights@[i];
                    let b = ed.buffer@;
                    &&& sel.start_y <= h.y < y
                    &&& h.y <= sel.end_y
                    &&& (h.y == sel.start_y ==> h.x == sel.start_x)
                    &&& (h.y > sel.start_y ==> h.x == 0)
                    &&& h.x + h.len <= b.lines[h.y as int].len()
                    &&& (h.y < sel.end_y ==> h.x + h.len == b.lines[h.y as int].len())
                    &&& (h.y == sel.end_y ==> h.x + h.len == sel.end_x)
                }),
            forall|x: int, yy: int|
                #[trigger] selected_at(ed.buffer@, x, yy) && yy < y ==> exists|i: int|
                    0 <= i < render.highlights@.len() && spec_covers(
                        #[trigger] render.highlights@[i],
                        x,
                        yy,
                    ) && render.highlights@[i].group == HighlightGroup::Selection,
            forall|i: int|
                0 <= i < render.highlights@.len() && (#[trigger] render.highlights@[i]).group
                    != HighlightGroup::Selection ==> old(render).highlights@.contains(
                    render.highlights@[i],
                ),
            forall|i: int|
                0 <= i < old(render).highlights@.len() && (#[trigger] old(render).highlights@[
                    i
                ]).group != HighlightGroup::Selection ==> render.highlights@.contains(
                    old(render).highlights@[i],
                ),
        decreases sel.end_y - y,
    {
        let line_len = ed.buffer.lines[y].char_len;
        let start_x: usize = if y == sel.start_y {
            sel.start_x
        } else {
            0
        };
        let end_x: usize = if y == sel.end_y {
            sel.end_x
        } else {
            line_len
        };
        let ghost before_hl = render.highlights@;
        if start_x < end_x {
            render.add(Highlight {
                x: start_x,
                y,
                len: end_x - start_x,
                group: HighlightGroup::Selection,
                priority: HighlightPriority::High,
            });
        }
        proof {
            assert forall|x: int, yy: int|
                #[trigger] selected_at(ed.buffer@, x, yy) && yy <= y implies exists|i: int|
                0 <= i < render.highlights@.len() && spec_covers(
                    #[trigger] render.highlights@[i],
                    x,
                    yy,
                ) && render.highlights@[i].group == HighlightGroup::Selection by {
                if yy < y {
                    let k = choose|i: int|
                        0 <= i < before_hl.len() && spec_covers(#[trigger] before_hl[i], x, yy)
                            && before_hl[i].group == HighlightGroup::Selection;
                    assert(render.highlights@[k] == before_hl[k]);
                    assert(spec_covers(render.highlights@[k], x, yy));
                } else {
                    assert(start_x <= x && x < end_x);
                    let k = render.highlights@.len() - 1;
                    assert(spec_covers(render.highlights@[k], x, yy));
                }
            }
            assert forall|i: int|
                0 <= i < old(render).highlights@.len() && (#[trigger] old(render).highlights@[
                    i
                ]).group != HighlightGroup::Selection implies render.highlights@.contains(
                old(render).highlights@[i],
            ) by {
                lemma_contains_chain_rev(render.highlights@, before_hl,
                    old(render).highlights@[i]);
            }
        }
        if y == sel.end_y {
            return ;
        }
        y = y + 1;
    }
}

/// Repaint the search highlights: when highlighting is enabled and a
/// session with a non-empty query is running, every added search
/// highlight covers a real match of the query, spans exactly the query,
/// and is marked current exactly at the remembered match.
pub fn apply_isearch(ed: &Editor, render: &mut RenderState)
    requires
        ed.wf(),
    ensures
        forall|i: int|
            0 <= i < final(render).highlights@.len() && !is_search_group(
                (#[trigger] final(render).highlights@[i]).group,
            ) ==> old(render).highlights@.contains(final(render).highlights@[i]),
        forall|i: int|
            0 <= i < old(render).highlights@.len() && !is_search_group(
                (#[trigger] old(render).highlights@[i]).group,
            ) ==> final(render).highlights@.contains(old(render).highlights@[i]),
        !ed.user_config.isearch_highlight ==> forall|i: int|
            0 <= i < final(render).highlights@.len() ==> (#[trigger] final(render).highlights@[
                i
            ]).group != HighlightGroup::ISearch && final(render).highlights@[i].group
                != HighlightGroup::ISearchCurrent,
        (ed.user_config.isearch_highlight && ed.isearch is Some && ed.isearch->0.query@.len() > 0)
            ==> forall|i: int|
            0 <= i < final(render).highlights@.len() && ((#[trigger] final(render).highlights@[
                i
            ]).group == HighlightGroup::ISearch || final(render).highlights@[i].group
                == HighlightGroup::ISearchCurrent) ==> ({
                let h = final(render).highlights@[i];
                let q = ed.isearch->0.query@;
                &&& match_at(ed.buffer@.lines, q, h.x as int, h.y as int)
                &&& h.len == q.len()
                &&& (h.group == HighlightGroup::ISearchCurrent <==> ed.isearch->0.last_match
                    == Some((h.x, h.y)))
            }),
        (ed.user_config.isearch_highlight && ed.isearch is Some && ed.isearch->0.query@.len() > 0)
            ==> forall|x: int, y: int|
            #[trigger] match_at(ed.buffer@.lines, ed.isearch->0.query@, x, y) ==> exists|i: int|
                0 <= i < final(render).highlights@.len() && (#[trigger] final(render).highlights@[
                    i
                ]).x == x && final(render).highlights@[i].y == y && (final(render).highlights@[
                    i
                ].group == HighlightGroup::ISearch || final(render).highlights@[i].group
                    == HighlightGroup::ISearchCurrent),
{
    if !ed.user_config.isearch_highlight {
        render.clear_group(HighlightGroup::ISearch);
        let ghost mid_hl = render.highlights@;
        render.clear_group(HighlightGroup::ISearchCurrent);
        proof {
            assert forall|i: int|
                0 <= i < render.highlights@.len() && !is_search_group(
                    (#[trigger] render.highlights@[i]).group,
                ) implies old(render).highlights@.contains(render.highlights@[i]) by {
                lemma_contains_chain(old(render).highlights@, mid_hl, render.highlights@[i]);
            }
            assert forall|i: int|
                0 <= i < old(render).highlights@.len() && !is_search_group(
                    (#[trigger] old(render).highlights@[i]).group,
                ) implies render.highlights@.contains(old(render).highlights@[i]) by {
                let h = old(render).highlights@[i];
                assert(mid_hl.contains(h));
                let k = choose|k: int| 0 <= k < mid_hl.len() && mid_hl[k] == h;
                assert(render.highlights@.contains(mid_hl[k]));
            }
        }
        return ;
    }
    let (q, lm) = match &ed.isearch {
        None => {
            return ;
        },
        Some(st) => (clone_chars(&st.query), st.last_match),
    };
    if q.len() == 0 {
        return ;
    }
    render.clear_group(HighlightGroup::ISearch);
    let ghost mid_hl = render.highlights@;
    render.clear_group(HighlightGroup::ISearchCurrent);
        proof {
            assert forall|i: int|
                0 <= i < render.highlights@.len() && !is_search_group(
                    (#[trigger] render.highlights@[i]).group,
                ) implies old(render).highlights@.contains(render.highlights@[i]) by {
                lemma_contains_chain(old(render).highlights@, mid_hl, render.highlights@[i]);
            }
            assert forall|i: int|
                0 <= i < old(render).highlights@.len() && !is_search_group(
                    (#[trigger] old(render).highlights@[i]).group,
                ) implies render.highlights@.contains(old(render).highlights@[i]) by {
                let h = old(render).highlights@[i];
                assert(mid_hl.contains(h));
                let k = choose|k: int| 0 <= k < mid_hl.len() && mid_hl[k] == h;
                assert(render.highlights@.contains(mid_hl[k]));
            }
        }
    let n = ed.buffer.lines.len();
    let mut y: usize = 0;
    while y < n
        invariant
            ed.wf(),
            n == ed.buffer@.lines.len(),
            0 <= y <= n,
            q@ == ed.isearch->0.query@,
            ed.isearch is Some,
            lm == ed.isearch->0.last_match,
            q@.len() > 0,
            forall|i: int|
                0 <= i < render.highlights@.len() && ((#[trigger] render.highlights@[i]).group
                    == HighlightGroup::ISearch || render.highlights@[i].group
                    == HighlightGroup::ISearchCurrent) ==> ({
                    let h = render.highlights@[i];
                    &&& match_at(ed.buffer@.lines, q@, h.x as int, h.y as int)
                    &&& h.len == q@.len()
                    &&& (h.group == HighlightGroup::ISearchCurrent <==> lm == Some((h.x, h.y)))
                }),
            forall|x: int, yy: int|
                #[trigger] match_at(ed.buffer@.lines, q@, x, yy) && yy < y ==> search_highlighted_at(
                    render.highlights@,
                    x,
                    yy,
                ),
            forall|i: int|
                0 <= i < render.highlights@.len() && !is_search_group(
                    (#[trigger] render.highlights@[i]).group,
                ) ==> old(render).highlights@.contains(render.highlights@[i]),
            forall|i: int|
                0 <= i < old(render).highlights@.len() && !is_search_group(
                    (#[trigger] old(render).highlights@[i]).group,
                ) ==> render.highlights@.contains(old(render).highlights@[i]),
        decreases n - y,
    {
        let llen = ed.buffer.lines[y].char_len;
        if q.len() <= llen {
            let last = llen - q.len();
            let mut x: usize = 0;
            while x <= last
                invariant
                    ed.wf(),
                    n == ed.buffer@.lines.len(),
                    y < n,
                    llen == ed.buffer@.lines[y as int].len(),
                    q@ == ed.isearch->0.query@,
                    ed.isearch is Some,
                    lm == ed.isearch->0.last_match,
                    q@.len() > 0,
                    last == llen - q@.len(),
                    forall|i: int|
                        0 <= i < render.highlights@.len() && ((#[trigger] render.highlights@[
                            i
                        ]).group == HighlightGroup::ISearch || render.highlights@[i].group
                            == HighlightGroup::ISearchCurrent) ==> ({
                            let h = render.highlights@[i];
                            &&& match_at(ed.buffer@.lines, q@, h.x as int, h.y as int)
                            &&& h.len == q@.len()
                            &&& (h.group == HighlightGroup::ISearchCurrent <==> lm == Some(
                                (h.x, h.y),
                            ))
                        }),
                    forall|xp: int, yy: int|
                        #[trigger] match_at(ed.buffer@.lines, q@, xp, yy) && yy < y
                            ==> search_highlighted_at(render.highlights@, xp, yy),
                    forall|xp: int|
                        #[trigger] match_at(ed.buffer@.lines, q@, xp, y as int) && xp < x
                            ==> search_highlighted_at(render.highlights@, xp, y as int),
                    forall|i: int|
                        0 <= i < render.highlights@.len() && !is_search_group(
                            (#[trigger] render.highlights@[i]).group,
                        ) ==> old(render).highlights@.contains(render.highlights@[i]),
                    forall|i: int|
                        0 <= i < old(render).highlights@.len() && !is_search_group(
                            (#[trigger] old(render).highlights@[i]).group,
                        ) ==> render.highlights@.contains(old(render).highlights@[i]),
                decreases last + 1 - x,
            {
                let ghost before_hl = render.highlights@;
                let hit = ed.buffer.match_here(&q, x, y);
                if hit {
                    let is_cur = match lm {
                        Some((mx, my)) => mx == x && my == y,
                        None => false,
                    };
                    render.add(Highlight {
                        x,
                        y,
                        len: q.len(),
                        group: if is_cur {
                            HighlightGroup::ISearchCurrent
                        } else {
                            HighlightGroup::ISearch
                        },
                        priority: if is_cur {
                            HighlightPriority::High
                        } else {
                            HighlightPriority::Normal
                        },
                    });
                }
                proof {
                    assert forall|i: int|
                        0 <= i < old(render).highlights@.len() && !is_search_group(
                            (#[trigger] old(render).highlights@[i]).group,
                        ) implies render.highlights@.contains(old(render).highlights@[i]) by {
                        lemma_contains_chain_rev(render.highlights@, before_hl,
                            old(render).highlights@[i]);
                    }
                    assert forall|xp: int, yy: int|
                        #[trigger] match_at(ed.buffer@.lines, q@, xp, yy) && (yy < y || (yy
                            == y as int && xp < x + 1)) implies search_highlighted_at(
                        render.highlights@,
                        xp,
                        yy,
                    ) by {
                        if yy == y as int && xp == x as int {
                            assert(hit);
                            let k = render.highlights@.len() - 1;
                            assert(render.highlights@[k].x == xp && render.highlights@[k].y == yy);
                        } else {
                            let k = choose|i: int|
                                0 <= i < before_hl.len() && (#[trigger] before_hl[i]).x == xp
                                    && before_hl[i].y == yy && (before_hl[i].group
                                    == HighlightGroup::ISearch || before_hl[i].group
                                    == HighlightGroup::ISearchCurrent);
                            assert(render.highlights@[k] == before_hl[k]);
                        }
                    }
                }
                x = x + 1;
            }
        }
        proof {
            assert forall|xp: int, yy: int|
                #[trigger] match_at(ed.buffer@.lines, q@, xp, yy) && yy < y + 1 implies
                search_highlighted_at(render.highlights@, xp, yy) by {
                if yy == y as int {
                    assert(xp + q@.len() <= ed.buffer@.lines[y as int].len());
                }
            }
        }
        y = y + 1;
    }
}

} // verus!
