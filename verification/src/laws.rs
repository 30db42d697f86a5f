//! The laws the library promises, stated over the same spec functions
//! its contracts use: motions keep the cursor in bounds, every edit is
//! undone exactly by its recorded inverse, copying is what deleting
//! would return, pasting reproduces what was copied, and loading then
//! saving canonical text is the identity.

use vstd::prelude::*;

use crate::buffer::{Buffer, BufView, UAct};
use crate::edit::{lines_after_delete, lines_after_insert, region_text, insert_end_pos};
use crate::motion::{Motion, motion_dest, lemma_motion_dest_in_bounds};
use crate::text::{split_text, join_texts, splice_line, load_parts, lemma_find_nl_none,
    lemma_split_text_len, lemma_join_split, lemma_join_take_step};

verus! {

// ---------------------------------------------------------------------
// Cursor safety under every sequence of motions.
// ---------------------------------------------------------------------

/// Where a sequence of motions leaves the cursor.
pub open spec fn apply_motions(lines: Seq<Seq<char>>, cx: int, cy: int, ms: Seq<Motion>) -> (
    int,
    int,
)
    decreases ms.len(),
{
    if ms.len() == 0 {
        (cx, cy)
    } else {
        let (nx, ny) = motion_dest(lines, cx, cy, ms[0]);
        apply_motions(lines, nx, ny, ms.drop_first())
    }
}

/// For every sequence of motions the cursor stays on an existing line,
/// at or before its end.
pub proof fn lemma_motions_stay_in_bounds(
    lines: Seq<Seq<char>>,
    cx: int,
    cy: int,
    ms: Seq<Motion>,
)
    requires
        lines.len() >= 1,
        0 <= cy < lines.len(),
        0 <= cx <= lines[cy].len(),
    ensures
        ({
            let (nx, ny) = apply_motions(lines, cx, cy, ms);
            0 <= ny < lines.len() && 0 <= nx <= lines[ny].len()
        }),
    decreases ms.len(),
{
    if ms.len() > 0 {
        lemma_motion_dest_in_bounds(lines, cx, cy, ms[0]);
        let (nx, ny) = motion_dest(lines, cx, cy, ms[0]);
        lemma_motions_stay_in_bounds(lines, nx, ny, ms.drop_first());
    }
}

// ---------------------------------------------------------------------
// The region as a list of line fragments.
// ---------------------------------------------------------------------

/// The lines of the region from `(sx, sy)` to `(ex, ey)`: the tail of
/// the first line, the middle lines whole, the head of the last.
pub open spec fn region_parts(
    lines: Seq<Seq<char>>,
    sx: int,
    sy: int,
    ex: int,
    ey: int,
) -> Seq<Seq<char>>
    decreases ey - sy when sy <= ey
{
    if sy >= ey {
        seq![lines[sy].subrange(sx, ex)]
    } else {
        region_parts(lines, sx, sy, lines[ey - 1].len() as int, ey - 1).push(lines[ey].take(ex))
    }
}

/// The region's text is its parts joined by newlines.
pub proof fn lemma_region_text_parts(lines: Seq<Seq<char>>, sx: int, sy: int, ex: int, ey: int)
    requires
        sy <= ey,
    ensures
        region_text(lines, sx, sy, ex, ey) == join_texts(region_parts(lines, sx, sy, ex, ey)),
        region_parts(lines, sx, sy, ex, ey).len() == ey - sy + 1,
    decreases ey - sy,
{
    if sy == ey {
    } else {
        lemma_region_text_parts(lines, sx, sy, lines[ey - 1].len() as int, ey - 1);
        let p = region_parts(lines, sx, sy, lines[ey - 1].len() as int, ey - 1);
        let q = p.push(lines[ey].take(ex));
        assert(q.take(p.len() as int) =~= p);
        assert(q.take(q.len() as int) =~= q);
        lemma_join_take_step_full(q, p.len() as int);
        assert(join_texts(q) == join_texts(p) + seq!['\n'] + lines[ey].take(ex));
        assert(region_parts(lines, sx, sy, ex, ey) == q);
        assert(region_text(lines, sx, sy, ex, ey) == region_text(lines, sx, sy,
            lines[ey - 1].len() as int, ey - 1) + seq!['\n'] + lines[ey].take(ex));
    }
}

/// One step of joining from the front, valid also for a single part.
proof fn lemma_join_take_step_full(ts: Seq<Seq<char>>, k: int)
    requires
        1 <= k < ts.len(),
    ensures
        join_texts(ts.take(k + 1)) == join_texts(ts.take(k)) + seq!['\n'] + ts[k],
{
    lemma_join_take_step(ts, k);
}

/// Splitting undoes joining for parts that hold no newline.
pub proof fn lemma_split_join(ps: Seq<Seq<char>>)
    requires
        ps.len() >= 1,
        forall|i: int, j: int|
            0 <= i < ps.len() && 0 <= j < ps[i].len() ==> #[trigger] ps[i][j] != '\n',
    ensures
        split_text(join_texts(ps)) == ps,
    decreases ps.len(),
{
    if ps.len() == 1 {
        lemma_find_nl_none(ps[0]);
        assert(split_text(join_texts(ps)) =~= ps);
    } else {
        let t = join_texts(ps);
        let head = ps[0];
        let rest = ps.drop_first();
        assert(t == head + seq!['\n'] + join_texts(rest));
        assert(forall|j: int| 0 <= j < head.len() ==> #[trigger] t[j] != '\n') by {
            assert(forall|j: int| 0 <= j < head.len() ==> t[j] == ps[0][j]);
        }
        assert(t[head.len() as int] == '\n');
        crate::text::lemma_find_nl_at(t, head.len() as int);
        assert(t.subrange(0, head.len() as int) =~= head);
        assert(t.subrange(head.len() as int + 1, t.len() as int) =~= join_texts(rest));
        assert(forall|i: int, j: int|
            0 <= i < rest.len() && 0 <= j < rest[i].len() ==> #[trigger] rest[i][j] != '\n') by {
            assert(forall|i: int|
                0 <= i < rest.len() ==> rest[i] == ps[i + 1]);
        }
        lemma_split_join(rest);
        assert(split_text(t) == seq![head] + split_text(join_texts(rest)));
        assert(seq![head] + rest =~= ps);
    }
}

// ---------------------------------------------------------------------
// Inserting text and deleting it again.
// ---------------------------------------------------------------------

/// Deleting the just-inserted region undoes the insertion, and the
/// region's text is exactly what was inserted: the heart of undo for
/// insertions and of the paste round trip.
pub proof fn lemma_insert_region_round_trip(lines: Seq<Seq<char>>, x: int, y: int, t: Seq<char>)
    requires
        0 <= y < lines.len(),
        0 <= x <= lines[y].len(),
    ensures
        ({
            let (ex, ey) = insert_end_pos(x, y, t);
            let m = lines_after_insert(lines, x, y, split_text(t));
            &&& region_text(m, x, y, ex, ey) == t
            &&& lines_after_delete(m, x, y, ex, ey) == lines
            &&& y <= ey < m.len()
            &&& 0 <= x <= m[y].len()
            &&& 0 <= ex <= m[ey].len()
            &&& (y == ey ==> x <= ex)
        }),
{
    let p = split_text(t);
    lemma_split_text_len(t);
    lemma_join_split(t);
    let np = p.len() as int;
    let (ex, ey) = insert_end_pos(x, y, t);
    let m = lines_after_insert(lines, x, y, p);
    if np == 1 {
        assert(p[0] == t) by {
            assert(join_texts(p) == t);
        }
        assert(m == lines.update(y, splice_line(lines[y], x, t)));
        assert(m[y].subrange(x, x + t.len()) =~= t);
        assert(region_text(m, x, y, ex, ey) == t);
        assert(lines_after_delete(m, x, y, ex, ey) =~~= lines) by {
            assert(m[y].take(x) + m[y].skip(x + t.len()) =~= lines[y]);
        }
    } else {
        let head = lines[y].take(x);
        let tail = lines[y].skip(x);
        assert(m =~~= lines.take(y) + seq![head + p[0]] + p.subrange(1, np - 1) + seq![
            p[np - 1] + tail
        ] + lines.skip(y + 1));
        assert(m.len() == lines.len() + np - 1);
        // The region rows carry the parts.
        assert(m[y] == head + p[0]);
        assert(forall|k: int| y < k < ey ==> #[trigger] m[k] == p[k - y]);
        assert(m[ey] == p[np - 1] + tail);
        assert(m[y].skip(x) =~= p[0]);
        assert(m[ey].take(ex) =~= p[np - 1]);
        // Region text equals the parts joined.
        lemma_region_text_parts(m, x, y, ex, ey);
        assert(region_parts(m, x, y, ex, ey) =~~= p) by {
            lemma_region_parts_are_lines(m, x, y, ex, ey, p);
        }
        assert(join_texts(p) == t);
        // Deleting the region restores the original lines.
        assert(m[y].take(x) =~= head);
        assert(m[ey].skip(ex) =~= tail);
        assert(lines_after_delete(m, x, y, ex, ey) =~~= lines) by {
            assert(m.take(y) =~= lines.take(y));
            assert(m.skip(ey + 1) =~= lines.skip(y + 1));
            assert(head + tail =~= lines[y]);
        }
    }
}

/// The fragments of the inserted region are exactly the parts.
proof fn lemma_region_parts_are_lines(
    m: Seq<Seq<char>>,
    x: int,
    y: int,
    ex: int,
    ey: int,
    p: Seq<Seq<char>>,
)
    requires
        0 <= y <= ey < m.len(),
        p.len() == ey - y + 1,
        0 <= x,
        m[y].len() >= x,
        m[y].skip(x) == p[0],
        forall|k: int| y < k < ey ==> #[trigger] m[k] == p[k - y],
        ey > y ==> ex == p[p.len() - 1].len() && m[ey].len() >= ex && m[ey].take(ex) == p[
            p.len() - 1
        ],
        ey == y ==> ex == x + p[0].len() && m[y].len() >= ex && m[y].subrange(x, ex) == p[0],
    ensures
        region_parts(m, x, y, ex, ey) == p,
    decreases ey - y,
{
    if ey == y {
        assert(region_parts(m, x, y, ex, ey) =~~= p);
    } else {
        let pl = m[ey - 1].len() as int;
        let pp = p.drop_last();
        if ey - 1 == y {
            assert(m[y].subrange(x, pl) =~= m[y].skip(x));
            lemma_region_parts_are_lines(m, x, y, pl, ey - 1, pp);
        } else {
            assert(m[ey - 1] == p[ey - 1 - y]);
            assert(m[ey - 1].take(pl) =~= m[ey - 1]);
            assert(pp[pp.len() - 1] == p[ey - 1 - y]);
            lemma_region_parts_are_lines(m, x, y, pl, ey - 1, pp);
        }
        assert(region_parts(m, x, y, ex, ey) =~~= pp.push(m[ey].take(ex)));
        assert(pp.push(p[p.len() - 1]) =~= p);
    }
}

// ---------------------------------------------------------------------
// Undo restores each edit.
// ---------------------------------------------------------------------

/// Any insertion — one character, a fragment, or a whole paste — is
/// undone exactly: text, cursor and the rest of the state return, and
/// only the modified flag stays set.
pub proof fn lemma_undo_insert(v: BufView, x: int, y: int, t: Seq<char>)
    requires
        v.wf(),
        0 <= y < v.lines.len(),
        0 <= x <= v.lines[y].len(),
        x + t.len() <= usize::MAX,
    ensures
        ({
            let (ex, ey) = insert_end_pos(x, y, t);
            let w = (BufView {
                lines: lines_after_insert(v.lines, x, y, split_text(t)),
                cx: ex,
                cy: ey,
                modified: true,
                undo: v.undo.push(UAct::Insert { x, y, text: t }),
                ..v
            });
            let a = w.undo.last();
            let popped = (BufView { undo: w.undo.drop_last(), ..w });
            &&& Buffer::inverse_applicable(w.lines, a)
            &&& Buffer::apply_inverse(popped, a) == (BufView {
                cx: x,
                cy: y,
                modified: true,
                ..v
            })
        }),
{
    lemma_insert_region_round_trip(v.lines, x, y, t);
    let (ex, ey) = insert_end_pos(x, y, t);
    let w = (BufView {
        lines: lines_after_insert(v.lines, x, y, split_text(t)),
        cx: ex,
        cy: ey,
        modified: true,
        undo: v.undo.push(UAct::Insert { x, y, text: t }),
        ..v
    });
    let a = w.undo.last();
    let popped = (BufView { undo: w.undo.drop_last(), ..w });
    assert(w.undo.drop_last() =~= v.undo);
    lemma_split_text_len(t);
    assert(Buffer::apply_inverse(popped, a) =~~= (BufView {
        cx: x,
        cy: y,
        modified: true,
        ..v
    }));
}

/// Splitting a line is undone exactly.
pub proof fn lemma_undo_newline(v: BufView)
    requires
        v.wf(),
    ensures
        ({
            let l = v.lines[v.cy];
            let w = (BufView {
                lines: v.lines.update(v.cy, l.take(v.cx)).insert(v.cy + 1, l.skip(v.cx)),
                cx: 0,
                cy: v.cy + 1,
                modified: true,
                undo: v.undo.push(UAct::InsertNewline { x: v.cx, y: v.cy }),
                ..v
            });
            let a = w.undo.last();
            let popped = (BufView { undo: w.undo.drop_last(), ..w });
            &&& Buffer::inverse_applicable(w.lines, a)
            &&& Buffer::apply_inverse(popped, a) == (BufView { modified: true, ..v })
        }),
{
    let l = v.lines[v.cy];
    let w = (BufView {
        lines: v.lines.update(v.cy, l.take(v.cx)).insert(v.cy + 1, l.skip(v.cx)),
        cx: 0,
        cy: v.cy + 1,
        modified: true,
        undo: v.undo.push(UAct::InsertNewline { x: v.cx, y: v.cy }),
        ..v
    });
    let a = w.undo.last();
    let popped = (BufView { undo: w.undo.drop_last(), ..w });
    assert(w.undo.drop_last() =~= v.undo);
    assert(w.lines[v.cy] + w.lines[v.cy + 1] =~= l);
    assert(w.lines.update(v.cy, l).remove(v.cy + 1) =~~= v.lines);
    assert(Buffer::apply_inverse(popped, a) =~~= (BufView { modified: true, ..v }));
}

/// Joining a line onto the one above is undone exactly.
pub proof fn lemma_undo_join(v: BufView)
    requires
        v.wf(),
        v.cy > 0,
        v.cx == 0,
    ensures
        ({
            let px = v.lines[v.cy - 1].len() as int;
            let w = (BufView {
                lines: v.lines.update(v.cy - 1, v.lines[v.cy - 1] + v.lines[v.cy]).remove(v.cy),
                cx: px,
                cy: v.cy - 1,
                modified: true,
                undo: v.undo.push(UAct::JoinLine { x: px, y: v.cy - 1 }),
                ..v
            });
            let a = w.undo.last();
            let popped = (BufView { undo: w.undo.drop_last(), ..w });
            &&& Buffer::inverse_applicable(w.lines, a)
            &&& Buffer::apply_inverse(popped, a) == (BufView { modified: true, ..v })
        }),
{
    let px = v.lines[v.cy - 1].len() as int;
    let merged = v.lines[v.cy - 1] + v.lines[v.cy];
    let w = (BufView {
        lines: v.lines.update(v.cy - 1, merged).remove(v.cy),
        cx: px,
        cy: v.cy - 1,
        modified: true,
        undo: v.undo.push(UAct::JoinLine { x: px, y: v.cy - 1 }),
        ..v
    });
    let a = w.undo.last();
    let popped = (BufView { undo: w.undo.drop_last(), ..w });
    assert(w.undo.drop_last() =~= v.undo);
    assert(w.lines[v.cy - 1].take(px) =~= v.lines[v.cy - 1]);
    assert(w.lines[v.cy - 1].skip(px) =~= v.lines[v.cy]);
    assert(w.lines.update(v.cy - 1, w.lines[v.cy - 1].take(px)).insert(v.cy, w.lines[v.cy
        - 1].skip(px)) =~~= v.lines);
    assert(Buffer::apply_inverse(popped, a) =~~= (BufView { modified: true, ..v }));
}

/// Deleting a region is undone exactly when the buffer's lines hold no
/// newline characters (which they never do): re-inserting the deleted
/// text restores the lines, and the cursor returns to the region's end.
pub proof fn lemma_undo_delete(v: BufView, sx: int, sy: int, ex: int, ey: int)
    requires
        v.wf(),
        0 <= sy <= ey < v.lines.len(),
        0 <= sx <= v.lines[sy].len(),
        0 <= ex <= v.lines[ey].len(),
        sy == ey ==> sx <= ex,
        forall|i: int, j: int|
            0 <= i < v.lines.len() && 0 <= j < v.lines[i].len() ==> #[trigger] v.lines[i][j]
                != '\n',
    ensures
        ({
            let t = region_text(v.lines, sx, sy, ex, ey);
            let w = (BufView {
                lines: lines_after_delete(v.lines, sx, sy, ex, ey),
                cx: sx,
                cy: sy,
                modified: true,
                undo: v.undo.push(UAct::Delete { x: sx, y: sy, text: t }),
                ..v
            });
            let a = w.undo.last();
            let popped = (BufView { undo: w.undo.drop_last(), ..w });
            &&& Buffer::inverse_applicable(w.lines, a)
            &&& Buffer::apply_inverse(popped, a) == (BufView {
                cx: ex,
                cy: ey,
                modified: true,
                ..v
            })
        }),
{
    let t = region_text(v.lines, sx, sy, ex, ey);
    let parts = region_parts(v.lines, sx, sy, ex, ey);
    lemma_region_text_parts(v.lines, sx, sy, ex, ey);
    assert(forall|i: int, j: int|
        0 <= i < parts.len() && 0 <= j < parts[i].len() ==> #[trigger] parts[i][j] != '\n') by {
        lemma_region_parts_no_newline(v.lines, sx, sy, ex, ey);
    }
    lemma_split_join(parts);
    assert(split_text(t) == parts);
    let w = (BufView {
        lines: lines_after_delete(v.lines, sx, sy, ex, ey),
        cx: sx,
        cy: sy,
        modified: true,
        undo: v.undo.push(UAct::Delete { x: sx, y: sy, text: t }),
        ..v
    });
    let a = w.undo.last();
    let popped = (BufView { undo: w.undo.drop_last(), ..w });
    assert(w.undo.drop_last() =~= v.undo);
    let np = parts.len() as int;
    if sy == ey {
        assert(np == 1);
        assert(parts[0] == v.lines[sy].subrange(sx, ex));
        assert(insert_end_pos(sx, sy, t) == (sx + t.len(), sy as int));
        assert(t.len() == ex - sx);
        assert(w.lines[sy].len() == v.lines[sy].len() - (ex - sx));
        assert(lines_after_insert(w.lines, sx, sy, parts) =~~= v.lines) by {
            assert(splice_line(w.lines[sy], sx, parts[0]) =~= v.lines[sy]);
        }
        assert(Buffer::apply_inverse(popped, a) =~~= (BufView {
            cx: ex,
            cy: ey,
            modified: true,
            ..v
        }));
    } else {
        assert(np == ey - sy + 1);
        assert(insert_end_pos(sx, sy, t) == (parts[np - 1].len() as int, sy + np - 1));
        assert(parts[np - 1] == v.lines[ey].take(ex)) by {
            lemma_region_parts_last(v.lines, sx, sy, ex, ey);
        }
        assert(parts[0] == v.lines[sy].skip(sx)) by {
            lemma_region_parts_first(v.lines, sx, sy, ex, ey);
        }
        assert(forall|k: int| 0 < k < np - 1 ==> #[trigger] parts[k] == v.lines[sy + k]) by {
            lemma_region_parts_middle(v.lines, sx, sy, ex, ey);
        }
        let d = lines_after_delete(v.lines, sx, sy, ex, ey);
        assert(d =~~= v.lines.take(sy) + seq![v.lines[sy].take(sx) + v.lines[ey].skip(ex)]
            + v.lines.skip(ey + 1));
        assert(lines_after_insert(d, sx, sy, parts) =~~= v.lines) by {
            assert(d[sy].take(sx) =~= v.lines[sy].take(sx));
            assert(d[sy].skip(sx) =~= v.lines[ey].skip(ex));
            assert(d[sy].take(sx) + parts[0] =~= v.lines[sy]);
            assert(parts[np - 1] + d[sy].skip(sx) =~= v.lines[ey]);
            assert(d.take(sy) =~= v.lines.take(sy));
            assert(d.skip(sy + 1) =~= v.lines.skip(ey + 1));
            assert(parts.subrange(1, np - 1) =~~= v.lines.subrange(sy + 1, ey));
        }
        assert(Buffer::apply_inverse(popped, a) =~~= (BufView {
            cx: ex,
            cy: ey,
            modified: true,
            ..v
        }));
    }
}

/// The region's fragments hold no newline when the lines hold none.
proof fn lemma_region_parts_no_newline(lines: Seq<Seq<char>>, sx: int, sy: int, ex: int, ey: int)
    requires
        0 <= sy <= ey < lines.len(),
        forall|i: int, j: int|
            0 <= i < lines.len() && 0 <= j < lines[i].len() ==> #[trigger] lines[i][j] != '\n',
        0 <= sx <= lines[sy].len(),
        0 <= ex <= lines[ey].len(),
        sy == ey ==> sx <= ex,
    ensures
        forall|i: int, j: int|
            0 <= i < region_parts(lines, sx, sy, ex, ey).len() && 0 <= j < region_parts(lines, sx,
                sy, ex, ey)[i].len() ==> #[trigger] region_parts(lines, sx, sy, ex, ey)[i][j]
                != '\n',
    decreases ey - sy,
{
    if sy < ey {
        lemma_region_parts_no_newline(lines, sx, sy, lines[ey - 1].len() as int, ey - 1);
        let p = region_parts(lines, sx, sy, lines[ey - 1].len() as int, ey - 1);
        let q = region_parts(lines, sx, sy, ex, ey);
        assert(forall|i: int| 0 <= i < p.len() ==> q[i] == p[i]);
        assert(q[q.len() - 1] == lines[ey].take(ex));
    }
}

proof fn lemma_region_parts_first(lines: Seq<Seq<char>>, sx: int, sy: int, ex: int, ey: int)
    requires
        0 <= sy < ey < lines.len(),
        0 <= sx <= lines[sy].len(),
    ensures
        region_parts(lines, sx, sy, ex, ey)[0] == lines[sy].skip(sx),
    decreases ey - sy,
{
    let p = region_parts(lines, sx, sy, lines[ey - 1].len() as int, ey - 1);
    lemma_region_text_parts_len(lines, sx, sy, lines[ey - 1].len() as int, ey - 1);
    if sy + 1 == ey {
        assert(p[0] =~= lines[sy].skip(sx));
    } else {
        lemma_region_parts_first(lines, sx, sy, lines[ey - 1].len() as int, ey - 1);
    }
    assert(region_parts(lines, sx, sy, ex, ey)[0] == p[0]);
}

proof fn lemma_region_parts_last(lines: Seq<Seq<char>>, sx: int, sy: int, ex: int, ey: int)
    requires
        0 <= sy < ey < lines.len(),
    ensures
        ({
            let p = region_parts(lines, sx, sy, ex, ey);
            p[p.len() - 1] == lines[ey].take(ex)
        }),
{
}

proof fn lemma_region_parts_middle(lines: Seq<Seq<char>>, sx: int, sy: int, ex: int, ey: int)
    requires
        0 <= sy < ey < lines.len(),
    ensures
        forall|k: int|
            0 < k < ey - sy ==> #[trigger] region_parts(lines, sx, sy, ex, ey)[k] == lines[sy + k],
    decreases ey - sy,
{
    lemma_region_text_parts_len(lines, sx, sy, ex, ey);
    if sy + 1 < ey {
        lemma_region_parts_middle(lines, sx, sy, lines[ey - 1].len() as int, ey - 1);
        let p = region_parts(lines, sx, sy, lines[ey - 1].len() as int, ey - 1);
        let q = region_parts(lines, sx, sy, ex, ey);
        lemma_region_text_parts_len(lines, sx, sy, lines[ey - 1].len() as int, ey - 1);
        assert(forall|k: int| 0 <= k < p.len() ==> q[k] == p[k]);
        assert(p[ey - 1 - sy] == lines[ey - 1].take(lines[ey - 1].len() as int));
        assert(lines[ey - 1].take(lines[ey - 1].len() as int) =~= lines[ey - 1]);
    }
}

proof fn lemma_region_text_parts_len(lines: Seq<Seq<char>>, sx: int, sy: int, ex: int, ey: int)
    requires
        sy <= ey,
    ensures
        region_parts(lines, sx, sy, ex, ey).len() == ey - sy + 1,
    decreases ey - sy,
{
    if sy < ey {
        lemma_region_text_parts_len(lines, sx, sy, lines[ey - 1].len() as int, ey - 1);
    }
}

// ---------------------------------------------------------------------
// Copying, deleting and pasting agree.
// ---------------------------------------------------------------------

/// Pasting a copied region at any valid position reproduces the copied
/// text exactly: the region from the paste position to the paste's end
/// reads back as the copied text, and deleting it restores the buffer.
pub proof fn lemma_paste_reproduces(lines: Seq<Seq<char>>, x: int, y: int, t: Seq<char>)
    requires
        0 <= y < lines.len(),
        0 <= x <= lines[y].len(),
    ensures
        ({
            let (ex, ey) = insert_end_pos(x, y, t);
            let m = lines_after_insert(lines, x, y, split_text(t));
            region_text(m, x, y, ex, ey) == t && lines_after_delete(m, x, y, ex, ey) == lines
        }),
{
    lemma_insert_region_round_trip(lines, x, y, t);
}

/// Inserting a newline-free fragment at the buffer's origin and deleting
/// the same range returns the fragment and restores the lines.
pub proof fn lemma_insert_delete_at_origin(lines: Seq<Seq<char>>, t: Seq<char>)
    requires
        lines.len() >= 1,
        forall|j: int| 0 <= j < t.len() ==> t[j] != '\n',
    ensures
        region_text(
            lines.update(0, splice_line(lines[0], 0, t)),
            0,
            0,
            t.len() as int,
            0,
        ) == t,
        lines_after_delete(
            lines.update(0, splice_line(lines[0], 0, t)),
            0,
            0,
            t.len() as int,
            0,
        ) == lines,
{
    lemma_find_nl_none(t);
    assert(split_text(t) =~= seq![t]);
    lemma_insert_region_round_trip(lines, 0, 0, t);
    assert(lines_after_insert(lines, 0, 0, split_text(t)) =~~= lines.update(
        0,
        splice_line(lines[0], 0, t),
    ));
}

/// After `ensure_cursor_visible` the cursor lands inside the viewport:
/// its screen row is below the viewport height, and under wrapping its
/// screen column is below the viewport width.
pub proof fn lemma_cursor_on_screen(
    cgvy: int,
    scroll_y: int,
    viewport_height: int,
    cx: int,
    viewport_width: int,
)
    requires
        scroll_y <= cgvy,
        cgvy < scroll_y + (if viewport_height == 0 {
            1int
        } else {
            viewport_height
        }),
        cx >= 0,
        viewport_width >= 1,
    ensures
        0 <= cgvy - scroll_y,
        cgvy - scroll_y < (if viewport_height == 0 {
            1int
        } else {
            viewport_height
        }),
        0 <= cx % viewport_width < viewport_width,
{
}

/// Loading canonical text and saving the buffer back is byte-identical.
pub proof fn lemma_open_save_identity(t: Seq<char>)
    requires
        t.len() == 0 || t[t.len() - 1] != '\n',
    ensures
        join_texts(load_parts(t)) == t,
{
    crate::persist::lemma_load_save_round_trip(t);
}

} // verus!
