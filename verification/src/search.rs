//! Substring search across the buffer, forward and backward.
//!
//! A needle matches at `(x, y)` when it equals the characters of line `y`
//! starting at column `x`.  The forward search scans the starting line
//! from the given column and later lines from column zero, and returns
//! the first match in reading order; the backward search is symmetric
//! and returns the last match at or before the starting position.  An
//! empty needle never matches.

use vstd::prelude::*;

use crate::buffer::Buffer;

verus! {

/// The needle occurs at column `x` of line `y`.
pub open spec fn match_at(lines: Seq<Seq<char>>, needle: Seq<char>, x: int, y: int) -> bool {
    &&& 0 <= y < lines.len()
    &&& 0 <= x
    &&& x + needle.len() <= lines[y].len()
    &&& lines[y].subrange(x, x + needle.len()) == needle
}

/// `(x1, y1)` comes no later than `(x2, y2)` in reading order.
pub open spec fn pos_le(x1: int, y1: int, x2: int, y2: int) -> bool {
    y1 < y2 || (y1 == y2 && x1 <= x2)
}

/// `(x1, y1)` comes strictly before `(x2, y2)` in reading order.
pub open spec fn pos_lt(x1: int, y1: int, x2: int, y2: int) -> bool {
    y1 < y2 || (y1 == y2 && x1 < x2)
}

impl Buffer {
    /// Whether the needle matches at `(x, y)`.
    pub fn match_here(&self, needle: &Vec<char>, x: usize, y: usize) -> (r: bool)
        requires
            self.wf(),
            y < self@.lines.len(),
        ensures
            r == match_at(self@.lines, needle@, x as int, y as int),
    {
        let llen = self.lines[y].char_len;
        let nlen = needle.len();
        if x > llen || nlen > llen - x {
            return false;
        }
        let mut i: usize = 0;
        while i < nlen
            invariant
                self.wf(),
                y < self@.lines.len(),
                x + nlen <= self@.lines[y as int].len(),
                nlen == needle@.len(),
                0 <= i <= nlen,
                forall|j: int| 0 <= j < i ==> self@.lines[y as int][x + j] == needle@[j],
            decreases nlen - i,
        {
            if self.lines[y].text[x + i] != needle[i] {
                return false;
            }
            i = i + 1;
        }
        proof {
            assert(self@.lines[y as int].subrange(x as int, x + needle@.len()) =~= needle@);
        }
        true
    }

    /// First occurrence of the needle at or after `(x0, y0)` in reading
    /// order, or `None`.  An empty needle finds nothing.
    pub fn search_forward(&self, needle: &Vec<char>, x0: usize, y0: usize) -> (r: Option<
        (usize, usize),
    >)
        requires
            self.wf(),
            y0 < self@.lines.len(),
        ensures
            needle@.len() == 0 ==> r is None,
            r is Some ==> ({
                let (x, y) = r->0;
                &&& match_at(self@.lines, needle@, x as int, y as int)
                &&& pos_le(x0 as int, y0 as int, x as int, y as int)
                &&& forall|xp: int, yp: int|
                    pos_le(x0 as int, y0 as int, xp, yp) && pos_lt(xp, yp, x as int, y as int)
                        ==> !match_at(self@.lines, needle@, xp, yp)
            }),
            r is None ==> needle@.len() == 0 || forall|xp: int, yp: int|
                pos_le(x0 as int, y0 as int, xp, yp) ==> !match_at(self@.lines, needle@, xp, yp),
    {
        let nlen = needle.len();
        if nlen == 0 {
            return None;
        }
        let n = self.lines.len();
        let mut y: usize = y0;
        while y < n
            invariant
                self.wf(),
                n == self@.lines.len(),
                y0 <= y,
                nlen == needle@.len(),
                nlen >= 1,
                forall|xp: int, yp: int|
                    pos_le(x0 as int, y0 as int, xp, yp) && yp < y ==> !match_at(self@.lines,
                        needle@, xp, yp),
            decreases n - y,
        {
            let start: usize = if y == y0 {
                x0
            } else {
                0
            };
            let llen = self.lines[y].char_len;
            if nlen <= llen {
                let last = llen - nlen;
                let mut x: usize = start;
                while x <= last
                    invariant
                        self.wf(),
                        n == self@.lines.len(),
                        y0 <= y < n,
                        llen == self@.lines[y as int].len(),
                        nlen == needle@.len(),
                        nlen >= 1,
                        last == llen - nlen,
                        start <= x,
                        y == y0 ==> start == x0,
                        y != y0 ==> start == 0,
                        forall|xp: int, yp: int|
                            pos_le(x0 as int, y0 as int, xp, yp) && yp < y ==> !match_at(
                                self@.lines, needle@, xp, yp),
                        forall|xp: int|
                            start <= xp < x ==> !match_at(self@.lines, needle@, xp, y as int),
                    decreases last + 1 - x,
                {
                    if self.match_here(needle, x, y) {
                        proof {
                            assert forall|xp: int, yp: int|
                                pos_le(x0 as int, y0 as int, xp, yp) && pos_lt(xp, yp, x as int,
                                    y as int) implies !match_at(self@.lines, needle@, xp, yp) by {
                                if yp == y && y == y0 {
                                    assert(xp >= x0);
                                }
                            }
                        }
                        return Some((x, y));
                    }
                    x = x + 1;
                }
            }
            proof {
                assert forall|xp: int, yp: int|
                    pos_le(x0 as int, y0 as int, xp, yp) && yp < y + 1 implies !match_at(
                    self@.lines, needle@, xp, yp) by {
                    if yp == y && match_at(self@.lines, needle@, xp, yp) {
                        assert(xp + nlen <= llen);
                    }
                }
            }
            y = y + 1;
        }
        None
    }

    /// Last occurrence of the needle at or before `(x0, y0)` in reading
    /// order, or `None`.  An empty needle finds nothing.
    pub fn search_backward(&self, needle: &Vec<char>, x0: usize, y0: usize) -> (r: Option<
        (usize, usize),
    >)
        requires
            self.wf(),
            y0 < self@.lines.len(),
        ensures
            needle@.len() == 0 ==> r is None,
            r is Some ==> ({
                let (x, y) = r->0;
                &&& match_at(self@.lines, needle@, x as int, y as int)
                &&& pos_le(x as int, y as int, x0 as int, y0 as int)
                &&& forall|xp: int, yp: int|
                    pos_le(xp, yp, x0 as int, y0 as int) && pos_lt(x as int, y as int, xp, yp)
                        ==> !match_at(self@.lines, needle@, xp, yp)
            }),
            r is None ==> needle@.len() == 0 || forall|xp: int, yp: int|
                pos_le(xp, yp, x0 as int, y0 as int) ==> !match_at(self@.lines, needle@, xp, yp),
    {
        let nlen = needle.len();
        if nlen == 0 {
            return None;
        }
        let mut y: usize = y0;
        let mut fin: bool = false;
        while !fin
            invariant
                self.wf(),
                y <= y0 < self@.lines.len(),
                nlen == needle@.len(),
                nlen >= 1,
                !fin ==> forall|xp: int, yp: int|
                    pos_le(xp, yp, x0 as int, y0 as int) && y < yp ==> !match_at(self@.lines,
                        needle@, xp, yp),
                fin ==> forall|xp: int, yp: int|
                    pos_le(xp, yp, x0 as int, y0 as int) ==> !match_at(self@.lines, needle@, xp,
                        yp),
            decreases y + (if fin { 0int } else { 1 }),
        {
            let llen = self.lines[y].char_len;
            if nlen <= llen {
                let last = llen - nlen;
                let hi: usize = if y == y0 && x0 < last {
                    x0
                } else {
                    last
                };
                let mut xi: usize = hi + 1;
                while xi > 0
                    invariant
                        self.wf(),
                        y <= y0 < self@.lines.len(),
                        llen == self@.lines[y as int].len(),
                        nlen == needle@.len(),
                        nlen >= 1,
                        last == llen - nlen,
                        hi <= last,
                        y == y0 ==> hi == x0 || hi == last,
                        y == y0 && x0 < last ==> hi == x0,
                        y != y0 ==> hi == last,
                        xi <= hi + 1,
                        forall|xp: int|
                            xi <= xp <= hi ==> !match_at(self@.lines, needle@, xp, y as int),
                        forall|xp: int, yp: int|
                            pos_le(xp, yp, x0 as int, y0 as int) && y < yp ==> !match_at(
                                self@.lines, needle@, xp, yp),
                    decreases xi,
                {
                    let x = xi - 1;
                    if self.match_here(needle, x, y) {
                        proof {
                            assert forall|xp: int, yp: int|
                                pos_le(xp, yp, x0 as int, y0 as int) && pos_lt(x as int, y as int,
                                    xp, yp) implies !match_at(self@.lines, needle@, xp, yp) by {
                                if yp == y && match_at(self@.lines, needle@, xp, yp) {
                                    assert(xp + nlen <= llen);
                                    assert(xp <= last);
                                    if y == y0 {
                                        assert(xp <= x0);
                                    }
                                    assert(xp <= hi);
                                }
                            }
                        }
                        return Some((x, y));
                    }
                    xi = x;
                }
            }
            proof {
                assert forall|xp: int, yp: int|
                    pos_le(xp, yp, x0 as int, y0 as int) && y <= yp implies !match_at(self@.lines,
                    needle@, xp, yp) by {
                    if yp == y && match_at(self@.lines, needle@, xp, yp) {
                        assert(xp + nlen <= self@.lines[y as int].len());
                        if y == y0 {
                            assert(xp <= x0);
                        }
                    }
                }
            }
            if y == 0 {
                fin = true;
            } else {
                y = y - 1;
            }
        }
        None
    }
}

} // verus!

verus! {

/// `(x, y)` is the first match of `needle` at or after `(x0, y0)`.
pub open spec fn first_match_from(
    lines: Seq<Seq<char>>,
    needle: Seq<char>,
    x0: int,
    y0: int,
    x: int,
    y: int,
) -> bool {
    &&& match_at(lines, needle, x, y)
    &&& pos_le(x0, y0, x, y)
    &&& forall|xp: int, yp: int|
        pos_le(x0, y0, xp, yp) && pos_lt(xp, yp, x, y) ==> !match_at(lines, needle, xp, yp)
}

/// No match of `needle` lies at or after `(x0, y0)`.
pub open spec fn no_match_from(lines: Seq<Seq<char>>, needle: Seq<char>, x0: int, y0: int) -> bool {
    forall|xp: int, yp: int| pos_le(x0, y0, xp, yp) ==> !match_at(lines, needle, xp, yp)
}

/// `(x, y)` is the last match of `needle` at or before `(x0, y0)`.
pub open spec fn last_match_upto(
    lines: Seq<Seq<char>>,
    needle: Seq<char>,
    x0: int,
    y0: int,
    x: int,
    y: int,
) -> bool {
    &&& match_at(lines, needle, x, y)
    &&& pos_le(x, y, x0, y0)
    &&& forall|xp: int, yp: int|
        pos_le(xp, yp, x0, y0) && pos_lt(x, y, xp, yp) ==> !match_at(lines, needle, xp, yp)
}

/// No match of `needle` lies at or before `(x0, y0)`.
pub open spec fn no_match_upto(lines: Seq<Seq<char>>, needle: Seq<char>, x0: int, y0: int) -> bool {
    forall|xp: int, yp: int| pos_le(xp, yp, x0, y0) ==> !match_at(lines, needle, xp, yp)
}

} // verus!
