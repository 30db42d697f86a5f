//! Line-wrapping mode and the visual height of a single line.
//!
//! Under `Truncate` every logical line occupies one screen row; under
//! `Wrap` a line of `len` characters occupies `ceil(max(len, 1) /
//! max(width, 1))` rows.  The per-buffer prefix-sum cache over these
//! heights lives with the buffer itself.

use vstd::prelude::*;

verus! {

#[derive(Clone, Copy, PartialEq, Eq, Structural, Debug)]
pub enum LineWrapMode {
    Wrap,
    Truncate,
}

/// Number of screen rows a line of `len` characters occupies at viewport
/// width `width`.
pub open spec fn spec_visual_height(len: nat, width: nat, wrap: LineWrapMode) -> nat {
    match wrap {
        LineWrapMode::Truncate => 1,
        LineWrapMode::Wrap => {
            let l: nat = if len == 0 { 1 } else { len };
            let w: nat = if width == 0 { 1 } else { width };
            (((l + w - 1) as int / w as int) as nat)
        },
    }
}

/// Every line occupies at least one screen row.
pub proof fn lemma_visual_height_at_least_one(len: nat, width: nat, wrap: LineWrapMode)
    ensures
        spec_visual_height(len, width, wrap) >= 1,
{
    match wrap {
        LineWrapMode::Truncate => {},
        LineWrapMode::Wrap => {
            let l: nat = if len == 0 { 1 } else { len };
            let w: nat = if width == 0 { 1 } else { width };
            assert((l + w - 1) as int / w as int >= 1) by (nonlinear_arith)
                requires l >= 1 && w >= 1;
        },
    }
}

/// A line never occupies more rows than it has characters (plus one for
/// the empty line).
pub proof fn lemma_visual_height_bound(len: nat, width: nat, wrap: LineWrapMode)
    ensures
        spec_visual_height(len, width, wrap) <= len + 1,
{
    match wrap {
        LineWrapMode::Truncate => {},
        LineWrapMode::Wrap => {
            let l: nat = if len == 0 { 1 } else { len };
            let w: nat = if width == 0 { 1 } else { width };
            assert((l + w - 1) as int / w as int <= l) by (nonlinear_arith)
                requires l >= 1 && w >= 1;
        },
    }
}

/// Executable visual height, free of overflow for every input.
pub fn visual_height_of(len: usize, width: usize, wrap: LineWrapMode) -> (h: usize)
    ensures
        h == spec_visual_height(len as nat, width as nat, wrap),
{
    match wrap {
        LineWrapMode::Truncate => 1,
        LineWrapMode::Wrap => {
            let l: usize = if len == 0 { 1 } else { len };
            let w: usize = if width == 0 { 1 } else { width };
            let q: usize = l / w;
            let r: usize = l % w;
            assert(r != 0 ==> q < usize::MAX) by (nonlinear_arith)
                requires
                    w >= 1,
                    q == l as int / w as int,
                    r == l as int % w as int,
                    l <= usize::MAX,
            ;
            let h: usize = if r != 0 { q + 1 } else { q };
            assert(h == (l + w - 1) as int / w as int) by (nonlinear_arith)
                requires
                    w >= 1,
                    l >= 1,
                    q == l as int / w as int,
                    r == l as int % w as int,
                    h == q + if r != 0 { 1int } else { 0int },
            ;
            h
        },
    }
}

} // verus!
