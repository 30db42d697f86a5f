//! The numeric prefix argument: a small state machine fed by the
//! `digit-argument` and `universal-argument` commands and consumed by the
//! next ordinary command.
//!
//! Digits accumulate in base ten; a universal argument starts at four and
//! multiplies by four.  The accumulator saturates instead of overflowing,
//! which no sequence of keystrokes a person types ever reaches.

use vstd::prelude::*;

verus! {

#[derive(Clone, Copy, PartialEq, Eq, Structural, Debug)]
pub enum PrefixState {
    Idle,
    Universal(i64),
    Digits(i64),
}

/// `v * 10 + d`, saturating at `i64::MAX`.
pub open spec fn sat_times10_plus(v: int, d: int) -> int {
    if v * 10 + d > i64::MAX {
        i64::MAX as int
    } else {
        v * 10 + d
    }
}

/// `v * 4`, saturating at `i64::MAX`.
pub open spec fn sat_times4(v: int) -> int {
    if v * 4 > i64::MAX {
        i64::MAX as int
    } else {
        v * 4
    }
}

/// Where a `digit-argument-d` command sends the state.
pub open spec fn digit_step(p: PrefixState, d: int) -> PrefixState {
    match p {
        PrefixState::Idle => PrefixState::Digits(d as i64),
        PrefixState::Digits(v) => PrefixState::Digits(sat_times10_plus(v as int, d) as i64),
        PrefixState::Universal(_) => PrefixState::Digits(d as i64),
    }
}

/// Where a `universal-argument` command sends the state.
pub open spec fn universal_step(p: PrefixState) -> PrefixState {
    match p {
        PrefixState::Idle => PrefixState::Universal(4),
        PrefixState::Universal(v) => PrefixState::Universal(sat_times4(v as int) as i64),
        PrefixState::Digits(v) => PrefixState::Digits(sat_times4(v as int) as i64),
    }
}

/// The accumulated value, shown while the prefix is being typed.
pub open spec fn spec_prefix_value(p: PrefixState) -> int {
    match p {
        PrefixState::Idle => 0,
        PrefixState::Digits(v) => v as int,
        PrefixState::Universal(v) => v as int,
    }
}

/// States the transitions can reach never hold a negative value.
pub open spec fn prefix_inv(p: PrefixState) -> bool {
    spec_prefix_value(p) >= 0
}

impl PrefixState {
    /// Feed one digit (`0 <= d <= 9`).
    pub fn digit(&mut self, d: i64)
        requires
            0 <= d <= 9,
            prefix_inv(*old(self)),
        ensures
            *final(self) == digit_step(*old(self), d as int),
            prefix_inv(*final(self)),
    {
        match *self {
            PrefixState::Idle => {
                *self = PrefixState::Digits(d);
            },
            PrefixState::Digits(v) => {
                let w = match v.checked_mul(10) {
                    Some(m) => match m.checked_add(d) {
                        Some(a) => a,
                        None => i64::MAX,
                    },
                    None => i64::MAX,
                };
                proof {
                    assert(v * 10 + d > i64::MAX ==> w == i64::MAX) by (nonlinear_arith)
                        requires
                            0 <= d <= 9,
                            v >= 0,
                            w == if v * 10 > i64::MAX {
                                i64::MAX as int
                            } else if v * 10 + d > i64::MAX {
                                i64::MAX as int
                            } else {
                                v * 10 + d
                            },
                    ;
                }
                *self = PrefixState::Digits(w);
            },
            PrefixState::Universal(_) => {
                *self = PrefixState::Digits(d);
            },
        }
    }

    /// Feed one `universal-argument`.
    pub fn universal(&mut self)
        requires
            prefix_inv(*old(self)),
        ensures
            *final(self) == universal_step(*old(self)),
            prefix_inv(*final(self)),
    {
        match *self {
            PrefixState::Idle => {
                *self = PrefixState::Universal(4);
            },
            PrefixState::Universal(v) => {
                let w = match v.checked_mul(4) {
                    Some(m) => m,
                    None => i64::MAX,
                };
                *self = PrefixState::Universal(w);
            },
            PrefixState::Digits(v) => {
                let w = match v.checked_mul(4) {
                    Some(m) => m,
                    None => i64::MAX,
                };
                *self = PrefixState::Digits(w);
            },
        }
    }

    /// Take the accumulated value and reset; `None` when no prefix is
    /// pending.
    pub fn consume(&mut self) -> (r: Option<i64>)
        ensures
            *final(self) == PrefixState::Idle,
            match *old(self) {
                PrefixState::Idle => r is None,
                PrefixState::Digits(v) => r == Some(v),
                PrefixState::Universal(v) => r == Some(v),
            },
    {
        match *self {
            PrefixState::Digits(v) => {
                *self = PrefixState::Idle;
                Some(v)
            },
            PrefixState::Universal(v) => {
                *self = PrefixState::Idle;
                Some(v)
            },
            PrefixState::Idle => None,
        }
    }

    /// The value currently shown while the prefix is being typed.
    pub fn value_shown(&self) -> (r: i64)
        requires
            prefix_inv(*self),
        ensures
            r as int == spec_prefix_value(*self),
    {
        match *self {
            PrefixState::Idle => 0,
            PrefixState::Digits(v) => v,
            PrefixState::Universal(v) => v,
        }
    }
}

impl Default for PrefixState {
    /// No prefix pending.
    fn default() -> (r: PrefixState)
        ensures
            r == PrefixState::Idle,
    {
        PrefixState::Idle
    }
}

/// The value a run of digits accumulates: the decimal number they spell.
pub open spec fn digits_value(ds: Seq<int>) -> int
    decreases ds.len(),
{
    if ds.len() == 0 {
        0
    } else {
        digits_value(ds.drop_last()) * 10 + ds.last()
    }
}

/// Applying `digit-argument` commands for each digit in turn.
pub open spec fn apply_digits(p: PrefixState, ds: Seq<int>) -> PrefixState
    decreases ds.len(),
{
    if ds.len() == 0 {
        p
    } else {
        digit_step(apply_digits(p, ds.drop_last()), ds.last())
    }
}

/// Accumulated digit values never shrink under more digits.
pub proof fn lemma_digits_value_nonneg(ds: Seq<int>)
    requires
        forall|i: int| 0 <= i < ds.len() ==> 0 <= #[trigger] ds[i] <= 9,
    ensures
        digits_value(ds) >= 0,
    decreases ds.len(),
{
    if ds.len() > 0 {
        lemma_digits_value_nonneg(ds.drop_last());
        assert(digits_value(ds.drop_last()) * 10 >= 0) by (nonlinear_arith)
            requires digits_value(ds.drop_last()) >= 0;
    }
}

/// After a run of digits `d1 .. dk` with no intervening universal
/// argument, consuming the prefix yields the decimal number they spell —
/// as long as that number fits the accumulator, which any number a person
/// types does.
pub proof fn lemma_digit_accumulation(ds: Seq<int>)
    requires
        ds.len() >= 1,
        forall|i: int| 0 <= i < ds.len() ==> 0 <= #[trigger] ds[i] <= 9,
        digits_value(ds) <= i64::MAX,
    ensures
        apply_digits(PrefixState::Idle, ds) == PrefixState::Digits(digits_value(ds) as i64),
    decreases ds.len(),
{
    if ds.len() == 1 {
        assert(digits_value(ds) == ds.last());
    } else {
        let head = ds.drop_last();
        lemma_digits_value_nonneg(head);
        lemma_digits_value_nonneg(ds);
        assert(0 <= ds[ds.len() - 1] <= 9);
        assert(digits_value(head) * 10 <= digits_value(head) * 10 + ds.last());
        assert(digits_value(head) <= digits_value(head) * 10) by (nonlinear_arith)
            requires digits_value(head) >= 0;
        lemma_digit_accumulation(head);
        assert(apply_digits(PrefixState::Idle, ds) == digit_step(
            PrefixState::Digits(digits_value(head) as i64),
            ds.last(),
        ));
        assert(sat_times10_plus(digits_value(head), ds.last()) == digits_value(ds));
    }
}

} // verus!
