//! Logical and physical modifier sets, the key map, and the parsers for
//! the `+`-separated modifier strings the configuration uses.
//!
//! Physical modifiers are what the terminal reports (control, alt, shift,
//! super); logical modifiers are the three configurable bits the key map
//! binds against.  Tokens in modifier strings are matched exactly;
//! unknown tokens are ignored.

use vstd::prelude::*;

use crate::text::{split_on, split_chars_on, chars_eq_str, texts_of, to_chars, norm_token,
    normalize_token};

verus! {

pub const MOD0_BIT: u8 = 0b001;

pub const MOD1_BIT: u8 = 0b010;

pub const MOD2_BIT: u8 = 0b100;

pub const PHYS_CTRL: u8 = 0b0001;

pub const PHYS_ALT: u8 = 0b0010;

pub const PHYS_SHIFT: u8 = 0b0100;

pub const PHYS_SUPER: u8 = 0b1000;

/// The three logical modifier bits a binding can require.
#[derive(Clone, Copy, PartialEq, Eq, Structural, Debug, Hash)]
pub struct Modifiers {
    pub bits: u8,
}

impl Modifiers {
    /// No logical modifiers.
    pub fn none() -> (r: Modifiers)
        ensures
            r.bits == 0,
    {
        Modifiers { bits: 0 }
    }

    pub fn from_bits(bits: u8) -> (r: Modifiers)
        ensures
            r.bits == bits,
    {
        Modifiers { bits }
    }

    pub fn is_empty(&self) -> (r: bool)
        ensures
            r == (self.bits == 0),
    {
        self.bits == 0
    }

    /// Whether every bit of `other` is also set in `self`.
    pub fn contains(&self, other: Modifiers) -> (r: bool)
        ensures
            r == (self.bits & other.bits == other.bits),
    {
        self.bits & other.bits == other.bits
    }
}

/// The modifier keys the terminal reports alongside a keystroke.
#[derive(Clone, Copy, PartialEq, Eq, Structural, Debug, Hash)]
pub struct PhysicalModifiers {
    pub bits: u8,
}

impl PhysicalModifiers {
    pub fn none() -> (r: PhysicalModifiers)
        ensures
            r.bits == 0,
    {
        PhysicalModifiers { bits: 0 }
    }

    pub fn from_bits(bits: u8) -> (r: PhysicalModifiers)
        ensures
            r.bits == bits,
    {
        PhysicalModifiers { bits }
    }

    /// Whether the two sets share a modifier.
    pub fn intersects(&self, other: PhysicalModifiers) -> (r: bool)
        ensures
            r == (self.bits & other.bits != 0),
    {
        self.bits & other.bits != 0
    }
}

/// A keystroke after modifier resolution: the logical modifiers and the
/// character.
#[derive(Clone, Copy, PartialEq, Eq, Structural, Debug)]
pub struct KeyEvent {
    pub modifier: Modifiers,
    pub key: char,
}

// ---------------------------------------------------------------------
// Modifier-string parsing.
// ---------------------------------------------------------------------

/// The logical bit a single token names; tokens are trimmed and matched
/// without regard to letter case.
pub open spec fn mod_token_bit(t: Seq<char>) -> u8 {
    let n = norm_token(t);
    if n == "mod0"@ {
        MOD0_BIT
    } else if n == "mod1"@ {
        MOD1_BIT
    } else if n == "mod2"@ {
        MOD2_BIT
    } else {
        0
    }
}

/// The logical bits a token list names.
pub open spec fn mod_tokens_bits(parts: Seq<Seq<char>>) -> u8
    decreases parts.len(),
{
    if parts.len() == 0 {
        0
    } else {
        mod_tokens_bits(parts.drop_last()) | mod_token_bit(parts.last())
    }
}

/// Parse a `+`-separated list of `mod0`, `mod1`, `mod2` tokens into a
/// logical modifier set; tokens are trimmed and case-folded, unknown
/// tokens are ignored.
pub fn parse_modifiers(s: &str) -> (r: Modifiers)
    ensures
        r.bits == mod_tokens_bits(split_on(s@, '+')),
{
    let cs = to_chars(s);
    let parts = split_chars_on(&cs, '+');
    let ghost p = split_on(s@, '+');
    let mut bits: u8 = 0;
    let mut i: usize = 0;
    while i < parts.len()
        invariant
            0 <= i <= parts@.len(),
            texts_of(parts@) == p,
            bits == mod_tokens_bits(p.take(i as int)),
        decreases parts@.len() - i,
    {
        let nt = normalize_token(&parts[i]);
        let b: u8 = if chars_eq_str(&nt, "mod0") {
            MOD0_BIT
        } else if chars_eq_str(&nt, "mod1") {
            MOD1_BIT
        } else if chars_eq_str(&nt, "mod2") {
            MOD2_BIT
        } else {
            0
        };
        proof {
            assert(p.take(i + 1 as int).drop_last() =~= p.take(i as int));
            assert(p.take(i + 1 as int).last() == p[i as int]);
            assert(p[i as int] == parts@[i as int]@);
        }
        bits = bits | b;
        i = i + 1;
    }
    proof {
        assert(p.take(parts@.len() as int) =~= p);
    }
    Modifiers { bits }
}

/// The physical bit a single token names; tokens are trimmed and matched
/// without regard to letter case.
pub open spec fn phys_token_bit(t: Seq<char>) -> u8 {
    let n = norm_token(t);
    if n == "ctrl"@ || n == "control"@ {
        PHYS_CTRL
    } else if n == "alt"@ {
        PHYS_ALT
    } else if n == "shift"@ {
        PHYS_SHIFT
    } else if n == "super"@ || n == "meta"@ {
        PHYS_SUPER
    } else {
        0
    }
}

/// The physical bits a token list names.
pub open spec fn phys_tokens_bits(parts: Seq<Seq<char>>) -> u8
    decreases parts.len(),
{
    if parts.len() == 0 {
        0
    } else {
        phys_tokens_bits(parts.drop_last()) | phys_token_bit(parts.last())
    }
}

/// The prefix key a token list names: the last token that is a single
/// character once trimmed and case-folded.
pub open spec fn key_of_tokens(parts: Seq<Seq<char>>) -> Option<char>
    decreases parts.len(),
{
    if parts.len() == 0 {
        None
    } else if norm_token(parts.last()).len() == 1 {
        Some(norm_token(parts.last())[0])
    } else {
        key_of_tokens(parts.drop_last())
    }
}

/// Parse a `+`-separated list of physical modifier names — `ctrl`,
/// `control`, `alt`, `shift`, `super`, `meta`, trimmed and case-folded —
/// plus at most one single-character token, which becomes the prefix key.
pub fn parse_mod_mask(s: &str) -> (r: (PhysicalModifiers, Option<char>))
    ensures
        r.0.bits == phys_tokens_bits(split_on(s@, '+')),
        r.1 == key_of_tokens(split_on(s@, '+')),
{
    let cs = to_chars(s);
    let parts = split_chars_on(&cs, '+');
    let ghost p = split_on(s@, '+');
    let mut bits: u8 = 0;
    let mut key: Option<char> = None;
    let mut i: usize = 0;
    while i < parts.len()
        invariant
            0 <= i <= parts@.len(),
            texts_of(parts@) == p,
            bits == phys_tokens_bits(p.take(i as int)),
            key == key_of_tokens(p.take(i as int)),
        decreases parts@.len() - i,
    {
        let nt = normalize_token(&parts[i]);
        let b: u8 = if chars_eq_str(&nt, "ctrl") || chars_eq_str(&nt, "control") {
            PHYS_CTRL
        } else if chars_eq_str(&nt, "alt") {
            PHYS_ALT
        } else if chars_eq_str(&nt, "shift") {
            PHYS_SHIFT
        } else if chars_eq_str(&nt, "super") || chars_eq_str(&nt, "meta") {
            PHYS_SUPER
        } else {
            0
        };
        proof {
            assert(p.take(i + 1 as int).drop_last() =~= p.take(i as int));
            assert(p.take(i + 1 as int).last() == p[i as int]);
            assert(p[i as int] == parts@[i as int]@);
        }
        if nt.len() == 1 {
            key = Some(nt[0]);
        }
        bits = bits | b;
        i = i + 1;
    }
    proof {
        assert(p.take(parts@.len() as int) =~= p);
    }
    (PhysicalModifiers { bits }, key)
}

// ---------------------------------------------------------------------
// The key map.
// ---------------------------------------------------------------------

/// One binding: a required logical modifier set, a character, and the
/// name of the command to run.
pub struct Binding {
    pub mods: Modifiers,
    pub key: char,
    pub command: String,
}

/// The key map: bindings in the order they were added.  A later binding
/// for the same key and modifiers wins over an earlier one.
pub struct KeyMap {
    pub bindings: Vec<Binding>,
}

/// What a key map holds, abstractly.
pub open spec fn keymap_view(m: &KeyMap) -> Seq<(u8, char, Seq<char>)> {
    m.bindings@.map(|i: int, b: Binding| (b.mods.bits, b.key, b.command@))
}

/// The newest binding whose character matches and whose required
/// modifiers are all present in `bits`.
pub open spec fn lookup_spec(s: Seq<(u8, char, Seq<char>)>, bits: u8, key: char) -> Option<
    Seq<char>,
>
    decreases s.len(),
{
    if s.len() == 0 {
        None
    } else if s.last().1 == key && (bits & s.last().0 == s.last().0) {
        Some(s.last().2)
    } else {
        lookup_spec(s.drop_last(), bits, key)
    }
}

impl KeyMap {
    pub fn new() -> (r: KeyMap)
        ensures
            keymap_view(&r) == Seq::<(u8, char, Seq<char>)>::empty(),
    {
        let r = KeyMap { bindings: Vec::new() };
        proof {
            assert(keymap_view(&r) =~= Seq::<(u8, char, Seq<char>)>::empty());
        }
        r
    }

    /// Add a binding; it takes precedence over earlier bindings for the
    /// same keystroke.
    pub fn bind(&mut self, mods: Modifiers, key: char, command: String)
        ensures
            keymap_view(final(self)) == keymap_view(old(self)).push(
                (mods.bits, key, command@),
            ),
    {
        let ghost before = keymap_view(self);
        self.bindings.push(Binding { mods, key, command });
        proof {
            assert(keymap_view(self) =~= before.push(
                (mods.bits, key, self.bindings@.last().command@),
            ));
        }
    }

    /// Find the command bound to `key` under the resolved modifiers: a
    /// binding matches when its character is `key` and its required
    /// modifiers are a subset of `mods`; the newest match wins.
    pub fn lookup(&self, mods: Modifiers, key: char) -> (r: Option<&String>)
        ensures
            r is Some <==> lookup_spec(keymap_view(self), mods.bits, key) is Some,
            r is Some ==> r->0@ == lookup_spec(keymap_view(self), mods.bits, key)->0,
    {
        let n = self.bindings.len();
        proof {
            assert(keymap_view(self).take(n as int) =~= keymap_view(self));
        }
        let mut i: usize = n;
        while i > 0
            invariant
                0 <= i <= n,
                n == self.bindings@.len(),
                lookup_spec(keymap_view(self), mods.bits, key) == lookup_spec(
                    keymap_view(self).take(i as int),
                    mods.bits,
                    key,
                ),
            decreases i,
        {
            i = i - 1;
            let b = &self.bindings[i];
            if b.key == key && mods.contains(b.mods) {
                proof {
                    assert(keymap_view(self).take(i + 1 as int).last() == keymap_view(self)[
                        i as int
                    ]);
                }
                return Some(&self.bindings[i].command);
            }
            proof {
                assert(keymap_view(self).take(i + 1 as int).last() == keymap_view(self)[i as int]);
                assert(keymap_view(self).take(i + 1 as int).drop_last() =~= keymap_view(
                    self,
                ).take(i as int));
            }
        }
        proof {
            assert(keymap_view(self).take(0) =~= Seq::<(u8, char, Seq<char>)>::empty());
        }
        None
    }
}

} // verus!

verus! {

/// A decoded keystroke, after the host translated the terminal's raw
/// event.
#[derive(Clone, Copy, PartialEq, Eq, Structural, Debug)]
pub enum Key {
    Char(char),
    Left,
    Right,
    Up,
    Down,
    Backspace,
    Enter,
    Delete,
    Esc,
}

} // verus!
