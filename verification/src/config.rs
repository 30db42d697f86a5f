//! User configuration: which physical modifiers trigger each logical
//! modifier bit, the optional prefix keys, and the display toggles.
//!
//! A logical modifier is produced either by holding a physical modifier
//! set (`mod_masks`) or by a two-stroke prefix: a keystroke that matches
//! `prefix_keys[i]` with physical modifiers intersecting
//! `prefix_masks[i]` is swallowed and arms logical bit `i` for the next
//! keystroke.

use vstd::prelude::*;

use crate::keys::{Modifiers, PhysicalModifiers, PHYS_ALT};

verus! {

pub struct UserConfig {
    /// Physical modifier set that triggers each logical bit directly.
    pub mod_masks: [u8; 3],
    /// Optional prefix key per logical bit.
    pub prefix_keys: [Option<char>; 3],
    /// Physical modifiers required together with the prefix key.
    pub prefix_masks: [u8; 3],
    /// Draw a border around the buffer area.
    pub buffer_borders: bool,
    /// Highlight search matches during an incremental search.
    pub isearch_highlight: bool,
}

impl UserConfig {
    /// Configure logical bit `n`.  With a key the combination becomes a
    /// prefix key for that bit; without one the physical mask triggers
    /// the bit directly.
    pub fn set_mod_binding(&mut self, n: usize, phys: PhysicalModifiers, key: Option<char>)
        requires
            n < 3,
        ensures
            key is Some ==> final(self).prefix_keys@ == old(self).prefix_keys@.update(
                n as int,
                key,
            ) && final(self).prefix_masks@ == old(self).prefix_masks@.update(n as int, phys.bits)
                && final(self).mod_masks@ == old(self).mod_masks@.update(n as int, 0u8),
            key is None ==> final(self).prefix_keys@ == old(self).prefix_keys@.update(
                n as int,
                None::<char>,
            ) && final(self).prefix_masks@ == old(self).prefix_masks@.update(n as int, 0u8)
                && final(self).mod_masks@ == old(self).mod_masks@.update(n as int, phys.bits),
            final(self).buffer_borders == old(self).buffer_borders,
            final(self).isearch_highlight == old(self).isearch_highlight,
    {
        match key {
            Some(c) => {
                self.prefix_keys[n] = Some(c);
                self.prefix_masks[n] = phys.bits;
                self.mod_masks[n] = 0;
            },
            None => {
                self.prefix_keys[n] = None;
                self.prefix_masks[n] = 0;
                self.mod_masks[n] = phys.bits;
            },
        }
    }
}

impl Default for UserConfig {
    /// Alt triggers the first logical modifier; no prefix keys, no
    /// borders, search highlighting on.
    fn default() -> (r: UserConfig)
        ensures
            r.mod_masks@ == seq![PHYS_ALT, 0u8, 0u8],
            r.prefix_keys@ == seq![None::<char>, None::<char>, None::<char>],
            r.prefix_masks@ == seq![0u8, 0u8, 0u8],
            !r.buffer_borders,
            r.isearch_highlight,
    {
        let r = UserConfig {
            mod_masks: [PHYS_ALT, 0, 0],
            prefix_keys: [None, None, None],
            prefix_masks: [0, 0, 0],
            buffer_borders: false,
            isearch_highlight: true,
        };
        proof {
            assert(r.mod_masks@ =~= seq![PHYS_ALT, 0u8, 0u8]);
            assert(r.prefix_keys@ =~= seq![None::<char>, None::<char>, None::<char>]);
            assert(r.prefix_masks@ =~= seq![0u8, 0u8, 0u8]);
        }
        r
    }
}

/// Keystroke `key_char` under `physical` modifiers arms prefix bit `i`.
pub open spec fn prefix_hit(
    cfg: &UserConfig,
    physical: u8,
    key_char: Option<char>,
    i: int,
) -> bool {
    &&& cfg.prefix_keys@[i] is Some
    &&& key_char == cfg.prefix_keys@[i]
    &&& physical & cfg.prefix_masks@[i] != 0
}

/// The logical bits the held physical modifiers trigger directly.
pub open spec fn direct_bits(cfg: &UserConfig, physical: u8) -> u8 {
    (if physical & cfg.mod_masks@[0] != 0 {
        1u8
    } else {
        0u8
    }) | (if physical & cfg.mod_masks@[1] != 0 {
        2u8
    } else {
        0u8
    }) | (if physical & cfg.mod_masks@[2] != 0 {
        4u8
    } else {
        0u8
    })
}

/// What modifier resolution yields: either the keystroke is swallowed as
/// a prefix (empty modifiers, a new pending bit), or the direct bits plus
/// a previously armed prefix bit.
pub open spec fn resolve_spec(
    cfg: &UserConfig,
    physical: u8,
    key_char: Option<char>,
    pending: Option<usize>,
) -> (u8, Option<usize>) {
    if prefix_hit(cfg, physical, key_char, 0) {
        (0u8, Some(0usize))
    } else if prefix_hit(cfg, physical, key_char, 1) {
        (0u8, Some(1usize))
    } else if prefix_hit(cfg, physical, key_char, 2) {
        (0u8, Some(2usize))
    } else {
        let base = direct_bits(cfg, physical);
        match pending {
            Some(p) => (base | (if p == 0 {
                1u8
            } else if p == 1 {
                2u8
            } else {
                4u8
            }), None::<usize>),
            None => (base, None::<usize>),
        }
    }
}

/// Translate the physical modifiers of one keystroke into logical ones.
/// A keystroke that matches a configured prefix key is swallowed: it
/// returns no modifiers and arms the pending prefix instead.  Otherwise
/// each logical bit whose physical mask intersects the held modifiers is
/// set, and a previously armed prefix bit is added and cleared.
pub fn resolve_modifiers(
    cfg: &UserConfig,
    physical: PhysicalModifiers,
    key_char: Option<char>,
    pending: Option<usize>,
) -> (r: (Modifiers, Option<usize>))
    requires
        pending is Some ==> pending->0 < 3,
    ensures
        ({
            let (bits, newp) = resolve_spec(cfg, physical.bits, key_char, pending);
            r.0.bits == bits && r.1 == newp
        }),
{
    let mut i: usize = 0;
    while i < 3
        invariant
            0 <= i <= 3,
            forall|j: int| 0 <= j < i ==> !prefix_hit(cfg, physical.bits, key_char, j),
        decreases 3 - i,
    {
        match (self_prefix_key(cfg, i), key_char) {
            (Some(pk), Some(c)) => {
                if c == pk && physical.bits & cfg.prefix_masks[i] != 0 {
                    return (Modifiers::from_bits(0), Some(i));
                }
            },
            _ => {},
        }
        i = i + 1;
    }
    let b0: u8 = if physical.bits & cfg.mod_masks[0] != 0 {
        1
    } else {
        0
    };
    let b1: u8 = if physical.bits & cfg.mod_masks[1] != 0 {
        2
    } else {
        0
    };
    let b2: u8 = if physical.bits & cfg.mod_masks[2] != 0 {
        4
    } else {
        0
    };
    let base: u8 = b0 | b1 | b2;
    match pending {
        Some(p) => {
            let pb: u8 = if p == 0 {
                1
            } else if p == 1 {
                2
            } else {
                4
            };
            (Modifiers::from_bits(base | pb), None)
        },
        None => (Modifiers::from_bits(base), None),
    }
}

/// The configured prefix key for logical bit `i`.
fn self_prefix_key(cfg: &UserConfig, i: usize) -> (r: Option<char>)
    requires
        i < 3,
    ensures
        r == cfg.prefix_keys@[i as int],
{
    cfg.prefix_keys[i]
}

} // verus!
