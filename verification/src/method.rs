//! The two keying conventions, Telex and VNI.
//!
//! [`Telex`] and [`Vni`] expose per-key classifiers in the traditional shape
//! (mark key, doubled/paired tone key, stroke key, remove key).  The engine
//! itself works from the finer tables at the bottom of this module, which
//! name the exact shape modifier a key forms on a given base vowel.

use vstd::prelude::*;
use crate::chars;
use crate::keys;

verus! {

/// Telex: marks on `s f r x j`, shapes on doubled vowels and `w`, stroke on
/// doubled `d`, removal on `z`.
pub struct Telex;

/// VNI: marks on `1`..`5`, shapes on `6 7 8`, stroke on `9`, removal on `0`.
pub struct Vni;

/// The mark a Telex key stands for: `s f r x j` give the five marks.
pub open spec fn telex_mark(key: u16) -> Option<u8> {
    if key == keys::S {
        Some(chars::MARK_ACUTE)
    } else if key == keys::F {
        Some(chars::MARK_GRAVE)
    } else if key == keys::R {
        Some(chars::MARK_HOOK)
    } else if key == keys::X {
        Some(chars::MARK_TILDE)
    } else if key == keys::J {
        Some(chars::MARK_DOT)
    } else {
        None
    }
}

/// The mark a VNI key stands for: `1`..`5` give the five marks.
pub open spec fn vni_mark(key: u16) -> Option<u8> {
    if key == keys::N1 {
        Some(chars::MARK_ACUTE)
    } else if key == keys::N2 {
        Some(chars::MARK_GRAVE)
    } else if key == keys::N3 {
        Some(chars::MARK_HOOK)
    } else if key == keys::N4 {
        Some(chars::MARK_TILDE)
    } else if key == keys::N5 {
        Some(chars::MARK_DOT)
    } else {
        None
    }
}

/// Immediate Telex tone classification: a doubled `a`/`e`/`o` forms a hat
/// (`Some(1)`), `w` after `a`/`o`/`u` forms a breve or horn (`Some(2)`).
pub open spec fn telex_tone(key: u16, prev: Option<u16>) -> Option<u8> {
    match prev {
        None => None,
        Some(p) => {
            if key == p && (key == keys::A || key == keys::E || key == keys::O) {
                Some(1u8)
            } else if key == keys::W && (p == keys::A || p == keys::O || p == keys::U) {
                Some(2u8)
            } else {
                None
            }
        },
    }
}

/// Immediate VNI tone classification: `6` after `a`/`e`/`o` forms a hat
/// (`Some(1)`), `7` after `o`/`u` and `8` after `a` form a horn or breve
/// (`Some(2)`).
pub open spec fn vni_tone(key: u16, prev: Option<u16>) -> Option<u8> {
    match prev {
        None => None,
        Some(p) => {
            if key == keys::N6 && (p == keys::A || p == keys::E || p == keys::O) {
                Some(1u8)
            } else if key == keys::N7 && (p == keys::O || p == keys::U) {
                Some(2u8)
            } else if key == keys::N8 && p == keys::A {
                Some(2u8)
            } else {
                None
            }
        },
    }
}

/// Delayed Telex tone resolution over the vowels of the buffer, oldest
/// first: a repeated vowel key finds its own letter; `w` prefers a trailing
/// `uo`/`ou` pair (the `ươ` precursor) and otherwise the most recent
/// `a`/`o`/`u`.
pub open spec fn telex_tone_for(key: u16, vowels: Seq<u16>) -> Option<(u8, u16)> {
    if (key == keys::A || key == keys::E || key == keys::O) && vowels.contains(key) {
        Some((1u8, key))
    } else if key == keys::W {
        if vowels.len() >= 2 && vowels[vowels.len() - 2] == keys::U && vowels[vowels.len() - 1]
            == keys::O {
            Some((2u8, keys::U))
        } else if vowels.len() >= 2 && vowels[vowels.len() - 2] == keys::O && vowels[vowels.len()
            - 1] == keys::U {
            Some((2u8, keys::O))
        } else if vowels.contains(keys::A) || vowels.contains(keys::O) || vowels.contains(
            keys::U,
        ) {
            Some((2u8, last_w_vowel(vowels)))
        } else {
            None
        }
    } else {
        None
    }
}

/// The most recent vowel in the sequence that `w` can modify.
pub open spec fn last_w_vowel(vowels: Seq<u16>) -> u16
    decreases vowels.len(),
{
    if vowels.len() == 0 {
        keys::A
    } else if vowels.last() == keys::A || vowels.last() == keys::O || vowels.last() == keys::U {
        vowels.last()
    } else {
        last_w_vowel(vowels.drop_last())
    }
}

impl Telex {
    /// The mark a key carries, if any.
    pub fn is_mark(&self, key: u16) -> (r: Option<u8>)
        ensures
            r == telex_mark(key),
    {
        if key == keys::S {
            Some(chars::MARK_ACUTE)
        } else if key == keys::F {
            Some(chars::MARK_GRAVE)
        } else if key == keys::R {
            Some(chars::MARK_HOOK)
        } else if key == keys::X {
            Some(chars::MARK_TILDE)
        } else if key == keys::J {
            Some(chars::MARK_DOT)
        } else {
            None
        }
    }

    /// Immediate tone classification against the directly preceding letter.
    pub fn is_tone(&self, key: u16, prev: Option<u16>) -> (r: Option<u8>)
        ensures
            r == telex_tone(key, prev),
    {
        match prev {
            None => None,
            Some(p) => {
                if key == p && (key == keys::A || key == keys::E || key == keys::O) {
                    Some(1u8)
                } else if key == keys::W && (p == keys::A || p == keys::O || p == keys::U) {
                    Some(2u8)
                } else {
                    None
                }
            },
        }
    }

    /// Delayed tone resolution over the buffer's vowels, oldest first.
    #[verifier::loop_isolation(false)]
    pub fn is_tone_for(&self, key: u16, vowels: &[u16]) -> (r: Option<(u8, u16)>)
        ensures
            r == telex_tone_for(key, vowels@),
    {
        if key == keys::A || key == keys::E || key == keys::O {
            let mut i: usize = vowels.len();
            while i > 0
                invariant
                    i <= vowels@.len(),
                    forall|k: int| i <= k < vowels@.len() ==> vowels@[k] != key,
                decreases i,
            {
                i = i - 1;
                if vowels[i] == key {
                    assert(vowels@.contains(key));
                    return Some((1u8, key));
                }
            }
            assert(!vowels@.contains(key));
            None
        } else if key == keys::W {
            let n = vowels.len();
            if n >= 2 && vowels[n - 2] == keys::U && vowels[n - 1] == keys::O {
                return Some((2u8, keys::U));
            }
            if n >= 2 && vowels[n - 2] == keys::O && vowels[n - 1] == keys::U {
                return Some((2u8, keys::O));
            }
            let mut i: usize = n;
            assert(vowels@.take(n as int) =~= vowels@);
            while i > 0
                invariant
                    i <= vowels@.len(),
                    forall|k: int|
                        i <= k < vowels@.len() ==> vowels@[k] != keys::A && vowels@[k] != keys::O
                            && vowels@[k] != keys::U,
                    last_w_vowel(vowels@) == last_w_vowel(vowels@.take(i as int)),
                decreases i,
            {
                i = i - 1;
                let v = vowels[i];
                if v == keys::A || v == keys::O || v == keys::U {
                    assert(vowels@.take(i + 1 as int).last() == v);
                    assert(vowels@.contains(v)) by {
                        assert(vowels@[i as int] == v);
                    }
                    return Some((2u8, v));
                }
                assert(vowels@.take(i + 1 as int).drop_last() =~= vowels@.take(i as int));
            }
            assert(forall|k: int| 0 <= k < vowels@.len() ==> #[trigger] vowels@[k] != keys::A);
            assert(!vowels@.contains(keys::A) && !vowels@.contains(keys::O) && !vowels@.contains(
                keys::U,
            ));
            None
        } else {
            None
        }
    }

    /// Whether this key strokes a directly preceding `d`.
    pub fn is_d(&self, key: u16, prev: Option<u16>) -> (r: bool)
        ensures
            r == (key == keys::D && prev == Some(keys::D)),
    {
        key == keys::D && match prev {
            Some(p) => p == keys::D,
            None => false,
        }
    }

    /// Whether this key removes the word's mark.
    pub fn is_remove(&self, key: u16) -> (r: bool)
        ensures
            r == (key == keys::Z),
    {
        key == keys::Z
    }
}

impl Vni {
    /// The mark a key carries, if any.
    pub fn is_mark(&self, key: u16) -> (r: Option<u8>)
        ensures
            r == vni_mark(key),
    {
        if key == keys::N1 {
            Some(chars::MARK_ACUTE)
        } else if key == keys::N2 {
            Some(chars::MARK_GRAVE)
        } else if key == keys::N3 {
            Some(chars::MARK_HOOK)
        } else if key == keys::N4 {
            Some(chars::MARK_TILDE)
        } else if key == keys::N5 {
            Some(chars::MARK_DOT)
        } else {
            None
        }
    }

    /// Immediate tone classification against the directly preceding letter.
    pub fn is_tone(&self, key: u16, prev: Option<u16>) -> (r: Option<u8>)
        ensures
            r == vni_tone(key, prev),
    {
        match prev {
            None => None,
            Some(p) => {
                if key == keys::N6 && (p == keys::A || p == keys::E || p == keys::O) {
                    Some(1u8)
                } else if key == keys::N7 && (p == keys::O || p == keys::U) {
                    Some(2u8)
                } else if key == keys::N8 && p == keys::A {
                    Some(2u8)
                } else {
                    None
                }
            },
        }
    }

    /// Whether this key strokes a directly preceding `d`.
    pub fn is_d(&self, key: u16, prev: Option<u16>) -> (r: bool)
        ensures
            r == (key == keys::N9 && prev == Some(keys::D)),
    {
        key == keys::N9 && match prev {
            Some(p) => p == keys::D,
            None => false,
        }
    }

    /// Whether this key removes the word's mark.
    pub fn is_remove(&self, key: u16) -> (r: bool)
        ensures
            r == (key == keys::N0),
    {
        key == keys::N0
    }
}

/// The mark a key stands for under the active method, `0` for none.
pub open spec fn mark_of(vni: bool, key: u16) -> u8 {
    let m = if vni {
        vni_mark(key)
    } else {
        telex_mark(key)
    };
    match m {
        Some(k) => k,
        None => 0,
    }
}

/// The shape modifier this key forms on a slot with the given base vowel,
/// `0` for none.
pub open spec fn modifier_of(vni: bool, key: u16, base: u16) -> u8 {
    if vni {
        if key == keys::N6 && (base == keys::A || base == keys::E || base == keys::O) {
            chars::MOD_CIRCUMFLEX
        } else if key == keys::N7 && (base == keys::O || base == keys::U) {
            chars::MOD_HORN
        } else if key == keys::N8 && base == keys::A {
            chars::MOD_BREVE
        } else {
            0
        }
    } else {
        if (key == keys::A || key == keys::E || key == keys::O) && key == base {
            chars::MOD_CIRCUMFLEX
        } else if key == keys::W && base == keys::A {
            chars::MOD_BREVE
        } else if key == keys::W && (base == keys::O || base == keys::U) {
            chars::MOD_HORN
        } else {
            0
        }
    }
}

/// A key that can form a modifier on some base under the active method.
pub open spec fn is_modifier_key(vni: bool, key: u16) -> bool {
    if vni {
        key == keys::N6 || key == keys::N7 || key == keys::N8
    } else {
        key == keys::A || key == keys::E || key == keys::O || key == keys::W
    }
}

/// The horn-forming key, which gets the trailing `uo`-pair treatment.
pub open spec fn is_horn_key(vni: bool, key: u16) -> bool {
    if vni {
        key == keys::N7
    } else {
        key == keys::W
    }
}

/// The stroke-forming key of the active method.
pub open spec fn is_stroke_key(vni: bool, key: u16) -> bool {
    if vni {
        key == keys::N9
    } else {
        key == keys::D
    }
}

/// The mark-removal key of the active method.
pub open spec fn is_remove_key(vni: bool, key: u16) -> bool {
    if vni {
        key == keys::N0
    } else {
        key == keys::Z
    }
}

/// Executable twin of [`mark_of`].
pub fn mark_of_key(vni: bool, key: u16) -> (r: u8)
    ensures
        r == mark_of(vni, key),
{
    if vni {
        match (Vni {}).is_mark(key) {
            Some(k) => k,
            None => 0,
        }
    } else {
        match (Telex {}).is_mark(key) {
            Some(k) => k,
            None => 0,
        }
    }
}

/// Executable twin of [`modifier_of`].
pub fn modifier_of_key(vni: bool, key: u16, base: u16) -> (r: u8)
    ensures
        r == modifier_of(vni, key, base),
{
    if vni {
        if key == keys::N6 && (base == keys::A || base == keys::E || base == keys::O) {
            chars::MOD_CIRCUMFLEX
        } else if key == keys::N7 && (base == keys::O || base == keys::U) {
            chars::MOD_HORN
        } else if key == keys::N8 && base == keys::A {
            chars::MOD_BREVE
        } else {
            0
        }
    } else {
        if (key == keys::A || key == keys::E || key == keys::O) && key == base {
            chars::MOD_CIRCUMFLEX
        } else if key == keys::W && base == keys::A {
            chars::MOD_BREVE
        } else if key == keys::W && (base == keys::O || base == keys::U) {
            chars::MOD_HORN
        } else {
            0
        }
    }
}

} // verus!
