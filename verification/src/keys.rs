//! Semantic key codes and the basic classification of keys.
//!
//! The host maps physical keys to these codes before calling the engine.
//! Letters come first (`A` .. `Z`), then the digit keys (`N0` .. `N9`),
//! then space and delete.  Any other code is unknown to the engine and is
//! passed through.

use vstd::prelude::*;

verus! {

pub const A: u16 = 0;
pub const B: u16 = 1;
pub const C: u16 = 2;
pub const D: u16 = 3;
pub const E: u16 = 4;
pub const F: u16 = 5;
pub const G: u16 = 6;
pub const H: u16 = 7;
pub const I: u16 = 8;
pub const J: u16 = 9;
pub const K: u16 = 10;
pub const L: u16 = 11;
pub const M: u16 = 12;
pub const N: u16 = 13;
pub const O: u16 = 14;
pub const P: u16 = 15;
pub const Q: u16 = 16;
pub const R: u16 = 17;
pub const S: u16 = 18;
pub const T: u16 = 19;
pub const U: u16 = 20;
pub const V: u16 = 21;
pub const W: u16 = 22;
pub const X: u16 = 23;
pub const Y: u16 = 24;
pub const Z: u16 = 25;
pub const N0: u16 = 26;
pub const N1: u16 = 27;
pub const N2: u16 = 28;
pub const N3: u16 = 29;
pub const N4: u16 = 30;
pub const N5: u16 = 31;
pub const N6: u16 = 32;
pub const N7: u16 = 33;
pub const N8: u16 = 34;
pub const N9: u16 = 35;
pub const SPACE: u16 = 36;
pub const DELETE: u16 = 37;
pub const LBRACKET: u16 = 38;
pub const RBRACKET: u16 = 39;

/// One recorded key event: the key and whether it was typed uppercase.
#[derive(Clone, Copy, PartialEq, Eq, Structural)]
pub struct RawKey {
    pub key: u16,
    pub caps: bool,
}

/// A letter key, `A` .. `Z`.
pub open spec fn is_letter(key: u16) -> bool {
    key <= Z
}

/// A digit key, `N0` .. `N9`.
pub open spec fn is_digit(key: u16) -> bool {
    N0 <= key && key <= N9
}

/// A letter key whose letter is one of the six Vietnamese base vowels.
pub open spec fn is_vowel(key: u16) -> bool {
    key == A || key == E || key == I || key == O || key == U || key == Y
}

/// The code point the host itself inserts for a key it is asked to handle:
/// the ASCII letter (in the requested case), digit, or space.
pub open spec fn host_char(key: u16, caps: bool) -> u32 {
    if is_letter(key) {
        if caps {
            (65 + key) as u32
        } else {
            (97 + key) as u32
        }
    } else if is_digit(key) {
        (48 + key - N0) as u32
    } else {
        32
    }
}

/// Executable twin of [`is_letter`].
pub fn letter(key: u16) -> (r: bool)
    ensures
        r == is_letter(key),
{
    key <= Z
}

/// Executable twin of [`is_digit`].
pub fn digit(key: u16) -> (r: bool)
    ensures
        r == is_digit(key),
{
    N0 <= key && key <= N9
}

/// Executable twin of [`is_vowel`].
pub fn vowel(key: u16) -> (r: bool)
    ensures
        r == is_vowel(key),
{
    key == A || key == E || key == I || key == O || key == U || key == Y
}

/// Executable twin of [`host_char`].
pub fn host_char_of(key: u16, caps: bool) -> (r: u32)
    requires
        is_letter(key) || is_digit(key) || key == SPACE,
    ensures
        r == host_char(key, caps),
{
    if key <= Z {
        if caps {
            65 + key as u32
        } else {
            97 + key as u32
        }
    } else if key <= N9 {
        48 + (key - N0) as u32
    } else {
        32
    }
}

/// The key code for one typed character, as the test harnesses and hosts
/// produce it: letters map case-insensitively, `'<'` stands for delete.
/// Anything else the engine does not know is mapped to an out-of-range code.
pub open spec fn key_of_char(c: char) -> u16 {
    if 'a' <= c && c <= 'z' {
        (c as u16 - 97) as u16
    } else if 'A' <= c && c <= 'Z' {
        (c as u16 - 65) as u16
    } else if '0' <= c && c <= '9' {
        (N0 + (c as u16 - 48)) as u16
    } else if c == ' ' {
        SPACE
    } else if c == '<' {
        DELETE
    } else {
        255
    }
}

/// Executable twin of [`key_of_char`].
pub fn char_to_key(c: char) -> (r: u16)
    ensures
        r == key_of_char(c),
{
    let v = c as u32;
    if 97 <= v && v <= 122 {
        (v - 97) as u16
    } else if 65 <= v && v <= 90 {
        (v - 65) as u16
    } else if 48 <= v && v <= 57 {
        N0 + (v - 48) as u16
    } else if v == 32 {
        SPACE
    } else if v == 60 {
        DELETE
    } else {
        255
    }
}

} // verus!
