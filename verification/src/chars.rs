//! The composition table: one base letter with its shape modifier and tone
//! mark, composed to a single precomposed Unicode code point.
//!
//! Lowercase code points are tabulated; the uppercase partner of every
//! Vietnamese letter sits at a fixed offset (0x20 below for ASCII-range
//! letters, 1 below for the letters above U+00FF).

use vstd::prelude::*;
use crate::keys;

verus! {

/// Modifier codes: none, circumflex, breve, horn.
pub const MOD_NONE: u8 = 0;
pub const MOD_CIRCUMFLEX: u8 = 1;
pub const MOD_BREVE: u8 = 2;
pub const MOD_HORN: u8 = 3;

/// Mark codes: none and the five tone marks.
pub const MARK_NONE: u8 = 0;
pub const MARK_ACUTE: u8 = 1;
pub const MARK_GRAVE: u8 = 2;
pub const MARK_HOOK: u8 = 3;
pub const MARK_TILDE: u8 = 4;
pub const MARK_DOT: u8 = 5;

/// Lowercase code point of a base vowel under `modifier` and `mark`; a plain
/// ASCII letter when the base is a consonant or the combination is not in the
/// table.
pub open spec fn lower_cp(base: u16, modifier: u8, mark: u8) -> u32 {
    if base == keys::A {
        if modifier == 1 {
            if mark == 1 { 0x1EA5 } else if mark == 2 { 0x1EA7 } else if mark == 3 { 0x1EA9 }
            else if mark == 4 { 0x1EAB } else if mark == 5 { 0x1EAD } else { 0x00E2 }
        }
        else if modifier == 2 {
            if mark == 1 { 0x1EAF } else if mark == 2 { 0x1EB1 } else if mark == 3 { 0x1EB3 }
            else if mark == 4 { 0x1EB5 } else if mark == 5 { 0x1EB7 } else { 0x0103 }
        }
        else {
            if mark == 1 { 0x00E1 } else if mark == 2 { 0x00E0 } else if mark == 3 { 0x1EA3 }
            else if mark == 4 { 0x00E3 } else if mark == 5 { 0x1EA1 } else { 0x0061 }
        }
    }
    else if base == keys::E {
        if modifier == 1 {
            if mark == 1 { 0x1EBF } else if mark == 2 { 0x1EC1 } else if mark == 3 { 0x1EC3 }
            else if mark == 4 { 0x1EC5 } else if mark == 5 { 0x1EC7 } else { 0x00EA }
        }
        else {
            if mark == 1 { 0x00E9 } else if mark == 2 { 0x00E8 } else if mark == 3 { 0x1EBB }
            else if mark == 4 { 0x1EBD } else if mark == 5 { 0x1EB9 } else { 0x0065 }
        }
    }
    else if base == keys::I {
        if mark == 1 { 0x00ED } else if mark == 2 { 0x00EC } else if mark == 3 { 0x1EC9 }
        else if mark == 4 { 0x0129 } else if mark == 5 { 0x1ECB } else { 0x0069 }
    }
    else if base == keys::O {
        if modifier == 1 {
            if mark == 1 { 0x1ED1 } else if mark == 2 { 0x1ED3 } else if mark == 3 { 0x1ED5 }
            else if mark == 4 { 0x1ED7 } else if mark == 5 { 0x1ED9 } else { 0x00F4 }
        }
        else if modifier == 3 {
            if mark == 1 { 0x1EDB } else if mark == 2 { 0x1EDD } else if mark == 3 { 0x1EDF }
            else if mark == 4 { 0x1EE1 } else if mark == 5 { 0x1EE3 } else { 0x01A1 }
        }
        else {
            if mark == 1 { 0x00F3 } else if mark == 2 { 0x00F2 } else if mark == 3 { 0x1ECF }
            else if mark == 4 { 0x00F5 } else if mark == 5 { 0x1ECD } else { 0x006F }
        }
    }
    else if base == keys::U {
        if modifier == 3 {
            if mark == 1 { 0x1EE9 } else if mark == 2 { 0x1EEB } else if mark == 3 { 0x1EED }
            else if mark == 4 { 0x1EEF } else if mark == 5 { 0x1EF1 } else { 0x01B0 }
        }
        else {
            if mark == 1 { 0x00FA } else if mark == 2 { 0x00F9 } else if mark == 3 { 0x1EE7 }
            else if mark == 4 { 0x0169 } else if mark == 5 { 0x1EE5 } else { 0x0075 }
        }
    }
    else if base == keys::Y {
        if mark == 1 { 0x00FD } else if mark == 2 { 0x1EF3 } else if mark == 3 { 0x1EF7 }
        else if mark == 4 { 0x1EF9 } else if mark == 5 { 0x1EF5 } else { 0x0079 }
    }
    else {
        (97 + base) as u32
    }
}

/// Executable twin of [`lower_cp`].
pub fn lower_cp_of(base: u16, modifier: u8, mark: u8) -> (r: u32)
    requires
        keys::is_letter(base),
    ensures
        r == lower_cp(base, modifier, mark),
{
    if base == keys::A {
        if modifier == 1 {
            if mark == 1 { 0x1EA5 } else if mark == 2 { 0x1EA7 } else if mark == 3 { 0x1EA9 }
            else if mark == 4 { 0x1EAB } else if mark == 5 { 0x1EAD } else { 0x00E2 }
        }
        else if modifier == 2 {
            if mark == 1 { 0x1EAF } else if mark == 2 { 0x1EB1 } else if mark == 3 { 0x1EB3 }
            else if mark == 4 { 0x1EB5 } else if mark == 5 { 0x1EB7 } else { 0x0103 }
        }
        else {
            if mark == 1 { 0x00E1 } else if mark == 2 { 0x00E0 } else if mark == 3 { 0x1EA3 }
            else if mark == 4 { 0x00E3 } else if mark == 5 { 0x1EA1 } else { 0x0061 }
        }
    }
    else if base == keys::E {
        if modifier == 1 {
            if mark == 1 { 0x1EBF } else if mark == 2 { 0x1EC1 } else if mark == 3 { 0x1EC3 }
            else if mark == 4 { 0x1EC5 } else if mark == 5 { 0x1EC7 } else { 0x00EA }
        }
        else {
            if mark == 1 { 0x00E9 } else if mark == 2 { 0x00E8 } else if mark == 3 { 0x1EBB }
            else if mark == 4 { 0x1EBD } else if mark == 5 { 0x1EB9 } else { 0x0065 }
        }
    }
    else if base == keys::I {
        if mark == 1 { 0x00ED } else if mark == 2 { 0x00EC } else if mark == 3 { 0x1EC9 }
        else if mark == 4 { 0x0129 } else if mark == 5 { 0x1ECB } else { 0x0069 }
    }
    else if base == keys::O {
        if modifier == 1 {
            if mark == 1 { 0x1ED1 } else if mark == 2 { 0x1ED3 } else if mark == 3 { 0x1ED5 }
            else if mark == 4 { 0x1ED7 } else if mark == 5 { 0x1ED9 } else { 0x00F4 }
        }
        else if modifier == 3 {
            if mark == 1 { 0x1EDB } else if mark == 2 { 0x1EDD } else if mark == 3 { 0x1EDF }
            else if mark == 4 { 0x1EE1 } else if mark == 5 { 0x1EE3 } else { 0x01A1 }
        }
        else {
            if mark == 1 { 0x00F3 } else if mark == 2 { 0x00F2 } else if mark == 3 { 0x1ECF }
            else if mark == 4 { 0x00F5 } else if mark == 5 { 0x1ECD } else { 0x006F }
        }
    }
    else if base == keys::U {
        if modifier == 3 {
            if mark == 1 { 0x1EE9 } else if mark == 2 { 0x1EEB } else if mark == 3 { 0x1EED }
            else if mark == 4 { 0x1EEF } else if mark == 5 { 0x1EF1 } else { 0x01B0 }
        }
        else {
            if mark == 1 { 0x00FA } else if mark == 2 { 0x00F9 } else if mark == 3 { 0x1EE7 }
            else if mark == 4 { 0x0169 } else if mark == 5 { 0x1EE5 } else { 0x0075 }
        }
    }
    else if base == keys::Y {
        if mark == 1 { 0x00FD } else if mark == 2 { 0x1EF3 } else if mark == 3 { 0x1EF7 }
        else if mark == 4 { 0x1EF9 } else if mark == 5 { 0x1EF5 } else { 0x0079 }
    }
    else {
        97 + base as u32
    }
}

/// Uppercase partner of a lowercase Vietnamese letter code point.
pub open spec fn upper_of(lo: u32) -> u32 {
    if lo < 0x100 {
        (lo - 0x20) as u32
    } else {
        (lo - 1) as u32
    }
}

} // verus!
