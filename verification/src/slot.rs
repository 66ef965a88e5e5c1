//! One letter slot of the current word, and the rendering of a word.
//!
//! A slot owns one typed base key together with its shape state (modifier,
//! stroke).  The tone mark is word-level state: at most one slot of a word
//! carries it, so the word keeps the mark and its slot index beside the slot
//! sequence, and rendering takes them as arguments.

use vstd::prelude::*;
use crate::chars;
use crate::keys;

verus! {

/// One typed letter (or, rarely, digit) of the current word.
///
/// `w_literal` marks a Telex `w` typed with no horn target: the slot stands
/// for `ư` but still renders as the literal `w` the host inserted, until a
/// tone mark lands on it.
#[derive(Clone, Copy, PartialEq, Eq, Structural)]
pub struct Slot {
    pub base: u16,
    pub caps: bool,
    pub modifier: u8,
    pub stroke: bool,
    pub w_literal: bool,
}

/// A plain slot for a key the engine appends literally.
pub open spec fn literal_slot(key: u16, caps: bool) -> Slot {
    Slot {
        base: key,
        caps: if keys::is_digit(key) {
            false
        } else {
            caps
        },
        modifier: 0,
        stroke: false,
        w_literal: false,
    }
}

/// The slot for a Telex `w` kept as a pending `ư`.
pub open spec fn w_slot(caps: bool) -> Slot {
    Slot { base: keys::U, caps, modifier: chars::MOD_HORN, stroke: false, w_literal: true }
}

/// Structural soundness of one slot.
pub open spec fn wf_slot(s: Slot) -> bool {
    &&& keys::is_letter(s.base) || keys::is_digit(s.base)
    &&& s.modifier <= 3
    &&& (s.modifier == chars::MOD_CIRCUMFLEX ==> s.base == keys::A || s.base == keys::E
        || s.base == keys::O)
    &&& (s.modifier == chars::MOD_BREVE ==> s.base == keys::A)
    &&& (s.modifier == chars::MOD_HORN ==> s.base == keys::O || s.base == keys::U)
    &&& (s.stroke ==> s.base == keys::D && s.modifier == 0)
    &&& (s.w_literal ==> s.base == keys::U && s.modifier == chars::MOD_HORN && !s.stroke)
    &&& (keys::is_digit(s.base) ==> s.modifier == 0 && !s.stroke && !s.w_literal && !s.caps)
}

/// A slot whose base letter is a vowel; such slots form the nucleus.
pub open spec fn is_vowel_slot(s: Slot) -> bool {
    keys::is_vowel(s.base)
}

/// The code point one slot renders to, given the mark it carries (`0` for a
/// slot that does not hold the word's mark).
pub open spec fn slot_cp(s: Slot, mark: u8) -> u32 {
    if s.w_literal {
        if s.caps {
            87
        } else {
            119
        }
    } else if keys::is_digit(s.base) {
        (48 + s.base - keys::N0) as u32
    } else {
        let lo = if s.stroke {
            0x111
        } else {
            chars::lower_cp(s.base, s.modifier, mark)
        };
        if s.caps {
            chars::upper_of(lo)
        } else {
            lo
        }
    }
}

/// The rendering of a whole word: one code point per slot, the word's mark
/// applied at `mark_idx`.
pub open spec fn render_seq(slots: Seq<Slot>, mark: u8, mark_idx: int) -> Seq<u32> {
    Seq::new(
        slots.len(),
        |i: int|
            slot_cp(
                slots[i],
                if i == mark_idx && mark != 0 {
                    mark
                } else {
                    0
                },
            ),
    )
}

/// Executable twin of [`slot_cp`].
pub fn slot_cp_of(s: &Slot, mark: u8) -> (r: u32)
    requires
        wf_slot(*s),
    ensures
        r == slot_cp(*s, mark),
{
    if s.w_literal {
        if s.caps {
            87
        } else {
            119
        }
    } else if keys::digit(s.base) {
        48 + (s.base - keys::N0) as u32
    } else {
        let lo = if s.stroke {
            0x111
        } else {
            chars::lower_cp_of(s.base, s.modifier, mark)
        };
        if s.caps {
            assert(lo >= 0x61);
            if lo < 0x100 {
                lo - 0x20
            } else {
                lo - 1
            }
        } else {
            lo
        }
    }
}

/// Executable twin of [`render_seq`].
pub fn render(slots: &Vec<Slot>, mark: u8, mark_idx: usize) -> (r: Vec<u32>)
    requires
        forall|i: int| 0 <= i < slots@.len() ==> wf_slot(slots@[i]),
    ensures
        r@ == render_seq(slots@, mark, mark_idx as int),
{
    let mut out: Vec<u32> = Vec::new();
    let mut i: usize = 0;
    while i < slots.len()
        invariant
            i <= slots@.len(),
            forall|k: int| 0 <= k < slots@.len() ==> wf_slot(slots@[k]),
            out@ == render_seq(slots@, mark, mark_idx as int).take(i as int),
        decreases slots@.len() - i,
    {
        let m = if i == mark_idx {
            mark
        } else {
            0
        };
        let c = slot_cp_of(&slots[i], m);
        out.push(c);
        assert(out@ =~= render_seq(slots@, mark, mark_idx as int).take(i + 1 as int));
        i = i + 1;
    }
    assert(out@ =~= render_seq(slots@, mark, mark_idx as int));
    out
}

} // verus!
