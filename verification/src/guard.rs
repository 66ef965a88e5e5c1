//! The guard against corrupting intermixed English text.
//!
//! Once per committed word it asks: does the raw Latin spelling look like an
//! English word that only collided with the keying convention (a doubled
//! mark-key consonant followed by a vowel other than `y`), and is the
//! transformed word not a plausible Vietnamese syllable?  Only then is the
//! untransformed spelling restored.

use vstd::prelude::*;
use crate::keys;
use crate::keys::RawKey;
use crate::nucleus;
use crate::slot::{Slot, is_vowel_slot};

verus! {

/// First vowel slot at or after `i`, or the length if there is none.
pub open spec fn first_vowel_from(slots: Seq<Slot>, i: int) -> int
    decreases slots.len() - i,
{
    if i < 0 || i >= slots.len() {
        slots.len() as int
    } else if is_vowel_slot(slots[i]) {
        i
    } else {
        first_vowel_from(slots, i + 1)
    }
}

/// First non-vowel slot at or after `i`, or the length if there is none.
pub open spec fn first_nonvowel_from(slots: Seq<Slot>, i: int) -> int
    decreases slots.len() - i,
{
    if i < 0 || i >= slots.len() {
        slots.len() as int
    } else if !is_vowel_slot(slots[i]) {
        i
    } else {
        first_nonvowel_from(slots, i + 1)
    }
}

/// Valid syllable onsets, by base letters.
pub open spec fn valid_onset(b: Seq<u16>) -> bool {
    if b.len() == 0 {
        true
    } else if b.len() == 1 {
        b[0] == keys::B || b[0] == keys::C || b[0] == keys::D || b[0] == keys::G || b[0] == keys::H
            || b[0] == keys::K || b[0] == keys::L || b[0] == keys::M || b[0] == keys::N || b[0]
            == keys::P || b[0] == keys::Q || b[0] == keys::R || b[0] == keys::S || b[0] == keys::T
            || b[0] == keys::V || b[0] == keys::X
    } else if b.len() == 2 {
        (b[0] == keys::C && b[1] == keys::H) || (b[0] == keys::G && b[1] == keys::H) || (b[0]
            == keys::K && b[1] == keys::H) || (b[0] == keys::N && (b[1] == keys::G || b[1]
            == keys::H)) || (b[0] == keys::P && b[1] == keys::H) || (b[0] == keys::T && (b[1]
            == keys::H || b[1] == keys::R))
    } else if b.len() == 3 {
        b[0] == keys::N && b[1] == keys::G && b[2] == keys::H
    } else {
        false
    }
}

/// Valid syllable codas, by base letters.
pub open spec fn valid_coda(b: Seq<u16>) -> bool {
    if b.len() == 0 {
        true
    } else if b.len() == 1 {
        b[0] == keys::C || b[0] == keys::M || b[0] == keys::N || b[0] == keys::P || b[0] == keys::T
    } else if b.len() == 2 {
        (b[0] == keys::C && b[1] == keys::H) || (b[0] == keys::N && (b[1] == keys::G || b[1]
            == keys::H))
    } else {
        false
    }
}

/// A plausible Vietnamese syllable: letters only, one vowel run, strokes
/// confined to the onset, and onset, nucleus and coda all from their tables.
pub open spec fn valid_syllable(slots: Seq<Slot>) -> bool {
    let on = first_vowel_from(slots, 0);
    let ne = first_nonvowel_from(slots, on);
    &&& forall|k: int|
        0 <= k < slots.len() ==> keys::is_letter((#[trigger] slots[k]).base) && !slots[k].w_literal
    &&& on < slots.len()
    &&& forall|k: int| ne <= k < slots.len() ==> !is_vowel_slot(#[trigger] slots[k])
    &&& forall|k: int| 0 <= k < slots.len() && (#[trigger] slots[k]).stroke ==> k < on
    &&& valid_onset(nucleus::bases_of(slots, 0, on))
    &&& valid_nucleus_here(slots, on, ne)
    &&& valid_coda(nucleus::bases_of(slots, ne, slots.len() as int))
}

/// The nucleus of a syllable: a valid nucleus pattern, or a doubled
/// identical vowel (a circumflex precursor left unfinished).
pub open spec fn valid_nucleus_here(slots: Seq<Slot>, on: int, ne: int) -> bool {
    nucleus::valid_nucleus(nucleus::bases_of(slots, on, ne)) || (ne - on == 2 && slots[on].base
        == slots[on + 1].base)
}

/// The raw spelling pattern the guard looks for: a mark-key consonant
/// directly followed by a vowel — the shape Telex reads as a tone trigger
/// inside an English word.  A trailing `y` is excluded.
pub open spec fn collision_pattern(raw: Seq<RawKey>) -> bool {
    exists|i: int|
        0 <= i && i + 1 < raw.len() && is_mark_letter((#[trigger] raw[i]).key) && keys::is_vowel(
            raw[i + 1].key,
        ) && raw[i + 1].key != keys::Y
}

/// The five Telex mark letters.
pub open spec fn is_mark_letter(key: u16) -> bool {
    key == keys::S || key == keys::F || key == keys::R || key == keys::X || key == keys::J
}

/// Whether the current word carries any diacritic at all (a pending `w`
/// does not count: it still renders as the typed letter).
pub open spec fn has_diacritic(slots: Seq<Slot>, mark: u8) -> bool {
    mark != 0 || exists|i: int|
        0 <= i < slots.len() && ((#[trigger] slots[i]).modifier != 0 && !slots[i].w_literal
            || slots[i].stroke)
}

/// Every recorded key is a letter key.
pub open spec fn raw_all_letters(raw: Seq<RawKey>) -> bool {
    forall|i: int| 0 <= i < raw.len() ==> keys::is_letter((#[trigger] raw[i]).key)
}

/// A doubled mark-key consonant directly followed by `y`: the apply-revert
/// pair swallowed a letter of what can only be English (`y` never follows a
/// tone trigger), so the raw spelling is owed back.
pub open spec fn doubled_before_y(raw: Seq<RawKey>) -> bool {
    exists|i: int|
        0 <= i && i + 2 < raw.len() && #[trigger] raw[i].key == raw[i + 1].key && is_mark_letter(
            raw[i].key,
        ) && raw[i + 2].key == keys::Y
}

/// The guard's decision.  A transformed word is restored when its raw
/// spelling matches the collision pattern and the transform is not a
/// plausible syllable; an untransformed word is restored when a doubled
/// mark key before `y` swallowed one of its letters.
pub open spec fn guard_fires(slots: Seq<Slot>, mark: u8, raw: Seq<RawKey>) -> bool {
    &&& raw_all_letters(raw)
    &&& {
        ||| (has_diacritic(slots, mark) && collision_pattern(raw) && !valid_syllable(slots))
        ||| (!has_diacritic(slots, mark) && doubled_before_y(raw))
    }
}

/// Executable twin of [`first_vowel_from`].
#[verifier::loop_isolation(false)]
pub fn first_vowel_from_of(slots: &Vec<Slot>, i: usize) -> (r: usize)
    ensures
        r == first_vowel_from(slots@, i as int),
        i <= r <= slots@.len() || (i > slots@.len() && r == slots@.len()),
    decreases slots@.len() - i,
{
    let mut k: usize = i;
    while k < slots.len() && !keys::vowel(slots[k].base)
        invariant
            i <= k,
            first_vowel_from(slots@, i as int) == first_vowel_from(slots@, k as int),
            k <= slots@.len() || k == i,
        decreases slots@.len() - k,
    {
        k = k + 1;
    }
    if k >= slots.len() {
        slots.len()
    } else {
        k
    }
}

/// Executable twin of [`first_nonvowel_from`].
#[verifier::loop_isolation(false)]
pub fn first_nonvowel_from_of(slots: &Vec<Slot>, i: usize) -> (r: usize)
    ensures
        r == first_nonvowel_from(slots@, i as int),
        i <= r <= slots@.len() || (i > slots@.len() && r == slots@.len()),
{
    let mut k: usize = i;
    while k < slots.len() && keys::vowel(slots[k].base)
        invariant
            i <= k,
            first_nonvowel_from(slots@, i as int) == first_nonvowel_from(slots@, k as int),
            k <= slots@.len() || k == i,
        decreases slots@.len() - k,
    {
        k = k + 1;
    }
    if k >= slots.len() {
        slots.len()
    } else {
        k
    }
}

/// Executable twin of [`valid_onset`] over the bases of `[0, on)`.
pub fn valid_onset_of(slots: &Vec<Slot>, on: usize) -> (r: bool)
    requires
        on <= slots@.len(),
    ensures
        r == valid_onset(nucleus::bases_of(slots@, 0, on as int)),
{
    let ghost b = nucleus::bases_of(slots@, 0, on as int);
    assert(b.len() == on);
    if on == 0 {
        true
    } else if on == 1 {
        assert(b[0] == slots@[0].base);
        let b0 = slots[0].base;
        b0 == keys::B || b0 == keys::C || b0 == keys::D || b0 == keys::G || b0 == keys::H || b0
            == keys::K || b0 == keys::L || b0 == keys::M || b0 == keys::N || b0 == keys::P || b0
            == keys::Q || b0 == keys::R || b0 == keys::S || b0 == keys::T || b0 == keys::V || b0
            == keys::X
    } else if on == 2 {
        assert(b[0] == slots@[0].base && b[1] == slots@[1].base);
        let b0 = slots[0].base;
        let b1 = slots[1].base;
        (b0 == keys::C && b1 == keys::H) || (b0 == keys::G && b1 == keys::H) || (b0 == keys::K && b1
            == keys::H) || (b0 == keys::N && (b1 == keys::G || b1 == keys::H)) || (b0 == keys::P
            && b1 == keys::H) || (b0 == keys::T && (b1 == keys::H || b1 == keys::R))
    } else if on == 3 {
        assert(b[0] == slots@[0].base && b[1] == slots@[1].base && b[2] == slots@[2].base);
        slots[0].base == keys::N && slots[1].base == keys::G && slots[2].base == keys::H
    } else {
        false
    }
}

/// Executable twin of [`valid_coda`] over the bases of `[ne, len)`.
pub fn valid_coda_of(slots: &Vec<Slot>, ne: usize) -> (r: bool)
    requires
        ne <= slots@.len(),
    ensures
        r == valid_coda(nucleus::bases_of(slots@, ne as int, slots@.len() as int)),
{
    let ghost b = nucleus::bases_of(slots@, ne as int, slots@.len() as int);
    let n = slots.len() - ne;
    assert(b.len() == n);
    if n == 0 {
        true
    } else if n == 1 {
        assert(b[0] == slots@[ne as int].base);
        let b0 = slots[ne].base;
        b0 == keys::C || b0 == keys::M || b0 == keys::N || b0 == keys::P || b0 == keys::T
    } else if n == 2 {
        assert(b[0] == slots@[ne as int].base && b[1] == slots@[ne as int + 1].base);
        let b0 = slots[ne].base;
        let b1 = slots[ne + 1].base;
        (b0 == keys::C && b1 == keys::H) || (b0 == keys::N && (b1 == keys::G || b1 == keys::H))
    } else {
        false
    }
}

/// Executable twin of [`valid_syllable`].
#[verifier::loop_isolation(false)]
pub fn valid_syllable_of(slots: &Vec<Slot>) -> (r: bool)
    ensures
        r == valid_syllable(slots@),
{
    let n = slots.len();
    let mut k: usize = 0;
    while k < n
        invariant
            k <= n,
            forall|j: int|
                0 <= j < k ==> keys::is_letter((#[trigger] slots@[j]).base)
                    && !slots@[j].w_literal,
        decreases n - k,
    {
        if !keys::letter(slots[k].base) || slots[k].w_literal {
            return false;
        }
        k = k + 1;
    }
    let on = first_vowel_from_of(slots, 0);
    if on >= n {
        return false;
    }
    let ne = first_nonvowel_from_of(slots, on);
    let mut k2: usize = ne;
    while k2 < n
        invariant
            ne <= k2,
            forall|j: int| ne <= j < k2 ==> !is_vowel_slot(#[trigger] slots@[j]),
        decreases n - k2,
    {
        if keys::vowel(slots[k2].base) {
            return false;
        }
        k2 = k2 + 1;
    }
    let mut k3: usize = 0;
    while k3 < n
        invariant
            k3 <= n,
            forall|j: int| 0 <= j < k3 && (#[trigger] slots@[j]).stroke ==> j < on,
        decreases n - k3,
    {
        if slots[k3].stroke && k3 >= on {
            return false;
        }
        k3 = k3 + 1;
    }
    if !valid_onset_of(slots, on) {
        return false;
    }
    let nucleus_ok = if ne - on == 2 && slots[on].base == slots[on + 1].base {
        true
    } else {
        let ghost b = nucleus::bases_of(slots@, on as int, ne as int);
        assert(b.len() == ne - on);
        if ne - on == 1 {
            assert(b[0] == slots@[on as int].base);
            keys::vowel(slots[on].base)
        } else if ne - on == 2 {
            assert(b[0] == slots@[on as int].base && b[1] == slots@[on as int + 1].base);
            nucleus::valid_pair_of(slots[on].base, slots[on + 1].base)
        } else if ne - on == 3 {
            assert(b[0] == slots@[on as int].base && b[1] == slots@[on as int + 1].base && b[2]
                == slots@[on as int + 2].base);
            nucleus::valid_triple_of(slots[on].base, slots[on + 1].base, slots[on + 2].base)
        } else {
            false
        }
    };
    if !nucleus_ok {
        return false;
    }
    valid_coda_of(slots, ne)
}

/// Executable twin of [`collision_pattern`].
#[verifier::loop_isolation(false)]
pub fn collision_pattern_of(raw: &Vec<RawKey>) -> (r: bool)
    ensures
        r == collision_pattern(raw@),
{
    if raw.len() < 2 {
        return false;
    }
    let n = raw.len();
    let mut i: usize = 0;
    while i < n - 1
        invariant
            i <= n - 1,
            forall|j: int|
                0 <= j < i ==> !(is_mark_letter((#[trigger] raw@[j]).key) && keys::is_vowel(
                    raw@[j + 1].key,
                ) && raw@[j + 1].key != keys::Y),
        decreases raw@.len() - i,
    {
        let a = raw[i].key;
        let b = raw[i + 1].key;
        if (a == keys::S || a == keys::F || a == keys::R || a == keys::X || a == keys::J)
            && keys::vowel(b) && b != keys::Y {
            return true;
        }
        i = i + 1;
    }
    false
}

/// Executable twin of [`has_diacritic`].
#[verifier::loop_isolation(false)]
pub fn has_diacritic_of(slots: &Vec<Slot>, mark: u8) -> (r: bool)
    ensures
        r == has_diacritic(slots@, mark),
{
    if mark != 0 {
        return true;
    }
    let mut i: usize = 0;
    while i < slots.len()
        invariant
            i <= slots@.len(),
            forall|j: int|
                0 <= j < i ==> !((#[trigger] slots@[j]).modifier != 0 && !slots@[j].w_literal
                    || slots@[j].stroke),
        decreases slots@.len() - i,
    {
        let s = slots[i];
        if s.modifier != 0 && !s.w_literal || s.stroke {
            return true;
        }
        i = i + 1;
    }
    false
}

/// Executable twin of [`raw_all_letters`].
#[verifier::loop_isolation(false)]
pub fn raw_all_letters_of(raw: &Vec<RawKey>) -> (r: bool)
    ensures
        r == raw_all_letters(raw@),
{
    let mut i: usize = 0;
    while i < raw.len()
        invariant
            i <= raw@.len(),
            forall|j: int| 0 <= j < i ==> keys::is_letter((#[trigger] raw@[j]).key),
        decreases raw@.len() - i,
    {
        if !keys::letter(raw[i].key) {
            return false;
        }
        i = i + 1;
    }
    true
}

/// Executable twin of [`doubled_before_y`].
#[verifier::loop_isolation(false)]
pub fn doubled_before_y_of(raw: &Vec<RawKey>) -> (r: bool)
    ensures
        r == doubled_before_y(raw@),
{
    if raw.len() < 3 {
        return false;
    }
    let n = raw.len();
    let mut i: usize = 0;
    while i < n - 2
        invariant
            i <= n - 2,
            forall|j: int|
                0 <= j < i ==> !(#[trigger] raw@[j].key == raw@[j + 1].key && is_mark_letter(
                    raw@[j].key,
                ) && raw@[j + 2].key == keys::Y),
        decreases raw@.len() - i,
    {
        let a = raw[i].key;
        let b = raw[i + 1].key;
        let c = raw[i + 2].key;
        if a == b && (a == keys::S || a == keys::F || a == keys::R || a == keys::X || a == keys::J)
            && c == keys::Y {
            return true;
        }
        i = i + 1;
    }
    false
}

/// Executable twin of [`guard_fires`].
pub fn guard_fires_of(slots: &Vec<Slot>, mark: u8, raw: &Vec<RawKey>) -> (r: bool)
    ensures
        r == guard_fires(slots@, mark, raw@),
{
    if !raw_all_letters_of(raw) {
        return false;
    }
    if has_diacritic_of(slots, mark) {
        collision_pattern_of(raw) && !valid_syllable_of(slots)
    } else {
        doubled_before_y_of(raw)
    }
}

} // verus!
