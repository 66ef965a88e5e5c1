//! The laws of the engine, stated and proved over the model.
//!
//! Each proof function here is a property of [`model::step`] or of one of
//! its named branches, for every state the property speaks of — not for the
//! handful of inputs a test can try.

use vstd::prelude::*;
use crate::chars;
use crate::keys;
use crate::keys::RawKey;
use crate::method;
use crate::model;
use crate::model::{LastOp, State};
use crate::nucleus;
use crate::slot;
use crate::slot::Slot;

verus! {

/// The code point a literal slot renders to is exactly the character the
/// host itself would have typed for the key.
pub proof fn lemma_literal_cp(key: u16, caps: bool)
    requires
        keys::is_letter(key) || keys::is_digit(key),
    ensures
        slot::slot_cp(slot::literal_slot(key, caps), 0) == keys::host_char(key, caps),
{
}

/// A mark application that changes only the mark: the chosen slot is not a
/// pending `w`, and no `ươ` completion fires.
pub open spec fn plain_mark_apply(s: State, key: u16) -> bool {
    let j = nucleus::last_vowel_idx(s.slots);
    let st = nucleus::run_start(s.slots, j);
    let closed = j + 1 < s.slots.len();
    &&& j >= 0
    &&& !model::uo_completion(s.slots, st, j, closed)
    &&& !s.slots[nucleus::mark_index(s.slots, st, j + 1, closed, s.modern)].w_literal
}

/// Round trip for marks: applying a mark key and then the identical key
/// again restores the pre-apply rendering, with the key itself appended as
/// the literal letter it is — for every word and every supporting vowel.
///
/// The guard `plain_mark_apply` leaves out the applications that change a
/// letter besides placing the mark (resolving a pending `w`, completing
/// `ươ`): there the pre-apply rendering deliberately is not restored.
pub proof fn lemma_mark_round_trip(s: State, key: u16, caps: bool, caps2: bool, m: u8)
    requires
        model::wf(s),
        keys::is_letter(key) || keys::is_digit(key),
        m == method::mark_of(model::vni(s), key),
        m != 0,
        s.mark == 0,
        plain_mark_apply(s, key),
    ensures
        model::step_mark(s, key, caps, m).0.mark == m,
        model::step_mark(s, key, caps, m).0.last == LastOp::DidMark,
        model::render_of(model::step_mark(model::step_mark(s, key, caps, m).0, key, caps2, m).0)
            == model::render_of(s).push(keys::host_char(key, caps2)),
{
    let j = nucleus::last_vowel_idx(s.slots);
    nucleus::lemma_last_vowel_idx(s.slots);
    let st = nucleus::run_start(s.slots, j);
    nucleus::lemma_run_start(s.slots, j);
    let closed = j + 1 < s.slots.len();
    let idx = nucleus::mark_index(s.slots, st, j + 1, closed, s.modern);
    nucleus::lemma_mark_index_in_range(s.slots, st, j + 1, closed, s.modern);
    let s1 = model::step_mark(s, key, caps, m).0;
    assert(s1.slots =~= s.slots) by {
        assert(model::resolve_w(s.slots[idx]) == s.slots[idx]);
    }
    let s2 = model::step_mark(s1, key, caps2, m).0;
    assert(s2.slots =~= s.slots.push(slot::literal_slot(key, caps2)));
    assert(s2.mark == 0);
    lemma_literal_cp(key, caps2);
    assert(model::render_of(s2) =~= model::render_of(s).push(keys::host_char(key, caps2)));
}

/// A modifier application resolved by the generic backward scan (not a
/// revert, not the trailing `uo` pair rule).
pub open spec fn modifier_applies_by_scan(s: State, key: u16) -> bool {
    let j = nucleus::last_vowel_idx(s.slots);
    let p = nucleus::prev_vowel_idx(s.slots, j);
    &&& model::mod_revert_target(s, key) == -1
    &&& !(method::is_horn_key(model::vni(s), key) && j >= 0 && p >= 0 && model::horn_pair_target(
        s.slots,
        p,
        j,
    ) >= 0)
    &&& model::scan_modifier_target(s.slots, model::vni(s), key) >= 0
}

/// Round trip for modifiers: applying a shape key and then the identical
/// key again restores the pre-apply rendering, with the key itself appended
/// as a literal — for every word and every supporting vowel.
pub proof fn lemma_modifier_round_trip(s: State, key: u16, caps: bool, caps2: bool)
    requires
        model::wf(s),
        keys::is_letter(key) || keys::is_digit(key),
        modifier_applies_by_scan(s, key),
    ensures
        model::step_modifier(model::step_modifier(s, key, caps).0, key, caps2).0.slots
            == s.slots.push(slot::literal_slot(key, caps2)),
        model::render_of(model::step_modifier(model::step_modifier(s, key, caps).0, key, caps2).0)
            == model::render_of(s).push(keys::host_char(key, caps2)),
{
    let vni = model::vni(s);
    let t = model::scan_modifier_target(s.slots, vni, key);
    model::lemma_scan_modifier_target(s.slots, vni, key);
    let m = method::modifier_of(vni, key, s.slots[t].base);
    let s1 = model::step_modifier(s, key, caps).0;
    assert(s1.slots == s.slots.update(t, model::set_modifier(s.slots[t], m)));
    assert(s1.last == LastOp::DidModifier(t as usize));
    assert(!s.slots[t].w_literal);
    assert(model::mod_revert_target(s1, key) == t);
    let s2 = model::step_modifier(s1, key, caps2).0;
    assert(s2.slots =~= s.slots.push(slot::literal_slot(key, caps2))) by {
        assert(model::set_modifier(model::set_modifier(s.slots[t], m), 0) == s.slots[t]);
        assert(s1.slots.update(t, model::set_modifier(s1.slots[t], 0)) =~= s.slots);
    }
    assert(s2.mark == s.mark && s2.mark_idx == s.mark_idx);
    lemma_literal_cp(key, caps2);
    assert(model::render_of(s2) =~= model::render_of(s).push(keys::host_char(key, caps2)));
}

/// Sticky mark anchor: a vowel appended after the nucleus+mark is final
/// (the extension is no valid nucleus) never moves the mark, and the word
/// only grows by the typed letter.
pub proof fn lemma_mark_anchor_sticky(s: State, key: u16, caps: bool)
    requires
        model::wf(s),
        keys::is_letter(key) || keys::is_digit(key),
        s.mark != 0,
        !(keys::is_vowel(key) && s.slots.len() > 0 && slot::is_vowel_slot(
            s.slots[s.slots.len() - 1],
        ) && nucleus::run_start(s.slots, s.slots.len() - 1) <= s.mark_idx
            && nucleus::valid_nucleus(
            nucleus::bases_of(s.slots, nucleus::run_start(s.slots, s.slots.len() - 1), s.slots.len() as int).push(key),
        )),
    ensures
        model::step_letter(s, key, caps).0.mark == s.mark,
        model::step_letter(s, key, caps).0.mark_idx == s.mark_idx,
        model::step_letter(s, key, caps).0.slots == s.slots.push(slot::literal_slot(key, caps)),
        model::render_of(model::step_letter(s, key, caps).0) == model::render_of(s).push(
            keys::host_char(key, caps),
        ),
{
    let s2 = model::step_letter(s, key, caps).0;
    assert(s2 == model::append_literal(s, key, caps));
    lemma_literal_cp(key, caps);
    assert(model::render_of(s2) =~= model::render_of(s).push(keys::host_char(key, caps)));
}

/// The mark key of the given method for one of the five marks.
pub open spec fn mark_key_for(vni: bool, m: u8) -> u16 {
    if vni {
        if m == 1 {
            keys::N1
        } else if m == 2 {
            keys::N2
        } else if m == 3 {
            keys::N3
        } else if m == 4 {
            keys::N4
        } else {
            keys::N5
        }
    } else {
        if m == 1 {
            keys::S
        } else if m == 2 {
            keys::F
        } else if m == 3 {
            keys::R
        } else if m == 4 {
            keys::X
        } else {
            keys::J
        }
    }
}

/// The composition table, exhaustively: under either method, typing any
/// base vowel and then the key for any of the five marks renders exactly
/// the composed Vietnamese letter of the table.
pub proof fn lemma_composition_table(meth: u8, v: u16, m: u8)
    requires
        keys::is_vowel(v),
        1 <= m <= 5,
    ensures
        model::render_of(
            model::step(
                model::step(
                    State { method: meth, ..model::init_state() },
                    v,
                    false,
                    false,
                ).0,
                mark_key_for(meth == 1, m),
                false,
                false,
            ).0,
        ) == seq![chars::lower_cp(v, 0, m)],
{
    let s0 = State { method: meth, ..model::init_state() };
    let s0r = State { raw: s0.raw.push(RawKey { key: v, caps: false }), ..s0 };
    let s1 = model::step(s0, v, false, false).0;
    assert(s1.slots =~= seq![slot::literal_slot(v, false)]);
    assert(s1.mark == 0);
    let k = mark_key_for(meth == 1, m);
    let s1r = State { raw: s1.raw.push(RawKey { key: k, caps: false }), ..s1 };
    let s2 = model::step(s1, k, false, false).0;
    assert(nucleus::last_vowel_idx(s1r.slots) == 0);
    assert(nucleus::run_start(s1r.slots, 0) == 0);
    assert(nucleus::last_modified_in(s1r.slots, 0, 0) == -1);
    assert(nucleus::last_modified_in(s1r.slots, 0, 1) == -1);
    assert(nucleus::mark_index(s1r.slots, 0, 1, false, true) == 0);
    assert(s2.mark == m && s2.mark_idx == 0);
    assert(s2.slots =~= seq![slot::literal_slot(v, false)]);
    assert(model::render_of(s2) =~= seq![chars::lower_cp(v, 0, m)]);
}

/// Two slot sequences that spell the same word: they may differ only in
/// pending-`w` bookkeeping, never in a letter, shape, stroke or case.
pub open spec fn same_letters(a: Seq<Slot>, b: Seq<Slot>) -> bool {
    &&& a.len() == b.len()
    &&& forall|i: int|
        0 <= i < a.len() ==> (#[trigger] a[i]).base == b[i].base && a[i].caps == b[i].caps
            && a[i].modifier == b[i].modifier && a[i].stroke == b[i].stroke
}

/// Orthography affects placement only: two states that differ only in the
/// orthography convention place a fresh mark on words with the same
/// letters, the same mark — only the anchor may differ.
pub proof fn lemma_orthography_letters(s: State, key: u16, caps: bool, m: u8)
    requires
        model::wf(s),
    ensures
        same_letters(
            model::step_mark(s, key, caps, m).0.slots,
            model::step_mark(State { modern: !s.modern, ..s }, key, caps, m).0.slots,
        ),
        model::step_mark(s, key, caps, m).0.mark == model::step_mark(
            State { modern: !s.modern, ..s },
            key,
            caps,
            m,
        ).0.mark,
{
    let sx = State { modern: !s.modern, ..s };
    let s1 = model::step_mark(s, key, caps, m).0;
    let s2 = model::step_mark(sx, key, caps, m).0;
    if s.mark == 0 {
        let j = nucleus::last_vowel_idx(s.slots);
        if j >= 0 {
            nucleus::lemma_last_vowel_idx(s.slots);
            let st = nucleus::run_start(s.slots, j);
            nucleus::lemma_run_start(s.slots, j);
            let closed = j + 1 < s.slots.len();
            nucleus::lemma_mark_index_in_range(s.slots, st, j + 1, closed, s.modern);
            let slots2 = if model::uo_completion(s.slots, st, j, closed) {
                s.slots.update(j, model::set_modifier(s.slots[j], chars::MOD_HORN))
            } else {
                s.slots
            };
            nucleus::lemma_mark_index_in_range(slots2, st, j + 1, closed, s.modern);
            nucleus::lemma_mark_index_in_range(slots2, st, j + 1, closed, !s.modern);
            assert(same_letters(s1.slots, s2.slots));
        }
    }
}

/// Orthography affects placement only, on the re-anchoring path too: when
/// an appended vowel extends a marked nucleus, the two conventions keep the
/// same letters and the same mark; only the anchor may differ.
pub proof fn lemma_orthography_letters_on_append(s: State, key: u16, caps: bool)
    requires
        model::wf(s),
    ensures
        same_letters(
            model::step_letter(s, key, caps).0.slots,
            model::step_letter(State { modern: !s.modern, ..s }, key, caps).0.slots,
        ),
        model::step_letter(s, key, caps).0.mark == model::step_letter(
            State { modern: !s.modern, ..s },
            key,
            caps,
        ).0.mark,
{
    let sx = State { modern: !s.modern, ..s };
    let n = s.slots.len() as int;
    if keys::is_vowel(key) && s.mark != 0 && n > 0 && slot::is_vowel_slot(s.slots[n - 1]) {
        let st = nucleus::run_start(s.slots, n - 1);
        nucleus::lemma_run_start(s.slots, n - 1);
        if st <= s.mark_idx && nucleus::valid_nucleus(
            nucleus::bases_of(s.slots, st, n).push(key),
        ) {
            let slots2 = s.slots.push(slot::literal_slot(key, caps));
            nucleus::lemma_mark_index_in_range(slots2, st, n + 1, false, s.modern);
            nucleus::lemma_mark_index_in_range(slots2, st, n + 1, false, !s.modern);
            assert(same_letters(
                model::step_letter(s, key, caps).0.slots,
                model::step_letter(sx, key, caps).0.slots,
            ));
        }
    }
}

/// `same_letters` is reflexive.
pub proof fn lemma_same_letters_refl(a: Seq<Slot>)
    ensures
        same_letters(a, a),
{
}

/// Orthography affects placement only, for every key event: two engines
/// that differ only in the orthography convention keep words with the same
/// letters and the same mark after any one key — only the anchor and the
/// convention flag itself may differ.
pub proof fn lemma_orthography_step(s: State, key: u16, caps: bool, ctrl: bool)
    requires
        model::wf(s),
    ensures
        same_letters(
            model::step(s, key, caps, ctrl).0.slots,
            model::step(State { modern: !s.modern, ..s }, key, caps, ctrl).0.slots,
        ),
        model::step(s, key, caps, ctrl).0.mark == model::step(
            State { modern: !s.modern, ..s },
            key,
            caps,
            ctrl,
        ).0.mark,
{
    let sx = State { modern: !s.modern, ..s };
    let a = model::step(s, key, caps, ctrl).0;
    let b = model::step(sx, key, caps, ctrl).0;
    if !s.enabled || ctrl || !(keys::is_letter(key) || keys::is_digit(key)) {
        assert(same_letters(a.slots, b.slots));
    } else if key == keys::DELETE || key == keys::SPACE {
        assert(same_letters(a.slots, b.slots));
    } else {
        let s1 = State { raw: s.raw.push(RawKey { key, caps }), ..s };
        let sx1 = State { raw: sx.raw.push(RawKey { key, caps }), ..sx };
        assert(sx1 == State { modern: !s1.modern, ..s1 });
        if model::find_shortcut(s1.shortcuts, s1.raw, true) >= 0 {
            assert(same_letters(a.slots, b.slots));
        } else if keys::is_digit(key) && !model::vni(s) {
            assert(same_letters(a.slots, b.slots));
        } else {
            let vni = model::vni(s);
            let m = method::mark_of(vni, key);
            if m != 0 {
                lemma_orthography_letters(s1, key, caps, m);
                assert(same_letters(a.slots, b.slots));
            } else if method::is_stroke_key(vni, key) {
                assert(a.slots == model::step_stroke(s1, key, caps).0.slots);
                assert(b.slots == model::step_stroke(sx1, key, caps).0.slots);
                assert(same_letters(a.slots, b.slots)) by {
                    lemma_same_letters_refl(a.slots);
                }
            } else if method::is_modifier_key(vni, key) {
                assert(same_letters(a.slots, b.slots)) by {
                    lemma_same_letters_refl(a.slots);
                }
            } else if !vni && method::is_remove_key(vni, key) {
                assert(same_letters(a.slots, b.slots)) by {
                    lemma_same_letters_refl(a.slots);
                }
            } else {
                lemma_orthography_letters_on_append(s1, key, caps);
                assert(same_letters(a.slots, b.slots));
            }
        }
    }
}

/// Method-scoped digits: under Telex a digit key is always literal — it
/// passes through and only ends the current word (when it completes no
/// registered shortcut).
pub proof fn lemma_telex_digit_literal(s: State, key: u16, caps: bool)
    requires
        s.enabled,
        !model::vni(s),
        keys::is_digit(key),
        model::find_shortcut(s.shortcuts, s.raw.push(RawKey { key, caps }), true) == -1,
    ensures
        model::step(s, key, caps, false).0 == model::reset_word(s),
        model::step(s, key, caps, false).1 == model::pass(),
{
}

/// A slot is removed only by an explicit delete or a word boundary, never
/// implicitly: a letter key that completes no shortcut can only keep or
/// grow the word.
pub proof fn lemma_no_implicit_removal(s: State, key: u16, caps: bool)
    requires
        model::wf(s),
        s.enabled,
        keys::is_letter(key),
        model::find_shortcut(s.shortcuts, s.raw.push(RawKey { key, caps }), true) == -1,
    ensures
        model::step(s, key, caps, false).0.slots.len() >= s.slots.len(),
{
    let s1 = State { raw: s.raw.push(RawKey { key, caps }), ..s };
    let vni = model::vni(s);
    // range facts for every slot index a handler may update
    nucleus::lemma_last_vowel_idx(s1.slots);
    let j = nucleus::last_vowel_idx(s1.slots);
    if j >= 0 {
        nucleus::lemma_run_start(s1.slots, j);
        let st = nucleus::run_start(s1.slots, j);
        let closed = j + 1 < s1.slots.len();
        let slots2 = if model::uo_completion(s1.slots, st, j, closed) {
            s1.slots.update(j, model::set_modifier(s1.slots[j], chars::MOD_HORN))
        } else {
            s1.slots
        };
        nucleus::lemma_mark_index_in_range(slots2, st, j + 1, closed, s1.modern);
        nucleus::lemma_last_vowel_idx(s1.slots.take(j));
    }
    let n = s1.slots.len() as int;
    if n > 0 && slot::is_vowel_slot(s1.slots[n - 1]) {
        nucleus::lemma_run_start(s1.slots, n - 1);
        let st = nucleus::run_start(s1.slots, n - 1);
        nucleus::lemma_mark_index_in_range(
            s1.slots.push(slot::literal_slot(key, caps)),
            st,
            n + 1,
            false,
            s1.modern,
        );
    }
    model::lemma_scan_modifier_target(s1.slots, vni, key);
    model::lemma_scan_stroke_target(s1.slots);
}

/// A stroke revert is sticky: while the flag stands, a Telex stroke key is
/// a literal letter and never re-applies the stroke.
pub proof fn lemma_stroke_sticky(s: State, key: u16, caps: bool)
    requires
        model::wf(s),
        !model::vni(s),
        method::is_stroke_key(model::vni(s), key),
        s.sticky,
    ensures
        model::step_stroke(s, key, caps).0.slots == s.slots.push(slot::literal_slot(key, caps)),
        model::step_stroke(s, key, caps).0.sticky,
{
    assert(model::step_stroke(s, key, caps).0.slots =~= s.slots.push(
        slot::literal_slot(key, caps),
    ));
}

/// No history leaks across a delete: afterwards nothing is revertable and
/// the stroke flag is re-armed.
pub proof fn lemma_delete_clears_history(s: State)
    ensures
        !model::step_delete(s).0.sticky,
        model::step_delete(s).0.last == LastOp::Idle,
{
}

/// An immediate shortcut that fires leaves no word and no raw history
/// behind: its trigger is immediately re-armable.
pub proof fn lemma_shortcut_fire_resets(s: State, key: u16, caps: bool)
    requires
        s.enabled,
        keys::is_letter(key) || keys::is_digit(key),
        model::find_shortcut(s.shortcuts, s.raw.push(RawKey { key, caps }), true) >= 0,
    ensures
        model::step(s, key, caps, false).0 == model::reset_word(s),
        model::step(s, key, caps, false).0.raw.len() == 0,
        model::step(s, key, caps, false).0.slots.len() == 0,
{
}

} // verus!
