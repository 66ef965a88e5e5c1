//! The engine's state and its per-key transition, as one mathematical model.
//!
//! [`State`] is the ghost image of a running engine; [`step`] says, for every
//! key event, what the next state is and which edit ([`Out`]) goes back to
//! the host.  The executable engine proves that each call lands exactly on
//! this transition, so every law of the library is a statement about `step`.

use vstd::prelude::*;
use crate::guard;
use crate::keys;
use crate::keys::RawKey;
use crate::method;
use crate::nucleus;
use crate::slot;
use crate::slot::Slot;

verus! {

/// What the last buffer mutation was; revert decisions depend on it.
#[derive(Clone, Copy, PartialEq, Eq, Structural)]
pub enum LastOp {
    Idle,
    Inserted,
    DidMark,
    DidModifier(usize),
    DidStroke(usize),
}

/// One registered shortcut, as the model sees it.
pub struct ShortcutSpec {
    pub trigger: Seq<RawKey>,
    pub expansion: Seq<u32>,
    pub immediate: bool,
    pub exact_case: bool,
}

/// The edit handed back for one key: either "pass the key through" (`send`
/// false) or "delete `bs` rendered characters, then insert `text`".
pub struct Out {
    pub send: bool,
    pub bs: int,
    pub text: Seq<u32>,
}

/// The whole engine state: configuration, the current word, its mark, the
/// revert history, the raw key history, and the shortcut table.
pub struct State {
    pub method: u8,
    pub enabled: bool,
    pub modern: bool,
    pub restore: bool,
    pub brackets: bool,
    pub slots: Seq<Slot>,
    pub mark: u8,
    pub mark_idx: int,
    pub last: LastOp,
    pub sticky: bool,
    pub raw: Seq<RawKey>,
    pub shortcuts: Seq<ShortcutSpec>,
}

/// Whether the active method is VNI; every other method byte means Telex.
pub open spec fn vni(s: State) -> bool {
    s.method == 1
}

/// Structural soundness of a state: sound slots, a mark that sits on a
/// vowel slot of the word, and in-range revert indices.
pub open spec fn wf(s: State) -> bool {
    &&& s.slots.len() <= usize::MAX
    &&& forall|i: int| 0 <= i < s.slots.len() ==> slot::wf_slot(#[trigger] s.slots[i])
    &&& s.mark <= 5
    &&& (s.mark != 0 ==> 0 <= s.mark_idx < s.slots.len() && slot::is_vowel_slot(
        s.slots[s.mark_idx],
    ) && !s.slots[s.mark_idx].w_literal)
    &&& (match s.last {
        LastOp::DidModifier(i) => i < s.slots.len(),
        LastOp::DidStroke(i) => i < s.slots.len(),
        _ => true,
    })
}

/// A fresh engine: Telex, modern orthography, enabled, no word.
pub open spec fn init_state() -> State {
    State {
        method: 0,
        enabled: true,
        modern: true,
        restore: false,
        brackets: false,
        slots: Seq::empty(),
        mark: 0,
        mark_idx: 0,
        last: LastOp::Idle,
        sticky: false,
        raw: Seq::empty(),
        shortcuts: Seq::empty(),
    }
}

/// The word and its histories discarded; configuration and shortcuts kept.
pub open spec fn reset_word(s: State) -> State {
    State {
        slots: Seq::empty(),
        mark: 0,
        mark_idx: 0,
        last: LastOp::Idle,
        sticky: false,
        raw: Seq::empty(),
        ..s
    }
}

/// The rendering of the current word.
pub open spec fn render_of(s: State) -> Seq<u32> {
    slot::render_seq(s.slots, s.mark, s.mark_idx)
}

/// "Pass the key through" — the host handles it itself.
pub open spec fn pass() -> Out {
    Out { send: false, bs: 0, text: Seq::empty() }
}

/// Length of the longest common prefix of `a` and `b`, counted from `i`
/// given that the first `i` elements already agree.
pub open spec fn lcp_from(a: Seq<u32>, b: Seq<u32>, i: int) -> int
    decreases a.len() - i,
{
    if i < 0 || i >= a.len() || i >= b.len() || a[i] != b[i] {
        i
    } else {
        lcp_from(a, b, i + 1)
    }
}

/// Length of the longest common prefix of `a` and `b`.
pub open spec fn lcp(a: Seq<u32>, b: Seq<u32>) -> int {
    lcp_from(a, b, 0)
}

/// The minimal replacement edit from the rendering `old` to `new`: keep the
/// common prefix, delete the rest, insert the new tail.
pub open spec fn diff_out(old: Seq<u32>, new: Seq<u32>) -> Out {
    Out { send: true, bs: old.len() - lcp(old, new), text: new.skip(lcp(old, new)) }
}

/// The edit for an ordinary key: pass it through when the new rendering is
/// exactly the old one plus the key's own character, else replace.
pub open spec fn word_out(old: Seq<u32>, new: Seq<u32>, host: u32) -> Out {
    if new == old.push(host) {
        pass()
    } else {
        diff_out(old, new)
    }
}

/// The edit for a delete: pass it through when the new rendering is exactly
/// the old one minus its last character, else replace.
pub open spec fn del_out(old: Seq<u32>, new: Seq<u32>) -> Out {
    if new == old.drop_last() {
        pass()
    } else {
        diff_out(old, new)
    }
}

/// The raw spelling: what the host would show had no key been transformed.
pub open spec fn raw_text(raw: Seq<RawKey>) -> Seq<u32> {
    Seq::new(raw.len(), |i: int| keys::host_char(raw[i].key, raw[i].caps))
}

/// Whether `raw` is exactly this shortcut's trigger.
pub open spec fn trigger_matches(t: ShortcutSpec, raw: Seq<RawKey>) -> bool {
    &&& raw.len() > 0
    &&& t.trigger.len() == raw.len()
    &&& forall|i: int|
        0 <= i < raw.len() ==> (#[trigger] raw[i]).key == t.trigger[i].key && (t.exact_case
            ==> raw[i].caps == t.trigger[i].caps)
}

/// First shortcut of the given kind whose trigger is exactly `raw`, looking
/// from index `i` on; `-1` if none.
pub open spec fn find_shortcut_from(
    ss: Seq<ShortcutSpec>,
    raw: Seq<RawKey>,
    immediate: bool,
    i: int,
) -> int
    decreases ss.len() - i,
{
    if i < 0 || i >= ss.len() {
        -1
    } else if ss[i].immediate == immediate && trigger_matches(ss[i], raw) {
        i
    } else {
        find_shortcut_from(ss, raw, immediate, i + 1)
    }
}

/// First shortcut of the given kind whose trigger is exactly `raw`.
pub open spec fn find_shortcut(ss: Seq<ShortcutSpec>, raw: Seq<RawKey>, immediate: bool) -> int {
    find_shortcut_from(ss, raw, immediate, 0)
}

/// A slot with its shape modifier replaced.
pub open spec fn set_modifier(s: Slot, m: u8) -> Slot {
    Slot { modifier: m, ..s }
}

/// A slot with its stroke replaced.
pub open spec fn set_stroke(s: Slot, v: bool) -> Slot {
    Slot { stroke: v, ..s }
}

/// A slot with a pending `w` resolved: it now renders as the `ư` it stood
/// for.
pub open spec fn resolve_w(s: Slot) -> Slot {
    Slot { w_literal: false, ..s }
}

/// One literal slot appended; the key was ordinary input.
pub open spec fn append_literal(s: State, key: u16, caps: bool) -> State {
    State { slots: s.slots.push(slot::literal_slot(key, caps)), last: LastOp::Inserted, ..s }
}

/// A method key that found nothing to act on: Telex keeps it as a literal
/// letter (`w` as a pending `ư`); a VNI digit is a number being typed, which
/// ends the word and passes through.
pub open spec fn method_fallback(s: State, key: u16, caps: bool) -> (State, Out) {
    if vni(s) {
        (reset_word(s), pass())
    } else if key == keys::W {
        let s2 = State { slots: s.slots.push(slot::w_slot(caps)), last: LastOp::Inserted, ..s };
        (s2, word_out(render_of(s), render_of(s2), keys::host_char(key, caps)))
    } else {
        let s2 = append_literal(s, key, caps);
        (s2, word_out(render_of(s), render_of(s2), keys::host_char(key, caps)))
    }
}

/// Handling of a mark key carrying mark `m`.
///
/// A mark already present is reverted (when this repeats the key that set
/// it), replaced (when the key names another mark), or left alone.  With no
/// mark present, the last vowel run takes the mark on the slot the pattern
/// table picks; a trailing `ư`+`o` pair of a closed syllable is first
/// completed to `ươ`.
pub open spec fn step_mark(s: State, key: u16, caps: bool, m: u8) -> (State, Out) {
    let old = render_of(s);
    if s.mark != 0 {
        if s.last == LastOp::DidMark && s.mark == m {
            let s2 = State {
                mark: 0,
                mark_idx: 0,
                slots: s.slots.push(slot::literal_slot(key, caps)),
                last: LastOp::Idle,
                ..s
            };
            (s2, word_out(old, render_of(s2), keys::host_char(key, caps)))
        } else if s.mark == m {
            if vni(s) {
                (s, word_out(old, render_of(s), keys::host_char(key, caps)))
            } else {
                let s2 = append_literal(s, key, caps);
                (s2, word_out(old, render_of(s2), keys::host_char(key, caps)))
            }
        } else {
            let s2 = State { mark: m, last: LastOp::DidMark, ..s };
            (s2, word_out(old, render_of(s2), keys::host_char(key, caps)))
        }
    } else {
        let j = nucleus::last_vowel_idx(s.slots);
        if j < 0 {
            method_fallback(s, key, caps)
        } else {
            let st = nucleus::run_start(s.slots, j);
            let closed = j + 1 < s.slots.len();
            let slots2 = if uo_completion(s.slots, st, j, closed) {
                s.slots.update(j, set_modifier(s.slots[j], crate::chars::MOD_HORN))
            } else {
                s.slots
            };
            let idx = nucleus::mark_index(slots2, st, j + 1, closed, s.modern);
            let s2 = State {
                slots: slots2.update(idx, resolve_w(slots2[idx])),
                mark: m,
                mark_idx: idx,
                last: LastOp::DidMark,
                ..s
            };
            (s2, word_out(old, render_of(s2), keys::host_char(key, caps)))
        }
    }
}

/// A closed syllable whose nucleus ends in `ư` followed by a plain `o` is on
/// its way to the `ươ` compound; placing a mark completes the horn.
pub open spec fn uo_completion(slots: Seq<Slot>, st: int, j: int, closed: bool) -> bool {
    closed && st < j && slots[j - 1].base == keys::U && slots[j - 1].modifier
        == crate::chars::MOD_HORN && slots[j].base == keys::O && slots[j].modifier == 0
}

/// The slot index a modifier revert would act on, `-1` when none applies:
/// the key must repeat the modifier application the buffer saw last.
pub open spec fn mod_revert_target(s: State, key: u16) -> int {
    match s.last {
        LastOp::DidModifier(i) => if i < s.slots.len() && !s.slots[i as int].w_literal
            && s.slots[i as int].modifier != 0 && method::modifier_of(
            vni(s),
            key,
            s.slots[i as int].base,
        ) == s.slots[i as int].modifier {
            i as int
        } else {
            -1
        },
        _ => -1,
    }
}

/// The slot index a stroke revert would act on, `-1` when none applies.
pub open spec fn stroke_revert_target(s: State) -> int {
    match s.last {
        LastOp::DidStroke(i) => if i < s.slots.len() && s.slots[i as int].stroke {
            i as int
        } else {
            -1
        },
        _ => -1,
    }
}

/// Most recent slot this modifier key can shape: the right base letter,
/// not yet shaped.
pub open spec fn scan_modifier_target(slots: Seq<Slot>, vni: bool, key: u16) -> int
    decreases slots.len(),
{
    if slots.len() == 0 {
        -1
    } else if method::modifier_of(vni, key, slots.last().base) != 0 && slots.last().modifier
        == 0 {
        slots.len() - 1
    } else {
        scan_modifier_target(slots.drop_last(), vni, key)
    }
}

/// Most recent slot a stroke can land on: a `d` without one.
pub open spec fn scan_stroke_target(slots: Seq<Slot>) -> int
    decreases slots.len(),
{
    if slots.len() == 0 {
        -1
    } else if slots.last().base == keys::D && !slots.last().stroke {
        slots.len() - 1
    } else {
        scan_stroke_target(slots.drop_last())
    }
}

/// Handling of a modifier (shape) key.
///
/// Repeating the application the buffer saw last reverts it.  A horn key
/// prefers a trailing `uo`/`ou` vowel pair (the `ươ` precursor); when the
/// pair is `uo`, is still fully plain and sits in a closed syllable, one key
/// horns both vowels.  Otherwise the most recent shapeable vowel takes the
/// modifier, and a key with no target falls back to literal input.
pub open spec fn step_modifier(s: State, key: u16, caps: bool) -> (State, Out) {
    let old = render_of(s);
    let rv = mod_revert_target(s, key);
    if rv >= 0 {
        let s2 = State {
            slots: s.slots.update(rv, set_modifier(s.slots[rv], 0)).push(
                slot::literal_slot(key, caps),
            ),
            last: LastOp::Idle,
            ..s
        };
        (s2, word_out(old, render_of(s2), keys::host_char(key, caps)))
    } else {
        let j = nucleus::last_vowel_idx(s.slots);
        let p = nucleus::prev_vowel_idx(s.slots, j);
        if method::is_horn_key(vni(s), key) && j >= 0 && p >= 0 && horn_pair_target(s.slots, p, j)
            >= 0 {
            let t = horn_pair_target(s.slots, p, j);
            let both = t == p && s.slots[p].base == keys::U && j + 1 < s.slots.len()
                && s.slots[j].base == keys::O && s.slots[j].modifier == 0;
            let slots2 = if both {
                s.slots.update(p, set_modifier(s.slots[p], crate::chars::MOD_HORN)).update(
                    j,
                    set_modifier(s.slots[j], crate::chars::MOD_HORN),
                )
            } else {
                s.slots.update(t, set_modifier(s.slots[t], crate::chars::MOD_HORN))
            };
            let s2 = State { slots: slots2, last: LastOp::DidModifier(t as usize), ..s };
            (s2, word_out(old, render_of(s2), keys::host_char(key, caps)))
        } else {
            let t = scan_modifier_target(s.slots, vni(s), key);
            if t >= 0 {
                let s2 = State {
                    slots: s.slots.update(
                        t,
                        set_modifier(s.slots[t], method::modifier_of(vni(s), key, s.slots[t].base)),
                    ),
                    last: LastOp::DidModifier(t as usize),
                    ..s
                };
                (s2, word_out(old, render_of(s2), keys::host_char(key, caps)))
            } else {
                method_fallback(s, key, caps)
            }
        }
    }
}

/// Which of a trailing `uo`/`ou` vowel pair a horn key shapes: the `u` of
/// `uo` (or `o` of `ou`) first, then its partner; `-1` when the pair shape
/// does not apply or both are already shaped.
pub open spec fn horn_pair_target(slots: Seq<Slot>, p: int, j: int) -> int {
    if slots[p].base == keys::U && slots[j].base == keys::O {
        if slots[p].modifier == 0 {
            p
        } else if slots[j].modifier == 0 {
            j
        } else {
            -1
        }
    } else if slots[p].base == keys::O && slots[j].base == keys::U {
        if slots[p].modifier == 0 {
            p
        } else if slots[j].modifier == 0 {
            j
        } else {
            -1
        }
    } else {
        -1
    }
}

/// Handling of the stroke key.  A revert is sticky: until the word resets,
/// later stroke keys stay literal.
pub open spec fn step_stroke(s: State, key: u16, caps: bool) -> (State, Out) {
    let old = render_of(s);
    if s.sticky {
        method_fallback(s, key, caps)
    } else {
        let rv = stroke_revert_target(s);
        if rv >= 0 {
            let s2 = State {
                slots: s.slots.update(rv, set_stroke(s.slots[rv], false)).push(
                    slot::literal_slot(key, caps),
                ),
                last: LastOp::Idle,
                sticky: true,
                ..s
            };
            (s2, word_out(old, render_of(s2), keys::host_char(key, caps)))
        } else {
            let t = scan_stroke_target(s.slots);
            if t >= 0 {
                let s2 = State {
                    slots: s.slots.update(t, set_stroke(s.slots[t], true)),
                    last: LastOp::DidStroke(t as usize),
                    ..s
                };
                (s2, word_out(old, render_of(s2), keys::host_char(key, caps)))
            } else {
                method_fallback(s, key, caps)
            }
        }
    }
}

/// Handling of the mark-removal key: detach the mark if one is present.
pub open spec fn step_remove(s: State, key: u16, caps: bool) -> (State, Out) {
    if s.mark != 0 {
        let s2 = State { mark: 0, mark_idx: 0, last: LastOp::Idle, ..s };
        (s2, word_out(render_of(s), render_of(s2), keys::host_char(key, caps)))
    } else {
        method_fallback(s, key, caps)
    }
}

/// Handling of a plain letter.  Appending a vowel that extends a marked
/// nucleus to another valid nucleus re-anchors the mark; any other appended
/// letter leaves the mark where it sits.
pub open spec fn step_letter(s: State, key: u16, caps: bool) -> (State, Out) {
    let old = render_of(s);
    let n = s.slots.len() as int;
    if keys::is_vowel(key) && s.mark != 0 && n > 0 && slot::is_vowel_slot(s.slots[n - 1]) {
        let st = nucleus::run_start(s.slots, n - 1);
        if st <= s.mark_idx && nucleus::valid_nucleus(
            nucleus::bases_of(s.slots, st, n).push(key),
        ) {
            let slots2 = s.slots.push(slot::literal_slot(key, caps));
            let idx = nucleus::mark_index(slots2, st, n + 1, false, s.modern);
            let s2 = State {
                slots: slots2.update(idx, resolve_w(slots2[idx])),
                mark_idx: idx,
                last: LastOp::Inserted,
                ..s
            };
            (s2, word_out(old, render_of(s2), keys::host_char(key, caps)))
        } else {
            let s2 = append_literal(s, key, caps);
            (s2, word_out(old, render_of(s2), keys::host_char(key, caps)))
        }
    } else {
        let s2 = append_literal(s, key, caps);
        (s2, word_out(old, render_of(s2), keys::host_char(key, caps)))
    }
}

/// Handling of delete.  The last slot goes; if the latest operation was a
/// diacritic application, that layer is undone too, and no history survives
/// the delete.
pub open spec fn step_delete(s: State) -> (State, Out) {
    if s.slots.len() == 0 {
        (reset_word(s), pass())
    } else {
        let old = render_of(s);
        let n = s.slots.len() - 1;
        let popped = State {
            slots: s.slots.drop_last(),
            mark: if s.mark != 0 && s.mark_idx == n {
                0
            } else {
                s.mark
            },
            ..s
        };
        let undone = match s.last {
            LastOp::DidMark => State { mark: 0, ..popped },
            LastOp::DidModifier(i) => if i < n {
                State {
                    slots: popped.slots.update(
                        i as int,
                        resolve_w(set_modifier(popped.slots[i as int], 0)),
                    ),
                    ..popped
                }
            } else {
                popped
            },
            LastOp::DidStroke(i) => if i < n {
                State {
                    slots: popped.slots.update(i as int, set_stroke(popped.slots[i as int], false)),
                    ..popped
                }
            } else {
                popped
            },
            _ => popped,
        };
        let s2 = State {
            last: LastOp::Idle,
            sticky: false,
            raw: if undone.raw.len() > 0 {
                undone.raw.drop_last()
            } else {
                undone.raw
            },
            ..undone
        };
        let s3 = if s2.slots.len() == 0 {
            reset_word(s2)
        } else {
            s2
        };
        (s3, del_out(old, render_of(s3)))
    }
}

/// Handling of space: the word commits.  A deferred shortcut whose trigger
/// is the raw history fires; otherwise the guard may restore the raw
/// spelling; otherwise the space passes through.  Either way the word state
/// is gone.
pub open spec fn step_space(s: State) -> (State, Out) {
    let old = render_of(s);
    let f = find_shortcut(s.shortcuts, s.raw, false);
    if f >= 0 {
        (reset_word(s), Out { send: true, bs: old.len() as int, text: s.shortcuts[f].expansion.push(32) })
    } else if s.restore && guard::guard_fires(s.slots, s.mark, s.raw) {
        (reset_word(s), Out { send: true, bs: old.len() as int, text: raw_text(s.raw).push(32) })
    } else {
        (reset_word(s), pass())
    }
}

/// Handling of a bracket key with the bracket shortcut on: `[` and `]`
/// insert `ơ` and `ư` as ordinary letters.
pub open spec fn step_bracket(s: State, key: u16, caps: bool) -> (State, Out) {
    let base = if key == keys::LBRACKET {
        keys::O
    } else {
        keys::U
    };
    let s2 = State {
        slots: s.slots.push(
            Slot {
                base: base,
                caps: caps,
                modifier: crate::chars::MOD_HORN,
                stroke: false,
                w_literal: false,
            },
        ),
        last: LastOp::Inserted,
        raw: s.raw.push(RawKey { key, caps }),
        ..s
    };
    (s2, diff_out(render_of(s), render_of(s2)))
}

/// Handling of a letter or digit key: record it, fire an immediate shortcut
/// whose trigger just completed, or dispatch on what the key means under the
/// active method.
pub open spec fn step_word_key(s: State, key: u16, caps: bool) -> (State, Out) {
    let s1 = State { raw: s.raw.push(RawKey { key, caps }), ..s };
    let f = find_shortcut(s1.shortcuts, s1.raw, true);
    if f >= 0 {
        (
            reset_word(s),
            Out { send: true, bs: render_of(s).len() as int, text: s.shortcuts[f].expansion },
        )
    } else if keys::is_digit(key) {
        if !vni(s) {
            (reset_word(s), pass())
        } else {
            let m = method::mark_of(true, key);
            if m != 0 {
                step_mark(s1, key, caps, m)
            } else if method::is_modifier_key(true, key) {
                step_modifier(s1, key, caps)
            } else if method::is_stroke_key(true, key) {
                step_stroke(s1, key, caps)
            } else {
                step_remove(s1, key, caps)
            }
        }
    } else {
        if vni(s) {
            step_letter(s1, key, caps)
        } else {
            let m = method::mark_of(false, key);
            if m != 0 {
                step_mark(s1, key, caps, m)
            } else if method::is_stroke_key(false, key) {
                step_stroke(s1, key, caps)
            } else if method::is_modifier_key(false, key) {
                step_modifier(s1, key, caps)
            } else if method::is_remove_key(false, key) {
                step_remove(s1, key, caps)
            } else {
                step_letter(s1, key, caps)
            }
        }
    }
}

/// The whole transition: one key event in, the next state and one edit out.
pub open spec fn step(s: State, key: u16, caps: bool, ctrl: bool) -> (State, Out) {
    if !s.enabled {
        (s, pass())
    } else if ctrl {
        (reset_word(s), pass())
    } else if key == keys::DELETE {
        step_delete(s)
    } else if key == keys::SPACE {
        step_space(s)
    } else if keys::is_letter(key) || keys::is_digit(key) {
        step_word_key(s, key, caps)
    } else if (key == keys::LBRACKET || key == keys::RBRACKET) && s.brackets {
        step_bracket(s, key, caps)
    } else {
        (reset_word(s), pass())
    }
}

/// The modifier scan lands in range, on a slot the key can shape.
pub proof fn lemma_scan_modifier_target(slots: Seq<Slot>, vni: bool, key: u16)
    ensures
        scan_modifier_target(slots, vni, key) == -1 || (0 <= scan_modifier_target(slots, vni, key)
            < slots.len() && method::modifier_of(
            vni,
            key,
            slots[scan_modifier_target(slots, vni, key)].base,
        ) != 0 && slots[scan_modifier_target(slots, vni, key)].modifier == 0),
    decreases slots.len(),
{
    if slots.len() > 0 && !(method::modifier_of(vni, key, slots.last().base) != 0
        && slots.last().modifier == 0) {
        lemma_scan_modifier_target(slots.drop_last(), vni, key);
        assert(forall|k: int|
            0 <= k < slots.len() - 1 ==> slots.drop_last()[k] == #[trigger] slots[k]);
    }
}

/// The stroke scan lands in range, on an unstroked `d`.
pub proof fn lemma_scan_stroke_target(slots: Seq<Slot>)
    ensures
        scan_stroke_target(slots) == -1 || (0 <= scan_stroke_target(slots) < slots.len()
            && slots[scan_stroke_target(slots)].base == keys::D
            && !slots[scan_stroke_target(slots)].stroke),
    decreases slots.len(),
{
    if slots.len() > 0 && !(slots.last().base == keys::D && !slots.last().stroke) {
        lemma_scan_stroke_target(slots.drop_last());
        assert(forall|k: int|
            0 <= k < slots.len() - 1 ==> slots.drop_last()[k] == #[trigger] slots[k]);
    }
}

/// A found index below which nothing matches pins `find_shortcut_from` down.
pub proof fn lemma_find_shortcut_from_step(
    ss: Seq<ShortcutSpec>,
    raw: Seq<RawKey>,
    immediate: bool,
    i: int,
)
    requires
        0 <= i < ss.len(),
        !(ss[i].immediate == immediate && trigger_matches(ss[i], raw)),
    ensures
        find_shortcut_from(ss, raw, immediate, i) == find_shortcut_from(ss, raw, immediate, i + 1),
{
}

/// `find_shortcut_from` lands in range on a matching entry, or on `-1`.
pub proof fn lemma_find_shortcut_from(
    ss: Seq<ShortcutSpec>,
    raw: Seq<RawKey>,
    immediate: bool,
    i: int,
)
    requires
        0 <= i,
    ensures
        find_shortcut_from(ss, raw, immediate, i) == -1 || (i <= find_shortcut_from(
            ss,
            raw,
            immediate,
            i,
        ) < ss.len() && ss[find_shortcut_from(ss, raw, immediate, i)].immediate == immediate
            && trigger_matches(ss[find_shortcut_from(ss, raw, immediate, i)], raw)),
    decreases ss.len() - i,
{
    if i < ss.len() && !(ss[i].immediate == immediate && trigger_matches(ss[i], raw)) {
        lemma_find_shortcut_from(ss, raw, immediate, i + 1);
    }
}

} // verus!
