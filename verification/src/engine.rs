//! The executable engine.
//!
//! [`Engine::on_key`] is the single entry point: one key event in, one
//! [`KeyResult`] out.  Its contract is exact: the state after the call and
//! the returned edit are the ones the model's [`model::step`] names for the
//! state before the call.

use vstd::prelude::*;
use crate::guard;
use crate::keys;
use crate::keys::RawKey;
use crate::method;
use crate::model;
use crate::model::{LastOp, Out, ShortcutSpec, State};
use crate::nucleus;
use crate::slot;
use crate::slot::Slot;

verus! {

/// What the host should do with a key: handle it itself, or apply the edit
/// sent back.  Cast to `u8`, the two are `0` and `1`, the values `action`
/// fields carry.
pub enum Action {
    Pass,
    Send,
}

/// The edit for one key: `action` 0 passes the key through; `action` 1 asks
/// the host to delete `backspace` rendered characters and insert the first
/// `count` code points of `chars`.
pub struct KeyResult {
    pub action: u8,
    pub backspace: usize,
    pub count: usize,
    pub chars: Vec<u32>,
}

impl View for KeyResult {
    type V = Out;

    open spec fn view(&self) -> Out {
        Out { send: self.action == 1, bs: self.backspace as int, text: self.chars@ }
    }
}

/// One registered shortcut.
pub struct Shortcut {
    pub trigger: Vec<RawKey>,
    pub expansion: Vec<u32>,
    pub immediate: bool,
    pub exact_case: bool,
}

impl View for Shortcut {
    type V = ShortcutSpec;

    open spec fn view(&self) -> ShortcutSpec {
        ShortcutSpec {
            trigger: self.trigger@,
            expansion: self.expansion@,
            immediate: self.immediate,
            exact_case: self.exact_case,
        }
    }
}

/// The per-text-field engine: configuration, current word, histories, and
/// the shortcut table.
pub struct Engine {
    method: u8,
    enabled: bool,
    modern: bool,
    restore: bool,
    brackets: bool,
    slots: Vec<Slot>,
    mark: u8,
    mark_idx: usize,
    last: LastOp,
    sticky: bool,
    raw: Vec<RawKey>,
    shortcuts: Vec<Shortcut>,
}

impl View for Engine {
    type V = State;

    closed spec fn view(&self) -> State {
        State {
            method: self.method,
            enabled: self.enabled,
            modern: self.modern,
            restore: self.restore,
            brackets: self.brackets,
            slots: self.slots@,
            mark: self.mark,
            mark_idx: self.mark_idx as int,
            last: self.last,
            sticky: self.sticky,
            raw: self.raw@,
            shortcuts: self.shortcuts@.map_values(|sc: Shortcut| sc@),
        }
    }
}

/// The slot vector is a real vector: its length fits `usize`.
proof fn len_bound(v: &Vec<Slot>)
    ensures
        v@.len() <= usize::MAX,
{
    vstd::std_specs::vec::axiom_spec_len(v);
}

/// The "pass the key through" result.
fn pass_result() -> (r: KeyResult)
    ensures
        r@ == model::pass(),
        r.count == r.chars@.len(),
        r.action == 0,
        r.backspace == 0,
{
    let r = KeyResult { action: 0, backspace: 0, count: 0, chars: Vec::new() };
    proof {
        assert(r@.text =~= model::pass().text);
        assert(r@ =~= model::pass());
    }
    r
}

/// Element-wise equality of the first `n` entries of two vectors.
fn vecs_eq_upto(a: &Vec<u32>, b: &Vec<u32>, n: usize) -> (r: bool)
    requires
        n <= a@.len(),
        n <= b@.len(),
    ensures
        r == (forall|k: int| 0 <= k < n ==> a@[k] == b@[k]),
{
    let mut i: usize = 0;
    while i < n
        invariant
            i <= n,
            n <= a@.len(),
            n <= b@.len(),
            forall|k: int| 0 <= k < i ==> a@[k] == b@[k],
        decreases n - i,
    {
        if a[i] != b[i] {
            return false;
        }
        i = i + 1;
    }
    true
}

/// A fresh copy of a code-point vector.
fn copy_cps(v: &Vec<u32>) -> (r: Vec<u32>)
    ensures
        r@ == v@,
{
    let mut out: Vec<u32> = Vec::new();
    let mut i: usize = 0;
    while i < v.len()
        invariant
            i <= v@.len(),
            out@ == v@.take(i as int),
        decreases v@.len() - i,
    {
        out.push(v[i]);
        assert(out@ =~= v@.take(i + 1 as int));
        i = i + 1;
    }
    assert(out@ =~= v@);
    out
}

/// The minimal replacement edit between two renderings.
#[verifier::loop_isolation(false)]
fn emit_diff(old_r: &Vec<u32>, new_r: &Vec<u32>) -> (r: KeyResult)
    ensures
        r@ == model::diff_out(old_r@, new_r@),
        r.count == r.chars@.len(),
        r.action == 1,
        r.backspace <= old_r@.len(),
{
    let mut k: usize = 0;
    while k < old_r.len() && k < new_r.len() && old_r[k] == new_r[k]
        invariant
            k <= old_r@.len(),
            k <= new_r@.len(),
            model::lcp(old_r@, new_r@) == model::lcp_from(old_r@, new_r@, k as int),
        decreases old_r@.len() - k,
    {
        k = k + 1;
    }
    assert(model::lcp(old_r@, new_r@) == k);
    let mut chars: Vec<u32> = Vec::new();
    let mut i: usize = k;
    while i < new_r.len()
        invariant
            k <= i <= new_r@.len(),
            chars@ == new_r@.subrange(k as int, i as int),
        decreases new_r@.len() - i,
    {
        chars.push(new_r[i]);
        assert(chars@ =~= new_r@.subrange(k as int, i + 1 as int));
        i = i + 1;
    }
    assert(chars@ =~= new_r@.skip(k as int));
    let r = KeyResult {
        action: 1,
        backspace: old_r.len() - k,
        count: chars.len(),
        chars: chars,
    };
    assert(r@ =~= model::diff_out(old_r@, new_r@));
    r
}

/// The edit for an ordinary key, per [`model::word_out`].
fn emit_word(old_r: &Vec<u32>, new_r: &Vec<u32>, host: u32) -> (r: KeyResult)
    ensures
        r@ == model::word_out(old_r@, new_r@, host),
        r.count == r.chars@.len(),
        r.action == 0 || r.action == 1,
        r.backspace <= old_r@.len(),
{
    if new_r.len() > 0 && new_r.len() - 1 == old_r.len() && new_r[old_r.len()] == host
        && vecs_eq_upto(old_r, new_r, old_r.len()) {
        proof {
            assert(new_r@ =~= old_r@.push(host));
        }
        pass_result()
    } else {
        proof {
            assert(new_r@ != old_r@.push(host)) by {
                if new_r@ == old_r@.push(host) {
                    assert(new_r@.len() == old_r@.len() + 1);
                    assert(new_r@[old_r@.len() as int] == host);
                    assert(forall|j: int| 0 <= j < old_r@.len() ==> old_r@[j] == new_r@[j]) by {
                        assert(forall|j: int|
                            0 <= j < old_r@.len() ==> old_r@.push(host)[j] == old_r@[j]);
                    }
                    assert(false);
                }
            }
        }
        emit_diff(old_r, new_r)
    }
}

/// The edit for a delete, per [`model::del_out`].
fn emit_delete(old_r: &Vec<u32>, new_r: &Vec<u32>) -> (r: KeyResult)
    requires
        old_r@.len() > 0,
    ensures
        r@ == model::del_out(old_r@, new_r@),
        r.count == r.chars@.len(),
        r.action == 0 || r.action == 1,
        r.backspace <= old_r@.len(),
{
    if new_r.len() == old_r.len() - 1 && vecs_eq_upto(new_r, old_r, new_r.len()) {
        proof {
            assert(new_r@ =~= old_r@.drop_last());
        }
        pass_result()
    } else {
        proof {
            assert(new_r@ != old_r@.drop_last()) by {
                if new_r@ == old_r@.drop_last() {
                    assert(new_r@.len() + 1 == old_r@.len());
                    assert(forall|j: int| 0 <= j < new_r@.len() ==> new_r@[j] == old_r@[j]) by {
                        assert(forall|j: int|
                            0 <= j < new_r@.len() ==> old_r@.drop_last()[j] == old_r@[j]);
                    }
                    assert(false);
                }
            }
        }
        emit_diff(old_r, new_r)
    }
}

/// Executable twin of [`model::scan_modifier_target`], as an `Option`.
#[verifier::loop_isolation(false)]
fn scan_mod(slots: &Vec<Slot>, vni: bool, key: u16) -> (r: Option<usize>)
    ensures
        match r {
            Some(t) => t == model::scan_modifier_target(slots@, vni, key),
            None => model::scan_modifier_target(slots@, vni, key) == -1,
        },
{
    let mut i: usize = slots.len();
    assert(slots@.take(i as int) =~= slots@);
    while i > 0
        invariant
            i <= slots@.len(),
            model::scan_modifier_target(slots@, vni, key) == model::scan_modifier_target(
                slots@.take(i as int),
                vni,
                key,
            ),
        decreases i,
    {
        i = i - 1;
        let s = slots[i];
        if method::modifier_of_key(vni, key, s.base) != 0 && s.modifier == 0 {
            assert(slots@.take(i + 1 as int).last() == slots@[i as int]);
            return Some(i);
        }
        assert(slots@.take(i + 1 as int).drop_last() =~= slots@.take(i as int));
    }
    None
}

/// Executable twin of [`model::scan_stroke_target`], as an `Option`.
#[verifier::loop_isolation(false)]
fn scan_stroke(slots: &Vec<Slot>) -> (r: Option<usize>)
    ensures
        match r {
            Some(t) => t == model::scan_stroke_target(slots@),
            None => model::scan_stroke_target(slots@) == -1,
        },
{
    let mut i: usize = slots.len();
    assert(slots@.take(i as int) =~= slots@);
    while i > 0
        invariant
            i <= slots@.len(),
            model::scan_stroke_target(slots@) == model::scan_stroke_target(slots@.take(i as int)),
        decreases i,
    {
        i = i - 1;
        let s = slots[i];
        if s.base == keys::D && !s.stroke {
            assert(slots@.take(i + 1 as int).last() == slots@[i as int]);
            return Some(i);
        }
        assert(slots@.take(i + 1 as int).drop_last() =~= slots@.take(i as int));
    }
    None
}

/// Executable twin of [`slot::literal_slot`].
fn make_literal(key: u16, caps: bool) -> (r: Slot)
    ensures
        r == slot::literal_slot(key, caps),
{
    Slot {
        base: key,
        caps: if keys::digit(key) {
            false
        } else {
            caps
        },
        modifier: 0,
        stroke: false,
        w_literal: false,
    }
}


/// Whether `raw` is exactly this shortcut's trigger.
fn trigger_matches_of(t: &Shortcut, raw: &Vec<RawKey>) -> (r: bool)
    ensures
        r == model::trigger_matches(t@, raw@),
{
    if raw.len() == 0 || t.trigger.len() != raw.len() {
        return false;
    }
    let mut i: usize = 0;
    while i < raw.len()
        invariant
            i <= raw@.len(),
            t.trigger@.len() == raw@.len(),
            forall|k: int|
                0 <= k < i ==> (#[trigger] raw@[k]).key == t.trigger@[k].key && (t.exact_case
                    ==> raw@[k].caps == t.trigger@[k].caps),
        decreases raw@.len() - i,
    {
        let a = raw[i];
        let b = t.trigger[i];
        if a.key != b.key {
            return false;
        }
        if t.exact_case && a.caps != b.caps {
            return false;
        }
        i = i + 1;
    }
    true
}

/// The raw spelling as code points, per [`model::raw_text`].
fn raw_chars(raw: &Vec<RawKey>) -> (r: Vec<u32>)
    ensures
        r@ == model::raw_text(raw@),
{
    let mut out: Vec<u32> = Vec::new();
    let mut i: usize = 0;
    while i < raw.len()
        invariant
            i <= raw@.len(),
            out@ == model::raw_text(raw@).take(i as int),
        decreases raw@.len() - i,
    {
        let k = raw[i];
        let c = if keys::letter(k.key) || keys::digit(k.key) {
            keys::host_char_of(k.key, k.caps)
        } else {
            32
        };
        assert(c == keys::host_char(k.key, k.caps));
        out.push(c);
        assert(out@ =~= model::raw_text(raw@).take(i + 1 as int));
        i = i + 1;
    }
    assert(out@ =~= model::raw_text(raw@));
    out
}

impl Engine {
    /// A fresh engine: Telex, modern orthography, enabled.
    pub fn new() -> (r: Engine)
        ensures
            r@ == model::init_state(),
            model::wf(r@),
    {
        let e = Engine {
            method: 0,
            enabled: true,
            modern: true,
            restore: false,
            brackets: false,
            slots: Vec::new(),
            mark: 0,
            mark_idx: 0,
            last: LastOp::Idle,
            sticky: false,
            raw: Vec::new(),
            shortcuts: Vec::new(),
        };
        proof {
            assert(e@.slots =~= model::init_state().slots);
            assert(e@.raw =~= model::init_state().raw);
            assert(e@.shortcuts =~= model::init_state().shortcuts);
            assert(e@ =~= model::init_state());
        }
        e
    }

    /// Discard the current word and every per-word history.  Hosts call
    /// this on focus changes and on characterless control keydowns, which
    /// the engine itself never sees.
    pub fn clear(&mut self)
        ensures
            final(self)@ == model::reset_word(old(self)@),
            model::wf(final(self)@),
    {
        self.slots = Vec::new();
        self.mark = 0;
        self.mark_idx = 0;
        self.last = LastOp::Idle;
        self.sticky = false;
        self.raw = Vec::new();
        proof {
            assert(self@.slots =~= model::reset_word(old(self)@).slots);
            assert(self@.raw =~= model::reset_word(old(self)@).raw);
            assert(self@ =~= model::reset_word(old(self)@));
        }
    }

    /// Select the keying convention: `1` is VNI, everything else Telex.
    pub fn set_method(&mut self, m: u8)
        requires
            model::wf(old(self)@),
        ensures
            final(self)@ == (State { method: m, ..old(self)@ }),
            model::wf(final(self)@),
    {
        self.method = m;
    }

    /// Enable or disable the engine; disabling discards the current word.
    pub fn set_enabled(&mut self, v: bool)
        requires
            model::wf(old(self)@),
        ensures
            final(self)@ == if v {
                State { enabled: true, ..old(self)@ }
            } else {
                model::reset_word(State { enabled: false, ..old(self)@ })
            },
            model::wf(final(self)@),
    {
        self.enabled = v;
        if !v {
            self.clear();
        }
    }

    /// Select the orthography convention for mark placement.
    pub fn set_modern(&mut self, v: bool)
        requires
            model::wf(old(self)@),
        ensures
            final(self)@ == (State { modern: v, ..old(self)@ }),
            model::wf(final(self)@),
    {
        self.modern = v;
    }

    /// Enable or disable the restore of English-looking words at commit.
    pub fn set_english_auto_restore(&mut self, v: bool)
        requires
            model::wf(old(self)@),
        ensures
            final(self)@ == (State { restore: v, ..old(self)@ }),
            model::wf(final(self)@),
    {
        self.restore = v;
    }

    /// Enable or disable the bracket keys inserting `ơ` and `ư`.
    pub fn set_bracket_shortcut(&mut self, v: bool)
        requires
            model::wf(old(self)@),
        ensures
            final(self)@ == (State { brackets: v, ..old(self)@ }),
            model::wf(final(self)@),
    {
        self.brackets = v;
    }

    /// Set the whole per-session configuration at once: keying method,
    /// orthography convention, English auto-restore, bracket shortcut.
    pub fn configure(&mut self, m: u8, modern: bool, restore: bool, brackets: bool)
        requires
            model::wf(old(self)@),
        ensures
            final(self)@ == (State {
                method: m,
                modern: modern,
                restore: restore,
                brackets: brackets,
                ..old(self)@
            }),
            model::wf(final(self)@),
    {
        self.method = m;
        self.modern = modern;
        self.restore = restore;
        self.brackets = brackets;
    }

    /// Register one shortcut.
    pub fn register_shortcut(
        &mut self,
        trigger: Vec<RawKey>,
        expansion: Vec<u32>,
        immediate: bool,
        exact_case: bool,
    )
        requires
            model::wf(old(self)@),
        ensures
            final(self)@ == (State {
                shortcuts: old(self)@.shortcuts.push(
                    ShortcutSpec {
                        trigger: trigger@,
                        expansion: expansion@,
                        immediate: immediate,
                        exact_case: exact_case,
                    },
                ),
                ..old(self)@
            }),
            model::wf(final(self)@),
    {
        let ghost target = old(self)@.shortcuts.push(
            ShortcutSpec {
                trigger: trigger@,
                expansion: expansion@,
                immediate: immediate,
                exact_case: exact_case,
            },
        );
        self.shortcuts.push(
            Shortcut { trigger: trigger, expansion: expansion, immediate, exact_case },
        );
        proof {
            assert(self@.shortcuts =~= target);
        }
    }

    /// Forget every registered shortcut.
    pub fn clear_shortcuts(&mut self)
        requires
            model::wf(old(self)@),
        ensures
            final(self)@ == (State { shortcuts: Seq::empty(), ..old(self)@ }),
            model::wf(final(self)@),
    {
        self.shortcuts = Vec::new();
        proof {
            assert(self@.shortcuts =~= Seq::<ShortcutSpec>::empty());
        }
    }

    /// The rendering of the current word.
    fn render_now(&self) -> (r: Vec<u32>)
        requires
            model::wf(self@),
        ensures
            r@ == model::render_of(self@),
    {
        proof {
            assert forall|i: int| 0 <= i < self.slots@.len() implies slot::wf_slot(
                self.slots@[i],
            ) by {
                assert(self.slots@[i] == self@.slots[i]);
            }
        }
        slot::render(&self.slots, self.mark, self.mark_idx)
    }

    /// Append one literal slot and emit the edit for it.
    fn do_append(&mut self, key: u16, caps: bool) -> (r: KeyResult)
        requires
            model::wf(old(self)@),
            keys::is_letter(key) || keys::is_digit(key),
        ensures
            model::wf(final(self)@),
            final(self)@ == model::append_literal(old(self)@, key, caps),
            r@ == model::word_out(
                model::render_of(old(self)@),
                model::render_of(final(self)@),
                keys::host_char(key, caps),
            ),
            r.count == r.chars@.len(),
            r.action == 0 || r.action == 1,
            r.backspace <= model::render_of(old(self)@).len(),
    {
        let old_r = self.render_now();
        self.slots.push(make_literal(key, caps));
        self.last = LastOp::Inserted;
        proof {
        len_bound(&self.slots);
            assert(self@ =~= model::append_literal(old(self)@, key, caps));
        }
        let new_r = self.render_now();
        emit_word(&old_r, &new_r, keys::host_char_of(key, caps))
    }

    /// A method key with nothing to act on, per [`model::method_fallback`].
    fn do_fallback(&mut self, key: u16, caps: bool) -> (r: KeyResult)
        requires
            model::wf(old(self)@),
            keys::is_letter(key) || keys::is_digit(key),
        ensures
            model::wf(final(self)@),
            final(self)@ == model::method_fallback(old(self)@, key, caps).0,
            r@ == model::method_fallback(old(self)@, key, caps).1,
            r.count == r.chars@.len(),
            r.action == 0 || r.action == 1,
            r.backspace <= model::render_of(old(self)@).len(),
    {
        if self.method == 1 {
            self.clear();
            pass_result()
        } else if key == keys::W {
            let old_r = self.render_now();
            self.slots.push(
                Slot {
                    base: keys::U,
                    caps: caps,
                    modifier: crate::chars::MOD_HORN,
                    stroke: false,
                    w_literal: true,
                },
            );
            self.last = LastOp::Inserted;
            proof {
            len_bound(&self.slots);
                assert(self@ =~= model::method_fallback(old(self)@, key, caps).0);
            }
            let new_r = self.render_now();
            emit_word(&old_r, &new_r, keys::host_char_of(key, caps))
        } else {
            self.do_append(key, caps)
        }
    }

    /// A plain letter, per [`model::step_letter`].
    #[verifier::rlimit(50)]
    fn do_letter(&mut self, key: u16, caps: bool) -> (r: KeyResult)
        requires
            model::wf(old(self)@),
            keys::is_letter(key) || keys::is_digit(key),
        ensures
            model::wf(final(self)@),
            final(self)@ == model::step_letter(old(self)@, key, caps).0,
            r@ == model::step_letter(old(self)@, key, caps).1,
            r.count == r.chars@.len(),
            r.action == 0 || r.action == 1,
            r.backspace <= model::render_of(old(self)@).len(),
    {
        let n = self.slots.len();
        if keys::vowel(key) && self.mark != 0 && n > 0 && keys::vowel(self.slots[n - 1].base) {
            let st = nucleus::find_run_start(&self.slots, n - 1);
            proof {
                nucleus::lemma_run_start(self.slots@, n - 1);
            }
            if st <= self.mark_idx && nucleus::valid_nucleus_extended(&self.slots, st, n, key) {
                let old_r = self.render_now();
                self.slots.push(make_literal(key, caps));
                let n1 = self.slots.len();
                let idx = nucleus::mark_index_of(&self.slots, st, n1, false, self.modern);
                let mut t = self.slots[idx];
                t.w_literal = false;
                self.slots[idx] = t;
                self.mark_idx = idx;
                self.last = LastOp::Inserted;
                proof {
                len_bound(&self.slots);
                    let s = old(self)@;
                    let slots2 = s.slots.push(slot::literal_slot(key, caps));
                    assert(self@.slots =~= slots2.update(
                        idx as int,
                        model::resolve_w(slots2[idx as int]),
                    ));
                    assert(self@ =~= model::step_letter(s, key, caps).0);
                    assert forall|i: int| 0 <= i < self@.slots.len() implies slot::wf_slot(
                        #[trigger] self@.slots[i],
                    ) by {
                        assert(slot::wf_slot(slot::literal_slot(key, caps)));
                    }
                    assert(slot::is_vowel_slot(self@.slots[idx as int]));
                }
                let new_r = self.render_now();
                return emit_word(&old_r, &new_r, keys::host_char_of(key, caps));
            }
            self.do_append(key, caps)
        } else {
            self.do_append(key, caps)
        }
    }

    /// The mark-removal key, per [`model::step_remove`].
    fn do_remove(&mut self, key: u16, caps: bool) -> (r: KeyResult)
        requires
            model::wf(old(self)@),
            keys::is_letter(key) || keys::is_digit(key),
        ensures
            model::wf(final(self)@),
            final(self)@ == model::step_remove(old(self)@, key, caps).0,
            r@ == model::step_remove(old(self)@, key, caps).1,
            r.count == r.chars@.len(),
            r.action == 0 || r.action == 1,
            r.backspace <= model::render_of(old(self)@).len(),
    {
        if self.mark != 0 {
            let old_r = self.render_now();
            self.mark = 0;
            self.mark_idx = 0;
            self.last = LastOp::Idle;
            let new_r = self.render_now();
            emit_word(&old_r, &new_r, keys::host_char_of(key, caps))
        } else {
            self.do_fallback(key, caps)
        }
    }

    /// A mark key carrying mark `m`, per [`model::step_mark`].
    #[verifier::rlimit(100)]
    fn do_mark(&mut self, key: u16, caps: bool, m: u8) -> (r: KeyResult)
        requires
            model::wf(old(self)@),
            keys::is_letter(key) || keys::is_digit(key),
            m == method::mark_of(model::vni(old(self)@), key),
            m != 0,
        ensures
            model::wf(final(self)@),
            final(self)@ == model::step_mark(old(self)@, key, caps, m).0,
            r@ == model::step_mark(old(self)@, key, caps, m).1,
            r.count == r.chars@.len(),
            r.action == 0 || r.action == 1,
            r.backspace <= model::render_of(old(self)@).len(),
    {
        proof {
            assert(m <= 5);
        }
        if self.mark != 0 {
            let old_r = self.render_now();
            if matches!(self.last, LastOp::DidMark) && self.mark == m {
                self.mark = 0;
                self.mark_idx = 0;
                self.last = LastOp::Idle;
                self.slots.push(make_literal(key, caps));
                proof {
                len_bound(&self.slots);
                    assert(self@ =~= model::step_mark(old(self)@, key, caps, m).0);
                }
                let new_r = self.render_now();
                emit_word(&old_r, &new_r, keys::host_char_of(key, caps))
            } else if self.mark == m {
                if self.method == 1 {
                    let new_r = self.render_now();
                    emit_word(&old_r, &new_r, keys::host_char_of(key, caps))
                } else {
                    self.do_append(key, caps)
                }
            } else {
                self.mark = m;
                self.last = LastOp::DidMark;
                let new_r = self.render_now();
                emit_word(&old_r, &new_r, keys::host_char_of(key, caps))
            }
        } else {
            match nucleus::find_last_vowel(&self.slots) {
                None => self.do_fallback(key, caps),
                Some(j) => self.mark_apply(key, caps, m, j),
            }
        }
    }

    /// The apply branch of [`model::step_mark`]: a fresh mark lands on the
    /// last vowel run.
    #[verifier::rlimit(100)]
    fn mark_apply(&mut self, key: u16, caps: bool, m: u8, j: usize) -> (r: KeyResult)
        requires
            model::wf(old(self)@),
            keys::is_letter(key) || keys::is_digit(key),
            old(self)@.mark == 0,
            0 < m <= 5,
            j == nucleus::last_vowel_idx(old(self)@.slots),
        ensures
            model::wf(final(self)@),
            final(self)@ == model::step_mark(old(self)@, key, caps, m).0,
            r@ == model::step_mark(old(self)@, key, caps, m).1,
            r.count == r.chars@.len(),
            r.action == 0 || r.action == 1,
            r.backspace <= model::render_of(old(self)@).len(),
    {
        proof {
            nucleus::lemma_last_vowel_idx(self.slots@);
        }
        let old_r = self.render_now();
        let st = nucleus::find_run_start(&self.slots, j);
        proof {
            nucleus::lemma_run_start(self.slots@, j as int);
        }
        proof {
            assert(j < self.slots@.len());
        }
        let closed = j < self.slots.len() - 1;
        if closed && st < j {
            let a = self.slots[j - 1];
            let b = self.slots[j];
            if a.base == keys::U && a.modifier == crate::chars::MOD_HORN && b.base == keys::O
                && b.modifier == 0 {
                let mut nb = b;
                nb.modifier = crate::chars::MOD_HORN;
                self.slots[j] = nb;
            }
        }
        let ghost slots2 = if model::uo_completion(old(self)@.slots, st as int, j as int, closed) {
            old(self)@.slots.update(
                j as int,
                model::set_modifier(old(self)@.slots[j as int], crate::chars::MOD_HORN),
            )
        } else {
            old(self)@.slots
        };
        proof {
            assert(self.slots@ =~= slots2);
        }
        let end = j + 1;
        let idx = nucleus::mark_index_of(&self.slots, st, end, closed, self.modern);
        let mut t = self.slots[idx];
        t.w_literal = false;
        self.slots[idx] = t;
        self.mark = m;
        self.mark_idx = idx;
        self.last = LastOp::DidMark;
        proof {
        len_bound(&self.slots);
            assert(self@.slots =~= slots2.update(idx as int, model::resolve_w(slots2[idx as int])));
            assert(self@ =~= model::step_mark(old(self)@, key, caps, m).0);
            assert forall|i: int| 0 <= i < self@.slots.len() implies slot::wf_slot(
                #[trigger] self@.slots[i],
            ) by {}
            assert(slot::is_vowel_slot(self@.slots[idx as int]));
        }
        let new_r = self.render_now();
        emit_word(&old_r, &new_r, keys::host_char_of(key, caps))
    }

    /// A modifier (shape) key, per [`model::step_modifier`].
    #[verifier::rlimit(100)]
    fn do_modifier(&mut self, key: u16, caps: bool) -> (r: KeyResult)
        requires
            model::wf(old(self)@),
            keys::is_letter(key) || keys::is_digit(key),
        ensures
            model::wf(final(self)@),
            final(self)@ == model::step_modifier(old(self)@, key, caps).0,
            r@ == model::step_modifier(old(self)@, key, caps).1,
            r.count == r.chars@.len(),
            r.action == 0 || r.action == 1,
            r.backspace <= model::render_of(old(self)@).len(),
    {
        let vni = self.method == 1;
        let rvo: Option<usize> = match self.last {
            LastOp::DidModifier(i) => {
                if i < self.slots.len() && !self.slots[i].w_literal && self.slots[i].modifier != 0
                    && method::modifier_of_key(vni, key, self.slots[i].base)
                    == self.slots[i].modifier {
                    Some(i)
                } else {
                    None
                }
            },
            _ => None,
        };
        proof {
            match rvo {
                Some(i) => assert(model::mod_revert_target(old(self)@, key) == i),
                None => assert(model::mod_revert_target(old(self)@, key) == -1),
            }
        }
        if let Some(i) = rvo {
            let old_r = self.render_now();
            let mut s = self.slots[i];
            s.modifier = 0;
            self.slots[i] = s;
            self.slots.push(make_literal(key, caps));
            self.last = LastOp::Idle;
            proof {
            len_bound(&self.slots);
                assert(self@ =~= model::step_modifier(old(self)@, key, caps).0);
            }
            let new_r = self.render_now();
            return emit_word(&old_r, &new_r, keys::host_char_of(key, caps));
        }
        let horn = if vni {
            key == keys::N7
        } else {
            key == keys::W
        };
        if horn {
            if let Some(j) = nucleus::find_last_vowel(&self.slots) {
                proof {
                    nucleus::lemma_last_vowel_idx(self.slots@);
                }
                if let Some(p) = nucleus::find_prev_vowel(&self.slots, j) {
                    proof {
                        nucleus::lemma_last_vowel_idx(self.slots@.take(j as int));
                    }
                    let a = self.slots[p];
                    let b = self.slots[j];
                    let pair = (a.base == keys::U && b.base == keys::O) || (a.base == keys::O
                        && b.base == keys::U);
                    let t_opt: Option<usize> = if pair {
                        if a.modifier == 0 {
                            Some(p)
                        } else if b.modifier == 0 {
                            Some(j)
                        } else {
                            None
                        }
                    } else {
                        None
                    };
                    proof {
                        match t_opt {
                            Some(t) => assert(model::horn_pair_target(
                                old(self)@.slots,
                                p as int,
                                j as int,
                            ) == t),
                            None => assert(model::horn_pair_target(
                                old(self)@.slots,
                                p as int,
                                j as int,
                            ) == -1),
                        }
                    }
                    if let Some(t) = t_opt {
                        return self.horn_pair_apply(key, caps, j, p, t);
                    }
                }
            }
        }
        match scan_mod(&self.slots, vni, key) {
            Some(t) => {
                proof {
                    model::lemma_scan_modifier_target(self.slots@, vni, key);
                }
                let old_r = self.render_now();
                let mut nt = self.slots[t];
                nt.modifier = method::modifier_of_key(vni, key, nt.base);
                self.slots[t] = nt;
                self.last = LastOp::DidModifier(t);
                proof {
                len_bound(&self.slots);
                    assert(self@ =~= model::step_modifier(old(self)@, key, caps).0);
                }
                let new_r = self.render_now();
                emit_word(&old_r, &new_r, keys::host_char_of(key, caps))
            },
            None => self.do_fallback(key, caps),
        }
    }

    /// The trailing `uo`/`ou` branch of [`model::step_modifier`].
    #[verifier::rlimit(100)]
    fn horn_pair_apply(&mut self, key: u16, caps: bool, j: usize, p: usize, t: usize) -> (r:
        KeyResult)
        requires
            model::wf(old(self)@),
            keys::is_letter(key) || keys::is_digit(key),
            model::mod_revert_target(old(self)@, key) == -1,
            method::is_horn_key(model::vni(old(self)@), key),
            j == nucleus::last_vowel_idx(old(self)@.slots),
            0 <= j < old(self)@.slots.len(),
            p == nucleus::prev_vowel_idx(old(self)@.slots, j as int),
            0 <= p < j,
            t == model::horn_pair_target(old(self)@.slots, p as int, j as int),
            t == p || t == j,
        ensures
            model::wf(final(self)@),
            final(self)@ == model::step_modifier(old(self)@, key, caps).0,
            r@ == model::step_modifier(old(self)@, key, caps).1,
            r.count == r.chars@.len(),
            r.action == 0 || r.action == 1,
            r.backspace <= model::render_of(old(self)@).len(),
    {
        proof {
            assert(j < self.slots@.len());
        }
        let a = self.slots[p];
        let b = self.slots[j];
        let both = t == p && a.base == keys::U && j < self.slots.len() - 1 && b.base == keys::O
            && b.modifier == 0;
        let old_r = self.render_now();
        if both {
            let mut na = a;
            na.modifier = crate::chars::MOD_HORN;
            self.slots[p] = na;
            let mut nb = b;
            nb.modifier = crate::chars::MOD_HORN;
            self.slots[j] = nb;
        } else {
            let mut nt = self.slots[t];
            nt.modifier = crate::chars::MOD_HORN;
            self.slots[t] = nt;
        }
        self.last = LastOp::DidModifier(t);
        proof {
        len_bound(&self.slots);
            assert(self@.slots =~= model::step_modifier(old(self)@, key, caps).0.slots);
            assert(self@ =~= model::step_modifier(old(self)@, key, caps).0);
        }
        let new_r = self.render_now();
        emit_word(&old_r, &new_r, keys::host_char_of(key, caps))
    }

    /// The stroke key, per [`model::step_stroke`].
    #[verifier::rlimit(50)]
    fn do_stroke(&mut self, key: u16, caps: bool) -> (r: KeyResult)
        requires
            model::wf(old(self)@),
            keys::is_letter(key) || keys::is_digit(key),
        ensures
            model::wf(final(self)@),
            final(self)@ == model::step_stroke(old(self)@, key, caps).0,
            r@ == model::step_stroke(old(self)@, key, caps).1,
            r.count == r.chars@.len(),
            r.action == 0 || r.action == 1,
            r.backspace <= model::render_of(old(self)@).len(),
    {
        if self.sticky {
            return self.do_fallback(key, caps);
        }
        let rvo: Option<usize> = match self.last {
            LastOp::DidStroke(i) => {
                if i < self.slots.len() && self.slots[i].stroke {
                    Some(i)
                } else {
                    None
                }
            },
            _ => None,
        };
        proof {
            match rvo {
                Some(i) => assert(model::stroke_revert_target(old(self)@) == i),
                None => assert(model::stroke_revert_target(old(self)@) == -1),
            }
        }
        if let Some(i) = rvo {
            let old_r = self.render_now();
            let mut s = self.slots[i];
            s.stroke = false;
            self.slots[i] = s;
            self.slots.push(make_literal(key, caps));
            self.last = LastOp::Idle;
            self.sticky = true;
            proof {
            len_bound(&self.slots);
                assert(self@ =~= model::step_stroke(old(self)@, key, caps).0);
            }
            let new_r = self.render_now();
            return emit_word(&old_r, &new_r, keys::host_char_of(key, caps));
        }
        match scan_stroke(&self.slots) {
            Some(t) => {
                proof {
                    model::lemma_scan_stroke_target(self.slots@);
                }
                let old_r = self.render_now();
                let mut nt = self.slots[t];
                nt.stroke = true;
                self.slots[t] = nt;
                self.last = LastOp::DidStroke(t);
                proof {
                len_bound(&self.slots);
                    assert(self@ =~= model::step_stroke(old(self)@, key, caps).0);
                }
                let new_r = self.render_now();
                emit_word(&old_r, &new_r, keys::host_char_of(key, caps))
            },
            None => self.do_fallback(key, caps),
        }
    }

    /// First registered shortcut of the given kind whose trigger is the raw
    /// history, per [`model::find_shortcut`].
    #[verifier::loop_isolation(false)]
    fn find_sc(&self, immediate: bool) -> (r: Option<usize>)
        ensures
            match r {
                Some(i) => i == model::find_shortcut(self@.shortcuts, self@.raw, immediate) && i
                    < self@.shortcuts.len(),
                None => model::find_shortcut(self@.shortcuts, self@.raw, immediate) == -1,
            },
    {
        let ghost ss = self@.shortcuts;
        let mut i: usize = 0;
        while i < self.shortcuts.len()
            invariant
                i <= self.shortcuts@.len(),
                model::find_shortcut(ss, self@.raw, immediate) == model::find_shortcut_from(
                    ss,
                    self@.raw,
                    immediate,
                    i as int,
                ),
            decreases self.shortcuts@.len() - i,
        {
            let sc = &self.shortcuts[i];
            proof {
                assert(ss[i as int] == self.shortcuts@[i as int]@);
            }
            if sc.immediate == immediate && trigger_matches_of(sc, &self.raw) {
                return Some(i);
            }
            proof {
                model::lemma_find_shortcut_from_step(ss, self@.raw, immediate, i as int);
            }
            i = i + 1;
        }
        None
    }

    /// The delete key, per [`model::step_delete`].
    #[verifier::rlimit(100)]
    fn do_delete(&mut self) -> (r: KeyResult)
        requires
            model::wf(old(self)@),
        ensures
            model::wf(final(self)@),
            final(self)@ == model::step_delete(old(self)@).0,
            r@ == model::step_delete(old(self)@).1,
            r.count == r.chars@.len(),
            r.action == 0 || r.action == 1,
            r.backspace <= model::render_of(old(self)@).len(),
    {
        if self.slots.len() == 0 {
            self.clear();
            return pass_result();
        }
        let old_r = self.render_now();
        let n = self.slots.len() - 1;
        self.slots.pop();
        if self.mark != 0 && self.mark_idx == n {
            self.mark = 0;
        }
        let last_op = self.last;
        match last_op {
            LastOp::DidMark => {
                self.mark = 0;
            },
            LastOp::DidModifier(i) => {
                if i < n {
                    let mut s = self.slots[i];
                    s.modifier = 0;
                    s.w_literal = false;
                    self.slots[i] = s;
                }
            },
            LastOp::DidStroke(i) => {
                if i < n {
                    let mut s = self.slots[i];
                    s.stroke = false;
                    self.slots[i] = s;
                }
            },
            _ => {},
        }
        self.last = LastOp::Idle;
        self.sticky = false;
        if self.raw.len() > 0 {
            self.raw.pop();
        }
        if self.slots.len() == 0 {
            self.clear();
        }
        proof {
            assert(self@ =~= model::step_delete(old(self)@).0);
        }
        let new_r = self.render_now();
        proof {
            assert(old_r@.len() == old(self)@.slots.len());
        }
        emit_delete(&old_r, &new_r)
    }

    /// The space key, per [`model::step_space`].
    #[verifier::rlimit(100)]
    fn do_space(&mut self) -> (r: KeyResult)
        requires
            model::wf(old(self)@),
        ensures
            model::wf(final(self)@),
            final(self)@ == model::step_space(old(self)@).0,
            r@ == model::step_space(old(self)@).1,
            r.count == r.chars@.len(),
            r.action == 0 || r.action == 1,
            r.backspace <= model::render_of(old(self)@).len(),
    {
        let old_r = self.render_now();
        match self.find_sc(false) {
            Some(fi) => {
                proof {
                    model::lemma_find_shortcut_from(
                        self@.shortcuts,
                        self@.raw,
                        false,
                        0,
                    );
                    assert(self@.shortcuts[fi as int] == self.shortcuts@[fi as int]@);
                }
                let mut chars = copy_cps(&self.shortcuts[fi].expansion);
                chars.push(32);
                self.clear();
                let r = KeyResult {
                    action: 1,
                    backspace: old_r.len(),
                    count: chars.len(),
                    chars: chars,
                };
                proof {
                    assert(r@ =~= model::step_space(old(self)@).1);
                }
                r
            },
            None => {
                if self.restore && guard::guard_fires_of(&self.slots, self.mark, &self.raw) {
                    let mut chars = raw_chars(&self.raw);
                    chars.push(32);
                    self.clear();
                    let r = KeyResult {
                        action: 1,
                        backspace: old_r.len(),
                        count: chars.len(),
                        chars: chars,
                    };
                    proof {
                        assert(r@ =~= model::step_space(old(self)@).1);
                    }
                    r
                } else {
                    self.clear();
                    pass_result()
                }
            },
        }
    }

    /// A letter or digit key, per [`model::step_word_key`].
    #[verifier::rlimit(100)]
    fn do_word_key(&mut self, key: u16, caps: bool) -> (r: KeyResult)
        requires
            model::wf(old(self)@),
            keys::is_letter(key) || keys::is_digit(key),
        ensures
            model::wf(final(self)@),
            final(self)@ == model::step_word_key(old(self)@, key, caps).0,
            r@ == model::step_word_key(old(self)@, key, caps).1,
            r.count == r.chars@.len(),
            r.action == 0 || r.action == 1,
            r.backspace <= model::render_of(old(self)@).len(),
    {
        let ghost s0 = old(self)@;
        self.raw.push(RawKey { key, caps });
        proof {
            assert(self@ =~= (State { raw: s0.raw.push(RawKey { key, caps }), ..s0 }));
        }
        match self.find_sc(true) {
            Some(fi) => {
                proof {
                    model::lemma_find_shortcut_from(self@.shortcuts, self@.raw, true, 0);
                    assert(self@.shortcuts[fi as int] == self.shortcuts@[fi as int]@);
                }
                let old_r = self.render_now();
                let chars = copy_cps(&self.shortcuts[fi].expansion);
                self.clear();
                let r = KeyResult {
                    action: 1,
                    backspace: old_r.len(),
                    count: chars.len(),
                    chars: chars,
                };
                proof {
                    assert(self@ =~= model::reset_word(s0));
                    assert(r@ =~= model::step_word_key(s0, key, caps).1);
                }
                r
            },
            None => {
                if keys::digit(key) {
                    if self.method != 1 {
                        self.clear();
                        let r = pass_result();
                        proof {
                            assert(self@ =~= model::reset_word(s0));
                        }
                        r
                    } else {
                        let m = method::mark_of_key(true, key);
                        if m != 0 {
                            self.do_mark(key, caps, m)
                        } else if key == keys::N6 || key == keys::N7 || key == keys::N8 {
                            self.do_modifier(key, caps)
                        } else if key == keys::N9 {
                            self.do_stroke(key, caps)
                        } else {
                            self.do_remove(key, caps)
                        }
                    }
                } else {
                    if self.method == 1 {
                        self.do_letter(key, caps)
                    } else {
                        let m = method::mark_of_key(false, key);
                        if m != 0 {
                            self.do_mark(key, caps, m)
                        } else if key == keys::D {
                            self.do_stroke(key, caps)
                        } else if key == keys::A || key == keys::E || key == keys::O || key
                            == keys::W {
                            self.do_modifier(key, caps)
                        } else if key == keys::Z {
                            self.do_remove(key, caps)
                        } else {
                            self.do_letter(key, caps)
                        }
                    }
                }
            },
        }
    }

    /// A bracket key with the bracket shortcut on, per
    /// [`model::step_bracket`].
    fn do_bracket(&mut self, key: u16, caps: bool) -> (r: KeyResult)
        requires
            model::wf(old(self)@),
            key == keys::LBRACKET || key == keys::RBRACKET,
        ensures
            model::wf(final(self)@),
            final(self)@ == model::step_bracket(old(self)@, key, caps).0,
            r@ == model::step_bracket(old(self)@, key, caps).1,
            r.count == r.chars@.len(),
            r.action == 0 || r.action == 1,
            r.backspace <= model::render_of(old(self)@).len(),
    {
        let old_r = self.render_now();
        let base = if key == keys::LBRACKET {
            keys::O
        } else {
            keys::U
        };
        self.raw.push(RawKey { key, caps });
        self.slots.push(
            Slot {
                base: base,
                caps: caps,
                modifier: crate::chars::MOD_HORN,
                stroke: false,
                w_literal: false,
            },
        );
        self.last = LastOp::Inserted;
        proof {
        len_bound(&self.slots);
            assert(self@ =~= model::step_bracket(old(self)@, key, caps).0);
        }
        let new_r = self.render_now();
        emit_diff(&old_r, &new_r)
    }

    /// One key event in, one edit out — exactly the model's [`model::step`].
    pub fn on_key(&mut self, key: u16, caps: bool, ctrl: bool) -> (r: KeyResult)
        requires
            model::wf(old(self)@),
        ensures
            model::wf(final(self)@),
            final(self)@ == model::step(old(self)@, key, caps, ctrl).0,
            r@ == model::step(old(self)@, key, caps, ctrl).1,
            r.count == r.chars@.len(),
            r.action == 0 || r.action == 1,
            r.backspace <= model::render_of(old(self)@).len(),
    {
        if !self.enabled {
            return pass_result();
        }
        if ctrl {
            self.clear();
            return pass_result();
        }
        if key == keys::DELETE {
            return self.do_delete();
        }
        if key == keys::SPACE {
            return self.do_space();
        }
        if keys::letter(key) || keys::digit(key) {
            return self.do_word_key(key, caps);
        }
        if (key == keys::LBRACKET || key == keys::RBRACKET) && self.brackets {
            return self.do_bracket(key, caps);
        }
        self.clear();
        pass_result()
    }
}

} // verus!
