//! Feature tests: shortcut expansion and re-arming, method-scoped digits,
//! orthography anchoring, mark removal, the bracket keys, and the English
//! auto-restore actually firing.

use gonhanh_core::engine::{Action, Engine, KeyResult};
use gonhanh_core::keys;
use gonhanh_core::keys::{char_to_key, RawKey};

fn apply(screen: &mut String, c: char, r: &KeyResult) {
    if r.action == Action::Send as u8 {
        for _ in 0..r.backspace {
            screen.pop();
        }
        for i in 0..r.count {
            if let Some(ch) = char::from_u32(r.chars[i]) {
                screen.push(ch);
            }
        }
    } else if c == '<' {
        screen.pop();
    } else {
        screen.push(c);
    }
}

fn type_word(e: &mut Engine, word: &str) -> String {
    let mut screen = String::new();
    for c in word.chars() {
        let key = char_to_key(c);
        let caps = c.is_ascii_uppercase();
        let r = e.on_key(key, caps, false);
        apply(&mut screen, c, &r);
    }
    screen
}

fn trigger_of(word: &str) -> Vec<RawKey> {
    word.chars()
        .map(|c| RawKey { key: char_to_key(c), caps: c.is_ascii_uppercase() })
        .collect()
}

fn expansion_of(word: &str) -> Vec<u32> {
    word.chars().map(|c| c as u32).collect()
}

// ============================================================
// SHORTCUTS
// ============================================================

#[test]
fn shortcut_immediate_fires() {
    let mut e = Engine::new();
    e.register_shortcut(trigger_of("btw"), expansion_of("by the way"), true, false);
    let result = type_word(&mut e, "btw");
    assert_eq!(result, "by the way");
}

#[test]
fn shortcut_rearm_after_delete() {
    // trigger → expansion → delete → retype trigger → expansion again
    let mut e = Engine::new();
    e.register_shortcut(trigger_of("vn"), expansion_of("Việt Nam"), true, false);
    let result = type_word(&mut e, "vn<<<<<<<<vn");
    assert_eq!(result, "Việt Nam");
}

#[test]
fn shortcut_rearm_with_boundary_text() {
    // the trigger also re-arms across other words
    let mut e = Engine::new();
    e.register_shortcut(trigger_of("vn"), expansion_of("Việt Nam"), true, false);
    let result = type_word(&mut e, "vn xin vn");
    assert_eq!(result, "Việt Nam xin Việt Nam");
}

#[test]
fn shortcut_deferred_fires_on_space() {
    let mut e = Engine::new();
    e.register_shortcut(trigger_of("ko"), expansion_of("không"), false, false);
    // no expansion while the word is still open
    let mid = type_word(&mut e, "ko");
    assert_eq!(mid, "ko");
    let result = type_word(&mut e, " ");
    assert_eq!(result, "không ");
}

#[test]
fn shortcut_deletes_rendered_not_typed_length() {
    // the trigger takes 3 keys but renders 2 characters; the edit removes 2
    let mut e = Engine::new();
    e.register_shortcut(trigger_of("vnf"), expansion_of("ok"), true, false);
    type_word(&mut e, "v");
    type_word(&mut e, "n");
    let r = e.on_key(keys::F, false, false);
    assert_eq!(r.action, Action::Send as u8);
    assert_eq!(r.backspace, 2);
}

#[test]
fn shortcut_case_sensitive_flag() {
    let mut e = Engine::new();
    e.register_shortcut(trigger_of("Hn"), expansion_of("Hà Nội"), true, true);
    assert_eq!(type_word(&mut e, "Hn"), "Hà Nội");
    e.clear();
    assert_eq!(type_word(&mut e, "hn"), "hn");
}

#[test]
fn clear_shortcuts_disarms() {
    let mut e = Engine::new();
    e.register_shortcut(trigger_of("btw"), expansion_of("by the way"), true, false);
    e.clear_shortcuts();
    assert_eq!(type_word(&mut e, "btw"), "btw");
}

// ============================================================
// METHOD-SCOPED DIGITS
// ============================================================

#[test]
fn telex_digits_always_literal() {
    let mut e = Engine::new();
    assert_eq!(type_word(&mut e, "o2o"), "o2o");
}

#[test]
fn vni_digit_is_tone() {
    let mut e = Engine::new();
    e.set_method(1);
    assert_eq!(type_word(&mut e, "o2o"), "òo");
}

// ============================================================
// ORTHOGRAPHY ANCHORING
// ============================================================

#[test]
fn orthography_uy_pair() {
    let mut e = Engine::new();
    e.set_modern(true);
    assert_eq!(type_word(&mut e, "tuyr"), "tuỷ");

    let mut e2 = Engine::new();
    e2.set_modern(false);
    assert_eq!(type_word(&mut e2, "tuyr"), "tủy");
}

#[test]
fn orthography_closed_pair_same_both_ways() {
    let mut e = Engine::new();
    e.set_modern(true);
    assert_eq!(type_word(&mut e, "toans"), "toán");

    let mut e2 = Engine::new();
    e2.set_modern(false);
    assert_eq!(type_word(&mut e2, "toans"), "toán");
}

// ============================================================
// MARK REMOVAL
// ============================================================

#[test]
fn telex_z_removes_mark() {
    let mut e = Engine::new();
    assert_eq!(type_word(&mut e, "asz"), "a");

    let mut e2 = Engine::new();
    assert_eq!(type_word(&mut e2, "vieetjz"), "viêt");
}

#[test]
fn telex_z_literal_without_mark() {
    let mut e = Engine::new();
    assert_eq!(type_word(&mut e, "az"), "az");
}

#[test]
fn vni_zero_removes_mark() {
    let mut e = Engine::new();
    e.set_method(1);
    assert_eq!(type_word(&mut e, "a10"), "a");
}

// ============================================================
// BRACKET SHORTCUT
// ============================================================

#[test]
fn bracket_keys_insert_horned_vowels() {
    let mut e = Engine::new();
    e.set_bracket_shortcut(true);
    let mut screen = String::new();
    let r = e.on_key(keys::LBRACKET, false, false);
    apply(&mut screen, '[', &r);
    let r = e.on_key(keys::RBRACKET, false, false);
    apply(&mut screen, ']', &r);
    assert_eq!(screen, "ơư");
}

#[test]
fn bracket_keys_off_by_default() {
    let mut e = Engine::new();
    let r = e.on_key(keys::LBRACKET, false, false);
    assert_eq!(r.action, Action::Pass as u8);
}

// ============================================================
// ENGLISH AUTO-RESTORE FIRING
// ============================================================

#[test]
fn english_restore_fires_on_collision() {
    let mut e = Engine::new();
    e.set_english_auto_restore(true);
    assert_eq!(type_word(&mut e, "case "), "case ");

    // without the restore the collision stands
    let mut e2 = Engine::new();
    assert_eq!(type_word(&mut e2, "case "), "cáe ");
}

// ============================================================
// VNI REDUNDANT MARK KEY
// ============================================================

#[test]
fn vni_same_mark_again_is_consumed() {
    let mut e = Engine::new();
    e.set_method(1);
    assert_eq!(type_word(&mut e, "ngu7o72i2"), "người");
}

// ============================================================
// SESSION CONFIGURATION
// ============================================================

#[test]
fn configure_sets_whole_session() {
    let mut e = Engine::new();
    e.configure(1, false, false, false);
    // VNI keying, classic orthography
    assert_eq!(type_word(&mut e, "hoa2"), "hòa");

    let mut e2 = Engine::new();
    e2.configure(0, true, false, false);
    assert_eq!(type_word(&mut e2, "hoaf"), "hoà");
}

// ============================================================
// STROKE STICKINESS
// ============================================================

#[test]
fn stroke_revert_is_sticky_until_reset() {
    let mut e = Engine::new();
    assert_eq!(type_word(&mut e, "ddddd"), "dddd");
    // a boundary re-arms the stroke
    assert_eq!(type_word(&mut e, " dd"), " đ");
}
