//! Edge case tests: invalid inputs, engine state transitions, boundary
//! conditions, and error recovery.

use gonhanh_core::engine::{Action, Engine, KeyResult};
use gonhanh_core::keys;
use gonhanh_core::keys::char_to_key;

fn apply(screen: &mut String, c: char, r: &KeyResult) {
    if r.action == Action::Send as u8 {
        for _ in 0..r.backspace {
            screen.pop();
        }
        for i in 0..r.count {
            if let Some(ch) = char::from_u32(r.chars[i]) {
                screen.push(ch);
            }
        }
    } else if c == '<' {
        screen.pop();
    } else {
        screen.push(c);
    }
}

fn type_word(e: &mut Engine, word: &str) -> String {
    let mut screen = String::new();
    for c in word.chars() {
        let key = char_to_key(c);
        let caps = c.is_ascii_uppercase();
        let r = e.on_key(key, caps, false);
        apply(&mut screen, c, &r);
    }
    screen
}

// ============================================================
// ENGINE STATE: Enabled/Disabled
// ============================================================

#[test]
fn disabled_engine_passes_through() {
    let mut e = Engine::new();
    e.set_enabled(false);

    // When disabled, all keys should pass through (action=None)
    let r = e.on_key(keys::A, false, false);
    assert_eq!(r.action, Action::Pass as u8);

    let r = e.on_key(keys::S, false, false);
    assert_eq!(r.action, Action::Pass as u8);
}

#[test]
fn re_enable_engine_works() {
    let mut e = Engine::new();

    // Disable then re-enable
    e.set_enabled(false);
    e.set_enabled(true);

    // After re-enable, typing should work
    // Note: single 'a' returns Action::Pass (no transformation yet)
    // Only after a mark key does it return Action::Send
    let result = type_word(&mut e, "as");
    assert_eq!(result, "á");
}

// ============================================================
// CTRL/CMD: Pass through modifier keys
// ============================================================

#[test]
fn ctrl_key_passes_through() {
    let mut e = Engine::new();

    // Ctrl+A should pass through (action=None)
    let r = e.on_key(keys::A, false, true);
    assert_eq!(r.action, Action::Pass as u8);

    // Buffer should be cleared after ctrl key
    let r = e.on_key(keys::S, false, false);
    // 's' alone should not produce a mark
    assert_eq!(r.action, Action::Pass as u8);
}

#[test]
fn ctrl_clears_buffer() {
    let mut e = Engine::new();

    // Type 'a', then Ctrl+something, then 's'
    e.on_key(keys::A, false, false);
    e.on_key(keys::C, false, true); // Ctrl+C - clears buffer
    let r = e.on_key(keys::S, false, false);

    // 's' should not apply a mark since buffer was cleared
    assert_eq!(r.action, Action::Pass as u8);
}

// ============================================================
// METHOD SWITCHING: Telex <-> VNI
// ============================================================

#[test]
fn method_switch_preserves_buffer() {
    let mut e = Engine::new();

    // Start in Telex, type 'a'
    e.on_key(keys::A, false, false);

    // Switch to VNI
    e.set_method(1);

    // VNI mark '1' can still work on the previous 'a' (buffer preserved)
    let r = e.on_key(keys::N1, false, false);
    assert_eq!(r.action, Action::Send as u8);
}

#[test]
fn invalid_method_defaults_to_telex() {
    let mut e = Engine::new();
    e.set_method(99); // Invalid method

    // Should still work as Telex
    let result = type_word(&mut e, "as");
    assert_eq!(result, "á");
}

// ============================================================
// UNKNOWN KEYS: Non-letter keys
// ============================================================

#[test]
fn unknown_key_passes_through() {
    let mut e = Engine::new();

    // Key code 255 is our "unknown" key
    let r = e.on_key(255, false, false);
    assert_eq!(r.action, Action::Pass as u8);
}

#[test]
fn space_clears_buffer() {
    let mut e = Engine::new();

    // Type 'a', then space, then 's'
    e.on_key(keys::A, false, false);
    e.on_key(keys::SPACE, false, false);
    let r = e.on_key(keys::S, false, false);

    // 's' should not apply a mark since space cleared the buffer
    assert_eq!(r.action, Action::Pass as u8);
}

// ============================================================
// EMPTY BUFFER: a mark key without a vowel
// ============================================================

#[test]
fn tone_without_vowel_passes_through() {
    let mut e = Engine::new();

    // Telex: 's' alone should pass through
    let r = e.on_key(keys::S, false, false);
    assert_eq!(r.action, Action::Pass as u8);

    // 'f' alone
    let r = e.on_key(keys::F, false, false);
    assert_eq!(r.action, Action::Pass as u8);
}

#[test]
fn mark_without_vowel_passes_through() {
    let mut e = Engine::new();

    // Telex: 'w' alone should pass through
    let r = e.on_key(keys::W, false, false);
    assert_eq!(r.action, Action::Pass as u8);
}

#[test]
fn vni_tone_without_vowel_passes_through() {
    let mut e = Engine::new();
    e.set_method(1); // VNI

    // '1' alone (the acute mark key)
    let r = e.on_key(keys::N1, false, false);
    assert_eq!(r.action, Action::Pass as u8);
}

// ============================================================
// CONSECUTIVE BACKSPACE
// ============================================================

#[test]
fn backspace_on_empty_buffer() {
    let mut e = Engine::new();

    // Backspace on empty buffer should pass through
    let r = e.on_key(keys::DELETE, false, false);
    assert_eq!(r.action, Action::Pass as u8);
}

#[test]
fn multiple_backspace_clears_all() {
    let mut e = Engine::new();

    // Type 'ab', then delete both
    e.on_key(keys::A, false, false);
    e.on_key(keys::B, false, false);
    e.on_key(keys::DELETE, false, false);
    e.on_key(keys::DELETE, false, false);

    // Now 's' should pass through (empty buffer)
    let r = e.on_key(keys::S, false, false);
    assert_eq!(r.action, Action::Pass as u8);
}

// ============================================================
// CONSONANT-ONLY WORDS
// ============================================================

#[test]
fn consonant_only_no_conversion() {
    let mut e = Engine::new();

    let result = type_word(&mut e, "bcd");
    assert_eq!(result, "bcd");
}

#[test]
fn tone_after_consonant_only() {
    let mut e = Engine::new();

    // 'bc' + 's' -> 'bcs' (no vowel to mark)
    let result = type_word(&mut e, "bcs");
    assert_eq!(result, "bcs");
}

// ============================================================
// CLEAR BUFFER
// ============================================================

#[test]
fn clear_resets_state() {
    let mut e = Engine::new();

    // Type 'a'
    e.on_key(keys::A, false, false);

    // Clear buffer
    e.clear();

    // 's' should now pass through
    let r = e.on_key(keys::S, false, false);
    assert_eq!(r.action, Action::Pass as u8);
}

// ============================================================
// MODERN VS CLASSIC ORTHOGRAPHY
// ============================================================

#[test]
fn modern_orthography_hoa() {
    let mut e = Engine::new();
    e.set_modern(true);

    let result = type_word(&mut e, "hoaf");
    // Modern: hoà (mark on the last vowel)
    assert_eq!(result, "hoà");
}

#[test]
fn classic_orthography_hoa() {
    let mut e = Engine::new();
    e.set_modern(false);

    let result = type_word(&mut e, "hoaf");
    // Classic: hòa (mark on the main vowel)
    assert_eq!(result, "hòa");
}

// ============================================================
// REVERT BEHAVIOR
// ============================================================

#[test]
fn double_tone_reverts() {
    let mut e = Engine::new();

    // á + s -> as (revert)
    let result = type_word(&mut e, "ass");
    assert_eq!(result, "as");
}

#[test]
fn double_mark_reverts() {
    let mut e = Engine::new();

    // â + a -> aa (revert circumflex)
    let result = type_word(&mut e, "aaa");
    assert_eq!(result, "aa");
}

#[test]
fn triple_same_key_behavior() {
    let mut e = Engine::new();

    // Engine behavior for 'aaaa':
    // a -> a
    // aa -> â (circumflex applied)
    // aaa -> aa (circumflex reverted)
    // aaaa -> aâ (circumflex on the second 'a')
    let result = type_word(&mut e, "aaaa");
    assert_eq!(result, "aâ");
}
