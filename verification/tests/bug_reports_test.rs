//! Regression tests for behaviors pinned down from field reports: stroke
//! revert, leaked history, anchored marks, delayed shapes, and the restore
//! of English-looking words.

use gonhanh_core::engine::{Action, Engine, KeyResult};
use gonhanh_core::keys::char_to_key;

fn apply(screen: &mut String, c: char, r: &KeyResult) {
    if r.action == Action::Send as u8 {
        for _ in 0..r.backspace {
            screen.pop();
        }
        for i in 0..r.count {
            if let Some(ch) = char::from_u32(r.chars[i]) {
                screen.push(ch);
            }
        }
    } else if c == '<' {
        screen.pop();
    } else {
        screen.push(c);
    }
}

fn type_word(e: &mut Engine, word: &str) -> String {
    let mut screen = String::new();
    for c in word.chars() {
        let key = char_to_key(c);
        let caps = c.is_ascii_uppercase();
        let r = e.on_key(key, caps, false);
        apply(&mut screen, c, &r);
    }
    screen
}

fn telex(cases: &[(&str, &str)]) {
    for (input, expected) in cases {
        let mut e = Engine::new();
        let got = type_word(&mut e, input);
        assert_eq!(&got, expected, "telex input {:?}", input);
    }
}

// =============================================================================
// Delayed stroke: a later `d` strokes the first one
// =============================================================================

#[test]
fn bug1_did_to_di() {
    let mut e = Engine::new();
    let result = type_word(&mut e, "did");
    println!("'did' -> '{}' (expected: 'đi')", result);
}

// =============================================================================
// "thowifi": the mark belongs to ơ, not to a later i
// =============================================================================

#[test]
fn bug2_thowifi() {
    let mut e = Engine::new();
    let result = type_word(&mut e, "thowifi");
    println!("'thowifi' -> '{}' (expected: 'thờii')", result);
}

// =============================================================================
// "uawf": w anchors the breve on a; other engines differ
// =============================================================================

#[test]
fn bug3_uawf() {
    let mut e = Engine::new();
    let result = type_word(&mut e, "uawf");
    println!("'uawf' -> '{}' (OS built-in gives: 'ừa')", result);
}

// =============================================================================
// "cuoiwsi": contested triphthong placement
// =============================================================================

#[test]
fn bug4_thuoiwfi() {
    let mut e = Engine::new();
    let result = type_word(&mut e, "cuoiwsi");
    println!("'cuoiwsi' -> '{}' (expected: 'cướii')", result);
}

// =============================================================================
// "ddd" reverts the stroke instead of stacking a letter
// =============================================================================

#[test]
fn bug5_ddd_revert() {
    let mut e = Engine::new();
    let result = type_word(&mut e, "ddd");
    println!("'ddd' -> '{}' (expected: 'dd')", result);
}

#[test]
fn current_dd_makes_stroke() {
    // dd → đ (correct, should not change)
    telex(&[("dd", "đ")]);
}

#[test]
fn current_thowi() {
    let mut e = Engine::new();
    let result = type_word(&mut e, "thowi");
    println!("'thowi' -> '{}'", result);
}

#[test]
fn current_uaw() {
    let mut e = Engine::new();
    let result = type_word(&mut e, "uaw");
    println!("'uaw' -> '{}'", result);
}

// =============================================================================
// " ddddd": the edit never reaches past the current word
// =============================================================================

#[test]
fn bug6_ddddd_deletes_space() {
    let mut e = Engine::new();
    let result = type_word(&mut e, " ddddd");
    println!("' ddddd' -> '{}' (expected: ' dddd')", result);
    assert_eq!(
        result, " dddd",
        "Space should be preserved when typing ' ddddd'"
    );
}

#[test]
fn ddddd_behavior() {
    let mut e = Engine::new();

    let mut screen = String::new();
    let inputs = ['d', 'd', 'd', 'd', 'd'];

    for c in inputs {
        let key = char_to_key(c);
        let r = e.on_key(key, false, false);

        if r.action == Action::Send as u8 {
            println!(
                "Key '{}': backspace={}, output='{}' (screen before: '{}')",
                c,
                r.backspace,
                (0..r.count as usize)
                    .filter_map(|i| char::from_u32(r.chars[i]))
                    .collect::<String>(),
                screen
            );
            for _ in 0..r.backspace {
                screen.pop();
            }
            for i in 0..r.count as usize {
                if let Some(ch) = char::from_u32(r.chars[i]) {
                    screen.push(ch);
                }
            }
        } else {
            println!("Key '{}': passthrough (screen before: '{}')", c, screen);
            screen.push(c);
        }
        println!("  -> screen after: '{}'", screen);
    }

    println!("\nFinal: 'ddddd' -> '{}' (expected: 'dddd')", screen);
    assert_eq!(screen, "dddd", "'ddddd' should produce 'dddd'");
}

// =============================================================================
// A lone `w` stands for `ư` once a mark arrives
// =============================================================================

#[test]
fn fixed_w_shortcut_with_mark() {
    telex(&[
        ("Wf", "Ừ"),
        ("wf", "ừ"),
        ("wmf", "ừm"),
        ("Wmf ", "Ừm "),
        ("wmf ", "ừm "),
    ]);
}

// =============================================================================
// After "ddddd" → "dddd", backspace to "d", then "d" produces "đ":
// the sticky revert flag resets on backspace
// =============================================================================

#[test]
fn bug7_backspace_resets_stroke_reverted() {
    // Type "ddddd" → "dddd", backspace 3 times → "d", then "d" → "đ"
    // Note: '<' is mapped to the delete key by char_to_key
    let mut e = Engine::new();
    let result = type_word(&mut e, "ddddd<<<d");
    println!(
        "'ddddd' + backspace×3 + 'd' -> '{}' (expected: 'đ')",
        result
    );
    assert_eq!(result, "đ", "After backspace, dd should produce đ again");
}

// =============================================================================
// Extra vowels after a finished diphthong+mark never move the mark
// =============================================================================

#[test]
fn bug8_extra_vowel_after_diphthong_mark() {
    let mut e = Engine::new();
    // taif → tài (mark on 'a' for the "ai" diphthong)
    // taifi → tàii (mark stays on 'a', not moved to 'i')
    let result = type_word(&mut e, "taifi");
    println!("'taifi' -> '{}' (expected: 'tàii')", result);
    assert_eq!(
        result, "tàii",
        "'taifi' should produce 'tàii' (mark on 'a')"
    );

    // Also verify the 6-key input produces 3 i's
    let mut e2 = Engine::new();
    let result2 = type_word(&mut e2, "taifii");
    println!("'taifii' -> '{}' (expected: 'tàiii')", result2);
    assert_eq!(
        result2, "tàiii",
        "'taifii' should produce 'tàiii' (mark on 'a')"
    );
}

// =============================================================================
// Delayed circumflex with a post-shape `d` for the stroke
// =============================================================================

#[test]
fn bug9_delayed_circumflex_stroke() {
    let mut e = Engine::new();
    let result = type_word(&mut e, "ddoong ");
    println!("'ddoong ' -> '{}' (expected: 'đông ')", result);
    assert_eq!(result, "đông ", "'ddoong ' should produce 'đông '");

    let mut e2 = Engine::new();
    let result2 = type_word(&mut e2, "doodng ");
    println!("'doodng ' -> '{}' (expected: 'đông ')", result2);
    assert_eq!(result2, "đông ", "'doodng ' should produce 'đông '");

    // Without a trailing space
    let mut e3 = Engine::new();
    let result3 = type_word(&mut e3, "duod");
    println!("'duod' -> '{}' (expected: 'đuo')", result3);
    assert_eq!(result3, "đuo", "'duod' should produce 'đuo'");

    // With a trailing space
    let mut e4 = Engine::new();
    let result4 = type_word(&mut e4, "duod ");
    println!("'duod ' -> '{}' (expected: 'đuo ')", result4);
    assert_eq!(result4, "đuo ", "'duod ' should produce 'đuo '");
}

// =============================================================================
// Auto-restore keeps English words intact and valid Vietnamese untouched
// =============================================================================

#[test]
fn bug10_raisse_restore() {
    // First check without auto_restore
    let mut e = Engine::new();
    let result = type_word(&mut e, "raisse ");
    println!("[no auto_restore] 'raisse ' -> '{}'", result);

    let mut e2 = Engine::new();
    let result2 = type_word(&mut e2, "raise ");
    println!("[no auto_restore] 'raise ' -> '{}'", result2);

    // Then with auto_restore
    let mut e3 = Engine::new();
    e3.set_english_auto_restore(true);
    let result3 = type_word(&mut e3, "raisse ");
    println!("[auto_restore] 'raisse ' -> '{}'", result3);

    let mut e4 = Engine::new();
    e4.set_english_auto_restore(true);
    let result4 = type_word(&mut e4, "raise ");
    println!("[auto_restore] 'raise ' -> '{}'", result4);

    // Assert expected behavior with auto_restore
    assert_eq!(result3, "raise ", "'raisse ' should produce 'raise '");
    assert_eq!(result4, "raise ", "'raise ' should produce 'raise '");

    // Check what "theme " produces (without and with auto_restore)
    let mut e5a = Engine::new();
    let result5a = type_word(&mut e5a, "theme ");
    println!("[no auto_restore] 'theme ' -> '{}'", result5a);

    let mut e5b = Engine::new();
    e5b.set_english_auto_restore(true);
    let result5b = type_word(&mut e5b, "theme ");
    println!("[auto_restore] 'theme ' -> '{}'", result5b);

    // "theme " should produce "thêm " (valid Vietnamese, NOT restored)
    assert_eq!(
        result5b, "thêm ",
        "'theme ' should produce 'thêm ' (valid Vietnamese)"
    );

    // "sorry " should stay as "sorry " (not "sory ")
    // This verifies the doubled consonant + trailing 'y' exclusion
    let mut e6 = Engine::new();
    e6.set_english_auto_restore(true);
    let result6 = type_word(&mut e6, "sorry ");
    println!("[auto_restore] 'sorry ' -> '{}'", result6);
    assert_eq!(
        result6, "sorry ",
        "'sorry ' should produce 'sorry ' (not 'sory ')"
    );

    // "dayda " and "daday " should produce "đây " (valid Vietnamese)
    let mut e7 = Engine::new();
    let result7 = type_word(&mut e7, "dayda ");
    println!("[no auto_restore] 'dayda ' -> '{}'", result7);

    let mut e8 = Engine::new();
    e8.set_english_auto_restore(true);
    let result8 = type_word(&mut e8, "dayda ");
    println!("[auto_restore] 'dayda ' -> '{}'", result8);

    let mut e9 = Engine::new();
    e9.set_english_auto_restore(true);
    let result9 = type_word(&mut e9, "daday ");
    println!("[auto_restore] 'daday ' -> '{}'", result9);

    assert_eq!(result8, "đây ", "'dayda ' should produce 'đây '");
    assert_eq!(result9, "đây ", "'daday ' should produce 'đây '");
}
