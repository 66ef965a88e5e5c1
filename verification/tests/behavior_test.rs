//! Behavior tests: real-world typing scenarios — corrections with
//! backspace, retyping after errors, mixed patterns, and daily-use edges.

use gonhanh_core::engine::{Action, Engine, KeyResult};
use gonhanh_core::keys::char_to_key;

fn apply(screen: &mut String, c: char, r: &KeyResult) {
    if r.action == Action::Send as u8 {
        for _ in 0..r.backspace {
            screen.pop();
        }
        for i in 0..r.count {
            if let Some(ch) = char::from_u32(r.chars[i]) {
                screen.push(ch);
            }
        }
    } else if c == '<' {
        screen.pop();
    } else {
        screen.push(c);
    }
}

fn type_word(e: &mut Engine, word: &str) -> String {
    let mut screen = String::new();
    for c in word.chars() {
        let key = char_to_key(c);
        let caps = c.is_ascii_uppercase();
        let r = e.on_key(key, caps, false);
        apply(&mut screen, c, &r);
    }
    screen
}

fn test_telex(input: &str, expected: &str) {
    let mut e = Engine::new();
    let got = type_word(&mut e, input);
    assert_eq!(&got, expected, "telex input {:?}", input);
}

fn test_vni(input: &str, expected: &str) {
    let mut e = Engine::new();
    e.set_method(1);
    let got = type_word(&mut e, input);
    assert_eq!(&got, expected, "vni input {:?}", input);
}

// ============================================================
// BACKSPACE
// ============================================================

#[test]
fn telex_backspace_and_retype() {
    // vieet = viêt, backspace removes t → viê, +s → viế
    test_telex("vieet<s", "viế");

    // chaof = chào, backspace → cha, +o → chao (no mark: the o is fresh)
    test_telex("chaof<o", "chao");
}

#[test]
fn telex_backspace_mid_word() {
    // a typo mid-word, delete and fix
    test_telex("toi<as", "toá"); // to + i + backspace + á = toá
}

#[test]
fn vni_backspace_and_retype() {
    // a1 = á, backspace empties the word, retype a then 2
    test_vni("a1<a2", "à"); // á + backspace + a + 2 = à
    test_vni("o6<o7", "ơ"); // ô + backspace + o + 7 = ơ
}

// ============================================================
// TYPO: keys in the wrong order
// ============================================================

#[test]
fn telex_wrong_order_mark_before_vowel() {
    // a mark key before any vowel stays a plain letter
    test_telex("sa", "sa"); // s first, no vowel -> pass through
    test_telex("as", "á");  // a first, s after -> á
}

#[test]
fn telex_double_mark() {
    // a mark typed twice reverts
    test_telex("ass", "as");
    test_telex("aff", "af");
    test_telex("arr", "ar");
}

#[test]
fn telex_double_tone() {
    // a shape key typed twice reverts
    test_telex("aaa", "aa");
    test_telex("ooo", "oo");
    test_telex("aww", "aw");
}

// ============================================================
// MIXED
// ============================================================

#[test]
fn telex_change_mark_mid_word() {
    // asf = a + s(acute→á) + f(grave replaces the acute→à)
    test_telex("asf", "à");
}

#[test]
fn telex_tone_then_mark() {
    // shape (^) first, then the mark
    test_telex("aas", "ấ");
    test_telex("ees", "ế");
    test_telex("oos", "ố");
}

#[test]
fn telex_mark_then_tone() {
    // mark first, shape after
    test_telex("asa", "ấ"); // á + a = ấ
    test_telex("oso", "ố"); // ó + o = ố
}

// ============================================================
// COMMON WORDS
// ============================================================

#[test]
fn telex_common_words_with_typos() {
    test_telex("vieetj", "việt");
    test_telex("vieets", "viết");
    test_telex("dduowcj", "được");
}

#[test]
fn vni_common_words() {
    test_vni("vie65t", "việt");
    test_vni("d9u7o7c5", "được");
}

// ============================================================
// EDGE CASES
// ============================================================

#[test]
fn telex_only_consonants() {
    test_telex("bcd", "bcd");
    test_telex("xyz", "xyz");
}

#[test]
fn telex_mark_without_vowel() {
    test_telex("bs", "bs"); // no vowel, s stays an ordinary letter
    test_telex("ts", "ts");
}

#[test]
fn telex_multiple_backspace() {
    test_telex("abcd<<<", "a");
    // vieets = viết (4 chars), <<< removes 3 chars → v, +ng → vng
    test_telex("vieets<<<ng", "vng");
}

#[test]
fn telex_empty_after_backspace() {
    test_telex("a<b", "b");
    test_telex("ab<<cd", "cd");
}

// ============================================================
// CONTINUOUS TYPING
// ============================================================

#[test]
fn telex_word_boundary() {
    test_telex("xin", "xin");
    test_telex("chaof", "chào");
}

// ============================================================
// CAPITALIZATION
// ============================================================

#[test]
fn telex_caps_mid_word() {
    // caps mid-word: viEets = v+i+Ê+t+s = viẾt
    test_telex("viEets", "viẾt");
}

#[test]
fn telex_all_caps() {
    test_telex("VIEETJ", "VIỆT");
    test_telex("VIEETS", "VIẾT");
    test_telex("DDUWOWNGF", "ĐƯỜNG");
}

#[test]
fn vni_all_caps() {
    test_vni("VIE65T", "VIỆT");
    test_vni("D9U7O7NG2", "ĐƯỜNG");
}

// ============================================================
// RAPID TYPING
// ============================================================

#[test]
fn telex_rapid_typing_patterns() {
    test_telex("ngoafif", "ngoàif"); // the mark key typed twice, apart
    test_telex("nguwowif", "người");
}

#[test]
fn vni_rapid_typing() {
    test_vni("ngu7o72i2", "người");
    test_vni("to6i1", "tối");
}
