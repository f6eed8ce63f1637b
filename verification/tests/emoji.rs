use liftcalc::emoji::{add_icon_token, codepoint_token, emoji_glyphs, icon_tokens, search};
use liftcalc::interface::EmojiEntry;

fn entry(cp: &str, glyph: &str, name: &str) -> EmojiEntry {
    EmojiEntry { codepoint: cp.to_string(), glyph: glyph.to_string(), name: name.to_string() }
}

fn index() -> Vec<EmojiEntry> {
    vec![
        entry("1f34c", "🍌", "banana"),
        entry("1f408", "🐈", "Cat"),
        entry("1f431", "🐱", "cat face"),
        entry("1f418", "🐘", "elephant"),
        entry("1f1e9_1f1ea", "🇩🇪", "flag: Germany"),
    ]
}

fn names(v: &[EmojiEntry]) -> Vec<&str> {
    v.iter().map(|e| e.name.as_str()).collect()
}

#[test]
fn search_matches_names_case_insensitively() {
    let idx = index();
    assert_eq!(names(&search(&idx, "  CAT ", None)), vec!["Cat", "cat face"]);
    assert_eq!(names(&search(&idx, "an", None)), vec!["banana", "elephant", "flag: Germany"]);
    assert!(search(&idx, "zebra", None).is_empty());
}

#[test]
fn search_limits() {
    let idx = index();
    assert_eq!(search(&idx, "", None).len(), 5);
    assert_eq!(names(&search(&idx, "", Some(2))), vec!["banana", "Cat"]);
    assert_eq!(search(&idx, "", Some(0)).len(), 0);
    let big: Vec<EmojiEntry> = (0..300).map(|i| entry("1f600", "😀", &format!("face {i}"))).collect();
    assert_eq!(search(&big, "face", None).len(), 48);
    assert_eq!(search(&big, "face", Some(1000)).len(), 200);
}

#[test]
fn glyphs_from_icon_specs() {
    assert_eq!(emoji_glyphs("1f34c"), "🍌");
    assert_eq!(emoji_glyphs("1f1e9_1f1ea+1f9d1"), "🇩🇪🧑");
    assert_eq!(emoji_glyphs(" 1F34C "), "🍌");
    assert_eq!(emoji_glyphs("zz+1f34c"), "🍌");
    assert_eq!(emoji_glyphs("d800"), "");
    assert_eq!(emoji_glyphs("110000"), "");
    assert_eq!(emoji_glyphs("1ffffffff"), "");
    assert_eq!(emoji_glyphs(""), "");
    assert_eq!(emoji_glyphs("++__"), "");
}

#[test]
fn picker_adds_up_to_two_distinct_tokens() {
    assert_eq!(add_icon_token("", "1f34c"), "1f34c");
    assert_eq!(add_icon_token("1f34c", "1f408"), "1f34c+1f408");
    assert_eq!(add_icon_token("1f34c+1f408", "1f418"), "1f34c+1f408");
    assert_eq!(add_icon_token("1f34c", "1f34c"), "1f34c");
    assert_eq!(add_icon_token("+1f34c+", "1f408"), "1f34c+1f408");
}

#[test]
fn card_icon_tokens() {
    assert_eq!(icon_tokens(Some("1f1e9_1f1ea+1f697")), vec!["1f1e9_1f1ea", "1f697"]);
    assert_eq!(icon_tokens(Some(" a + +b+c")), vec![" a ", "b"]);
    assert!(icon_tokens(None).is_empty());
    assert!(icon_tokens(Some("  ")).is_empty());
}

#[test]
fn codepoints_are_sanitized() {
    assert_eq!(codepoint_token(" 1F35A "), Some("1f35a".to_string()));
    assert_eq!(codepoint_token("1f1e9_1f1ea"), Some("1f1e9_1f1ea".to_string()));
    assert_eq!(codepoint_token("../etc"), None);
    assert_eq!(codepoint_token(""), None);
    assert_eq!(codepoint_token("1f35a.svg"), None);
}
