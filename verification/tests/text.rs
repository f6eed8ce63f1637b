use liftcalc::markup::esc;
use liftcalc::text::{decimal_string, str_eq, trim};
use liftcalc::tokens::{join_with_plus, split_where};

#[test]
fn escaping() {
    assert_eq!(esc(r#"<a href="x">Tom & Jerry</a>"#), "&lt;a href=&quot;x&quot;&gt;Tom &amp; Jerry&lt;/a&gt;");
    assert_eq!(esc("plain text"), "plain text");
    assert_eq!(esc("&amp;"), "&amp;amp;");
    assert_eq!(esc(""), "");
}

#[test]
fn trimming_follows_unicode_white_space() {
    assert_eq!(trim("  a b \t\n"), "a b");
    assert_eq!(trim("\u{3000}x\u{a0}"), "x");
    assert_eq!(trim("   "), "");
    for s in [" x ", "\u{2028}y\u{85}", "z", "", "\u{200b}w"] {
        assert_eq!(trim(s), s.trim());
    }
}

#[test]
fn decimals() {
    assert_eq!(decimal_string(0), "0");
    assert_eq!(decimal_string(640), "640");
    assert_eq!(decimal_string(u64::MAX), u64::MAX.to_string());
}

#[test]
fn splitting_and_joining() {
    let parts = split_where("a+b++c", &vec!['+']);
    assert_eq!(parts, vec!["a", "b", "", "c"]);
    assert_eq!(split_where("", &vec!['+']), vec![""]);
    assert_eq!(split_where("a_b+c", &vec!['+', '_']), vec!["a", "b", "c"]);
    assert_eq!(join_with_plus(&vec!["x".to_string(), "y".to_string()]), "x+y");
    assert!(str_eq("abc", "abc"));
    assert!(!str_eq("abc", "abd"));
}
