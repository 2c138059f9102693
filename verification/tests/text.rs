use wire::text::{
    begins_with, blank, comes_before, dedup, glue2, glue5, holds, join, listed, longer_than, number,
    replace, same, same_ignoring_case, signed_number, split_once, split_runs, strip_prefix, trim,
    trim_trailing, truncate_chars, Class,
};
use wire::utf8::{fit, guess, read};

fn owned(parts: &[&str]) -> Vec<String> {
    parts.iter().map(|part| part.to_string()).collect()
}

#[test]
fn trims_all_unicode_white_space() {
    assert_eq!(trim("\u{3000} \t a b\u{85}\n"), "a b");
    assert_eq!(trim(" \u{a0}\u{2028}"), "");
    assert!(blank(" \t\u{205f}"));
    assert!(!blank("\u{200b}"));
}

#[test]
fn clips_by_characters() {
    assert_eq!(truncate_chars("äöü", 2), "äö");
    assert_eq!(truncate_chars("äöü", 3), "äöü");
    assert_eq!(truncate_chars("äöü", 0), "");
    assert!(longer_than("äöü", 2));
    assert!(!longer_than("äöü", 3));
}

#[test]
fn splits_into_runs() {
    assert_eq!(split_runs("  a  bc\nd ", Class::Visible), owned(&["a", "bc", "d"]));
    assert_eq!(split_runs("--A1_b--", Class::Alphanumeric), owned(&["A1", "b"]));
    assert_eq!(split_runs("", Class::Visible), Vec::<String>::new());
}

#[test]
fn joins_and_dedups() {
    assert_eq!(join(&owned(&["a", "b", "c"]), ", "), "a, b, c");
    assert_eq!(join(&owned(&[]), ", "), "");
    assert_eq!(dedup(owned(&["a", "a", "b", "a"])), owned(&["a", "b", "a"]));
    assert!(listed(&owned(&["a", "b"]), "b"));
    assert!(!listed(&owned(&["a", "b"]), "c"));
}

#[test]
fn writes_numbers() {
    assert_eq!(number(0), "0");
    assert_eq!(number(u64::MAX), "18446744073709551615");
    assert_eq!(signed_number(-120), "-120");
    assert_eq!(signed_number(i64::MIN), "-9223372036854775808");
}

#[test]
fn compares_texts() {
    assert!(same("a", "a"));
    assert!(!same("a", "b"));
    assert!(same_ignoring_case("Off-Topic", "off-topic"));
    assert!(!same_ignoring_case("É", "é"));
    assert!(comes_before("a", "ab"));
    assert!(comes_before("Z", "a"));
    assert!(!comes_before("a", "a"));
}

#[test]
fn takes_texts_apart() {
    assert_eq!(split_once("a:b:c", ':'), Some(("a".to_string(), "b:c".to_string())));
    assert_eq!(split_once("abc", ':'), None);
    assert_eq!(strip_prefix("Codex session x", "Codex session "), Some("x".to_string()));
    assert_eq!(strip_prefix("Codex", "Codex session "), None);
    assert!(begins_with("abc", "ab"));
    assert!(holds("a\nb", '\n'));
    assert_eq!(trim_trailing("/a//", '/'), "/a");
    assert_eq!(replace("a\nb\n", '\n', "\n  "), "a\n  b\n  ");
}

#[test]
fn puts_texts_together() {
    assert_eq!(glue2("a", "b"), "ab");
    assert_eq!(glue5("a", "b", "c", "d", "e"), "abcde");
}

#[test]
fn cuts_by_bytes_at_characters() {
    assert_eq!(fit("aäa", 2), "a");
    assert_eq!(fit("aäa", 3), "aä");
    assert_eq!(fit("aäa", 4), "aäa");
    assert_eq!(fit("😀x", 3), "");
    assert_eq!(fit("", 0), "");
}

#[test]
fn reads_bytes_as_text() {
    assert_eq!(read(vec![0xc3, 0xa4]), Ok("ä".to_string()));
    let complaint = read(vec![0x61, 0xff]).unwrap_err();
    assert_eq!(complaint, "invalid utf-8 sequence of 1 bytes from index 1");
    assert_eq!(guess(&vec![0x61, 0xff]), "a\u{fffd}");
    assert_eq!(guess(&vec![0xc3, 0xa4]), "ä");
}
