use site_stack::text::{
    append_range, chars_less, chars_of, contains, contains_chars, occurs_at_chars, same_text,
    split_chars, starts_with, starts_with_chars, text_less,
};

fn chars(s: &str) -> Vec<char> {
    s.chars().collect()
}

#[test]
fn chars_of_gives_the_characters_in_order() {
    assert_eq!(chars_of("abc"), vec!['a', 'b', 'c']);
    assert_eq!(chars_of("é✓𝄞"), vec!['é', '✓', '𝄞']);
    assert!(chars_of("").is_empty());
}

#[test]
fn contains_finds_a_needle_anywhere() {
    assert!(contains("/** @license React */", "@license React"));
    assert!(contains("@license React", "@license React"));
    assert!(contains("x@license React", "@license React"));
    assert!(contains("@license Reactx", "@license React"));
    assert!(!contains("@license Reac", "@license React"));
    assert!(!contains("@license  React", "@license React"));
    assert!(!contains("", "a"));
    assert!(contains("aab", "ab"));
    assert!(contains("ababac", "abac"));
    assert!(contains("日本語のテキスト", "のテ"));
}

#[test]
fn empty_needle_occurs_everywhere() {
    assert!(contains("abc", ""));
    assert!(contains("", ""));
    assert!(starts_with("abc", ""));
    assert!(starts_with("", ""));
    assert!(occurs_at_chars(&chars("abc"), &chars(""), 3));
    assert!(!occurs_at_chars(&chars("abc"), &chars(""), 4));
}

#[test]
fn starts_with_looks_at_the_beginning_only() {
    assert!(starts_with("/_next/static/chunk.js", "/_next/static"));
    assert!(starts_with("/_next/static", "/_next/static"));
    assert!(!starts_with("/_next/stati", "/_next/static"));
    assert!(!starts_with("x/_next/static", "/_next/static"));
    assert!(starts_with_chars(&chars("été"), &chars("ét")));
    assert!(!starts_with_chars(&chars("ete"), &chars("ét")));
}

#[test]
fn occurs_at_checks_one_position() {
    let hay = chars("abcabc");
    let needle = chars("bc");
    assert!(!occurs_at_chars(&hay, &needle, 0));
    assert!(occurs_at_chars(&hay, &needle, 1));
    assert!(occurs_at_chars(&hay, &needle, 4));
    assert!(!occurs_at_chars(&hay, &needle, 5));
    assert!(!occurs_at_chars(&hay, &needle, 6));
    assert!(!occurs_at_chars(&hay, &needle, usize::MAX));
    assert!(contains_chars(&hay, &needle));
    assert!(!contains_chars(&needle, &hay));
}

#[test]
fn same_text_compares_whole_texts() {
    assert!(same_text("generator", "generator"));
    assert!(!same_text("generator", "Generator"));
    assert!(!same_text("generator", "generators"));
    assert!(!same_text("generators", "generator"));
    assert!(same_text("", ""));
    assert!(!same_text("", "a"));
}

#[test]
fn split_gives_every_piece() {
    let pieces = |s: &str| -> Vec<String> {
        split_chars(&chars(s), '/').into_iter().map(|p| p.into_iter().collect()).collect()
    };
    assert_eq!(pieces("a/b/c"), vec!["a", "b", "c"]);
    assert_eq!(pieces(""), vec![""]);
    assert_eq!(pieces("/"), vec!["", ""]);
    assert_eq!(pieces("a//b/"), vec!["a", "", "b", ""]);
    assert_eq!(pieces("abc"), vec!["abc"]);
}

#[test]
fn append_range_copies_a_part() {
    let mut out = chars("x");
    append_range(&mut out, &chars("abcdef"), 2, 5);
    assert_eq!(out, chars("xcde"));
    append_range(&mut out, &chars("abcdef"), 3, 3);
    assert_eq!(out, chars("xcde"));
    append_range(&mut out, &chars("ab"), 0, 2);
    assert_eq!(out, chars("xcdeab"));
}

#[test]
fn text_order_goes_by_the_first_difference() {
    assert!(text_less("", "a"));
    assert!(!text_less("", ""));
    assert!(!text_less("a", ""));
    assert!(text_less("a", "b"));
    assert!(!text_less("b", "a"));
    assert!(text_less("a", "ab"));
    assert!(!text_less("ab", "a"));
    assert!(text_less("ab", "b"));
    assert!(text_less("Z", "a"));
    assert!(text_less("z", "é"));
    assert!(text_less("é", "𝄞"));
    assert!(!text_less("React", "React"));
    assert!(chars_less(&chars("Next.js"), &chars("Nuxt.js")));
    assert!(!chars_less(&chars("Nuxt.js"), &chars("Next.js")));
}

#[test]
fn text_order_is_the_order_of_string_slices() {
    let texts = ["", "a", "A", "ab", "b", "é", "e\u{301}", "\u{d7ff}", "\u{e000}", "\u{10ffff}", "~", " "];
    for a in texts {
        for b in texts {
            assert_eq!(text_less(a, b), a < b);
        }
    }
}
