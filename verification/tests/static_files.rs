use manhua_live_tracker::decimal::decimal_digit;
use manhua_live_tracker::text::{chars_of, string_of};
use manhua_live_tracker::static_files::{parse_chapter_url, slug_to_title};

fn parts(url: &str) -> Option<(String, String)> {
    parse_chapter_url(url)
}

fn some(slug: &str, number: &str) -> Option<(String, String)> {
    Some((slug.to_string(), number.to_string()))
}

#[test]
fn slug_drops_all_chapters_suffix() {
    assert_eq!(slug_to_title("solo-leveling-all-chapters"), "solo leveling");
}

#[test]
fn slug_dashes_become_spaces() {
    assert_eq!(slug_to_title("the-beginning-after-the-end"), "the beginning after the end");
}

#[test]
fn slug_suffix_removed_repeatedly() {
    assert_eq!(slug_to_title("omniscient-reader-all-chapters-all-chapters"), "omniscient reader");
}

#[test]
fn slug_suffix_only_at_end() {
    assert_eq!(slug_to_title("all-chapters-hero"), "all chapters hero");
}

#[test]
fn slug_empty_and_bare_suffix() {
    assert_eq!(slug_to_title(""), "");
    assert_eq!(slug_to_title("-all-chapters"), "");
}

#[test]
fn slug_title_is_idempotent() {
    let once = slug_to_title("tower-of-god-all-chapters");
    assert_eq!(slug_to_title(&once), once);
    assert!(!once.contains('-'));
}

#[test]
fn url_basic_match() {
    assert_eq!(
        parts("https://asuracomic.net/manga/solo-leveling/chapter-12.5/"),
        some("solo-leveling", "12.5")
    );
}

#[test]
fn url_without_trailing_slash() {
    assert_eq!(parts("https://x.org/manga/one-piece/chapter-1100"), some("one-piece", "1100"));
}

#[test]
fn url_no_match() {
    assert_eq!(parts("https://example.com/read/one-piece/1100"), None);
    assert_eq!(parts(""), None);
    assert_eq!(parts("/manga//chapter-3"), None);
    assert_eq!(parts("/manga/a/chapter-"), None);
    assert_eq!(parts("/manga/a/chapter-x1"), None);
}

#[test]
fn url_slug_cannot_span_segments() {
    assert_eq!(parts("/manga/a/b/chapter-3"), None);
}

#[test]
fn url_leftmost_match_wins() {
    assert_eq!(parts("/manga/a/chapter-1/manga/b/chapter-2"), some("a", "1"));
}

#[test]
fn url_later_start_matches_when_first_fails() {
    assert_eq!(parts("/manga/x/y/manga/z/chapter-7"), some("z", "7"));
}

#[test]
fn url_number_is_longest_run_of_digits_and_dots() {
    assert_eq!(parts("/manga/a/chapter-10.5.2abc"), some("a", "10.5.2"));
    assert_eq!(parts("/manga/a/chapter-..?page=2"), some("a", ".."));
}

#[test]
fn url_unicode_decimal_digits() {
    assert_eq!(parts("/manga/a/chapter-\u{0661}\u{0662}"), some("a", "\u{0661}\u{0662}"));
    assert_eq!(parts("/manga/a/chapter-\u{00B2}"), None);
}

#[test]
fn url_slug_keeps_unicode() {
    assert_eq!(parts("/manga/caf\u{e9}-x/chapter-2"), some("caf\u{e9}-x", "2"));
}

#[test]
fn decimal_digits_are_unicode_nd() {
    assert!(decimal_digit('0') && decimal_digit('9'));
    assert!(decimal_digit('\u{0663}'));
    assert!(decimal_digit('\u{1D7CE}'));
    assert!(!decimal_digit('\u{00B2}'));
    assert!(!decimal_digit('a'));
    assert!(!decimal_digit('.'));
}

#[test]
fn chars_and_substrings() {
    let cs = chars_of("h\u{e9}llo");
    assert_eq!(cs.len(), 5);
    assert_eq!(string_of(&cs, 1, 3), "\u{e9}l");
    assert_eq!(string_of(&cs, 2, 2), "");
}
