use manhua_live_tracker::static_files::parse_chapter_url;
use regex::Regex;

const PATTERN: &str = r"/manga/(?P<slug>[^/]+)/chapter-(?P<chapter>[\d.]+)/?";

fn by_regex(re: &Regex, url: &str) -> Option<(String, String)> {
    re.captures(url)
        .map(|c| (c["slug"].to_string(), c["chapter"].to_string()))
}

#[test]
fn grammar_agrees_with_regex_on_examples() {
    let re = Regex::new(PATTERN).unwrap();
    let urls = [
        "https://asuracomic.net/manga/solo-leveling/chapter-12.5/",
        "https://x.org/manga/one-piece/chapter-1100",
        "/manga/a/chapter-1/manga/b/chapter-2",
        "/manga/x/y/manga/z/chapter-7",
        "/manga//chapter-3",
        "/manga/a/b/chapter-3",
        "/manga/a/chapter-\u{0661}\u{0662}",
        "/manga/a/chapter-\u{00B2}",
        "/manga/a\nb/chapter-4",
        "/manga/manga/chapter-/manga/q/chapter-9",
        "//manga/a/chapter-1",
        "/Manga/a/chapter-1",
        "",
    ];
    for url in urls {
        assert_eq!(parse_chapter_url(url), by_regex(&re, url), "url {url:?}");
    }
}

#[test]
fn grammar_agrees_with_regex_on_generated_urls() {
    let re = Regex::new(PATTERN).unwrap();
    let pieces = [
        "/manga/", "/chapter-", "/", "a", "-", "1", "2", ".", "x", "\u{0663}", "m", "chapter", "é",
    ];
    let mut seed: u64 = 0x2545_F491_4F6C_DD1D;
    for _ in 0..20000 {
        let mut url = String::new();
        seed ^= seed << 13;
        seed ^= seed >> 7;
        seed ^= seed << 17;
        let len = (seed % 9) as usize;
        let mut s = seed;
        for _ in 0..len {
            s = s.wrapping_mul(6364136223846793005).wrapping_add(1442695040888963407);
            url.push_str(pieces[((s >> 33) % pieces.len() as u64) as usize]);
        }
        assert_eq!(parse_chapter_url(&url), by_regex(&re, &url), "url {url:?}");
    }
}
