//! Chapter URLs: the grammar `/manga/<slug>/chapter-<number>` that a
//! reading event's URL is searched for, and the title a slug stands for.

use vstd::prelude::*;
use crate::decimal::{decimal_digit, is_decimal_digit, law_ascii_digits};
use crate::text::{chars_of, push_char, string_of};

verus! {

/// The suffix that some sites append to every slug: `-all-chapters`.
pub open spec fn all_chapters_suffix() -> Seq<char> {
    seq!['-', 'a', 'l', 'l', '-', 'c', 'h', 'a', 'p', 't', 'e', 'r', 's']
}

/// `s` ends with the non-empty pattern `p`.
pub open spec fn ends_with(s: Seq<char>, p: Seq<char>) -> bool {
    p.len() > 0 && p.len() <= s.len() && s.subrange(s.len() - p.len(), s.len() as int) == p
}

/// `s` with every trailing occurrence of `p` removed, repeatedly.
pub open spec fn trim_end_all(s: Seq<char>, p: Seq<char>) -> Seq<char>
    decreases s.len(),
{
    if ends_with(s, p) {
        trim_end_all(s.subrange(0, s.len() - p.len()), p)
    } else {
        s
    }
}

/// `s` with every `-` turned into a space.
pub open spec fn dashes_to_spaces(s: Seq<char>) -> Seq<char> {
    s.map_values(|c: char| if c == '-' { ' ' } else { c })
}

/// The title that a slug stands for: trailing `-all-chapters` removed
/// (as often as it occurs), then each dash read as a space.
pub open spec fn slug_title(slug: Seq<char>) -> Seq<char> {
    dashes_to_spaces(trim_end_all(slug, all_chapters_suffix()))
}

/// Turns a URL slug into a human title: `"solo-leveling-all-chapters"`
/// becomes `"solo leveling"`.
pub fn slug_to_title(slug: &str) -> (title: String)
    ensures
        title@ == slug_title(slug@),
{
    let chars = chars_of(slug);
    let suffix: [char; 13] = ['-', 'a', 'l', 'l', '-', 'c', 'h', 'a', 'p', 't', 'e', 'r', 's'];
    assert(suffix@ == all_chapters_suffix());
    let ghost p = all_chapters_suffix();
    let mut end = chars.len();
    assert(chars@.subrange(0, end as int) =~= chars@);
    // strip the suffix for as long as the remaining prefix ends with it
    loop
        invariant
            end <= chars@.len(),
            suffix@ == p,
            p == all_chapters_suffix(),
            trim_end_all(chars@, p) == trim_end_all(chars@.subrange(0, end as int), p),
        ensures
            end <= chars@.len(),
            trim_end_all(chars@, p) == chars@.subrange(0, end as int),
        decreases end,
    {
        let ghost cur = chars@.subrange(0, end as int);
        if end < 13 {
            assert(!ends_with(cur, p));
            break;
        }
        let start = end - 13;
        let mut k: usize = 0;
        let mut same = true;
        while k < 13
            invariant
                start + 13 == end <= chars@.len(),
                k <= 13,
                suffix@ == p,
                same <==> (forall|t: int| 0 <= t < k ==> chars@[start + t] == p[t]),
            decreases 13 - k,
        {
            if chars[start + k] != suffix[k] {
                same = false;
            }
            k += 1;
        }
        if same {
            assert(cur.subrange(cur.len() - p.len(), cur.len() as int) =~= p);
            assert(cur.subrange(0, cur.len() - p.len()) =~= chars@.subrange(0, start as int));
            end = start;
        } else {
            assert(!ends_with(cur, p)) by {
                if ends_with(cur, p) {
                    let t = choose|t: int| 0 <= t < 13 && chars@[start + t] != p[t];
                    assert(cur.subrange(cur.len() - p.len(), cur.len() as int)[t] == p[t]);
                }
            }
            break;
        }
    }
    let mut title = String::new();
    let mut i: usize = 0;
    while i < end
        invariant
            end <= chars@.len(),
            i <= end,
            title@ == dashes_to_spaces(chars@.subrange(0, i as int)),
        decreases end - i,
    {
        let c = chars[i];
        if c == '-' {
            push_char(&mut title, ' ');
        } else {
            push_char(&mut title, c);
        }
        assert(chars@.subrange(0, i + 1) == chars@.subrange(0, i as int).push(c));
        i += 1;
    }
    title
}


/// A title read from a slug holds no dash, and reading it as a slug again
/// gives it back unchanged.
pub proof fn law_slug_title_idempotent(slug: Seq<char>)
    ensures
        forall|k: int| 0 <= k < slug_title(slug).len() ==> slug_title(slug)[k] != '-',
        slug_title(slug_title(slug)) == slug_title(slug),
        slug_title(slug).len() <= slug.len(),
{
    let t = slug_title(slug);
    lemma_trim_end_all_shorter(slug, all_chapters_suffix());
    if ends_with(t, all_chapters_suffix()) {
        assert(t.subrange(t.len() - 13, t.len() as int)[0] == '-');
        assert(t[t.len() - 13] == '-');
    }
    assert(dashes_to_spaces(t) =~= t);
}

/// A title keeps the slug's characters, each dash read as a space, up to
/// where the slug ends in one or more copies of `-all-chapters`: the rest of
/// the slug is such copies and nothing else, and what is kept does not end
/// in another copy.
#[verifier::spinoff_prover]
pub proof fn law_slug_title_keeps_characters(slug: Seq<char>)
    ensures
        ({
            let t = slug_title(slug);
            let m = t.len() as int;
            let sfx = seq!['-', 'a', 'l', 'l', '-', 'c', 'h', 'a', 'p', 't', 'e', 'r', 's'];
            &&& m <= slug.len()
            &&& forall|k: int|
                0 <= k < m ==> #[trigger] t[k] == if slug[k] == '-' {
                    ' '
                } else {
                    slug[k]
                }
            &&& (slug.len() - m) % 13 == 0
            &&& forall|j: int| m <= j < slug.len() ==> #[trigger] slug[j] == sfx[(j - m) % 13]
            &&& !(m >= 13 && slug.subrange(m - 13, m) == sfx)
        }),
{
    let p = all_chapters_suffix();
    let sfx = seq!['-', 'a', 'l', 'l', '-', 'c', 'h', 'a', 'p', 't', 'e', 'r', 's'];
    assert(p =~= sfx);
    lemma_trim_end_all_shape(slug, p);
    let r = trim_end_all(slug, p);
    let t = slug_title(slug);
    let m = r.len() as int;
    assert(t.len() == m);
    lemma_mod13(trim_count(slug, p) as int, 0);
    assert((slug.len() - m) % 13 == 0);
    assert forall|k: int| 0 <= k < m implies #[trigger] t[k] == if slug[k] == '-' {
        ' '
    } else {
        slug[k]
    } by {
        assert(r[k] == slug[k]);
    }
    if m >= 13 && slug.subrange(m - 13, m) == sfx {
        assert(r.subrange(m - 13, m) =~= slug.subrange(m - 13, m));
        assert(ends_with(r, p));
    }
}

/// How many copies of `p` `trim_end_all` removes from the end of `s`.
spec fn trim_count(s: Seq<char>, p: Seq<char>) -> nat
    decreases s.len(),
{
    if ends_with(s, p) {
        1 + trim_count(s.subrange(0, s.len() - p.len()), p)
    } else {
        0
    }
}

proof fn lemma_mod13(q: int, x: int)
    requires
        0 <= x < 13,
    ensures
        (13 * q + x) % 13 == x,
{
    vstd::arithmetic::div_mod::lemma_mod_multiples_vanish(q, x, 13);
    vstd::arithmetic::div_mod::lemma_small_mod(x as nat, 13);
}

#[verifier::spinoff_prover]
proof fn lemma_trim_end_all_shape(s: Seq<char>, p: Seq<char>)
    requires
        p.len() == 13,
    ensures
        ({
            let r = trim_end_all(s, p);
            &&& r.len() <= s.len()
            &&& r == s.subrange(0, r.len() as int)
            &&& s.len() - r.len() == 13 * trim_count(s, p)
            &&& forall|j: int| r.len() <= j < s.len() ==> #[trigger] s[j] == p[(j - r.len()) % 13]
            &&& !ends_with(r, p)
        }),
    decreases s.len(),
{
    if ends_with(s, p) {
        let s1 = s.subrange(0, s.len() - 13);
        lemma_trim_end_all_shape(s1, p);
        let r = trim_end_all(s, p);
        let q = trim_count(s1, p) as int;
        assert(r == trim_end_all(s1, p));
        assert(r =~= s.subrange(0, r.len() as int));
        assert forall|j: int| r.len() <= j < s.len() implies #[trigger] s[j] == p[(j - r.len())
            % 13] by {
            if j < s1.len() {
                assert(s[j] == s1[j]);
            } else {
                let x = j - s1.len();
                assert(s.subrange(s.len() - 13, s.len() as int)[x] == p[x]);
                assert(j - r.len() == 13 * q + x);
                lemma_mod13(q, x);
            }
        }
    } else {
        assert(s =~= s.subrange(0, s.len() as int));
    }
}

proof fn lemma_trim_end_all_shorter(s: Seq<char>, p: Seq<char>)
    ensures
        trim_end_all(s, p).len() <= s.len(),
    decreases s.len(),
{
    if ends_with(s, p) {
        lemma_trim_end_all_shorter(s.subrange(0, s.len() - p.len()), p);
    }
}

/// The marker in front of a slug: `/manga/`.
pub open spec fn manga_marker() -> Seq<char> {
    seq!['/', 'm', 'a', 'n', 'g', 'a', '/']
}

/// The marker between a slug and a chapter number: `/chapter-`.
pub open spec fn chapter_marker() -> Seq<char> {
    seq!['/', 'c', 'h', 'a', 'p', 't', 'e', 'r', '-']
}

/// `lit` occurs in `s` starting at index `i`.
pub open spec fn occurs_at(s: Seq<char>, i: int, lit: Seq<char>) -> bool {
    0 <= i && i + lit.len() <= s.len() && s.subrange(i, i + lit.len()) == lit
}

/// A character that may appear in a chapter number: a decimal digit or `.`.
pub open spec fn is_number_char(c: char) -> bool {
    c == '.' || is_decimal_digit(c)
}

/// The end of the longest run of characters other than `/` that starts at `j`.
pub open spec fn slug_end(s: Seq<char>, j: int) -> int
    decreases s.len() - j,
{
    if 0 <= j < s.len() && s[j] != '/' {
        slug_end(s, j + 1)
    } else {
        j
    }
}

/// The end of the longest run of chapter-number characters that starts at `j`.
pub open spec fn number_end(s: Seq<char>, j: int) -> int
    decreases s.len() - j,
{
    if 0 <= j < s.len() && is_number_char(s[j]) {
        number_end(s, j + 1)
    } else {
        j
    }
}

/// The grammar matches at index `i`: `/manga/`, a non-empty slug without `/`,
/// `/chapter-`, and a non-empty chapter number. The slug and the number are
/// the longest runs that fit there.
pub open spec fn url_match_at(s: Seq<char>, i: int) -> bool {
    let k = slug_end(s, i + 7);
    &&& occurs_at(s, i, manga_marker())
    &&& k > i + 7
    &&& occurs_at(s, k, chapter_marker())
    &&& number_end(s, k + 9) > k + 9
}

/// The slug of the match at `i`.
pub open spec fn slug_at(s: Seq<char>, i: int) -> Seq<char> {
    s.subrange(i + 7, slug_end(s, i + 7))
}

/// The chapter number of the match at `i`.
pub open spec fn number_at(s: Seq<char>, i: int) -> Seq<char> {
    let m = slug_end(s, i + 7) + 9;
    s.subrange(m, number_end(s, m))
}

/// `i` is the leftmost index at which the grammar matches.
pub open spec fn is_first_match(s: Seq<char>, i: int) -> bool {
    url_match_at(s, i) && forall|k: int| 0 <= k < i ==> !url_match_at(s, k)
}

/// The slug and chapter number of the leftmost match of the grammar in `url`,
/// or `None` where it matches nowhere.
pub open spec fn chapter_url_parts(url: Seq<char>) -> Option<(Seq<char>, Seq<char>)> {
    if exists|i: int| url_match_at(url, i) {
        let i = choose|i: int| is_first_match(url, i);
        Some((slug_at(url, i), number_at(url, i)))
    } else {
        None
    }
}

/// The leftmost match is unique, and where the grammar matches anywhere
/// there is one.
pub proof fn lemma_first_match(s: Seq<char>, i: int)
    requires
        url_match_at(s, i),
        forall|k: int| 0 <= k < i ==> !url_match_at(s, k),
    ensures
        chapter_url_parts(s) == Some((slug_at(s, i), number_at(s, i))),
{
    assert(is_first_match(s, i));
    let j = choose|j: int| is_first_match(s, j);
    if j < i {
        assert(!url_match_at(s, j));
    }
    if i < j {
        assert(!url_match_at(s, i));
    }
}

proof fn lemma_slug_end(s: Seq<char>, j: int)
    requires
        0 <= j <= s.len(),
    ensures
        j <= slug_end(s, j) <= s.len(),
        forall|t: int| j <= t < slug_end(s, j) ==> s[t] != '/',
        slug_end(s, j) < s.len() ==> s[slug_end(s, j)] == '/',
    decreases s.len() - j,
{
    if j < s.len() && s[j] != '/' {
        lemma_slug_end(s, j + 1);
    }
}

proof fn lemma_number_end(s: Seq<char>, j: int)
    requires
        0 <= j <= s.len(),
    ensures
        j <= number_end(s, j) <= s.len(),
        forall|t: int| j <= t < number_end(s, j) ==> is_number_char(s[t]),
        number_end(s, j) < s.len() ==> !is_number_char(s[number_end(s, j)]),
    decreases s.len() - j,
{
    if j < s.len() && is_number_char(s[j]) {
        lemma_number_end(s, j + 1);
    }
}

/// `url` holds `/manga/` + slug + `/chapter-` + number from index `i`, and
/// no digit or dot follows the number.
pub open spec fn holds_at(url: Seq<char>, i: int, slug: Seq<char>, number: Seq<char>) -> bool {
    let e = i + 16 + slug.len() + number.len();
    &&& 0 <= i
    &&& e <= url.len()
    &&& url.subrange(i, e) == seq!['/', 'm', 'a', 'n', 'g', 'a', '/'] + slug + seq![
        '/',
        'c',
        'h',
        'a',
        'p',
        't',
        'e',
        'r',
        '-',
    ] + number
    &&& (e == url.len() || !is_number_char(url[e]))
}

/// What the grammar finds is there: a non-empty slug without `/` and a
/// non-empty number of digits and dots, and the URL holds
/// `/manga/` + slug + `/chapter-` + number. The number is the whole run of
/// digits and dots that follows.
pub proof fn law_chapter_url_parts_sound(url: Seq<char>)
    requires
        chapter_url_parts(url) is Some,
    ensures
        ({
            let (slug, number) = chapter_url_parts(url)->0;
            &&& slug.len() > 0
            &&& forall|t: int| 0 <= t < slug.len() ==> slug[t] != '/'
            &&& number.len() > 0
            &&& forall|t: int| 0 <= t < number.len() ==> is_number_char(number[t])
            &&& exists|i: int| #[trigger] holds_at(url, i, slug, number)
        }),
{
    let w = choose|w: int| url_match_at(url, w);
    lemma_least_match(url, w);
    let i = choose|i: int| is_first_match(url, i);
    lemma_match_shape(url, i);
    assert(chapter_url_parts(url) == Some((slug_at(url, i), number_at(url, i))));
}

proof fn lemma_match_shape(url: Seq<char>, i: int)
    requires
        url_match_at(url, i),
    ensures
        slug_at(url, i).len() > 0,
        forall|t: int| 0 <= t < slug_at(url, i).len() ==> slug_at(url, i)[t] != '/',
        number_at(url, i).len() > 0,
        forall|t: int| 0 <= t < number_at(url, i).len() ==> is_number_char(number_at(url, i)[t]),
        holds_at(url, i, slug_at(url, i), number_at(url, i)),
{
    let k = slug_end(url, i + 7);
    lemma_slug_end(url, i + 7);
    lemma_number_end(url, k + 9);
    let e = number_end(url, k + 9);
    let slug = slug_at(url, i);
    let number = number_at(url, i);
    assert(url.subrange(i, e) =~= manga_marker() + slug + chapter_marker() + number) by {
        assert(url.subrange(i, i + 7) == manga_marker());
        assert(url.subrange(k, k + 9) == chapter_marker());
        assert forall|t: int| 0 <= t < e - i implies #[trigger] url.subrange(i, e)[t] == (
        manga_marker() + slug + chapter_marker() + number)[t] by {
            if t < 7 {
                assert(url.subrange(i, i + 7)[t] == url[i + t]);
            } else if t < k - i {
            } else if t < k - i + 9 {
                assert(url.subrange(k, k + 9)[t - (k - i)] == url[i + t]);
            }
        }
    }
    assert(e == i + 16 + slug.len() + number.len());
    assert forall|t: int| 0 <= t < slug.len() implies slug[t] != '/' by {
        assert(slug[t] == url[i + 7 + t]);
    }
    assert forall|t: int| 0 <= t < number.len() implies is_number_char(number[t]) by {
        assert(number[t] == url[k + 9 + t]);
    }
}

/// A URL made of a part without `/`, then `/manga/`, a non-empty slug
/// without `/`, `/chapter-`, a non-empty number of ASCII digits and dots, and
/// a rest that is empty or starts with `/`, `?` or `#`.
pub open spec fn plain_chapter_url(
    prefix: Seq<char>,
    slug: Seq<char>,
    number: Seq<char>,
    tail: Seq<char>,
) -> Seq<char> {
    prefix + seq!['/', 'm', 'a', 'n', 'g', 'a', '/'] + slug + seq![
        '/',
        'c',
        'h',
        'a',
        'p',
        't',
        'e',
        'r',
        '-',
    ] + number + tail
}

/// From a URL of that shape the grammar reads exactly its slug and its
/// chapter number, every digit of the number included.
#[verifier::spinoff_prover]
pub proof fn law_plain_chapter_url_parses(
    prefix: Seq<char>,
    slug: Seq<char>,
    number: Seq<char>,
    tail: Seq<char>,
)
    requires
        forall|k: int| 0 <= k < prefix.len() ==> prefix[k] != '/',
        slug.len() > 0,
        forall|k: int| 0 <= k < slug.len() ==> slug[k] != '/',
        number.len() > 0,
        forall|k: int|
            0 <= k < number.len() ==> number[k] == '.' || 0x30 <= (number[k] as u32) <= 0x39,
        tail.len() == 0 || tail[0] == '/' || tail[0] == '?' || tail[0] == '#',
    ensures
        chapter_url_parts(plain_chapter_url(prefix, slug, number, tail)) == Some((slug, number)),
{
    let url = plain_chapter_url(prefix, slug, number, tail);
    let i = prefix.len() as int;
    let j = i + 7;
    let e = j + slug.len();
    let m = e + 9;
    let f = m + number.len();
    assert(url.len() == f + tail.len());
    assert(url.subrange(i, j) =~= manga_marker());
    assert forall|t: int| 0 <= t < slug.len() implies url[j + t] == slug[t] by {}
    assert(url[e] == '/');
    assert(url.subrange(e, m) =~= chapter_marker());
    assert forall|t: int| 0 <= t < number.len() implies url[m + t] == number[t] by {}
    lemma_slug_end_value(url, j, e);
    assert forall|t: int| m <= t < f implies is_number_char(url[t]) by {
        assert(url[t] == number[t - m]);
        law_ascii_digits(number[t - m]);
    }
    if f < url.len() {
        assert(url[f] == tail[0]);
        law_ascii_digits(tail[0]);
    }
    lemma_number_end_value(url, m, f);
    assert(url_match_at(url, i));
    assert forall|k: int| 0 <= k < i implies !url_match_at(url, k) by {
        assert(url[k] == prefix[k]);
        if occurs_at(url, k, manga_marker()) {
            assert(url.subrange(k, k + 7)[0] == url[k]);
        }
    }
    lemma_first_match(url, i);
    assert(slug_at(url, i) =~= slug);
    assert(number_at(url, i) =~= number);
}

proof fn lemma_slug_end_value(s: Seq<char>, j: int, e: int)
    requires
        0 <= j <= e <= s.len(),
        forall|t: int| j <= t < e ==> s[t] != '/',
        e == s.len() || s[e] == '/',
    ensures
        slug_end(s, j) == e,
    decreases e - j,
{
    if j < e {
        lemma_slug_end_value(s, j + 1, e);
    }
}

proof fn lemma_number_end_value(s: Seq<char>, j: int, e: int)
    requires
        0 <= j <= e <= s.len(),
        forall|t: int| j <= t < e ==> is_number_char(s[t]),
        e == s.len() || !is_number_char(s[e]),
    ensures
        number_end(s, j) == e,
    decreases e - j,
{
    if j < e {
        lemma_number_end_value(s, j + 1, e);
    }
}

/// Where the grammar matches somewhere, it has a leftmost match.
proof fn lemma_least_match(url: Seq<char>, w: int)
    requires
        url_match_at(url, w),
    ensures
        exists|i: int| is_first_match(url, i),
    decreases w,
{
    if forall|k: int| 0 <= k < w ==> !url_match_at(url, k) {
        assert(is_first_match(url, w));
    } else {
        let k = choose|k: int| 0 <= k < w && url_match_at(url, k);
        lemma_least_match(url, k);
    }
}

fn occurs(cs: &Vec<char>, i: usize, lit: &[char]) -> (r: bool)
    ensures
        r == occurs_at(cs@, i as int, lit@),
        cs@.len() <= usize::MAX,
{
    if i > cs.len() || cs.len() - i < lit.len() {
        return false;
    }
    let mut t: usize = 0;
    while t < lit.len()
        invariant
            i + lit@.len() <= cs@.len() <= usize::MAX,
            t <= lit@.len(),
            forall|u: int| 0 <= u < t ==> cs@[i + u] == lit@[u],
        decreases lit@.len() - t,
    {
        if cs[i + t] != lit[t] {
            assert(cs@.subrange(i as int, i + lit@.len())[t as int] != lit@[t as int]);
            return false;
        }
        t += 1;
    }
    assert(cs@.subrange(i as int, i + lit@.len()) =~= lit@);
    true
}

fn scan_slug(cs: &Vec<char>, j: usize) -> (k: usize)
    requires
        j <= cs@.len(),
    ensures
        k as int == slug_end(cs@, j as int),
        j <= k <= cs@.len(),
{
    let mut k = j;
    while k < cs.len() && cs[k] != '/'
        invariant
            j <= k <= cs@.len(),
            slug_end(cs@, j as int) == slug_end(cs@, k as int),
        decreases cs@.len() - k,
    {
        k += 1;
    }
    k
}

fn scan_number(cs: &Vec<char>, j: usize) -> (k: usize)
    requires
        j <= cs@.len(),
    ensures
        k as int == number_end(cs@, j as int),
        j <= k <= cs@.len(),
{
    let mut k = j;
    while k < cs.len() && (cs[k] == '.' || decimal_digit(cs[k]))
        invariant
            j <= k <= cs@.len(),
            number_end(cs@, j as int) == number_end(cs@, k as int),
        decreases cs@.len() - k,
    {
        k += 1;
    }
    k
}

/// Where the grammar matches at `i`: the end of the slug and of the number.
fn match_at(cs: &Vec<char>, i: usize) -> (r: Option<(usize, usize)>)
    ensures
        r is Some <==> url_match_at(cs@, i as int),
        r matches Some((k, e)) ==> k == slug_end(cs@, i + 7) && e == number_end(cs@, k + 9)
            && k + 9 <= e <= cs@.len(),
{
    let manga: [char; 7] = ['/', 'm', 'a', 'n', 'g', 'a', '/'];
    let chapter: [char; 9] = ['/', 'c', 'h', 'a', 'p', 't', 'e', 'r', '-'];
    assert(manga@ == manga_marker());
    assert(chapter@ == chapter_marker());
    if !occurs(cs, i, manga.as_slice()) {
        return None;
    }
    let k = scan_slug(cs, i + 7);
    if k == i + 7 || !occurs(cs, k, chapter.as_slice()) {
        return None;
    }
    let e = scan_number(cs, k + 9);
    if e == k + 9 {
        return None;
    }
    Some((k, e))
}

/// Searches `url` for the leftmost `/manga/<slug>/chapter-<number>` and
/// returns the slug and the number; `None` where the URL has no such part.
pub fn parse_chapter_url(url: &str) -> (r: Option<(String, String)>)
    ensures
        match r {
            None => chapter_url_parts(url@) is None,
            Some((slug, number)) => chapter_url_parts(url@) == Some((slug@, number@)),
        },
{
    let cs = chars_of(url);
    let mut i: usize = 0;
    while i < cs.len()
        invariant
            cs@ == url@,
            i <= cs@.len(),
            forall|k: int| 0 <= k < i ==> !url_match_at(cs@, k),
        decreases cs@.len() - i,
    {
        if let Some((k, e)) = match_at(&cs, i) {
            proof {
                lemma_first_match(cs@, i as int);
            }
            let slug = string_of(&cs, i + 7, k);
            let number = string_of(&cs, k + 9, e);
            return Some((slug, number));
        }
        i += 1;
    }
    assert forall|k: int| !url_match_at(cs@, k) by {
        if 0 <= k < i {
        } else if k >= i {
            assert(!occurs_at(cs@, k, manga_marker()));
        }
    }
    None
}

} // verus!
