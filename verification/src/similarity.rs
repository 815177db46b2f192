//! Fuzzy title matching: Jaro-Winkler similarity of lowercased titles, and
//! the choice of the best candidate above the match threshold.
//!
//! A similarity is carried as the IEEE-754 bit pattern of the double that
//! `strsim::jaro_winkler` returns. That double lies between 0 and 1 (so it
//! is never negative and never NaN), and for such doubles the order of the bit patterns, read as
//! unsigned integers, is the order of the values; so every comparison of
//! scores below is the comparison of the doubles they stand for.

use vstd::prelude::*;
use crate::types::{SeriesSource, SeriesSourceView, SeriesTitle, SeriesTitleView};

verus! {

/// Bit pattern of the match threshold, the double nearest to 85/100.
pub const MATCH_THRESHOLD_BITS: u64 = 0x3FEB_3333_3333_3333;

/// Bit pattern of 1.
pub const ONE_BITS: u64 = 0x3FF0_0000_0000_0000;

/// What `str::to_lowercase` returns for a string with these characters.
pub uninterp spec fn lowercase(s: Seq<char>) -> Seq<char>;

/// `str::to_lowercase` from std: the lowercase form of `s` by Unicode's
/// mapping. The contract claims only that the result is a function of the
/// characters of `s`.
#[verifier::external_body]
fn to_lowercase(s: &str) -> (r: String)
    ensures
        r@ == lowercase(s@),
{
    s.to_lowercase()
}

/// Bit pattern of what `strsim::jaro_winkler` returns for these two strings.
pub uninterp spec fn jaro_winkler_bits(a: Seq<char>, b: Seq<char>) -> u64;

/// `strsim::jaro_winkler` (strsim 0.11): the Jaro-Winkler similarity of `a`
/// and `b`, handed back as its bit pattern. The contract claims that the
/// result is a function of the two strings, that it lies between 0 and 1,
/// that identical strings (the empty string among them) score exactly 1 and
/// that an empty string against a non-empty one scores 0, as the crate's
/// source shows.
#[verifier::external_body]
fn jaro_winkler(a: &str, b: &str) -> (r: u64)
    ensures
        r == jaro_winkler_bits(a@, b@),
        r <= ONE_BITS,
        a@ == b@ ==> r == ONE_BITS,
        (a@.len() == 0) != (b@.len() == 0) ==> r == 0,
{
    strsim::jaro_winkler(a, b).to_bits()
}

/// Similarity of two titles, compared without regard to case: titles that
/// lowercase to the same text score exactly 1, other pairs what strsim's
/// Jaro-Winkler gives for their lowercase forms.
pub open spec fn title_similarity(a: Seq<char>, b: Seq<char>) -> u64 {
    if lowercase(a) == lowercase(b) {
        ONE_BITS
    } else {
        jaro_winkler_bits(lowercase(a), lowercase(b))
    }
}

/// Scores `a` against `b` as `title_similarity` says.
pub fn similarity(a: &str, b: &str) -> (r: u64)
    ensures
        r == title_similarity(a@, b@),
        r <= ONE_BITS,
{
    let la = to_lowercase(a);
    let lb = to_lowercase(b);
    jaro_winkler(la.as_str(), lb.as_str())
}

/// Letter case never changes a score: titles with the same lowercase forms
/// score the same against titles with the same lowercase forms.
pub proof fn law_similarity_ignores_case(a: Seq<char>, a2: Seq<char>, b: Seq<char>, b2: Seq<char>)
    requires
        lowercase(a) == lowercase(a2),
        lowercase(b) == lowercase(b2),
    ensures
        title_similarity(a, b) == title_similarity(a2, b2),
{
}

/// A score is strsim's Jaro-Winkler of the two lowercase forms, and exactly
/// 1 where those forms are the same text.
pub proof fn law_similarity_of_lowercase_forms(a: Seq<char>, b: Seq<char>)
    ensures
        lowercase(a) == lowercase(b) ==> title_similarity(a, b) == ONE_BITS,
        lowercase(a) != lowercase(b) ==> title_similarity(a, b) == jaro_winkler_bits(
            lowercase(a),
            lowercase(b),
        ),
{
}

/// `i` is the candidate chosen among `scores`: it reaches the threshold,
/// no candidate scores higher, and none after it scores as high.
pub open spec fn is_best(scores: Seq<u64>, i: int) -> bool {
    &&& 0 <= i < scores.len()
    &&& scores[i] >= MATCH_THRESHOLD_BITS
    &&& forall|j: int| 0 <= j < scores.len() ==> scores[j] <= scores[i]
    &&& forall|j: int| i < j < scores.len() ==> scores[j] < scores[i]
}

/// The index of the best-scoring candidate that reaches the threshold (the
/// last one among equal best scores), or `None` where none reaches it.
pub open spec fn best_index(scores: Seq<u64>) -> Option<int> {
    if exists|i: int| is_best(scores, i) {
        Some(choose|i: int| is_best(scores, i))
    } else {
        None
    }
}

/// At most one index is the best one.
pub proof fn lemma_best_unique(scores: Seq<u64>, i: int, j: int)
    requires
        is_best(scores, i),
        is_best(scores, j),
    ensures
        i == j,
{
    if i < j {
        assert(scores[j] < scores[i]);
        assert(scores[i] <= scores[j]);
    } else if j < i {
        assert(scores[i] < scores[j]);
        assert(scores[j] <= scores[i]);
    }
}

/// Where no index is the best one, no score reaches the threshold.
pub proof fn lemma_no_best(scores: Seq<u64>)
    requires
        best_index(scores) is None,
    ensures
        forall|j: int| 0 <= j < scores.len() ==> scores[j] < MATCH_THRESHOLD_BITS,
{
    if exists|j: int| 0 <= j < scores.len() && scores[j] >= MATCH_THRESHOLD_BITS {
        // the last index with the highest score would be the best one
        let j = choose|j: int| 0 <= j < scores.len() && scores[j] >= MATCH_THRESHOLD_BITS;
        lemma_max_index(scores);
        let m = max_index(scores);
        assert(scores[j] <= scores[m]);
        assert(is_best(scores, m));
    }
}

/// The best index, where there is one, is the only index that reaches the
/// threshold with a score no other candidate beats and no later candidate
/// equals; where there is none, no candidate reaches the threshold.
pub proof fn law_best_index(scores: Seq<u64>)
    ensures
        match best_index(scores) {
            Some(i) => {
                &&& 0 <= i < scores.len()
                &&& scores[i] >= MATCH_THRESHOLD_BITS
                &&& forall|j: int| 0 <= j < scores.len() ==> scores[j] <= scores[i]
                &&& forall|j: int| i < j < scores.len() ==> scores[j] < scores[i]
            },
            None => forall|j: int| 0 <= j < scores.len() ==> scores[j] < MATCH_THRESHOLD_BITS,
        },
        forall|i: int| is_best(scores, i) ==> best_index(scores) == Some(i),
{
    if best_index(scores) is None {
        lemma_no_best(scores);
    }
    assert forall|i: int| is_best(scores, i) implies best_index(scores) == Some(i) by {
        let c = choose|c: int| is_best(scores, c);
        lemma_best_unique(scores, i, c);
    }
}

/// The last index of a highest score in a non-empty sequence.
spec fn max_index(scores: Seq<u64>) -> int
    decreases scores.len(),
{
    if scores.len() <= 1 {
        0
    } else {
        let m = max_index(scores.drop_last());
        if scores.last() >= scores[m] {
            scores.len() - 1
        } else {
            m
        }
    }
}

proof fn lemma_max_index(scores: Seq<u64>)
    requires
        scores.len() > 0,
    ensures
        0 <= max_index(scores) < scores.len(),
        forall|j: int| 0 <= j < scores.len() ==> #[trigger] scores[j] <= scores[max_index(scores)],
        forall|j: int| max_index(scores) < j < scores.len() ==> #[trigger] scores[j] < scores[max_index(scores)],
    decreases scores.len(),
{
    if scores.len() > 1 {
        let init = scores.drop_last();
        lemma_max_index(init);
        let m = max_index(init);
        let r = max_index(scores);
        assert(init[m] == scores[m]);
        assert forall|j: int| 0 <= j < scores.len() implies #[trigger] scores[j] <= scores[r] by {
            if j < scores.len() - 1 {
                assert(init[j] == scores[j]);
            }
        }
        assert forall|j: int| r < j < scores.len() implies #[trigger] scores[j] < scores[r] by {
            if j < scores.len() - 1 {
                assert(init[j] == scores[j]);
            }
        }
    }
}

/// Picks the best candidate among `scores`, as `best_index` says.
pub fn best_candidate(scores: &Vec<u64>) -> (r: Option<usize>)
    ensures
        match r {
            Some(i) => best_index(scores@) == Some(i as int),
            None => best_index(scores@) is None,
        },
{
    let mut best: Option<usize> = None;
    let mut i: usize = 0;
    while i < scores.len()
        invariant
            i <= scores@.len(),
            match best {
                Some(b) => is_best(scores@.take(i as int), b as int),
                None => forall|j: int| 0 <= j < i ==> scores@[j] < MATCH_THRESHOLD_BITS,
            },
        decreases scores@.len() - i,
    {
        let s = scores[i];
        if s >= MATCH_THRESHOLD_BITS {
            match best {
                Some(b) => {
                    if s >= scores[b] {
                        best = Some(i);
                    }
                }
                None => {
                    best = Some(i);
                }
            }
        }
        i += 1;
    }
    assert(scores@.take(i as int) =~= scores@);
    match best {
        Some(b) => {
            proof {
                assert(is_best(scores@, b as int));
                let c = choose|c: int| is_best(scores@, c);
                lemma_best_unique(scores@, b as int, c);
            }
        }
        None => {}
    }
    best
}


/// The title a source was seen under, or the empty title where it has none.
pub open spec fn site_title_or_empty(s: SeriesSourceView) -> Seq<char> {
    match s.site_title {
        Some(t) => t,
        None => Seq::empty(),
    }
}

/// How well each known source's title matches `title`.
pub open spec fn source_scores(sources: Seq<SeriesSourceView>, title: Seq<char>) -> Seq<u64> {
    sources.map_values(|s: SeriesSourceView| title_similarity(site_title_or_empty(s), title))
}

/// How well each series' canonical title matches `title`.
pub open spec fn series_scores(series: Seq<SeriesTitleView>, title: Seq<char>) -> Seq<u64> {
    series.map_values(|s: SeriesTitleView| title_similarity(s.canonical_title, title))
}

/// Each known source is scored by the similarity of its site title (the
/// empty title where it has none) to the title, and each series by the
/// similarity of its canonical title.
pub proof fn law_scores_are_title_similarities(
    sources: Seq<SeriesSourceView>,
    series: Seq<SeriesTitleView>,
    title: Seq<char>,
)
    ensures
        source_scores(sources, title).len() == sources.len(),
        forall|k: int|
            0 <= k < sources.len() ==> #[trigger] source_scores(sources, title)[k]
                == title_similarity(
                match sources[k].site_title {
                    Some(t) => t,
                    None => Seq::<char>::empty(),
                },
                title,
            ),
        series_scores(series, title).len() == series.len(),
        forall|k: int|
            0 <= k < series.len() ==> #[trigger] series_scores(series, title)[k]
                == title_similarity(series[k].canonical_title, title),
{
}

/// A series whose canonical title reads the same as the title once both are
/// lowercased, or whose lowercase form scores at least the threshold against
/// the title's, is never passed over: some series is then chosen.
pub proof fn law_matching_series_is_found(series: Seq<SeriesTitleView>, title: Seq<char>, k: int)
    requires
        0 <= k < series.len(),
        lowercase(series[k].canonical_title) == lowercase(title) || jaro_winkler_bits(
            lowercase(series[k].canonical_title),
            lowercase(title),
        ) >= MATCH_THRESHOLD_BITS,
    ensures
        best_index(series_scores(series, title)) is Some,
{
    let scores = series_scores(series, title);
    assert(scores[k] >= MATCH_THRESHOLD_BITS);
    law_best_index(scores);
}

/// Likewise a known source whose site title reads the same as the title once
/// both are lowercased, or scores at least the threshold on the lowercase
/// forms, is never passed over.
pub proof fn law_matching_source_is_found(sources: Seq<SeriesSourceView>, title: Seq<char>, k: int)
    requires
        0 <= k < sources.len(),
        sources[k].site_title matches Some(t) && (lowercase(t) == lowercase(title)
            || jaro_winkler_bits(lowercase(t), lowercase(title)) >= MATCH_THRESHOLD_BITS),
    ensures
        best_index(source_scores(sources, title)) is Some,
{
    let scores = source_scores(sources, title);
    assert(scores[k] >= MATCH_THRESHOLD_BITS);
    law_best_index(scores);
}

/// The views of a vector of sources.
pub open spec fn sources_view(v: Seq<SeriesSource>) -> Seq<SeriesSourceView> {
    v.map_values(|s: SeriesSource| s@)
}

/// The views of a vector of series titles.
pub open spec fn series_view(v: Seq<SeriesTitle>) -> Seq<SeriesTitleView> {
    v.map_values(|s: SeriesTitle| s@)
}

/// Among the sources already known for a domain, the one whose site title
/// best matches `title`, as `best_index` chooses over `source_scores`.
pub fn match_known_source(sources: &Vec<SeriesSource>, title: &str) -> (r: Option<usize>)
    ensures
        match r {
            Some(i) => best_index(source_scores(sources_view(sources@), title@)) == Some(i as int),
            None => best_index(source_scores(sources_view(sources@), title@)) is None,
        },
{
    let mut scores: Vec<u64> = Vec::new();
    let mut i: usize = 0;
    while i < sources.len()
        invariant
            i <= sources@.len(),
            scores@ == source_scores(sources_view(sources@), title@).take(i as int),
        decreases sources@.len() - i,
    {
        let s = &sources[i];
        let score = match &s.site_title {
            Some(t) => similarity(t.as_str(), title),
            None => {
                let empty = "";
                proof {
                    reveal_strlit("");
                    assert(empty@ =~= Seq::<char>::empty());
                }
                similarity(empty, title)
            },
        };
        assert(sources_view(sources@)[i as int] == sources@[i as int]@);
        assert(score == source_scores(sources_view(sources@), title@)[i as int]);
        scores.push(score);
        assert(scores@ =~= source_scores(sources_view(sources@), title@).take(i + 1));
        i += 1;
    }
    assert(scores@ =~= source_scores(sources_view(sources@), title@));
    best_candidate(&scores)
}

/// Among all series, the one whose canonical title best matches `title`, as
/// `best_index` chooses over `series_scores`.
pub fn match_series_title(series: &Vec<SeriesTitle>, title: &str) -> (r: Option<usize>)
    ensures
        match r {
            Some(i) => best_index(series_scores(series_view(series@), title@)) == Some(i as int),
            None => best_index(series_scores(series_view(series@), title@)) is None,
        },
{
    let mut scores: Vec<u64> = Vec::new();
    let mut i: usize = 0;
    while i < series.len()
        invariant
            i <= series@.len(),
            scores@ == series_scores(series_view(series@), title@).take(i as int),
        decreases series@.len() - i,
    {
        let score = similarity(series[i].canonical_title.as_str(), title);
        scores.push(score);
        assert(scores@ =~= series_scores(series_view(series@), title@).take(i + 1));
        i += 1;
    }
    assert(scores@ =~= series_scores(series_view(series@), title@));
    best_candidate(&scores)
}

} // verus!
