use manhua_live_tracker::similarity::{
    best_candidate, match_known_source, match_series_title, similarity, MATCH_THRESHOLD_BITS,
};
use manhua_live_tracker::types::{SeriesSource, SeriesTitle};

fn source(id: i64, series_id: i64, title: Option<&str>) -> SeriesSource {
    SeriesSource {
        id,
        series_id,
        domain: "site.com".to_string(),
        site_title: title.map(|t| t.to_string()),
        url_pattern: None,
    }
}

#[test]
fn threshold_is_85_hundredths() {
    assert_eq!(f64::from_bits(MATCH_THRESHOLD_BITS), 0.85);
}

#[test]
fn similarity_ignores_case() {
    assert_eq!(similarity("Solo Leveling", "solo leveling"), 1.0f64.to_bits());
}

#[test]
fn similarity_known_value() {
    let s = f64::from_bits(similarity("cheeseburger", "cheese fries"));
    assert!((s - 0.866).abs() < 0.001);
}

#[test]
fn similarity_empty_strings() {
    assert_eq!(similarity("", ""), 1.0f64.to_bits());
    assert_eq!(similarity("", "x"), 0);
}

#[test]
fn similarity_bits_order_like_values() {
    let a = similarity("tower of god", "tower of gods");
    let b = similarity("tower of god", "solo leveling");
    assert!(f64::from_bits(a) > f64::from_bits(b));
    assert!(a > b);
}

#[test]
fn best_candidate_none_below_threshold() {
    let low = 0.5f64.to_bits();
    assert_eq!(best_candidate(&vec![low, low]), None);
    assert_eq!(best_candidate(&vec![]), None);
}

#[test]
fn best_candidate_picks_highest() {
    let v = vec![0.9f64.to_bits(), 0.95f64.to_bits(), 0.86f64.to_bits()];
    assert_eq!(best_candidate(&v), Some(1));
}

#[test]
fn best_candidate_last_of_equal_best() {
    let v = vec![0.9f64.to_bits(), 0.95f64.to_bits(), 0.95f64.to_bits(), 0.1f64.to_bits()];
    assert_eq!(best_candidate(&v), Some(2));
}

#[test]
fn best_candidate_threshold_is_inclusive() {
    assert_eq!(best_candidate(&vec![0.85f64.to_bits()]), Some(0));
    assert_eq!(best_candidate(&vec![0.8499999f64.to_bits()]), None);
}

#[test]
fn known_source_match() {
    let sources = vec![
        source(1, 10, Some("Tower of God")),
        source(2, 20, None),
        source(3, 30, Some("Solo Leveling")),
    ];
    assert_eq!(match_known_source(&sources, "solo leveling"), Some(2));
    assert_eq!(match_known_source(&sources, "one piece"), None);
}

#[test]
fn source_without_title_never_matches_a_title() {
    let sources = vec![source(2, 20, None)];
    assert_eq!(match_known_source(&sources, "a"), None);
}

#[test]
fn series_title_match() {
    let series = vec![
        SeriesTitle { id: 5, canonical_title: "Omniscient Reader".to_string() },
        SeriesTitle { id: 6, canonical_title: "Omniscient Readers".to_string() },
    ];
    assert_eq!(match_series_title(&series, "omniscient reader"), Some(0));
    assert_eq!(match_series_title(&series, "berserk"), None);
}
