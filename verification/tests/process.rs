use manhua_live_tracker::process::{ResolveAction, ResolveInput, ResolveOutcome, ResolveState};
use manhua_live_tracker::types::{NewSeriesSource, ReadingEvent, SeriesSource, SeriesTitle};

fn event(url: &str) -> ReadingEvent {
    ReadingEvent {
        id: 7,
        source: "phone-1".to_string(),
        domain: "asuracomic.net".to_string(),
        raw_url: url.to_string(),
        detected_at: Some(1_700_000_000),
        synced: Some(0),
        series_id: None,
    }
}

/// Runs the resolver on the given inputs and collects every action.
fn drive(event_id: i64, inputs: Vec<ResolveInput>) -> Vec<String> {
    let (mut state, first) = ResolveState::start(event_id);
    let mut actions = vec![format!("{:?}", first)];
    for input in inputs {
        assert!(state.accepts(&input));
        let (next, action) = state.step(input);
        actions.push(format!("{:?}", action));
        state = next;
    }
    actions
}

fn step(state: ResolveState, input: ResolveInput) -> (ResolveState, ResolveAction) {
    assert!(state.accepts(&input));
    state.step(input)
}

#[test]
fn unmatched_url_finishes_without_writes() {
    let (s, a) = ResolveState::start(7);
    assert!(matches!(a, ResolveAction::LoadEvent { event_id: 7 }));
    let (s, a) = step(s, ResolveInput::EventLoaded(event("https://asuracomic.net/home")));
    assert!(matches!(s, ResolveState::Done));
    assert!(matches!(
        a,
        ResolveAction::Finish { outcome: ResolveOutcome::UnmatchedUrl { event_id: 7 } }
    ));
}

#[test]
fn known_source_links_without_creating() {
    let (s, _) = ResolveState::start(7);
    let (s, a) = step(
        s,
        ResolveInput::EventLoaded(event("https://asuracomic.net/manga/solo-leveling-all-chapters/chapter-3")),
    );
    match a {
        ResolveAction::LoadSourcesByDomain { domain } => assert_eq!(domain, "asuracomic.net"),
        other => panic!("unexpected {:?}", other),
    }
    let sources = vec![SeriesSource {
        id: 1,
        series_id: 42,
        domain: "asuracomic.net".to_string(),
        site_title: Some("Solo Leveling".to_string()),
        url_pattern: None,
    }];
    let (s, a) = step(s, ResolveInput::SourcesLoaded(sources));
    assert!(matches!(a, ResolveAction::LinkEvent { event_id: 7, series_id: 42 }));
    let (s, a) = step(s, ResolveInput::EventLinked);
    match a {
        ResolveAction::UpdateChapter { series_id, chapter } => {
            assert_eq!(series_id, 42);
            assert_eq!(chapter, "3");
        }
        other => panic!("unexpected {:?}", other),
    }
    let (s, a) = step(s, ResolveInput::ChapterUpdated(true));
    assert!(matches!(s, ResolveState::Done));
    assert!(matches!(
        a,
        ResolveAction::Finish { outcome: ResolveOutcome::Resolved { event_id: 7, series_id: 42 } }
    ));
}

#[test]
fn known_series_gets_new_source() {
    let (s, _) = ResolveState::start(9);
    let (s, _) = step(s, ResolveInput::EventLoaded(event("/manga/tower-of-god/chapter-600")));
    let (s, a) = step(s, ResolveInput::SourcesLoaded(vec![]));
    assert!(matches!(a, ResolveAction::LoadAllSeries));
    let series = vec![
        SeriesTitle { id: 3, canonical_title: "Berserk".to_string() },
        SeriesTitle { id: 4, canonical_title: "Tower of God".to_string() },
    ];
    let (s, a) = step(s, ResolveInput::SeriesListed(series));
    match a {
        ResolveAction::CreateSeriesSource { source } => assert_eq!(
            source,
            NewSeriesSource {
                series_id: 4,
                domain: "asuracomic.net".to_string(),
                site_title: Some("tower of god".to_string()),
                url_pattern: None,
            }
        ),
        other => panic!("unexpected {:?}", other),
    }
    let (s, a) = step(s, ResolveInput::SourceCreated(11));
    assert!(matches!(a, ResolveAction::LinkEvent { event_id: 9, series_id: 4 }));
    let (s, a) = step(s, ResolveInput::EventLinked);
    assert!(matches!(a, ResolveAction::UpdateChapter { series_id: 4, .. }));
    let (_, a) = step(s, ResolveInput::ChapterUpdated(false));
    assert!(matches!(
        a,
        ResolveAction::Finish { outcome: ResolveOutcome::Resolved { event_id: 9, series_id: 4 } }
    ));
}

#[test]
fn new_series_is_created_under_slug_title() {
    let (s, _) = ResolveState::start(1);
    let (s, _) = step(s, ResolveInput::EventLoaded(event("/manga/blue-lock/chapter-250.5")));
    let (s, _) = step(s, ResolveInput::SourcesLoaded(vec![]));
    let series = vec![SeriesTitle { id: 3, canonical_title: "Berserk".to_string() }];
    let (s, a) = step(s, ResolveInput::SeriesListed(series));
    match a {
        ResolveAction::CreateSeries { title } => assert_eq!(title, "blue lock"),
        other => panic!("unexpected {:?}", other),
    }
    let (s, a) = step(s, ResolveInput::SeriesCreated(77));
    match a {
        ResolveAction::CreateSeriesSource { source } => {
            assert_eq!(source.series_id, 77);
            assert_eq!(source.domain, "asuracomic.net");
            assert_eq!(source.site_title.as_deref(), Some("blue lock"));
            assert_eq!(source.url_pattern, None);
        }
        other => panic!("unexpected {:?}", other),
    }
    let (s, _) = step(s, ResolveInput::SourceCreated(5));
    let (s, a) = step(s, ResolveInput::EventLinked);
    match a {
        ResolveAction::UpdateChapter { series_id, chapter } => {
            assert_eq!(series_id, 77);
            assert_eq!(chapter, "250.5");
        }
        other => panic!("unexpected {:?}", other),
    }
    let (s, _) = step(s, ResolveInput::ChapterUpdated(true));
    assert!(matches!(s, ResolveState::Done));
}

#[test]
fn database_failure_ends_the_run() {
    let (s, _) = ResolveState::start(1);
    let (s, _) = step(s, ResolveInput::EventLoaded(event("/manga/blue-lock/chapter-2")));
    let (s, a) = step(s, ResolveInput::DbFailed);
    assert!(matches!(s, ResolveState::Done));
    assert!(matches!(a, ResolveAction::Finish { outcome: ResolveOutcome::Failed }));
    assert!(!s.accepts(&ResolveInput::DbFailed));
}

#[test]
fn mismatched_input_is_not_accepted() {
    let (s, _) = ResolveState::start(1);
    assert!(!s.accepts(&ResolveInput::EventLinked));
    assert!(s.accepts(&ResolveInput::DbFailed));
}

#[test]
fn full_run_issues_each_action_once_in_order() {
    let actions = drive(
        3,
        vec![
            ResolveInput::EventLoaded(event("/manga/x-y/chapter-1")),
            ResolveInput::SourcesLoaded(vec![]),
            ResolveInput::SeriesListed(vec![]),
            ResolveInput::SeriesCreated(8),
            ResolveInput::SourceCreated(2),
            ResolveInput::EventLinked,
            ResolveInput::ChapterUpdated(true),
        ],
    );
    let kinds: Vec<&str> = actions.iter().map(|a| a.split(|c| c == ' ' || c == '{').next().unwrap()).collect();
    assert_eq!(
        kinds,
        vec![
            "LoadEvent",
            "LoadSourcesByDomain",
            "LoadAllSeries",
            "CreateSeries",
            "CreateSeriesSource",
            "LinkEvent",
            "UpdateChapter",
            "Finish",
        ]
    );
    assert!(actions[7].contains("series_id: 8"));
    assert!(actions[5].contains("series_id: 8"));
}

#[test]
fn resolving_again_changes_nothing() {
    // first run: no known source, no matching series, so a series is created
    let (s, _) = ResolveState::start(4);
    let (s, _) = step(s, ResolveInput::EventLoaded(event("/manga/blue-lock-all-chapters/chapter-12")));
    let (s, _) = step(s, ResolveInput::SourcesLoaded(vec![]));
    let (s, _) = step(s, ResolveInput::SeriesListed(vec![]));
    let (s, a) = step(s, ResolveInput::SeriesCreated(31));
    let recorded = match a {
        ResolveAction::CreateSeriesSource { source } => source,
        other => panic!("unexpected {:?}", other),
    };
    let (s, _) = step(s, ResolveInput::SourceCreated(8));
    let (s, _) = step(s, ResolveInput::EventLinked);
    let (_, a) = step(s, ResolveInput::ChapterUpdated(true));
    assert!(matches!(
        a,
        ResolveAction::Finish { outcome: ResolveOutcome::Resolved { event_id: 4, series_id: 31 } }
    ));

    // second run: the domain now knows the recorded source
    let stored = SeriesSource {
        id: 8,
        series_id: recorded.series_id,
        domain: recorded.domain,
        site_title: recorded.site_title,
        url_pattern: recorded.url_pattern,
    };
    let mut again = event("/manga/blue-lock-all-chapters/chapter-12");
    again.series_id = Some(31);
    let actions = drive(
        4,
        vec![
            ResolveInput::EventLoaded(again),
            ResolveInput::SourcesLoaded(vec![stored]),
            ResolveInput::EventLinked,
            ResolveInput::ChapterUpdated(false),
        ],
    );
    assert!(actions[2].starts_with("LinkEvent") && actions[2].contains("series_id: 31"));
    assert!(actions[3].starts_with("UpdateChapter") && actions[3].contains("\"12\""));
    assert!(actions.iter().all(|a| !a.starts_with("CreateSeries")));
}
