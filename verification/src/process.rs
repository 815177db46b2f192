//! Resolving a reading event to a series.
//!
//! Resolution reads and writes the database between its decisions, so it is
//! a state machine: `ResolveState::start` gives the first action, and each
//! call of `ResolveState::step` takes the outcome of the last action and
//! gives the next one, until an action `Finish` ends the run. The decisions:
//!
//! 1. the event's URL must hold `/manga/<slug>/chapter-<number>`, else the
//!    run ends without writing anything;
//! 2. a source already known on the event's domain whose site title matches
//!    the slug's title gives the series;
//! 3. else a series whose canonical title matches gives it, else a new
//!    series is created under that title; either way the domain is recorded
//!    as a new source of the series;
//! 4. the event is linked to the series, and the series' chapter updated.
//!
//! Any failure of the database ends the run.

use vstd::prelude::*;
use crate::similarity::{
    best_index, is_best, law_best_index, site_title_or_empty, ONE_BITS, match_known_source, match_series_title, series_scores, series_view,
    source_scores, sources_view,
};
use crate::static_files::{chapter_url_parts, parse_chapter_url, slug_title, slug_to_title};
use crate::types::{
    NewSeriesSource, NewSeriesSourceView, ReadingEvent, ReadingEventView, SeriesSource,
    SeriesSourceView, SeriesTitle, SeriesTitleView,
};

verus! {

/// How a run ends.
#[derive(Clone, Copy, Debug, PartialEq, Eq)]
pub enum ResolveOutcome {
    /// The event was linked to the series.
    Resolved { event_id: i64, series_id: i64 },
    /// The event's URL holds no chapter of a known form; nothing was written.
    UnmatchedUrl { event_id: i64 },
    /// A database operation failed.
    Failed,
}

/// Where a run stands: which outcome it waits for, and what it carries.
#[derive(Debug)]
pub enum ResolveState {
    AwaitEvent { event_id: i64 },
    AwaitSources { event_id: i64, domain: String, title: String, chapter: String },
    AwaitSeriesList { event_id: i64, domain: String, title: String, chapter: String },
    AwaitSeriesCreated { event_id: i64, domain: String, title: String, chapter: String },
    AwaitSourceCreated { event_id: i64, series_id: i64, chapter: String },
    AwaitEventLinked { event_id: i64, series_id: i64, chapter: String },
    AwaitChapterUpdated { event_id: i64, series_id: i64 },
    Done,
}

/// The next thing to do against the database, or the end of the run.
#[derive(Debug)]
pub enum ResolveAction {
    /// Read the reading event with this id.
    LoadEvent { event_id: i64 },
    /// Read the sources known on this domain.
    LoadSourcesByDomain { domain: String },
    /// Read every series.
    LoadAllSeries,
    /// Create a series with this canonical title; answer with its id.
    CreateSeries { title: String },
    /// Record this source.
    CreateSeriesSource { source: NewSeriesSource },
    /// Set the event's series.
    LinkEvent { event_id: i64, series_id: i64 },
    /// Raise the series' current chapter to the number in this text (read as
    /// a decimal number, 0 where it is not one), stamped with the time.
    UpdateChapter { series_id: i64, chapter: String },
    /// The run is over.
    Finish { outcome: ResolveOutcome },
}

/// The outcome of the last action.
#[derive(Debug)]
pub enum ResolveInput {
    EventLoaded(ReadingEvent),
    SourcesLoaded(Vec<SeriesSource>),
    SeriesListed(Vec<SeriesTitle>),
    SeriesCreated(i64),
    SourceCreated(i64),
    EventLinked,
    ChapterUpdated(bool),
    DbFailed,
}

pub enum ResolveStateView {
    AwaitEvent { event_id: i64 },
    AwaitSources { event_id: i64, domain: Seq<char>, title: Seq<char>, chapter: Seq<char> },
    AwaitSeriesList { event_id: i64, domain: Seq<char>, title: Seq<char>, chapter: Seq<char> },
    AwaitSeriesCreated { event_id: i64, domain: Seq<char>, title: Seq<char>, chapter: Seq<char> },
    AwaitSourceCreated { event_id: i64, series_id: i64, chapter: Seq<char> },
    AwaitEventLinked { event_id: i64, series_id: i64, chapter: Seq<char> },
    AwaitChapterUpdated { event_id: i64, series_id: i64 },
    Done,
}

pub enum ResolveActionView {
    LoadEvent { event_id: i64 },
    LoadSourcesByDomain { domain: Seq<char> },
    LoadAllSeries,
    CreateSeries { title: Seq<char> },
    CreateSeriesSource { source: NewSeriesSourceView },
    LinkEvent { event_id: i64, series_id: i64 },
    UpdateChapter { series_id: i64, chapter: Seq<char> },
    Finish { outcome: ResolveOutcome },
}

pub enum ResolveInputView {
    EventLoaded(ReadingEventView),
    SourcesLoaded(Seq<SeriesSourceView>),
    SeriesListed(Seq<SeriesTitleView>),
    SeriesCreated(i64),
    SourceCreated(i64),
    EventLinked,
    ChapterUpdated(bool),
    DbFailed,
}

impl View for ResolveState {
    type V = ResolveStateView;

    open spec fn view(&self) -> ResolveStateView {
        match self {
            ResolveState::AwaitEvent { event_id } => ResolveStateView::AwaitEvent {
                event_id: *event_id,
            },
            ResolveState::AwaitSources { event_id, domain, title, chapter } =>
                ResolveStateView::AwaitSources {
                event_id: *event_id,
                domain: domain@,
                title: title@,
                chapter: chapter@,
            },
            ResolveState::AwaitSeriesList { event_id, domain, title, chapter } =>
                ResolveStateView::AwaitSeriesList {
                event_id: *event_id,
                domain: domain@,
                title: title@,
                chapter: chapter@,
            },
            ResolveState::AwaitSeriesCreated { event_id, domain, title, chapter } =>
                ResolveStateView::AwaitSeriesCreated {
                event_id: *event_id,
                domain: domain@,
                title: title@,
                chapter: chapter@,
            },
            ResolveState::AwaitSourceCreated { event_id, series_id, chapter } =>
                ResolveStateView::AwaitSourceCreated {
                event_id: *event_id,
                series_id: *series_id,
                chapter: chapter@,
            },
            ResolveState::AwaitEventLinked { event_id, series_id, chapter } =>
                ResolveStateView::AwaitEventLinked {
                event_id: *event_id,
                series_id: *series_id,
                chapter: chapter@,
            },
            ResolveState::AwaitChapterUpdated { event_id, series_id } =>
                ResolveStateView::AwaitChapterUpdated { event_id: *event_id, series_id: *series_id },
            ResolveState::Done => ResolveStateView::Done,
        }
    }
}

impl View for ResolveAction {
    type V = ResolveActionView;

    open spec fn view(&self) -> ResolveActionView {
        match self {
            ResolveAction::LoadEvent { event_id } => ResolveActionView::LoadEvent {
                event_id: *event_id,
            },
            ResolveAction::LoadSourcesByDomain { domain } =>
                ResolveActionView::LoadSourcesByDomain { domain: domain@ },
            ResolveAction::LoadAllSeries => ResolveActionView::LoadAllSeries,
            ResolveAction::CreateSeries { title } => ResolveActionView::CreateSeries {
                title: title@,
            },
            ResolveAction::CreateSeriesSource { source } =>
                ResolveActionView::CreateSeriesSource { source: source@ },
            ResolveAction::LinkEvent { event_id, series_id } => ResolveActionView::LinkEvent {
                event_id: *event_id,
                series_id: *series_id,
            },
            ResolveAction::UpdateChapter { series_id, chapter } =>
                ResolveActionView::UpdateChapter { series_id: *series_id, chapter: chapter@ },
            ResolveAction::Finish { outcome } => ResolveActionView::Finish { outcome: *outcome },
        }
    }
}

impl View for ResolveInput {
    type V = ResolveInputView;

    open spec fn view(&self) -> ResolveInputView {
        match self {
            ResolveInput::EventLoaded(e) => ResolveInputView::EventLoaded(e@),
            ResolveInput::SourcesLoaded(v) => ResolveInputView::SourcesLoaded(sources_view(v@)),
            ResolveInput::SeriesListed(v) => ResolveInputView::SeriesListed(series_view(v@)),
            ResolveInput::SeriesCreated(id) => ResolveInputView::SeriesCreated(*id),
            ResolveInput::SourceCreated(id) => ResolveInputView::SourceCreated(*id),
            ResolveInput::EventLinked => ResolveInputView::EventLinked,
            ResolveInput::ChapterUpdated(b) => ResolveInputView::ChapterUpdated(*b),
            ResolveInput::DbFailed => ResolveInputView::DbFailed,
        }
    }
}

/// The input is the outcome of the action that led to the state: the
/// matching answer, or a failure, and never anything once the run is done.
pub open spec fn accepts(s: ResolveStateView, i: ResolveInputView) -> bool {
    match (s, i) {
        (ResolveStateView::Done, _) => false,
        (_, ResolveInputView::DbFailed) => true,
        (ResolveStateView::AwaitEvent { .. }, ResolveInputView::EventLoaded(_)) => true,
        (ResolveStateView::AwaitSources { .. }, ResolveInputView::SourcesLoaded(_)) => true,
        (ResolveStateView::AwaitSeriesList { .. }, ResolveInputView::SeriesListed(_)) => true,
        (ResolveStateView::AwaitSeriesCreated { .. }, ResolveInputView::SeriesCreated(_)) => true,
        (ResolveStateView::AwaitSourceCreated { .. }, ResolveInputView::SourceCreated(_)) => true,
        (ResolveStateView::AwaitEventLinked { .. }, ResolveInputView::EventLinked) => true,
        (ResolveStateView::AwaitChapterUpdated { .. }, ResolveInputView::ChapterUpdated(_)) => true,
        _ => false,
    }
}

/// The source recorded when a domain is first linked to a series: the
/// domain, the title read from the slug, and no URL pattern of its own.
pub open spec fn new_source(series_id: i64, domain: Seq<char>, title: Seq<char>) -> NewSeriesSourceView {
    NewSeriesSourceView { series_id, domain, site_title: Some(title), url_pattern: None }
}

/// The first state and action of a run for the event `event_id`.
pub open spec fn start_of(event_id: i64) -> (ResolveStateView, ResolveActionView) {
    (ResolveStateView::AwaitEvent { event_id }, ResolveActionView::LoadEvent { event_id })
}

/// The state and action that follow `s` on the input `i`.
pub open spec fn next(s: ResolveStateView, i: ResolveInputView) -> (ResolveStateView, ResolveActionView) {
    match (s, i) {
        (_, ResolveInputView::DbFailed) => (
            ResolveStateView::Done,
            ResolveActionView::Finish { outcome: ResolveOutcome::Failed },
        ),
        (ResolveStateView::AwaitEvent { event_id }, ResolveInputView::EventLoaded(ev)) =>
            match chapter_url_parts(ev.raw_url) {
            None => (
                ResolveStateView::Done,
                ResolveActionView::Finish { outcome: ResolveOutcome::UnmatchedUrl { event_id } },
            ),
            Some((slug, number)) => (
                ResolveStateView::AwaitSources {
                    event_id,
                    domain: ev.domain,
                    title: slug_title(slug),
                    chapter: number,
                },
                ResolveActionView::LoadSourcesByDomain { domain: ev.domain },
            ),
        },
        (
            ResolveStateView::AwaitSources { event_id, domain, title, chapter },
            ResolveInputView::SourcesLoaded(sources),
        ) => match best_index(source_scores(sources, title)) {
            Some(k) => (
                ResolveStateView::AwaitEventLinked {
                    event_id,
                    series_id: sources[k].series_id,
                    chapter,
                },
                ResolveActionView::LinkEvent { event_id, series_id: sources[k].series_id },
            ),
            None => (
                ResolveStateView::AwaitSeriesList { event_id, domain, title, chapter },
                ResolveActionView::LoadAllSeries,
            ),
        },
        (
            ResolveStateView::AwaitSeriesList { event_id, domain, title, chapter },
            ResolveInputView::SeriesListed(series),
        ) => match best_index(series_scores(series, title)) {
            Some(k) => (
                ResolveStateView::AwaitSourceCreated { event_id, series_id: series[k].id, chapter },
                ResolveActionView::CreateSeriesSource {
                    source: new_source(series[k].id, domain, title),
                },
            ),
            None => (
                ResolveStateView::AwaitSeriesCreated { event_id, domain, title, chapter },
                ResolveActionView::CreateSeries { title },
            ),
        },
        (
            ResolveStateView::AwaitSeriesCreated { event_id, domain, title, chapter },
            ResolveInputView::SeriesCreated(series_id),
        ) => (
            ResolveStateView::AwaitSourceCreated { event_id, series_id, chapter },
            ResolveActionView::CreateSeriesSource { source: new_source(series_id, domain, title) },
        ),
        (
            ResolveStateView::AwaitSourceCreated { event_id, series_id, chapter },
            ResolveInputView::SourceCreated(_),
        ) => (
            ResolveStateView::AwaitEventLinked { event_id, series_id, chapter },
            ResolveActionView::LinkEvent { event_id, series_id },
        ),
        (
            ResolveStateView::AwaitEventLinked { event_id, series_id, chapter },
            ResolveInputView::EventLinked,
        ) => (
            ResolveStateView::AwaitChapterUpdated { event_id, series_id },
            ResolveActionView::UpdateChapter { series_id, chapter },
        ),
        (
            ResolveStateView::AwaitChapterUpdated { event_id, series_id },
            ResolveInputView::ChapterUpdated(_),
        ) => (
            ResolveStateView::Done,
            ResolveActionView::Finish { outcome: ResolveOutcome::Resolved { event_id, series_id } },
        ),
        _ => (
            ResolveStateView::Done,
            ResolveActionView::Finish { outcome: ResolveOutcome::Failed },
        ),
    }
}

impl ResolveState {
    /// Starts resolving the event `event_id`: the first action reads it.
    pub fn start(event_id: i64) -> (r: (ResolveState, ResolveAction))
        ensures
            (r.0@, r.1@) == start_of(event_id),
    {
        (ResolveState::AwaitEvent { event_id }, ResolveAction::LoadEvent { event_id })
    }

    /// Tells whether `input` may be handed to `step` in this state.
    pub fn accepts(&self, input: &ResolveInput) -> (r: bool)
        ensures
            r == accepts(self@, input@),
    {
        match (self, input) {
            (ResolveState::Done, _) => false,
            (_, ResolveInput::DbFailed) => true,
            (ResolveState::AwaitEvent { .. }, ResolveInput::EventLoaded(_)) => true,
            (ResolveState::AwaitSources { .. }, ResolveInput::SourcesLoaded(_)) => true,
            (ResolveState::AwaitSeriesList { .. }, ResolveInput::SeriesListed(_)) => true,
            (ResolveState::AwaitSeriesCreated { .. }, ResolveInput::SeriesCreated(_)) => true,
            (ResolveState::AwaitSourceCreated { .. }, ResolveInput::SourceCreated(_)) => true,
            (ResolveState::AwaitEventLinked { .. }, ResolveInput::EventLinked) => true,
            (ResolveState::AwaitChapterUpdated { .. }, ResolveInput::ChapterUpdated(_)) => true,
            _ => false,
        }
    }

    /// Takes the outcome of the last action and gives the next state and
    /// action, as `next` says.
    pub fn step(self, input: ResolveInput) -> (r: (ResolveState, ResolveAction))
        requires
            accepts(self@, input@),
        ensures
            (r.0@, r.1@) == next(self@, input@),
    {
        match (self, input) {
            (_, ResolveInput::DbFailed) => (
                ResolveState::Done,
                ResolveAction::Finish { outcome: ResolveOutcome::Failed },
            ),
            (ResolveState::AwaitEvent { event_id }, ResolveInput::EventLoaded(ev)) => {
                match parse_chapter_url(ev.raw_url.as_str()) {
                    None => (
                        ResolveState::Done,
                        ResolveAction::Finish {
                            outcome: ResolveOutcome::UnmatchedUrl { event_id },
                        },
                    ),
                    Some((slug, number)) => {
                        let title = slug_to_title(slug.as_str());
                        let domain = ev.domain.clone();
                        (
                            ResolveState::AwaitSources {
                                event_id,
                                domain: ev.domain,
                                title,
                                chapter: number,
                            },
                            ResolveAction::LoadSourcesByDomain { domain },
                        )
                    },
                }
            },
            (
                ResolveState::AwaitSources { event_id, domain, title, chapter },
                ResolveInput::SourcesLoaded(sources),
            ) => {
                match match_known_source(&sources, title.as_str()) {
                    Some(k) => {
                        let series_id = sources[k].series_id;
                        (
                            ResolveState::AwaitEventLinked { event_id, series_id, chapter },
                            ResolveAction::LinkEvent { event_id, series_id },
                        )
                    },
                    None => (
                        ResolveState::AwaitSeriesList { event_id, domain, title, chapter },
                        ResolveAction::LoadAllSeries,
                    ),
                }
            },
            (
                ResolveState::AwaitSeriesList { event_id, domain, title, chapter },
                ResolveInput::SeriesListed(series),
            ) => {
                match match_series_title(&series, title.as_str()) {
                    Some(k) => {
                        let series_id = series[k].id;
                        let source = NewSeriesSource {
                            series_id,
                            domain,
                            site_title: Some(title),
                            url_pattern: None,
                        };
                        (
                            ResolveState::AwaitSourceCreated { event_id, series_id, chapter },
                            ResolveAction::CreateSeriesSource { source },
                        )
                    },
                    None => {
                        let title_copy = title.clone();
                        (
                            ResolveState::AwaitSeriesCreated { event_id, domain, title, chapter },
                            ResolveAction::CreateSeries { title: title_copy },
                        )
                    },
                }
            },
            (
                ResolveState::AwaitSeriesCreated { event_id, domain, title, chapter },
                ResolveInput::SeriesCreated(series_id),
            ) => {
                let source = NewSeriesSource {
                    series_id,
                    domain,
                    site_title: Some(title),
                    url_pattern: None,
                };
                (
                    ResolveState::AwaitSourceCreated { event_id, series_id, chapter },
                    ResolveAction::CreateSeriesSource { source },
                )
            },
            (
                ResolveState::AwaitSourceCreated { event_id, series_id, chapter },
                ResolveInput::SourceCreated(_),
            ) => (
                ResolveState::AwaitEventLinked { event_id, series_id, chapter },
                ResolveAction::LinkEvent { event_id, series_id },
            ),
            (
                ResolveState::AwaitEventLinked { event_id, series_id, chapter },
                ResolveInput::EventLinked,
            ) => (
                ResolveState::AwaitChapterUpdated { event_id, series_id },
                ResolveAction::UpdateChapter { series_id, chapter },
            ),
            (
                ResolveState::AwaitChapterUpdated { event_id, series_id },
                ResolveInput::ChapterUpdated(_),
            ) => (
                ResolveState::Done,
                ResolveAction::Finish { outcome: ResolveOutcome::Resolved { event_id, series_id } },
            ),
            _ => (ResolveState::Done, ResolveAction::Finish { outcome: ResolveOutcome::Failed }),
        }
    }
}


/// How many more inputs a run can take from this state.
pub open spec fn remaining_steps(s: ResolveStateView) -> nat {
    match s {
        ResolveStateView::AwaitEvent { .. } => 7,
        ResolveStateView::AwaitSources { .. } => 6,
        ResolveStateView::AwaitSeriesList { .. } => 5,
        ResolveStateView::AwaitSeriesCreated { .. } => 4,
        ResolveStateView::AwaitSourceCreated { .. } => 3,
        ResolveStateView::AwaitEventLinked { .. } => 2,
        ResolveStateView::AwaitChapterUpdated { .. } => 1,
        ResolveStateView::Done => 0,
    }
}

/// Every step brings a run closer to its end: a run takes at most seven
/// inputs, and it is done exactly when it has issued `Finish`.
pub proof fn law_step_progresses(s: ResolveStateView, i: ResolveInputView)
    requires
        accepts(s, i),
    ensures
        remaining_steps(next(s, i).0) < remaining_steps(s),
        (next(s, i).0 is Done) <==> (next(s, i).1 is Finish),
{
}

/// A failure of the database ends the run, whatever it was waiting for.
pub proof fn law_failure_ends_run(s: ResolveStateView)
    requires
        !(s is Done),
    ensures
        next(s, ResolveInputView::DbFailed) == (
            ResolveStateView::Done,
            ResolveActionView::Finish { outcome: ResolveOutcome::Failed },
        ),
{
}

/// The actions a run issues from `s` on the inputs `inputs`, up to the first
/// input that the state does not accept.
pub open spec fn run(s: ResolveStateView, inputs: Seq<ResolveInputView>) -> Seq<ResolveActionView>
    decreases inputs.len(),
{
    if inputs.len() == 0 || !accepts(s, inputs[0]) {
        Seq::empty()
    } else {
        let (s2, a) = next(s, inputs[0]);
        seq![a] + run(s2, inputs.drop_first())
    }
}

/// All the actions of a whole run for `event_id`: the first one, then those
/// that the inputs lead to.
pub open spec fn full_run(event_id: i64, inputs: Seq<ResolveInputView>) -> Seq<ResolveActionView> {
    seq![start_of(event_id).1] + run(start_of(event_id).0, inputs)
}

/// The series that an action names, if any.
pub open spec fn action_series(a: ResolveActionView) -> Option<i64> {
    match a {
        ResolveActionView::CreateSeriesSource { source } => Some(source.series_id),
        ResolveActionView::LinkEvent { series_id, .. } => Some(series_id),
        ResolveActionView::UpdateChapter { series_id, .. } => Some(series_id),
        ResolveActionView::Finish { outcome: ResolveOutcome::Resolved { series_id, .. } } => Some(
            series_id,
        ),
        _ => None,
    }
}

/// The event that an action names, if any.
pub open spec fn action_event(a: ResolveActionView) -> Option<i64> {
    match a {
        ResolveActionView::LoadEvent { event_id } => Some(event_id),
        ResolveActionView::LinkEvent { event_id, .. } => Some(event_id),
        ResolveActionView::Finish { outcome: ResolveOutcome::Resolved { event_id, .. } } => Some(
            event_id,
        ),
        ResolveActionView::Finish { outcome: ResolveOutcome::UnmatchedUrl { event_id } } => Some(
            event_id,
        ),
        _ => None,
    }
}

/// The place of each kind of action in the order in which a run issues them.
pub open spec fn action_rank(a: ResolveActionView) -> int {
    match a {
        ResolveActionView::LoadEvent { .. } => 0,
        ResolveActionView::LoadSourcesByDomain { .. } => 1,
        ResolveActionView::LoadAllSeries => 2,
        ResolveActionView::CreateSeries { .. } => 3,
        ResolveActionView::CreateSeriesSource { .. } => 4,
        ResolveActionView::LinkEvent { .. } => 5,
        ResolveActionView::UpdateChapter { .. } => 6,
        ResolveActionView::Finish { .. } => 7,
    }
}

/// The event a state is resolving.
pub open spec fn state_event(s: ResolveStateView) -> Option<i64> {
    match s {
        ResolveStateView::AwaitEvent { event_id } => Some(event_id),
        ResolveStateView::AwaitSources { event_id, .. } => Some(event_id),
        ResolveStateView::AwaitSeriesList { event_id, .. } => Some(event_id),
        ResolveStateView::AwaitSeriesCreated { event_id, .. } => Some(event_id),
        ResolveStateView::AwaitSourceCreated { event_id, .. } => Some(event_id),
        ResolveStateView::AwaitEventLinked { event_id, .. } => Some(event_id),
        ResolveStateView::AwaitChapterUpdated { event_id, .. } => Some(event_id),
        ResolveStateView::Done => None,
    }
}

/// The series a state has settled on, once it has.
pub open spec fn state_series(s: ResolveStateView) -> Option<i64> {
    match s {
        ResolveStateView::AwaitSourceCreated { series_id, .. } => Some(series_id),
        ResolveStateView::AwaitEventLinked { series_id, .. } => Some(series_id),
        ResolveStateView::AwaitChapterUpdated { series_id, .. } => Some(series_id),
        _ => None,
    }
}

/// The rank of the last action issued before a state was reached.
pub open spec fn state_rank(s: ResolveStateView) -> int {
    match s {
        ResolveStateView::AwaitEvent { .. } => 0,
        ResolveStateView::AwaitSources { .. } => 1,
        ResolveStateView::AwaitSeriesList { .. } => 2,
        ResolveStateView::AwaitSeriesCreated { .. } => 3,
        ResolveStateView::AwaitSourceCreated { .. } => 4,
        ResolveStateView::AwaitEventLinked { .. } => 5,
        ResolveStateView::AwaitChapterUpdated { .. } => 6,
        ResolveStateView::Done => 7,
    }
}

proof fn lemma_run_facts(s: ResolveStateView, inputs: Seq<ResolveInputView>)
    ensures
        forall|k: int|
            0 <= k < run(s, inputs).len() ==> state_rank(s) < #[trigger] action_rank(
                run(s, inputs)[k],
            ),
        forall|j: int, k: int|
            0 <= j < k < run(s, inputs).len() ==> action_rank(#[trigger] run(s, inputs)[j])
                < action_rank(#[trigger] run(s, inputs)[k]),
        forall|k: int|
            0 <= k < run(s, inputs).len() && (#[trigger] action_event(run(s, inputs)[k])) is Some
                ==> action_event(run(s, inputs)[k]) == state_event(s),
        forall|k: int|
            0 <= k < run(s, inputs).len() && (#[trigger] action_series(run(s, inputs)[k])) is Some
                && state_series(s) is Some ==> action_series(run(s, inputs)[k]) == state_series(
                s,
            ),
        forall|j: int, k: int|
            0 <= j < run(s, inputs).len() && 0 <= k < run(s, inputs).len() && (
            #[trigger] action_series(run(s, inputs)[j])) is Some && (#[trigger] action_series(
                run(s, inputs)[k],
            )) is Some ==> action_series(run(s, inputs)[j]) == action_series(run(s, inputs)[k]),
    decreases inputs.len(),
{
    if inputs.len() == 0 || !accepts(s, inputs[0]) {
    } else {
        let (s2, a) = next(s, inputs[0]);
        let rest = inputs.drop_first();
        lemma_run_facts(s2, rest);
        let r = run(s, inputs);
        assert(r == seq![a] + run(s2, rest));
        assert(r[0] == a);
        assert forall|k: int| 1 <= k < r.len() implies r[k] == run(s2, rest)[k - 1] by {}
        assert(state_rank(s) < action_rank(a));
        assert(action_rank(a) <= state_rank(s2));
    }
}


/// The domain, title and chapter text a state carries, where it does.
pub open spec fn state_payload(s: ResolveStateView) -> Option<(Seq<char>, Seq<char>)> {
    match s {
        ResolveStateView::AwaitSources { domain, title, .. } => Some((domain, title)),
        ResolveStateView::AwaitSeriesList { domain, title, .. } => Some((domain, title)),
        ResolveStateView::AwaitSeriesCreated { domain, title, .. } => Some((domain, title)),
        _ => None,
    }
}

/// The chapter text a state carries, where it does.
pub open spec fn state_chapter(s: ResolveStateView) -> Option<Seq<char>> {
    match s {
        ResolveStateView::AwaitSources { chapter, .. } => Some(chapter),
        ResolveStateView::AwaitSeriesList { chapter, .. } => Some(chapter),
        ResolveStateView::AwaitSeriesCreated { chapter, .. } => Some(chapter),
        ResolveStateView::AwaitSourceCreated { chapter, .. } => Some(chapter),
        ResolveStateView::AwaitEventLinked { chapter, .. } => Some(chapter),
        _ => None,
    }
}

proof fn lemma_run_payload(s: ResolveStateView, inputs: Seq<ResolveInputView>)
    requires
        !(s is AwaitEvent),
    ensures
        forall|k: int|
            0 <= k < run(s, inputs).len() ==> match #[trigger] run(s, inputs)[k] {
                ResolveActionView::CreateSeriesSource { source } => state_payload(s) == Some(
                    (source.domain, source.site_title->0),
                ) && source.site_title is Some && source.url_pattern is None,
                ResolveActionView::CreateSeries { title } => state_payload(s) matches Some(p)
                    && p.1 == title,
                ResolveActionView::UpdateChapter { chapter, .. } => state_chapter(s) == Some(
                    chapter,
                ),
                _ => true,
            },
    decreases inputs.len(),
{
    if inputs.len() == 0 || !accepts(s, inputs[0]) {
    } else {
        let (s2, a) = next(s, inputs[0]);
        let rest = inputs.drop_first();
        lemma_run_payload(s2, rest);
        lemma_run_facts(s2, rest);
        let r = run(s, inputs);
        assert(r == seq![a] + run(s2, rest));
        assert forall|k: int| 1 <= k < r.len() implies r[k] == run(s2, rest)[k - 1] by {}
    }
}

/// The action ends the run with its event resolved.
pub open spec fn is_resolved(a: ResolveActionView) -> bool {
    a matches ResolveActionView::Finish { outcome: ResolveOutcome::Resolved { .. } }
}

proof fn lemma_resolved_preceded(s: ResolveStateView, inputs: Seq<ResolveInputView>)
    ensures
        forall|k: int|
            0 <= k < run(s, inputs).len() && is_resolved(#[trigger] run(s, inputs)[k]) ==> (state_rank(s) >= 5 || exists|j: int|
                0 <= j < k && run(s, inputs)[j] is LinkEvent) && (state_rank(s) >= 6 || exists|
                j: int,
            |
                0 <= j < k && run(s, inputs)[j] is UpdateChapter),
    decreases inputs.len(),
{
    if inputs.len() == 0 || !accepts(s, inputs[0]) {
    } else {
        let (s2, a) = next(s, inputs[0]);
        let rest = inputs.drop_first();
        lemma_resolved_preceded(s2, rest);
        let r = run(s, inputs);
        assert(r == seq![a] + run(s2, rest));
        assert forall|k: int| 1 <= k < r.len() implies r[k] == run(s2, rest)[k - 1] by {}
        assert forall|k: int|
            0 <= k < r.len() && is_resolved(#[trigger] r[k]) implies (state_rank(s) >= 5 || exists|j: int| 0 <= j < k && r[j] is LinkEvent) && (
        state_rank(s) >= 6 || exists|j: int| 0 <= j < k && r[j] is UpdateChapter) by {
            if k > 0 {
                let rr = run(s2, rest);
                assert(rr[k - 1] == r[k]);
                if state_rank(s2) < 5 {
                    let j = choose|j: int| 0 <= j < k - 1 && rr[j] is LinkEvent;
                    assert(r[j + 1] == rr[j]);
                } else if state_rank(s) < 5 {
                    assert(r[0] is LinkEvent);
                }
                if state_rank(s2) < 6 {
                    let j = choose|j: int| 0 <= j < k - 1 && rr[j] is UpdateChapter;
                    assert(r[j + 1] == rr[j]);
                } else if state_rank(s) < 6 {
                    assert(r[0] is UpdateChapter);
                }
            }
        }
    }
}

/// A whole run issues each kind of action at most once, in the order
/// read event, read sources, read series, create series, record source,
/// link event, update chapter, finish; every event it names is its own, and
/// every series it names (in the source it records, the link, the chapter
/// update and the outcome) is one and the same.
pub proof fn law_run_is_consistent(event_id: i64, inputs: Seq<ResolveInputView>)
    ensures
        forall|j: int, k: int|
            0 <= j < k < full_run(event_id, inputs).len() ==> action_rank(
                #[trigger] full_run(event_id, inputs)[j],
            ) < action_rank(#[trigger] full_run(event_id, inputs)[k]),
        forall|k: int|
            0 <= k < full_run(event_id, inputs).len() && (#[trigger] action_event(
                full_run(event_id, inputs)[k],
            )) is Some ==> action_event(full_run(event_id, inputs)[k]) == Some(event_id),
        forall|j: int, k: int|
            0 <= j < full_run(event_id, inputs).len() && 0 <= k < full_run(
                event_id,
                inputs,
            ).len() && (#[trigger] action_series(full_run(event_id, inputs)[j])) is Some && (
            #[trigger] action_series(full_run(event_id, inputs)[k])) is Some ==> action_series(
                full_run(event_id, inputs)[j],
            ) == action_series(full_run(event_id, inputs)[k]),
{
    let s0 = start_of(event_id).0;
    lemma_run_facts(s0, inputs);
    let f = full_run(event_id, inputs);
    let r = run(s0, inputs);
    assert forall|k: int| 1 <= k < f.len() implies f[k] == r[k - 1] by {}
    assert(f[0] == ResolveActionView::LoadEvent { event_id });
    assert forall|j: int, k: int| 0 <= j < k < f.len() implies action_rank(#[trigger] f[j])
        < action_rank(#[trigger] f[k]) by {
        if j > 0 {
            assert(f[j] == r[j - 1]);
        }
        assert(f[k] == r[k - 1]);
    }
    assert forall|j: int, k: int|
        0 <= j < f.len() && 0 <= k < f.len() && (#[trigger] action_series(f[j])) is Some && (
        #[trigger] action_series(f[k])) is Some implies action_series(f[j]) == action_series(f[k]) by {
        assert(j > 0 && k > 0);
        assert(f[j] == r[j - 1]);
        assert(f[k] == r[k - 1]);
    }
}

/// A run that ends with its event resolved has linked the event and
/// updated the series' chapter before.
pub proof fn law_resolved_run_linked_and_updated(event_id: i64, inputs: Seq<ResolveInputView>, k: int)
    requires
        0 <= k < full_run(event_id, inputs).len(),
        is_resolved(full_run(event_id, inputs)[k]),
    ensures
        exists|j: int| 0 <= j < k && full_run(event_id, inputs)[j] is LinkEvent,
        exists|j: int| 0 <= j < k && full_run(event_id, inputs)[j] is UpdateChapter,
{
    let s0 = start_of(event_id).0;
    lemma_resolved_preceded(s0, inputs);
    let f = full_run(event_id, inputs);
    let r = run(s0, inputs);
    assert forall|t: int| 1 <= t < f.len() implies f[t] == r[t - 1] by {}
    assert(f[k] == r[k - 1]);
    let j1 = choose|j: int| 0 <= j < k - 1 && r[j] is LinkEvent;
    assert(f[j1 + 1] == r[j1]);
    let j2 = choose|j: int| 0 <= j < k - 1 && r[j] is UpdateChapter;
    assert(f[j2 + 1] == r[j2]);
}

/// Once the URL of the event is read, a run writes nothing but from it: the
/// source it records holds the event's domain and the title read from the
/// slug, a series it creates bears that title, and the chapter it records is
/// the number in the URL. Where the URL holds no chapter, the run ends at
/// once and writes nothing.
pub proof fn law_run_writes_what_the_url_says(
    event_id: i64,
    event: ReadingEventView,
    inputs: Seq<ResolveInputView>,
)
    ensures
        ({
            let all = seq![ResolveInputView::EventLoaded(event)] + inputs;
            let f = full_run(event_id, all);
            match chapter_url_parts(event.raw_url) {
                None => f == seq![
                    ResolveActionView::LoadEvent { event_id },
                    ResolveActionView::Finish {
                        outcome: ResolveOutcome::UnmatchedUrl { event_id },
                    },
                ],
                Some((slug, number)) => forall|k: int|
                    0 <= k < f.len() ==> match #[trigger] f[k] {
                        ResolveActionView::CreateSeriesSource { source } => source.domain
                            == event.domain && source.site_title == Some(slug_title(slug))
                            && source.url_pattern is None,
                        ResolveActionView::CreateSeries { title } => title == slug_title(slug),
                        ResolveActionView::UpdateChapter { chapter, .. } => chapter == number,
                        ResolveActionView::LoadSourcesByDomain { domain } => domain == event.domain,
                        _ => true,
                    },
            }
        }),
{
    let all = seq![ResolveInputView::EventLoaded(event)] + inputs;
    let s0 = start_of(event_id).0;
    let f = full_run(event_id, all);
    assert(all[0] == ResolveInputView::EventLoaded(event));
    assert(all.drop_first() =~= inputs);
    let (s1, a1) = next(s0, all[0]);
    let r = run(s0, all);
    assert(r == seq![a1] + run(s1, inputs));
    match chapter_url_parts(event.raw_url) {
        None => {
            assert(s1 is Done);
            assert(run(s1, inputs) =~= Seq::<ResolveActionView>::empty());
            assert(f =~= seq![
                ResolveActionView::LoadEvent { event_id },
                ResolveActionView::Finish { outcome: ResolveOutcome::UnmatchedUrl { event_id } },
            ]);
        },
        Some((slug, number)) => {
            lemma_run_payload(s1, inputs);
            lemma_run_facts(s1, inputs);
            let rest = run(s1, inputs);
            assert forall|k: int| 2 <= k < f.len() implies f[k] == rest[k - 2] by {}
            assert(f[1] == a1);
        },
    }
}


proof fn lemma_run_cons(s: ResolveStateView, i: ResolveInputView, rest: Seq<ResolveInputView>)
    ensures
        accepts(s, i) ==> run(s, seq![i] + rest) == seq![next(s, i).1] + run(next(s, i).0, rest),
        !accepts(s, i) ==> run(s, seq![i] + rest) == Seq::<ResolveActionView>::empty(),
{
    let all = seq![i] + rest;
    assert(all[0] == i);
    assert(all.drop_first() =~= rest);
}

/// Which series a run settles on, once the event, the sources known on its
/// domain and (where none of those matches) every series have been read:
/// the series of the best-matching known source, and then nothing is
/// created; else the series with the best-matching title, and then no
/// series is created; else a new series, created under the slug's title.
/// In each case the event is linked to that series.
pub proof fn law_series_choice(
    event_id: i64,
    event: ReadingEventView,
    sources: Seq<SeriesSourceView>,
    series: Seq<SeriesTitleView>,
    new_id: i64,
    source_id: i64,
    rest: Seq<ResolveInputView>,
)
    requires
        chapter_url_parts(event.raw_url) is Some,
    ensures
        ({
            let title = slug_title((chapter_url_parts(event.raw_url)->0).0);
            let known = seq![
                ResolveInputView::EventLoaded(event),
                ResolveInputView::SourcesLoaded(sources),
            ];
            let listed = known + seq![ResolveInputView::SeriesListed(series)];
            let created = listed + seq![ResolveInputView::SeriesCreated(new_id)];
            match best_index(source_scores(sources, title)) {
                Some(k) => full_run(event_id, known + rest).len() >= 3 && full_run(
                    event_id,
                    known + rest,
                )[2] == ResolveActionView::LinkEvent {
                    event_id,
                    series_id: sources[k].series_id,
                } && forall|t: int|
                    0 <= t < full_run(event_id, known + rest).len() ==> !(#[trigger] full_run(
                        event_id,
                        known + rest,
                    )[t] is CreateSeries) && !(full_run(event_id, known + rest)[t] is CreateSeriesSource),
                None => match best_index(series_scores(series, title)) {
                    Some(k) => full_run(event_id, listed + rest).len() >= 4 && full_run(
                        event_id,
                        listed + rest,
                    )[3] == ResolveActionView::CreateSeriesSource {
                        source: new_source(series[k].id, event.domain, title),
                    } && forall|t: int|
                        0 <= t < full_run(event_id, listed + rest).len() ==> !(
                        #[trigger] full_run(event_id, listed + rest)[t] is CreateSeries),
                    None => full_run(event_id, created + rest).len() >= 5 && full_run(
                        event_id,
                        created + rest,
                    )[3] == ResolveActionView::CreateSeries { title } && full_run(
                        event_id,
                        created + rest,
                    )[4] == ResolveActionView::CreateSeriesSource {
                        source: new_source(new_id, event.domain, title),
                    },
                },
            }
        }),
{
    let title = url_title(event);
    let i0 = ResolveInputView::EventLoaded(event);
    let i1 = ResolveInputView::SourcesLoaded(sources);
    let i2 = ResolveInputView::SeriesListed(series);
    let i3 = ResolveInputView::SeriesCreated(new_id);
    assert(seq![i0, i1] + seq![i2] =~= seq![i0, i1, i2]);
    assert(seq![i0, i1] + seq![i2] + seq![i3] =~= seq![i0, i1, i2, i3]);
    match best_index(source_scores(sources, title)) {
        Some(k) => {
            lemma_known_source_run(event_id, event, sources, rest);
        },
        None => {
            match best_index(series_scores(series, title)) {
                Some(k) => {
                    lemma_known_series_run(event_id, event, sources, series, rest);
                },
                None => {
                    lemma_new_series_run(event_id, event, sources, series, new_id, rest);
                },
            }
        },
    }
}

/// The title read from the slug in the event's URL.
pub open spec fn url_title(event: ReadingEventView) -> Seq<char> {
    slug_title((chapter_url_parts(event.raw_url)->0).0)
}

#[verifier::spinoff_prover]
proof fn lemma_known_source_run(
    event_id: i64,
    event: ReadingEventView,
    sources: Seq<SeriesSourceView>,
    rest: Seq<ResolveInputView>,
)
    requires
        chapter_url_parts(event.raw_url) is Some,
        best_index(source_scores(sources, url_title(event))) is Some,
    ensures
        ({
            let k = best_index(source_scores(sources, url_title(event)))->0;
            let f = full_run(
                event_id,
                seq![ResolveInputView::EventLoaded(event), ResolveInputView::SourcesLoaded(sources)]
                    + rest,
            );
            &&& f.len() >= 3
            &&& f[2] == ResolveActionView::LinkEvent { event_id, series_id: sources[k].series_id }
            &&& forall|t: int|
                0 <= t < f.len() ==> !(#[trigger] f[t] is CreateSeries) && !(
                f[t] is CreateSeriesSource)
        }),
{
    let s0 = start_of(event_id).0;
    let i0 = ResolveInputView::EventLoaded(event);
    let i1 = ResolveInputView::SourcesLoaded(sources);
    let (s1, a1) = next(s0, i0);
    let (s2, a2) = next(s1, i1);
    let all = seq![i0, i1] + rest;
    assert(all =~= seq![i0] + (seq![i1] + rest));
    lemma_run_cons(s0, i0, seq![i1] + rest);
    lemma_run_cons(s1, i1, rest);
    lemma_run_facts(s2, rest);
    let f = full_run(event_id, all);
    assert(f =~= seq![start_of(event_id).1, a1, a2] + run(s2, rest));
    assert forall|t: int| 0 <= t < f.len() implies !(#[trigger] f[t] is CreateSeries) && !(
    f[t] is CreateSeriesSource) by {
        if t >= 3 {
            assert(f[t] == run(s2, rest)[t - 3]);
        }
    }
}

#[verifier::spinoff_prover]
proof fn lemma_known_series_run(
    event_id: i64,
    event: ReadingEventView,
    sources: Seq<SeriesSourceView>,
    series: Seq<SeriesTitleView>,
    rest: Seq<ResolveInputView>,
)
    requires
        chapter_url_parts(event.raw_url) is Some,
        best_index(source_scores(sources, url_title(event))) is None,
        best_index(series_scores(series, url_title(event))) is Some,
    ensures
        ({
            let k = best_index(series_scores(series, url_title(event)))->0;
            let f = full_run(
                event_id,
                seq![
                    ResolveInputView::EventLoaded(event),
                    ResolveInputView::SourcesLoaded(sources),
                    ResolveInputView::SeriesListed(series),
                ] + rest,
            );
            &&& f.len() >= 4
            &&& f[3] == ResolveActionView::CreateSeriesSource {
                source: new_source(series[k].id, event.domain, url_title(event)),
            }
            &&& forall|t: int| 0 <= t < f.len() ==> !(#[trigger] f[t] is CreateSeries)
        }),
{
    let s0 = start_of(event_id).0;
    let i0 = ResolveInputView::EventLoaded(event);
    let i1 = ResolveInputView::SourcesLoaded(sources);
    let i2 = ResolveInputView::SeriesListed(series);
    let (s1, a1) = next(s0, i0);
    let (s2, a2) = next(s1, i1);
    let (s3, a3) = next(s2, i2);
    let all = seq![i0, i1, i2] + rest;
    assert(all =~= seq![i0] + (seq![i1] + (seq![i2] + rest)));
    lemma_run_cons(s0, i0, seq![i1] + (seq![i2] + rest));
    lemma_run_cons(s1, i1, seq![i2] + rest);
    lemma_run_cons(s2, i2, rest);
    lemma_run_facts(s3, rest);
    let f = full_run(event_id, all);
    assert(f =~= seq![start_of(event_id).1, a1, a2, a3] + run(s3, rest));
    assert forall|t: int| 0 <= t < f.len() implies !(#[trigger] f[t] is CreateSeries) by {
        if t >= 4 {
            assert(f[t] == run(s3, rest)[t - 4]);
        }
    }
}

#[verifier::spinoff_prover]
proof fn lemma_new_series_run(
    event_id: i64,
    event: ReadingEventView,
    sources: Seq<SeriesSourceView>,
    series: Seq<SeriesTitleView>,
    new_id: i64,
    rest: Seq<ResolveInputView>,
)
    requires
        chapter_url_parts(event.raw_url) is Some,
        best_index(source_scores(sources, url_title(event))) is None,
        best_index(series_scores(series, url_title(event))) is None,
    ensures
        ({
            let f = full_run(
                event_id,
                seq![
                    ResolveInputView::EventLoaded(event),
                    ResolveInputView::SourcesLoaded(sources),
                    ResolveInputView::SeriesListed(series),
                    ResolveInputView::SeriesCreated(new_id),
                ] + rest,
            );
            &&& f.len() >= 5
            &&& f[3] == ResolveActionView::CreateSeries { title: url_title(event) }
            &&& f[4] == ResolveActionView::CreateSeriesSource {
                source: new_source(new_id, event.domain, url_title(event)),
            }
        }),
{
    let s0 = start_of(event_id).0;
    let i0 = ResolveInputView::EventLoaded(event);
    let i1 = ResolveInputView::SourcesLoaded(sources);
    let i2 = ResolveInputView::SeriesListed(series);
    let i3 = ResolveInputView::SeriesCreated(new_id);
    let (s1, a1) = next(s0, i0);
    let (s2, a2) = next(s1, i1);
    let (s3, a3) = next(s2, i2);
    let (s4, a4) = next(s3, i3);
    let all = seq![i0, i1, i2, i3] + rest;
    assert(all =~= seq![i0] + (seq![i1] + (seq![i2] + (seq![i3] + rest))));
    lemma_run_cons(s0, i0, seq![i1] + (seq![i2] + (seq![i3] + rest)));
    lemma_run_cons(s1, i1, seq![i2] + (seq![i3] + rest));
    lemma_run_cons(s2, i2, seq![i3] + rest);
    lemma_run_cons(s3, i3, rest);
    let f = full_run(event_id, all);
    assert(f =~= seq![start_of(event_id).1, a1, a2, a3, a4] + run(s4, rest));
}

/// The series a first run settles on, given the sources known on the
/// event's domain, every series, and the id a new series would get.
pub open spec fn chosen_series(
    event: ReadingEventView,
    sources: Seq<SeriesSourceView>,
    series: Seq<SeriesTitleView>,
    new_id: i64,
) -> i64 {
    let title = url_title(event);
    match best_index(source_scores(sources, title)) {
        Some(k) => sources[k].series_id,
        None => match best_index(series_scores(series, title)) {
            Some(k) => series[k].id,
            None => new_id,
        },
    }
}

/// The sources known on the event's domain once a first run is over: the
/// same where a known source matched, else those followed by the source the
/// run recorded (stored under `source_id`).
pub open spec fn sources_after(
    event: ReadingEventView,
    sources: Seq<SeriesSourceView>,
    series: Seq<SeriesTitleView>,
    new_id: i64,
    source_id: i64,
) -> Seq<SeriesSourceView> {
    let title = url_title(event);
    if best_index(source_scores(sources, title)) is Some {
        sources
    } else {
        sources.push(
            SeriesSourceView {
                id: source_id,
                series_id: chosen_series(event, sources, series, new_id),
                domain: event.domain,
                site_title: Some(title),
                url_pattern: None,
            },
        )
    }
}

/// Resolving an event again changes nothing. Once a first run is over (and
/// the domain's sources read back in the order they were stored, the one it
/// recorded last), a second run for the same URL and domain reads the event
/// and the sources, links the event to the series the first run chose,
/// creates no series and records no source, and updates that series with
/// the same chapter number, which the store keeps only where it is higher.
pub proof fn law_resolving_again_changes_nothing(
    event_id: i64,
    event: ReadingEventView,
    again: ReadingEventView,
    sources: Seq<SeriesSourceView>,
    series: Seq<SeriesTitleView>,
    new_id: i64,
    source_id: i64,
    rest: Seq<ResolveInputView>,
)
    requires
        chapter_url_parts(event.raw_url) is Some,
        again.raw_url == event.raw_url,
        again.domain == event.domain,
    ensures
        ({
            let s = chosen_series(event, sources, series, new_id);
            let number = (chapter_url_parts(event.raw_url)->0).1;
            let f = full_run(
                event_id,
                seq![
                    ResolveInputView::EventLoaded(again),
                    ResolveInputView::SourcesLoaded(
                        sources_after(event, sources, series, new_id, source_id),
                    ),
                ] + rest,
            );
            &&& f.len() >= 3
            &&& f[2] == ResolveActionView::LinkEvent { event_id, series_id: s }
            &&& forall|t: int|
                0 <= t < f.len() ==> !(#[trigger] f[t] is CreateSeries) && !(
                f[t] is CreateSeriesSource) && (f[t] matches ResolveActionView::UpdateChapter {
                    series_id,
                    chapter,
                } ==> series_id == s && chapter == number)
        }),
{
    let title = url_title(event);
    assert(url_title(again) == title);
    let after = sources_after(event, sources, series, new_id, source_id);
    if best_index(source_scores(sources, title)) is None {
        let old = source_scores(sources, title);
        let now = source_scores(after, title);
        let n = sources.len() as int;
        law_best_index(old);
        assert(now.len() == n + 1);
        assert(site_title_or_empty(after[n]) == title);
        assert(now[n] == ONE_BITS);
        assert forall|j: int| 0 <= j < n implies #[trigger] now[j] == old[j] by {
            assert(after[j] == sources[j]);
        }
        assert(is_best(now, n));
        law_best_index(now);
    }
    lemma_known_source_run(event_id, again, after, rest);
    let inputs = seq![ResolveInputView::SourcesLoaded(after)] + rest;
    law_run_writes_what_the_url_says(event_id, again, inputs);
    law_run_is_consistent(
        event_id,
        seq![ResolveInputView::EventLoaded(again)] + inputs,
    );
    let f = full_run(
        event_id,
        seq![ResolveInputView::EventLoaded(again), ResolveInputView::SourcesLoaded(after)] + rest,
    );
    assert(seq![ResolveInputView::EventLoaded(again)] + inputs =~= seq![
        ResolveInputView::EventLoaded(again),
        ResolveInputView::SourcesLoaded(after),
    ] + rest);
    let s = chosen_series(event, sources, series, new_id);
    assert(action_series(f[2]) == Some(s));
    assert forall|t: int| 0 <= t < f.len() && (#[trigger] f[t] is UpdateChapter) implies action_series(
        f[t],
    ) == Some(s) by {
        assert(action_series(f[t]) is Some);
        assert(action_series(f[2]) is Some);
    }
}

} // verus!
