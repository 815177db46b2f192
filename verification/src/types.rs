//! The records the tracker keeps: reading events, the sites a series is read
//! on, and the titles of series.

use vstd::prelude::*;

verus! {

/// The characters of an optional string.
pub open spec fn opt_chars(o: Option<String>) -> Option<Seq<char>> {
    match o {
        Some(s) => Some(s@),
        None => None,
    }
}

/// A site on which a series is read, as stored.
#[derive(Clone, Debug, PartialEq, Eq)]
pub struct SeriesSource {
    pub id: i64,
    pub series_id: i64,
    pub domain: String,
    pub site_title: Option<String>,
    pub url_pattern: Option<String>,
}

pub struct SeriesSourceView {
    pub id: i64,
    pub series_id: i64,
    pub domain: Seq<char>,
    pub site_title: Option<Seq<char>>,
    pub url_pattern: Option<Seq<char>>,
}

impl View for SeriesSource {
    type V = SeriesSourceView;

    open spec fn view(&self) -> SeriesSourceView {
        SeriesSourceView {
            id: self.id,
            series_id: self.series_id,
            domain: self.domain@,
            site_title: opt_chars(self.site_title),
            url_pattern: opt_chars(self.url_pattern),
        }
    }
}

/// A chapter page that a device reported as read.
#[derive(Clone, Debug, PartialEq, Eq)]
pub struct ReadingEvent {
    pub id: i64,
    pub source: String,
    pub domain: String,
    pub raw_url: String,
    pub detected_at: Option<i64>,
    pub synced: Option<i64>,
    pub series_id: Option<i64>,
}

pub struct ReadingEventView {
    pub id: i64,
    pub source: Seq<char>,
    pub domain: Seq<char>,
    pub raw_url: Seq<char>,
    pub detected_at: Option<i64>,
    pub synced: Option<i64>,
    pub series_id: Option<i64>,
}

impl View for ReadingEvent {
    type V = ReadingEventView;

    open spec fn view(&self) -> ReadingEventView {
        ReadingEventView {
            id: self.id,
            source: self.source@,
            domain: self.domain@,
            raw_url: self.raw_url@,
            detected_at: self.detected_at,
            synced: self.synced,
            series_id: self.series_id,
        }
    }
}

/// A reading event as a device posts it.
#[derive(Clone, Debug, PartialEq, Eq)]
pub struct NewEvent {
    /// The reporting device, such as `phone-1` or `pc-extension`.
    pub source: String,
    pub domain: String,
    pub raw_url: String,
    pub detected_at: i64,
}

/// A site to record for a series.
#[derive(Clone, Debug, PartialEq, Eq)]
pub struct NewSeriesSource {
    pub series_id: i64,
    pub domain: String,
    pub site_title: Option<String>,
    pub url_pattern: Option<String>,
}

pub struct NewSeriesSourceView {
    pub series_id: i64,
    pub domain: Seq<char>,
    pub site_title: Option<Seq<char>>,
    pub url_pattern: Option<Seq<char>>,
}

impl View for NewSeriesSource {
    type V = NewSeriesSourceView;

    open spec fn view(&self) -> NewSeriesSourceView {
        NewSeriesSourceView {
            series_id: self.series_id,
            domain: self.domain@,
            site_title: opt_chars(self.site_title),
            url_pattern: opt_chars(self.url_pattern),
        }
    }
}

/// What the resolver reads of a stored series: its id and canonical title.
#[derive(Clone, Debug, PartialEq, Eq)]
pub struct SeriesTitle {
    pub id: i64,
    pub canonical_title: String,
}

pub struct SeriesTitleView {
    pub id: i64,
    pub canonical_title: Seq<char>,
}

impl View for SeriesTitle {
    type V = SeriesTitleView;

    open spec fn view(&self) -> SeriesTitleView {
        SeriesTitleView { id: self.id, canonical_title: self.canonical_title@ }
    }
}

} // verus!
