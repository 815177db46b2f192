use manhua_live_tracker::db::mark_events_synced_sql;
use manhua_live_tracker::middleware::is_authorized;
use manhua_live_tracker::routes::{
    auth_reply, get_series_reply, list_reply, post_event_reply, write_reply, Status,
};
use manhua_live_tracker::types::{NewEvent, NewSeriesSource};

#[test]
fn auth_requires_exact_token() {
    assert!(is_authorized(Some("s3cret"), "s3cret"));
    assert!(!is_authorized(Some("s3cre"), "s3cret"));
    assert!(!is_authorized(Some("S3CRET"), "s3cret"));
    assert!(!is_authorized(None, "s3cret"));
    assert!(is_authorized(Some(""), ""));
}

#[test]
fn synced_sql_placeholders() {
    assert_eq!(mark_events_synced_sql(0), "UPDATE reading_events SET synced = 1 WHERE id IN ()");
    assert_eq!(mark_events_synced_sql(1), "UPDATE reading_events SET synced = 1 WHERE id IN (?)");
    assert_eq!(
        mark_events_synced_sql(3),
        "UPDATE reading_events SET synced = 1 WHERE id IN (?,?,?)"
    );
}

#[test]
fn status_codes() {
    assert_eq!(Status::Success.code(), 200);
    assert_eq!(Status::NotFound.code(), 404);
    assert_eq!(Status::Unauthorized.code(), 401);
    assert_eq!(Status::ServerError.code(), 500);
}

#[test]
fn post_event_replies() {
    assert_eq!(post_event_reply(Some(5)), (Status::Success, Some(5)));
    assert_eq!(post_event_reply(None), (Status::ServerError, None));
}

#[test]
fn read_replies() {
    assert_eq!(list_reply(Some(vec![1, 2])), Ok(vec![1, 2]));
    assert_eq!(list_reply::<Vec<i32>>(None), Err(Status::ServerError));
    assert_eq!(get_series_reply(Some(3)), Ok(3));
    assert_eq!(get_series_reply::<i32>(None), Err(Status::NotFound));
}

#[test]
fn write_and_auth_replies() {
    assert_eq!(write_reply(true), Status::Success);
    assert_eq!(write_reply(false), Status::ServerError);
    assert_eq!(auth_reply(true), None);
    assert_eq!(auth_reply(false), Some(Status::Unauthorized));
}

#[test]
fn records_hold_their_fields() {
    let e = NewEvent {
        source: "pc-extension".to_string(),
        domain: "d.com".to_string(),
        raw_url: "https://d.com/manga/a/chapter-1".to_string(),
        detected_at: 12,
    };
    assert_eq!(e.clone(), e);
    let s = NewSeriesSource { series_id: 1, domain: "d.com".to_string(), site_title: None, url_pattern: None };
    assert_eq!(s.clone().series_id, 1);
}
