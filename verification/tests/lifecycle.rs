use post_lifecycle::errors::PostError;
use post_lifecycle::manager::PostLifecycleManager;
use post_lifecycle::media::MediaKind;

const PW: &str = "admin-pw";

fn fresh() -> PostLifecycleManager {
    PostLifecycleManager::open_temporary(String::from(PW)).unwrap()
}

#[test]
fn create_then_read_returns_submitted_record() {
    let mut m = fresh();
    let created = m
        .create("Hello", "World", None, 1000, "tok-1")
        .unwrap();
    let id = created.record.directory_id.clone();
    let out = m.read(&id, 1000).unwrap();
    assert_eq!(out.record.title, "Hello");
    assert_eq!(out.record.message, "World");
    assert_eq!(out.record.media_reference, None);
    assert_eq!(out.record.created_at, 1000);
    assert_eq!(out.record.directory_id, id);
    assert!(out.html.contains("Hello"));
    assert!(out.html.contains("World"));
}

#[test]
fn duplicate_title_rejected_store_keeps_one() {
    let mut m = fresh();
    m.create("Hello", "World", None, 1000, "tok-1").unwrap();
    let second = m.create("Hello", "Other", None, 1001, "tok-2");
    assert_eq!(second.unwrap_err(), PostError::DuplicateTitle);
    let posts = m.get_posts().unwrap();
    assert_eq!(posts.len(), 1);
    assert_eq!(posts[0].title, "Hello");
    assert_eq!(posts[0].message, "World");
}

#[test]
fn title_exists_reports_stored_titles() {
    let mut m = fresh();
    assert_eq!(m.title_exists("Hello").unwrap(), false);
    m.create("Hello", "World", None, 1000, "tok-1").unwrap();
    assert_eq!(m.title_exists("Hello").unwrap(), true);
    assert_eq!(m.title_exists("Other").unwrap(), false);
}

#[test]
fn delete_self_within_window_removes_everything() {
    let mut m = fresh();
    let created = m.create("Hello", "World", None, 1000, "tok-1").unwrap();
    let id = created.record.directory_id.clone();
    m.delete_self(&id, 1030).unwrap();
    assert_eq!(m.read(&id, 1030).unwrap_err(), PostError::NotFound);
    assert_eq!(m.get_posts().unwrap().len(), 0);
}

#[test]
fn delete_self_after_window_fails_and_keeps_record() {
    let mut m = fresh();
    let created = m.create("Hello", "World", None, 1000, "tok-1").unwrap();
    let id = created.record.directory_id.clone();
    let denied = m.delete_self(&id, 1200);
    assert_eq!(denied.unwrap_err(), PostError::WindowExpired);
    let out = m.read(&id, 1200).unwrap();
    assert_eq!(out.record.title, "Hello");
    assert_eq!(out.record.message, "World");
}

#[test]
fn delete_self_window_boundary() {
    let mut m = fresh();
    let created = m.create("Edge", "body", None, 1000, "tok-1").unwrap();
    let id = created.record.directory_id.clone();
    assert_eq!(m.delete_self(&id, 1121).unwrap_err(), PostError::WindowExpired);
    m.delete_self(&id, 1120).unwrap();
    assert_eq!(m.read(&id, 1120).unwrap_err(), PostError::NotFound);
}

#[test]
fn delete_self_missing_record() {
    let mut m = fresh();
    assert_eq!(m.delete_self("no-such-id", 1000).unwrap_err(), PostError::NotFound);
}

#[test]
fn admin_edit_after_window_updates_and_drops_delete_control() {
    let mut m = fresh();
    let created = m.create("Hello", "World", None, 1000, "tok-1").unwrap();
    let id = created.record.directory_id.clone();
    assert!(created.html.contains("/delete_post"));
    let html = m.edit_admin(&id, "Fresh title", "Fresh message", PW, 1200).unwrap();
    assert!(!html.contains("/delete_post"));
    assert!(html.contains("Fresh title"));
    assert!(html.contains("Fresh message"));
    let out = m.read(&id, 1200).unwrap();
    assert_eq!(out.record.title, "Fresh title");
    assert_eq!(out.record.message, "Fresh message");
    assert_eq!(out.record.created_at, 1000);
    assert_eq!(out.record.directory_id, id);
}

#[test]
fn admin_edit_wrong_credential_changes_nothing() {
    let mut m = fresh();
    let created = m.create("Hello", "World", None, 1000, "tok-1").unwrap();
    let id = created.record.directory_id.clone();
    let denied = m.edit_admin(&id, "X", "Y", "wrong", 1000);
    assert_eq!(denied.unwrap_err(), PostError::Unauthorized);
    let out = m.read(&id, 1000).unwrap();
    assert_eq!(out.record.title, "Hello");
    assert_eq!(out.record.message, "World");
}

#[test]
fn admin_edit_missing_record() {
    let mut m = fresh();
    assert_eq!(
        m.edit_admin("no-such-id", "X", "Y", PW, 1000).unwrap_err(),
        PostError::NotFound
    );
}

#[test]
fn admin_delete_works_regardless_of_age() {
    let mut m = fresh();
    let created = m.create("Hello", "World", None, 1000, "tok-1").unwrap();
    let id = created.record.directory_id.clone();
    m.delete_admin(&id, PW).unwrap();
    assert_eq!(m.read(&id, 999999).unwrap_err(), PostError::NotFound);
}

#[test]
fn admin_delete_wrong_credential_changes_nothing() {
    let mut m = fresh();
    let created = m.create("Hello", "World", None, 1000, "tok-1").unwrap();
    let id = created.record.directory_id.clone();
    assert_eq!(m.delete_admin(&id, "wrong").unwrap_err(), PostError::Unauthorized);
    assert!(m.read(&id, 1000).is_ok());
}

#[test]
fn admin_delete_missing_record() {
    let mut m = fresh();
    assert_eq!(m.delete_admin("no-such-id", PW).unwrap_err(), PostError::NotFound);
}

#[test]
fn create_with_media_stores_canonical_reference() {
    let mut m = fresh();
    let created = m
        .create("Clip", "watch this", Some(MediaKind::Mp4), 1000, "tok-1")
        .unwrap();
    assert_eq!(created.record.media_reference.as_deref(), Some("media.mp4"));
    assert!(created.html.contains("<video"));
    assert!(created.html.contains("media.mp4"));
    let out = m.read(&created.record.directory_id, 1000).unwrap();
    assert_eq!(out.record.media_reference.as_deref(), Some("media.mp4"));
}

#[test]
fn identifier_carries_timestamp_and_token() {
    let mut m = fresh();
    let created = m.create("Hello", "World", None, 1234, "ab-cd").unwrap();
    assert_eq!(created.record.directory_id, "1234-ab-cd");
}

#[test]
fn unique_id_format_exact() {
    let id = post_lifecycle::codec::generate_unique_id(1234, "ab-cd");
    assert_eq!(id, "1234-ab-cd");
    let id0 = post_lifecycle::codec::generate_unique_id(0, "t");
    assert_eq!(id0, "0-t");
}

#[test]
fn encode_decode_round_trip() {
    let record = post_lifecycle::record::PostRecord {
        directory_id: String::from("9-x"),
        title: String::from("A & B"),
        message: String::from("line<1>"),
        media_reference: Some(String::from("media.png")),
        created_at: 9,
    };
    let encoded = post_lifecycle::codec::encode_record(&record);
    let back = post_lifecycle::codec::decode_record(&encoded).unwrap();
    assert_eq!(back.directory_id, record.directory_id);
    assert_eq!(back.title, record.title);
    assert_eq!(back.message, record.message);
    assert_eq!(back.media_reference, record.media_reference);
    assert_eq!(back.created_at, record.created_at);
}

#[test]
fn decode_rejects_garbage() {
    assert!(post_lifecycle::codec::decode_record("not an encoding").is_none());
    assert!(post_lifecycle::codec::decode_record("").is_none());
}
