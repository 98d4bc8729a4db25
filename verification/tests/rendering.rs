use post_lifecycle::manager::PostLifecycleManager;
use post_lifecycle::media::MediaKind;
use post_lifecycle::pages::{error, index, new_post_form, routes};
use post_lifecycle::render::generate_post_html;
use post_lifecycle::errors::PostError;

#[test]
fn title_and_message_are_escaped() {
    let html = generate_post_html("A & B <i>", "x > y", None, "");
    assert!(html.contains("A &amp; B &lt;i&gt;"));
    assert!(html.contains("x &gt; y"));
    assert!(!html.contains("<i>"));
}

#[test]
fn media_element_follows_extension_category() {
    let video = generate_post_html("t", "m", Some("media.mp4"), "");
    assert!(video.contains("<video"));
    assert!(video.contains("media.mp4"));
    let audio = generate_post_html("t", "m", Some("media.mp3"), "");
    assert!(audio.contains("<audio"));
    let image = generate_post_html("t", "m", Some("media.jpg"), "");
    assert!(image.contains("<img"));
    assert!(!image.contains("<video"));
}

#[test]
fn rendering_is_idempotent() {
    let a = generate_post_html("Hello & Co", "World > all", Some("media.png"), "frag");
    let b = generate_post_html("Hello & Co", "World > all", Some("media.png"), "frag");
    assert_eq!(a, b);
}

#[test]
fn read_rendering_is_idempotent() {
    let mut m = PostLifecycleManager::open_temporary(String::from("admin-pw")).unwrap();
    let created = m.create("Hello", "World", None, 1000, "tok-1").unwrap();
    let id = created.record.directory_id.clone();
    let first = m.read(&id, 1050).unwrap().html;
    let second = m.read(&id, 1050).unwrap().html;
    assert_eq!(first, second);
}

#[test]
fn fresh_post_page_offers_delete_old_page_does_not() {
    let mut m = PostLifecycleManager::open_temporary(String::from("admin-pw")).unwrap();
    let created = m.create("Hello", "World", None, 1000, "tok-1").unwrap();
    let id = created.record.directory_id.clone();
    let young = m.read(&id, 1010).unwrap().html;
    assert!(young.contains("/delete_post"));
    let old = m.read(&id, 5000).unwrap().html;
    assert!(!old.contains("/delete_post"));
}

#[test]
fn escaped_content_on_created_page() {
    let mut m = PostLifecycleManager::open_temporary(String::from("admin-pw")).unwrap();
    let created = m
        .create("Tag <b>", "1 < 2 & 3 > 2", None, 1000, "tok-1")
        .unwrap();
    assert!(created.html.contains("Tag &lt;b&gt;"));
    assert!(created.html.contains("1 &lt; 2 &amp; 3 &gt; 2"));
}

#[test]
fn index_lists_posts_most_recent_first() {
    let mut m = PostLifecycleManager::open_temporary(String::from("admin-pw")).unwrap();
    m.create("First & oldest", "a", None, 1000, "tok-1").unwrap();
    m.create("Second", "b", Some(MediaKind::Png), 2000, "tok-2").unwrap();
    let posts = m.get_posts().unwrap();
    assert_eq!(posts.len(), 2);
    let page = index(&posts);
    assert!(page.contains("First &amp; oldest"));
    assert!(page.contains("Second"));
    let older = posts.iter().find(|p| p.title == "First & oldest").unwrap();
    let newer = posts.iter().find(|p| p.title == "Second").unwrap();
    let older_at = page.find(&older.directory_id).unwrap();
    let newer_at = page.find(&newer.directory_id).unwrap();
    assert!(newer_at < older_at);
}

#[test]
fn error_page_escapes_message() {
    let page = error("bad <script>");
    assert!(page.contains("bad &lt;script&gt;"));
    assert!(!page.contains("<script>"));
}

#[test]
fn error_messages_are_distinct() {
    let all = [
        PostError::DuplicateTitle,
        PostError::MissingField,
        PostError::MediaTooLarge,
        PostError::UnsupportedMediaType,
        PostError::MediaReadFailure,
        PostError::StorageFailure,
        PostError::NotFound,
        PostError::Unauthorized,
        PostError::WindowExpired,
    ];
    for i in 0..all.len() {
        for j in 0..all.len() {
            if i != j {
                assert_ne!(all[i].message(), all[j].message());
            }
        }
    }
}

#[test]
fn submission_form_targets_submit_route() {
    let form = new_post_form();
    assert!(form.contains("/submit"));
    assert!(form.contains("name=\"title\""));
    assert!(form.contains("name=\"message\""));
    assert!(form.contains("name=\"media\""));
}

#[test]
fn admin_routes_list() {
    let r = routes();
    assert_eq!(r, vec!["/", "/edit", "/delete"]);
}
