use post_lifecycle::errors::PostError;
use post_lifecycle::manager::PostLifecycleManager;
use post_lifecycle::media::{check_media_size, classify_media, media_file_name, MediaKind};

#[test]
fn spoofed_text_upload_rejected_no_post_created() {
    let bytes: Vec<u8> = b"just some plain text pretending to be photo.jpg".to_vec();
    let verdict = classify_media(&bytes);
    assert_eq!(verdict.unwrap_err(), PostError::UnsupportedMediaType);

    let mut m = PostLifecycleManager::open_temporary(String::from("admin-pw")).unwrap();
    if classify_media(&bytes).is_ok() {
        m.create("Photo", "look", Some(MediaKind::Jpeg), 1000, "tok-1").unwrap();
    }
    assert_eq!(m.get_posts().unwrap().len(), 0);
}

#[test]
fn jpeg_bytes_sniffed_as_jpeg() {
    let mut bytes: Vec<u8> = vec![0xFF, 0xD8, 0xFF, 0xE0];
    bytes.extend_from_slice(&[0u8; 32]);
    let kind = classify_media(&bytes).unwrap();
    assert_eq!(kind, MediaKind::Jpeg);
    assert_eq!(media_file_name(kind), "media.jpg");
}

#[test]
fn png_bytes_sniffed_as_png() {
    let mut bytes: Vec<u8> = vec![0x89, 0x50, 0x4E, 0x47, 0x0D, 0x0A, 0x1A, 0x0A];
    bytes.extend_from_slice(&[0u8; 32]);
    let kind = classify_media(&bytes).unwrap();
    assert_eq!(kind, MediaKind::Png);
    assert_eq!(media_file_name(kind), "media.png");
}

#[test]
fn gif_bytes_sniffed_as_gif() {
    let mut bytes: Vec<u8> = b"GIF89a".to_vec();
    bytes.extend_from_slice(&[0u8; 32]);
    let kind = classify_media(&bytes).unwrap();
    assert_eq!(kind, MediaKind::Gif);
    assert_eq!(media_file_name(kind), "media.gif");
}

#[test]
fn oversized_upload_rejected() {
    let bytes: Vec<u8> = vec![0u8; 20 * 1024 * 1024 + 1];
    assert_eq!(classify_media(&bytes).unwrap_err(), PostError::MediaTooLarge);
}

#[test]
fn size_ceiling_boundary() {
    assert!(check_media_size(20 * 1024 * 1024).is_ok());
    assert_eq!(
        check_media_size(20 * 1024 * 1024 + 1).unwrap_err(),
        PostError::MediaTooLarge
    );
}

#[test]
fn canonical_names_follow_kind() {
    assert_eq!(media_file_name(MediaKind::Webp), "media.webp");
    assert_eq!(media_file_name(MediaKind::Bmp), "media.bmp");
    assert_eq!(media_file_name(MediaKind::Mp4), "media.mp4");
    assert_eq!(media_file_name(MediaKind::Mp3), "media.mp3");
}
