use vstd::prelude::*;
use vstd::string::StringExecFns;
use crate::errors::PostError;

verus! {

/// Largest accepted upload, in bytes.
pub const MAX_MEDIA_BYTES: u64 = 20971520;

/// The accepted media types, as decided by sniffing the uploaded bytes.
#[derive(Clone, Copy, Debug, PartialEq, Eq, Structural)]
pub enum MediaKind {
    Jpeg,
    Png,
    Gif,
    Webp,
    Bmp,
    Mp4,
    Mp3,
}

/// How a media file is embedded in the rendered page.
#[derive(Clone, Copy, Debug, PartialEq, Eq, Structural)]
pub enum MediaCategory {
    Image,
    Video,
    Audio,
}

/// The MIME type each accepted kind stands for.
pub open spec fn mime_of_kind(k: MediaKind) -> Seq<char> {
    match k {
        MediaKind::Jpeg => "image/jpeg"@,
        MediaKind::Png => "image/png"@,
        MediaKind::Gif => "image/gif"@,
        MediaKind::Webp => "image/webp"@,
        MediaKind::Bmp => "image/bmp"@,
        MediaKind::Mp4 => "video/mp4"@,
        MediaKind::Mp3 => "audio/mpeg"@,
    }
}

/// The canonical file extension of each accepted kind.
pub open spec fn extension_of_kind(k: MediaKind) -> Seq<char> {
    match k {
        MediaKind::Jpeg => "jpg"@,
        MediaKind::Png => "png"@,
        MediaKind::Gif => "gif"@,
        MediaKind::Webp => "webp"@,
        MediaKind::Bmp => "bmp"@,
        MediaKind::Mp4 => "mp4"@,
        MediaKind::Mp3 => "mp3"@,
    }
}

/// The element category each accepted kind is rendered with.
pub open spec fn category_of_kind(k: MediaKind) -> MediaCategory {
    match k {
        MediaKind::Mp4 => MediaCategory::Video,
        MediaKind::Mp3 => MediaCategory::Audio,
        _ => MediaCategory::Image,
    }
}

/// The canonical name a stored media file carries inside its post's
/// directory: `media.` followed by the sniffed kind's extension.
pub open spec fn media_name_spec(k: MediaKind) -> Seq<char> {
    "media."@ + extension_of_kind(k)
}

/// The MIME type that byte sniffing reports for a buffer, if any.
pub uninterp spec fn sniffed_mime(bytes: Seq<u8>) -> Option<Seq<char>>;

/// Relies on infer::get and infer::Type::mime_type: the reported MIME
/// type is decided by the buffer's leading bytes alone, against a fixed
/// table of signatures, or absent when no signature matches.
#[verifier::external_body]
fn sniff_mime(content: &Vec<u8>) -> (r: Option<String>)
    ensures
        match r {
            Option::Some(m) => sniffed_mime(content@) == Option::Some(m@),
            Option::None => sniffed_mime(content@) is None,
        },
{
    match infer::get(content) {
        Option::Some(t) => Option::Some(String::from(t.mime_type())),
        Option::None => Option::None,
    }
}

/// The accepted kind a sniffed MIME type stands for, if any.
pub open spec fn accepted_kind_of(m: Option<Seq<char>>) -> Option<MediaKind> {
    match m {
        Option::None => Option::None,
        Option::Some(s) => if s == mime_of_kind(MediaKind::Jpeg) {
            Option::Some(MediaKind::Jpeg)
        } else if s == mime_of_kind(MediaKind::Png) {
            Option::Some(MediaKind::Png)
        } else if s == mime_of_kind(MediaKind::Gif) {
            Option::Some(MediaKind::Gif)
        } else if s == mime_of_kind(MediaKind::Webp) {
            Option::Some(MediaKind::Webp)
        } else if s == mime_of_kind(MediaKind::Bmp) {
            Option::Some(MediaKind::Bmp)
        } else if s == mime_of_kind(MediaKind::Mp4) {
            Option::Some(MediaKind::Mp4)
        } else if s == mime_of_kind(MediaKind::Mp3) {
            Option::Some(MediaKind::Mp3)
        } else {
            Option::None
        },
    }
}

/// Rejects a claimed upload size above the ceiling, before any bytes
/// are read.
pub fn check_media_size(len: u64) -> (r: Result<(), PostError>)
    ensures
        r matches Ok(u) <==> len <= MAX_MEDIA_BYTES,
        r matches Err(e) ==> e == PostError::MediaTooLarge,
{
    if len > MAX_MEDIA_BYTES {
        Err(PostError::MediaTooLarge)
    } else {
        Ok(())
    }
}

/// Validates an upload: the bytes must fit the ceiling and carry one of
/// the accepted signatures. The claimed content type and the client's
/// file name play no part.
pub fn classify_media(content: &Vec<u8>) -> (r: Result<MediaKind, PostError>)
    ensures
        match r {
            Ok(k) => content@.len() <= MAX_MEDIA_BYTES && accepted_kind_of(
                sniffed_mime(content@),
            ) == Option::Some(k),
            Err(e) => (e == PostError::MediaTooLarge && content@.len() > MAX_MEDIA_BYTES) || (e
                == PostError::UnsupportedMediaType && content@.len() <= MAX_MEDIA_BYTES
                && accepted_kind_of(sniffed_mime(content@)) is None),
        },
{
    if content.len() as u64 > MAX_MEDIA_BYTES {
        return Err(PostError::MediaTooLarge);
    }
    let mime = match sniff_mime(content) {
        Option::Some(m) => m,
        Option::None => { return Err(PostError::UnsupportedMediaType); },
    };
    if mime == String::from_str("image/jpeg") {
        Ok(MediaKind::Jpeg)
    } else if mime == String::from_str("image/png") {
        Ok(MediaKind::Png)
    } else if mime == String::from_str("image/gif") {
        Ok(MediaKind::Gif)
    } else if mime == String::from_str("image/webp") {
        Ok(MediaKind::Webp)
    } else if mime == String::from_str("image/bmp") {
        Ok(MediaKind::Bmp)
    } else if mime == String::from_str("video/mp4") {
        Ok(MediaKind::Mp4)
    } else if mime == String::from_str("audio/mpeg") {
        Ok(MediaKind::Mp3)
    } else {
        Err(PostError::UnsupportedMediaType)
    }
}

/// The canonical file name for a validated upload.
pub fn media_file_name(k: MediaKind) -> (r: String)
    ensures
        r@ == media_name_spec(k),
{
    let mut out = String::from_str("media.");
    let ext: &'static str = match k {
        MediaKind::Jpeg => "jpg",
        MediaKind::Png => "png",
        MediaKind::Gif => "gif",
        MediaKind::Webp => "webp",
        MediaKind::Bmp => "bmp",
        MediaKind::Mp4 => "mp4",
        MediaKind::Mp3 => "mp3",
    };
    out.append(ext);
    out
}

/// A validated upload is always stored under a name whose extension is
/// decided by the sniffed kind, never by anything the client supplied.
pub proof fn lemma_media_name_matches_sniff(bytes: Seq<u8>, k: MediaKind)
    requires
        accepted_kind_of(sniffed_mime(bytes)) == Option::Some(k),
    ensures
        sniffed_mime(bytes) == Option::Some(mime_of_kind(k)),
        media_name_spec(k) == "media."@ + extension_of_kind(k),
{
}

} // verus!
