use vstd::prelude::*;
use vstd::string::{StrSliceExecFns, StringExecFns};
use crate::media::MediaCategory;
use crate::record::{PostRecord, RecordView};
use crate::self_service_authorized;

verus! {

/// What text escaping turns one character into.
pub open spec fn escape_char(c: char) -> Seq<char> {
    if c == '&' {
        "&amp;"@
    } else if c == '<' {
        "&lt;"@
    } else if c == '>' {
        "&gt;"@
    } else {
        seq![c]
    }
}

/// Text escaping: every `&`, `<` and `>` replaced by its entity, every
/// other character kept.
pub open spec fn escape_text(s: Seq<char>) -> Seq<char>
    decreases s.len(),
{
    if s.len() == 0 {
        Seq::empty()
    } else {
        escape_char(s[0]) + escape_text(s.drop_first())
    }
}

/// Relies on html_escape::encode_text: it replaces exactly `&`, `<`
/// and `>` with `&amp;`, `&lt;` and `&gt;`, and keeps every other
/// character.
#[verifier::external_body]
pub(crate) fn encode_text(s: &str) -> (r: String)
    ensures
        r@ == escape_text(s@),
{
    html_escape::encode_text(s).into_owned()
}

/// The characters after the last `.`, or the whole name when it has
/// no `.`.
pub open spec fn ext_of(s: Seq<char>) -> Seq<char>
    decreases s.len(),
{
    if s.len() == 0 {
        Seq::empty()
    } else if s.last() == '.' {
        Seq::empty()
    } else {
        ext_of(s.drop_last()).push(s.last())
    }
}

/// The element a media reference is embedded with, decided by its file
/// extension.
pub open spec fn media_category_spec(path: Seq<char>) -> MediaCategory {
    if ext_of(path) == seq!['m', 'p', '4'] {
        MediaCategory::Video
    } else if ext_of(path) == seq!['m', 'p', '3'] {
        MediaCategory::Audio
    } else {
        MediaCategory::Image
    }
}

proof fn lemma_ext_of_after(s: Seq<char>, j: int)
    requires
        0 <= j < s.len(),
        s[j] == '.',
        forall|k: int| j < k < s.len() ==> s[k] != '.',
    ensures
        ext_of(s) == s.subrange(j + 1, s.len() as int),
    decreases s.len(),
{
    if j == s.len() - 1 {
        assert(s.subrange(j + 1, s.len() as int) =~= Seq::<char>::empty());
    } else {
        lemma_ext_of_after(s.drop_last(), j);
        assert(s.drop_last().subrange(j + 1, s.len() - 1).push(s.last()) =~= s.subrange(
            j + 1,
            s.len() as int,
        ));
    }
}

proof fn lemma_ext_of_whole(s: Seq<char>)
    requires
        forall|k: int| 0 <= k < s.len() ==> s[k] != '.',
    ensures
        ext_of(s) == s,
    decreases s.len(),
{
    if s.len() == 0 {
        assert(ext_of(s) =~= s);
    } else {
        lemma_ext_of_whole(s.drop_last());
        assert(s.drop_last().push(s.last()) =~= s);
    }
}

/// The position where the extension starts: just after the last `.`,
/// or the start of the name when it has no `.`.
fn ext_start(path: &str, len: usize) -> (r: usize)
    requires
        len == path@.len(),
    ensures
        r <= len,
        ext_of(path@) == path@.subrange(r as int, len as int),
{
    let mut i: usize = len;
    while i > 0
        invariant
            i <= len,
            len == path@.len(),
            forall|k: int| i <= k < len ==> path@[k] != '.',
        decreases i,
    {
        if path.get_char(i - 1) == '.' {
            proof {
                lemma_ext_of_after(path@, i - 1);
            }
            return i;
        }
        i = i - 1;
    }
    proof {
        lemma_ext_of_whole(path@);
        assert(path@.subrange(0, len as int) =~= path@);
    }
    0
}

/// Decides how a media reference is embedded, from its extension.
pub fn media_category(path: &str) -> (c: MediaCategory)
    ensures
        c == media_category_spec(path@),
{
    let len = path.unicode_len();
    let i = ext_start(path, len);
    let ghost ext = ext_of(path@);
    if len - i == 3 {
        let a = path.get_char(i);
        let b = path.get_char(i + 1);
        let c = path.get_char(i + 2);
        proof {
            assert(ext.len() == 3);
            assert(ext[0] == path@[i as int]);
            assert(ext[1] == path@[i as int + 1]);
            assert(ext[2] == path@[i as int + 2]);
        }
        if a == 'm' && b == 'p' && c == '4' {
            proof {
                assert(ext =~= seq!['m', 'p', '4']);
            }
            MediaCategory::Video
        } else if a == 'm' && b == 'p' && c == '3' {
            proof {
                assert(ext =~= seq!['m', 'p', '3']);
                assert(ext != seq!['m', 'p', '4']);
            }
            MediaCategory::Audio
        } else {
            proof {
                assert(ext != seq!['m', 'p', '4'] && ext != seq!['m', 'p', '3']);
            }
            MediaCategory::Image
        }
    } else {
        proof {
            assert(ext.len() != 3);
            assert(ext != seq!['m', 'p', '4'] && ext != seq!['m', 'p', '3']);
        }
        MediaCategory::Image
    }
}

/// The fragment that embeds a post's media file, or nothing.
pub open spec fn media_fragment_spec(media: Option<Seq<char>>) -> Seq<char> {
    match media {
        Option::None => Seq::empty(),
        Option::Some(path) => match media_category_spec(path) {
            MediaCategory::Video => "<div class=\"media-container\"><video controls><source src=\""@
                + path + "\" type=\"video/mp4\"></video></div>"@,
            MediaCategory::Audio => "<div class=\"media-container\"><audio controls><source src=\""@
                + path + "\" type=\"audio/mp3\"></audio></div>"@,
            MediaCategory::Image => "<div class=\"media-container\"><img src=\""@ + path
                + "\" alt=\"Image\" style=\"max-width: 400px; max-height: 400px; width: auto; height: auto;\" /></div>"@,
        },
    }
}

/// The self-service deletion control for the post named by `id`.
pub open spec fn delete_fragment_spec(id: Seq<char>) -> Seq<char> {
    "<div style=\"text-align: right; margin-top: 20px;\"><form action=\"/delete_post\" method=\"post\"><input type=\"hidden\" name=\"directory\" value=\""@
        + id
        + "\"><button type=\"submit\" style=\"background-color: red; color: white; padding: 5px 10px; border: none; border-radius: 3px; cursor: pointer;\">Delete</button></form></div>"@
}

/// A whole post page: escaped title and message, the media fragment,
/// and whatever mutation control the caller supplies.
pub open spec fn post_page_spec(
    title: Seq<char>,
    message: Seq<char>,
    media: Option<Seq<char>>,
    delete_option: Seq<char>,
) -> Seq<char> {
    "<!DOCTYPE html><html><head><meta charset=\"utf-8\"><title>"@ + escape_text(title)
        + "</title></head><body><h1>"@ + escape_text(title) + "</h1><div class=\"message\"><p>"@
        + escape_text(message) + "</p></div>"@ + media_fragment_spec(media) + delete_option
        + "</body></html>"@
}

/// Renders a post page. Title and message pass through escaping; the
/// media reference, when present, is embedded as the element its
/// extension calls for.
pub fn generate_post_html(
    title: &str,
    message: &str,
    media_path: Option<&str>,
    delete_option: &str,
) -> (r: String)
    ensures
        r@ == post_page_spec(
            title@,
            message@,
            match media_path {
                Option::Some(p) => Option::Some(p@),
                Option::None => Option::None,
            },
            delete_option@,
        ),
{
    let mut out = String::from_str("<!DOCTYPE html><html><head><meta charset=\"utf-8\"><title>");
    out.append(encode_text(title).as_str());
    out.append("</title></head><body><h1>");
    out.append(encode_text(title).as_str());
    out.append("</h1><div class=\"message\"><p>");
    out.append(encode_text(message).as_str());
    out.append("</p></div>");
    match media_path {
        Option::Some(p) => {
            match media_category(p) {
                MediaCategory::Video => {
                    out.append("<div class=\"media-container\"><video controls><source src=\"");
                    out.append(p);
                    out.append("\" type=\"video/mp4\"></video></div>");
                },
                MediaCategory::Audio => {
                    out.append("<div class=\"media-container\"><audio controls><source src=\"");
                    out.append(p);
                    out.append("\" type=\"audio/mp3\"></audio></div>");
                },
                MediaCategory::Image => {
                    out.append("<div class=\"media-container\"><img src=\"");
                    out.append(p);
                    out.append(
                        "\" alt=\"Image\" style=\"max-width: 400px; max-height: 400px; width: auto; height: auto;\" /></div>",
                    );
                },
            }
        },
        Option::None => {},
    }
    out.append(delete_option);
    out.append("</body></html>");
    proof {
        assert(out@ =~= post_page_spec(
            title@,
            message@,
            match media_path {
                Option::Some(p) => Option::Some(p@),
                Option::None => Option::None,
            },
            delete_option@,
        ));
    }
    out
}

/// The deletion control for `id`, present only while the self-service
/// window is open at `now`.
pub open spec fn delete_option_spec(id: Seq<char>, created_at: int, now: int) -> Seq<char> {
    if self_service_authorized(created_at, now) {
        delete_fragment_spec(id)
    } else {
        Seq::empty()
    }
}

fn delete_option_for(id: &str, created_at: i64, now: i64) -> (r: String)
    requires
        0 <= created_at,
        0 <= now,
    ensures
        r@ == delete_option_spec(id@, created_at as int, now as int),
{
    if now - created_at <= 120 {
        let mut out = String::from_str(
            "<div style=\"text-align: right; margin-top: 20px;\"><form action=\"/delete_post\" method=\"post\"><input type=\"hidden\" name=\"directory\" value=\"",
        );
        out.append(id);
        out.append(
            "\"><button type=\"submit\" style=\"background-color: red; color: white; padding: 5px 10px; border: none; border-radius: 3px; cursor: pointer;\">Delete</button></form></div>",
        );
        proof {
            assert(out@ =~= delete_fragment_spec(id@));
        }
        out
    } else {
        String::new()
    }
}

/// A record's page as served at time `now`: the deletion control is
/// present exactly while the self-service window is open.
pub open spec fn rendered_post_spec(r: RecordView, now: int) -> Seq<char> {
    post_page_spec(r.title, r.message, r.media, delete_option_spec(r.id, r.created_at, now))
}

/// Renders the page for a stored record as it is served at time `now`.
pub fn render_post(record: &PostRecord, now: i64) -> (out: String)
    requires
        0 <= record.created_at,
        0 <= now,
    ensures
        out@ == rendered_post_spec(record@, now as int),
{
    let delete_option = delete_option_for(record.directory_id.as_str(), record.created_at, now);
    let html = match &record.media_reference {
        Option::Some(m) => generate_post_html(
            record.title.as_str(),
            record.message.as_str(),
            Option::Some(m.as_str()),
            delete_option.as_str(),
        ),
        Option::None => generate_post_html(
            record.title.as_str(),
            record.message.as_str(),
            Option::None,
            delete_option.as_str(),
        ),
    };
    html
}

/// Rendering is deterministic: a record rendered twice at the same
/// time, with unchanged inputs, gives identical output.
pub proof fn lemma_render_idempotent(r: RecordView, now: int, a: Seq<char>, b: Seq<char>)
    requires
        a == rendered_post_spec(r, now),
        b == rendered_post_spec(r, now),
    ensures
        a == b,
{
}

} // verus!
