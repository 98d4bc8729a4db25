use vstd::prelude::*;
use vstd::string::{StrSliceExecFns, StringExecFns};
use crate::record::{PostRecord, RecordView};
use crate::render::escape_text;

verus! {

/// The background colour of the `i`-th entry on the front page.
pub open spec fn color_spec(i: int) -> Seq<char> {
    let j = i % 15;
    if j == 0 { "#1B263B"@ }
    else if j == 1 { "#3E92CC"@ }
    else if j == 2 { "#4E9F3D"@ }
    else if j == 3 { "#FF6700"@ }
    else if j == 4 { "#6A0572"@ }
    else if j == 5 { "#FFB400"@ }
    else if j == 6 { "#A5FFD6"@ }
    else if j == 7 { "#F72585"@ }
    else if j == 8 { "#7209B7"@ }
    else if j == 9 { "#3A86FF"@ }
    else if j == 10 { "#8338EC"@ }
    else if j == 11 { "#FB5607"@ }
    else if j == 12 { "#FF006E"@ }
    else if j == 13 { "#EF476F"@ }
    else { "#06D6A0"@ }
}

fn color_at(i: usize) -> (r: &'static str)
    ensures
        r@ == color_spec(i as int),
{
    let j = i % 15;
    if j == 0 { "#1B263B" }
    else if j == 1 { "#3E92CC" }
    else if j == 2 { "#4E9F3D" }
    else if j == 3 { "#FF6700" }
    else if j == 4 { "#6A0572" }
    else if j == 5 { "#FFB400" }
    else if j == 6 { "#A5FFD6" }
    else if j == 7 { "#F72585" }
    else if j == 8 { "#7209B7" }
    else if j == 9 { "#3A86FF" }
    else if j == 10 { "#8338EC" }
    else if j == 11 { "#FB5607" }
    else if j == 12 { "#FF006E" }
    else if j == 13 { "#EF476F" }
    else { "#06D6A0" }
}

/// One front-page entry: a link to the post, coloured by its position,
/// showing the escaped title.
pub open spec fn index_entry_spec(r: RecordView, i: int) -> Seq<char> {
    "<div class=\"post-title\"><a href=\"/articles/"@ + r.id
        + "/\" class=\"title-button\" style=\"background-color:"@ + color_spec(i) + ";\">"@
        + escape_text(r.title) + "</a></div>"@
}

/// The first `k` front-page entries, most recent record first.
pub open spec fn index_titles_spec(posts: Seq<RecordView>, k: nat) -> Seq<char>
    decreases k,
{
    if k == 0 || k > posts.len() {
        Seq::empty()
    } else {
        index_titles_spec(posts, (k - 1) as nat) + index_entry_spec(
            posts[posts.len() - k],
            k - 1,
        )
    }
}

/// The front page listing every post.
pub open spec fn index_page_spec(posts: Seq<RecordView>) -> Seq<char> {
    "<!DOCTYPE html><html><head><meta charset=\"utf-8\"><title>Posts</title></head><body><h1>Posts</h1>"@
        + index_titles_spec(posts, posts.len()) + "</body></html>"@
}

/// Renders the front page: one link per record, walking the given
/// list backwards, so a list in ascending creation order reads most
/// recent first.
pub fn index(posts: &Vec<PostRecord>) -> (out: String)
    ensures
        out@ == index_page_spec(posts@.map_values(|p: PostRecord| p@)),
{
    let ghost views = posts@.map_values(|p: PostRecord| p@);
    let mut out = String::from_str(
        "<!DOCTYPE html><html><head><meta charset=\"utf-8\"><title>Posts</title></head><body><h1>Posts</h1>",
    );
    let ghost head = out@;
    let n = posts.len();
    let mut j: usize = 0;
    while j < n
        invariant
            j <= n,
            n == posts@.len(),
            views == posts@.map_values(|p: PostRecord| p@),
            out@ == head + index_titles_spec(views, j as nat),
        decreases n - j,
    {
        let post = &posts[n - 1 - j];
        out.append("<div class=\"post-title\"><a href=\"/articles/");
        out.append(post.directory_id.as_str());
        out.append("/\" class=\"title-button\" style=\"background-color:");
        out.append(color_at(j));
        out.append(";\">");
        out.append(crate::render::encode_text(post.title.as_str()).as_str());
        out.append("</a></div>");
        proof {
            assert(views[n - 1 - j as int] == posts@[n - 1 - j as int]@);
            assert(out@ =~= head + index_titles_spec(views, (j + 1) as nat));
        }
        j = j + 1;
    }
    out.append("</body></html>");
    proof {
        assert(out@ =~= index_page_spec(views));
    }
    out
}

/// The static form for submitting a new post.
pub open spec fn new_post_form_spec() -> Seq<char> {
    "<!DOCTYPE html><html><head><meta charset=\"utf-8\"><title>New post</title></head><body><h1>New post</h1><form action=\"/submit\" method=\"post\" enctype=\"multipart/form-data\"><input type=\"text\" name=\"title\"><textarea name=\"message\"></textarea><input type=\"file\" name=\"media\"><button type=\"submit\">Post</button></form></body></html>"@
}

/// The page that offers the submission form.
pub fn new_post_form() -> (out: String)
    ensures
        out@ == new_post_form_spec(),
{
    String::from_str(
        "<!DOCTYPE html><html><head><meta charset=\"utf-8\"><title>New post</title></head><body><h1>New post</h1><form action=\"/submit\" method=\"post\" enctype=\"multipart/form-data\"><input type=\"text\" name=\"title\"><textarea name=\"message\"></textarea><input type=\"file\" name=\"media\"><button type=\"submit\">Post</button></form></body></html>",
    )
}

/// An error page carrying the escaped message.
pub open spec fn error_page_spec(msg: Seq<char>) -> Seq<char> {
    "<!DOCTYPE html><html><head><meta charset=\"utf-8\"><title>Error</title></head><body><h1>Error</h1><p>"@
        + escape_text(msg) + "</p></body></html>"@
}

/// Renders the page shown for a failed request.
pub fn error(msg: &str) -> (out: String)
    ensures
        out@ == error_page_spec(msg@),
{
    let mut out = String::from_str(
        "<!DOCTYPE html><html><head><meta charset=\"utf-8\"><title>Error</title></head><body><h1>Error</h1><p>",
    );
    out.append(crate::render::encode_text(msg).as_str());
    out.append("</p></body></html>");
    proof {
        assert(out@ =~= error_page_spec(msg@));
    }
    out
}

/// The paths the administrative surface is mounted on.
pub fn routes() -> (r: Vec<String>)
    ensures
        r@.len() == 3,
        r@[0]@ == "/"@,
        r@[1]@ == "/edit"@,
        r@[2]@ == "/delete"@,
{
    let mut v: Vec<String> = Vec::new();
    v.push(String::from_str("/"));
    v.push(String::from_str("/edit"));
    v.push(String::from_str("/delete"));
    v
}

} // verus!
