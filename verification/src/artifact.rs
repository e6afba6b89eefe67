//! The files that stand for a piece of content: a URL bookmark, an HTML
//! snapshot, a Markdown note and a marker image. This module says what each
//! file is called and what it holds; writing it is the caller's part.

use crate::document::text_model;
use crate::render::{render, rendered_document};
use crate::sanitize::{sanitize, sanitized};
use crate::strip::{strip, stripped};
use crate::structured::{
    is_structured_format, looks_structured, read_document, structured_document,
};
use crate::text::{
    chars_of, contains_chars, contains_seq, push_str, string_of, trim, trim_chars,
};
use vstd::prelude::*;

verus! {

/// A file to write: its name inside the workspace and its text.
#[derive(Debug, PartialEq, Eq)]
pub struct Artifact {
    pub file_name: String,
    pub body: String,
}

/// What to do with a path that the caller wants removed.
#[derive(Clone, Copy, Debug, PartialEq, Eq)]
pub enum Cleanup {
    /// The path lies in the workspace: delete the file.
    Delete,
    /// The path does not name the workspace: leave it, and report success.
    Ignore,
}

/// Why a file of the workspace could not be made or removed. Each failure
/// carries the text of the cause.
#[derive(Debug, PartialEq, Eq)]
pub enum FileError {
    /// The workspace directory could not be created.
    CreateDirectory(String),
    /// The file could not be written.
    Write(String),
    /// The file could not be deleted.
    Delete(String),
}

impl FileError {
    /// The failure as a sentence.
    pub open spec fn text(self) -> Seq<char> {
        match self {
            FileError::CreateDirectory(cause) => "Failed to create temp dir: "@ + cause@,
            FileError::Write(cause) => "Failed to write file: "@ + cause@,
            FileError::Delete(cause) => "Failed to delete file: "@ + cause@,
        }
    }

    /// The failure as a sentence: what failed, and the cause.
    pub fn message(&self) -> (r: String)
        ensures
            r@ == self.text(),
    {
        let mut out: Vec<char> = Vec::new();
        match self {
            FileError::CreateDirectory(cause) => {
                push_str(&mut out, "Failed to create temp dir: ");
                push_str(&mut out, cause.as_str());
            },
            FileError::Write(cause) => {
                push_str(&mut out, "Failed to write file: ");
                push_str(&mut out, cause.as_str());
            },
            FileError::Delete(cause) => {
                push_str(&mut out, "Failed to delete file: ");
                push_str(&mut out, cause.as_str());
            },
        }
        assert(out@ =~= self.text());
        string_of(&out)
    }
}

/// The Markdown of `content`: rendered from the structured format where
/// `content` has its shape and, trimmed, parses as a document; stripped as
/// HTML otherwise.
pub open spec fn converted(content: Seq<char>) -> Seq<char> {
    if looks_structured(content) {
        match structured_document(trim(content)) {
            Some(document) => rendered_document(document),
            None => stripped(content),
        }
    } else {
        stripped(content)
    }
}

/// What stands for `c` in the text of a bookmark file.
pub open spec fn xml_char(c: char) -> Seq<char> {
    if c == '&' {
        "&amp;"@
    } else if c == '<' {
        "&lt;"@
    } else if c == '>' {
        "&gt;"@
    } else {
        seq![c]
    }
}

/// What stands for `c` in the text of an HTML page.
pub open spec fn html_char(c: char) -> Seq<char> {
    if c == '"' {
        "&quot;"@
    } else if c == '\'' {
        "&#39;"@
    } else {
        xml_char(c)
    }
}

/// `s` with `&`, `<` and `>` written as entities.
pub open spec fn xml_escaped(s: Seq<char>) -> Seq<char>
    decreases s.len(),
{
    if s.len() == 0 {
        Seq::empty()
    } else {
        xml_escaped(s.drop_last()) + xml_char(s.last())
    }
}

/// `s` with `&`, `<`, `>`, `"` and `'` written as entities.
pub open spec fn html_escaped(s: Seq<char>) -> Seq<char>
    decreases s.len(),
{
    if s.len() == 0 {
        Seq::empty()
    } else {
        html_escaped(s.drop_last()) + html_char(s.last())
    }
}

/// The text of the bookmark file for `url`: a property list with the one
/// key `URL`.
pub open spec fn bookmark_page(url: Seq<char>) -> Seq<char> {
    "<?xml version=\"1.0\" encoding=\"UTF-8\"?>\n<!DOCTYPE plist PUBLIC \"-//Apple//DTD PLIST 1.0//EN\" \"http://www.apple.com/DTDs/PropertyList-1.0.dtd\">\n<plist version=\"1.0\">\n<dict>\n\t<key>URL</key>\n\t<string>"@
        + xml_escaped(url) + "</string>\n</dict>\n</plist>\n"@
}

/// `open`, the value and `close`, or nothing where no value was given.
pub open spec fn block(open: Seq<char>, value: Option<Seq<char>>, close: Seq<char>) -> Seq<char> {
    match value {
        Some(v) => open + v + close,
        None => Seq::empty(),
    }
}

/// `value` escaped for HTML, if it was given.
pub open spec fn escaped_if_given(value: Option<Seq<char>>) -> Option<Seq<char>> {
    match value {
        Some(v) => Some(html_escaped(v)),
        None => None,
    }
}

/// The head of a snapshot page: the redirect to `url`, the title and the
/// stylesheet. Both values stand as they are given.
pub open spec fn snapshot_head(url: Seq<char>, title: Seq<char>) -> Seq<char> {
    "<!DOCTYPE html>\n<html>\n<head>\n<meta charset=\"utf-8\">\n<meta http-equiv=\"refresh\" content=\"0; url="@
        + url + "\">\n<title>"@ + title
        + "</title>\n<style>\nbody { font-family: -apple-system, BlinkMacSystemFont, \"Segoe UI\", sans-serif; max-width: 720px; margin: 40px auto; padding: 0 20px; line-height: 1.6; color: #222; }\nh1 { font-size: 1.6em; }\nimg { max-width: 100%; border-radius: 8px; }\n.description { color: #555; }\n.notes { border-left: 3px solid #ccc; padding-left: 12px; color: #444; }\na { color: #0a58ca; }\n</style>\n</head>\n"@
}

/// The text of a snapshot page: a standalone HTML document that redirects
/// to `url` and shows the title as a link, then the image, the
/// description, the content and the notes, each only if given. All but the
/// content is escaped; the content is HTML and stands as it is.
pub open spec fn snapshot_page(
    url: Seq<char>,
    title: Seq<char>,
    description: Option<Seq<char>>,
    image_url: Option<Seq<char>>,
    content_html: Option<Seq<char>>,
    notes: Option<Seq<char>>,
) -> Seq<char> {
    snapshot_head(html_escaped(url), html_escaped(title)) + "<body>\n<h1><a href=\""@
        + html_escaped(url) + "\">"@
        + html_escaped(title) + "</a></h1>\n"@ + block(
        "<img src=\""@,
        escaped_if_given(image_url),
        "\" alt=\"\">\n"@,
    ) + block("<p class=\"description\">"@, escaped_if_given(description), "</p>\n"@) + block(
        "<div class=\"content\">"@,
        content_html,
        "</div>\n"@,
    ) + block("<div class=\"notes\">"@, escaped_if_given(notes), "</div>\n"@)
        + "</body>\n</html>\n"@
}

/// The text of a note: the title as a heading, a blank line, and the
/// Markdown of the content.
pub open spec fn note_page(title: Seq<char>, content: Seq<char>) -> Seq<char> {
    "# "@ + title + "\n\n"@ + converted(content)
}

/// The bytes of the marker image: a PNG of one transparent pixel.
pub open spec fn marker_image() -> Seq<u8> {
    seq![
        137u8, 80, 78, 71, 13, 10, 26, 10, 0, 0, 0, 13, 73, 72, 68, 82, 0, 0, 0, 1, 0, 0, 0, 1, 8,
        6, 0, 0, 0, 31, 21, 196, 137, 0, 0, 0, 11, 73, 68, 65, 84, 120, 218, 99, 96, 0, 2, 0, 0, 5,
        0, 1, 233, 250, 220, 216, 0, 0, 0, 0, 73, 69, 78, 68, 174, 66, 96, 130,
    ]
}

/// The characters of an optional string.
pub open spec fn given(o: Option<&str>) -> Option<Seq<char>> {
    match o {
        Some(s) => Some(s@),
        None => None,
    }
}

/// `c` is none of `<`, `>`, `"` and `'`.
pub open spec fn is_plain(c: char) -> bool {
    c != '<' && c != '>' && c != '"' && c != '\''
}

/// Text escaped for a bookmark file holds no `<` and no `>`.
pub proof fn lemma_xml_escaped_has_no_angle(s: Seq<char>)
    ensures
        forall|i: int|
            0 <= i < xml_escaped(s).len() ==> (#[trigger] xml_escaped(s)[i]) != '<'
                && xml_escaped(s)[i] != '>',
    decreases s.len(),
{
    reveal_strlit("&amp;");
    reveal_strlit("&lt;");
    reveal_strlit("&gt;");
    if s.len() > 0 {
        lemma_xml_escaped_has_no_angle(s.drop_last());
        let before = xml_escaped(s.drop_last());
        let piece = xml_char(s.last());
        let r = xml_escaped(s);
        assert forall|i: int| 0 <= i < r.len() implies (#[trigger] r[i]) != '<' && r[i]
            != '>' by {
            if i < before.len() {
                assert(r[i] == before[i]);
            } else {
                assert(r[i] == piece[i - before.len()]);
            }
        }
    }
}

/// Text escaped for an HTML page holds none of `<`, `>`, `"` and `'`.
pub proof fn lemma_html_escaped_is_plain(s: Seq<char>)
    ensures
        forall|i: int| 0 <= i < html_escaped(s).len() ==> is_plain(#[trigger] html_escaped(s)[i]),
    decreases s.len(),
{
    reveal_strlit("&amp;");
    reveal_strlit("&lt;");
    reveal_strlit("&gt;");
    reveal_strlit("&quot;");
    reveal_strlit("&#39;");
    if s.len() > 0 {
        lemma_html_escaped_is_plain(s.drop_last());
        let before = html_escaped(s.drop_last());
        let piece = html_char(s.last());
        let r = html_escaped(s);
        assert forall|i: int| 0 <= i < r.len() implies is_plain(#[trigger] r[i]) by {
            if i < before.len() {
                assert(r[i] == before[i]);
            } else {
                assert(r[i] == piece[i - before.len()]);
            }
        }
    }
}

/// Appends what stands for `c` in a bookmark file.
fn push_xml_char(out: &mut Vec<char>, c: char)
    ensures
        final(out)@ == old(out)@ + xml_char(c),
{
    if c == '&' {
        push_str(out, "&amp;");
    } else if c == '<' {
        push_str(out, "&lt;");
    } else if c == '>' {
        push_str(out, "&gt;");
    } else {
        out.push(c);
        assert(out@ =~= old(out)@ + seq![c]);
    }
}

/// `s` with `&`, `<` and `>` written as entities.
pub fn escape_xml(s: &str) -> (r: String)
    ensures
        r@ == xml_escaped(s@),
{
    let src = chars_of(s);
    let mut out: Vec<char> = Vec::new();
    let mut i: usize = 0;
    while i < src.len()
        invariant
            i <= src.len(),
            src@ == s@,
            out@ == xml_escaped(s@.take(i as int)),
        decreases src.len() - i,
    {
        assert(s@.take(i + 1).drop_last() =~= s@.take(i as int));
        push_xml_char(&mut out, src[i]);
        i += 1;
    }
    assert(s@.take(src.len() as int) =~= s@);
    string_of(&out)
}

/// `s` with `&`, `<`, `>`, `"` and `'` written as entities.
pub fn escape_html(s: &str) -> (r: String)
    ensures
        r@ == html_escaped(s@),
{
    let src = chars_of(s);
    let mut out: Vec<char> = Vec::new();
    let mut i: usize = 0;
    while i < src.len()
        invariant
            i <= src.len(),
            src@ == s@,
            out@ == html_escaped(s@.take(i as int)),
        decreases src.len() - i,
    {
        assert(s@.take(i + 1).drop_last() =~= s@.take(i as int));
        let c = src[i];
        if c == '"' {
            push_str(&mut out, "&quot;");
        } else if c == '\'' {
            push_str(&mut out, "&#39;");
        } else {
            push_xml_char(&mut out, c);
        }
        i += 1;
    }
    assert(s@.take(src.len() as int) =~= s@);
    string_of(&out)
}

/// Converts content to Markdown: where the content has the shape of the
/// structured format and, trimmed, parses as a document, the document is
/// rendered; any other content is stripped as HTML. Never fails.
pub fn convert(content: &str) -> (r: String)
    ensures
        r@ == converted(content@),
{
    if is_structured_format(content) {
        let src = chars_of(content);
        let trimmed = string_of(&trim_chars(&src));
        match read_document(trimmed.as_str()) {
            Some(document) => render(&document),
            None => strip(content),
        }
    } else {
        strip(content)
    }
}

/// `name` sanitized, with `extension` after it.
fn file_name(title: &str, extension: &str) -> (r: String)
    ensures
        r@ == sanitized(title@) + extension@,
{
    let mut out = chars_of(sanitize(title).as_str());
    push_str(&mut out, extension);
    string_of(&out)
}

/// The bookmark file for `url`: named after the sanitized title, with the
/// URL, escaped, in a property list.
pub fn bookmark_artifact(url: &str, title: &str) -> (a: Artifact)
    ensures
        a.file_name@ == sanitized(title@) + ".webloc"@,
        a.body@ == bookmark_page(url@),
{
    let mut out: Vec<char> = Vec::new();
    push_str(
        &mut out,
        "<?xml version=\"1.0\" encoding=\"UTF-8\"?>\n<!DOCTYPE plist PUBLIC \"-//Apple//DTD PLIST 1.0//EN\" \"http://www.apple.com/DTDs/PropertyList-1.0.dtd\">\n<plist version=\"1.0\">\n<dict>\n\t<key>URL</key>\n\t<string>",
    );
    push_str(&mut out, escape_xml(url).as_str());
    push_str(&mut out, "</string>\n</dict>\n</plist>\n");
    assert(out@ =~= bookmark_page(url@));
    Artifact { file_name: file_name(title, ".webloc"), body: string_of(&out) }
}

/// Appends `open`, the value and `close`, or nothing where no value is
/// given.
fn push_block(out: &mut Vec<char>, open: &str, value: &Option<String>, close: &str)
    ensures
        final(out)@ == old(out)@ + block(open@, text_model(*value), close@),
{
    match value {
        Some(v) => {
            push_str(out, open);
            push_str(out, v.as_str());
            push_str(out, close);
            assert(out@ =~= old(out)@ + (open@ + v@ + close@));
        },
        None => {
            assert(out@ =~= old(out)@ + Seq::<char>::empty());
        },
    }
}

/// `value` escaped for HTML, if it is given.
fn escape_if_given(value: Option<&str>) -> (r: Option<String>)
    ensures
        text_model(r) == escaped_if_given(given(value)),
{
    match value {
        Some(v) => Some(escape_html(v)),
        None => None,
    }
}

/// An owned copy of `value`, if it is given.
fn owned_if_given(value: Option<&str>) -> (r: Option<String>)
    ensures
        text_model(r) == given(value),
{
    match value {
        Some(v) => Some(string_of(&chars_of(v))),
        None => None,
    }
}

/// The head of a snapshot page, with `url` and `title` as they are given.
fn snapshot_head_chars(url: &str, title: &str) -> (r: Vec<char>)
    ensures
        r@ == snapshot_head(url@, title@),
{
    let mut out: Vec<char> = Vec::new();
    push_str(
        &mut out,
        "<!DOCTYPE html>\n<html>\n<head>\n<meta charset=\"utf-8\">\n<meta http-equiv=\"refresh\" content=\"0; url=",
    );
    push_str(&mut out, url);
    push_str(&mut out, "\">\n<title>");
    push_str(&mut out, title);
    push_str(
        &mut out,
        "</title>\n<style>\nbody { font-family: -apple-system, BlinkMacSystemFont, \"Segoe UI\", sans-serif; max-width: 720px; margin: 40px auto; padding: 0 20px; line-height: 1.6; color: #222; }\nh1 { font-size: 1.6em; }\nimg { max-width: 100%; border-radius: 8px; }\n.description { color: #555; }\n.notes { border-left: 3px solid #ccc; padding-left: 12px; color: #444; }\na { color: #0a58ca; }\n</style>\n</head>\n",
    );
    assert(out@ =~= snapshot_head(url@, title@));
    out
}

/// The snapshot file for a page: named after the sanitized title, a
/// standalone HTML document that redirects to `url` and shows what is
/// given of image, description, content and notes. `content_html` goes in
/// unescaped; everything else is escaped.
pub fn snapshot_artifact(
    url: &str,
    title: &str,
    description: Option<&str>,
    image_url: Option<&str>,
    content_html: Option<&str>,
    notes: Option<&str>,
) -> (a: Artifact)
    ensures
        a.file_name@ == sanitized(title@) + ".html"@,
        a.body@ == snapshot_page(
            url@,
            title@,
            given(description),
            given(image_url),
            given(content_html),
            given(notes),
        ),
{
    let url_text = escape_html(url);
    let title_text = escape_html(title);
    let mut out = snapshot_head_chars(url_text.as_str(), title_text.as_str());
    push_str(&mut out, "<body>\n<h1><a href=\"");
    push_str(&mut out, url_text.as_str());
    push_str(&mut out, "\">");
    push_str(&mut out, title_text.as_str());
    push_str(&mut out, "</a></h1>\n");
    push_block(&mut out, "<img src=\"", &escape_if_given(image_url), "\" alt=\"\">\n");
    push_block(&mut out, "<p class=\"description\">", &escape_if_given(description), "</p>\n");
    push_block(&mut out, "<div class=\"content\">", &owned_if_given(content_html), "</div>\n");
    push_block(&mut out, "<div class=\"notes\">", &escape_if_given(notes), "</div>\n");
    push_str(&mut out, "</body>\n</html>\n");
    Artifact { file_name: file_name(title, ".html"), body: string_of(&out) }
}

/// The note file for a piece of content: named after the sanitized title,
/// with the title as a heading, a blank line, and the content converted to
/// Markdown.
pub fn note_artifact(title: &str, content: &str) -> (a: Artifact)
    ensures
        a.file_name@ == sanitized(title@) + ".md"@,
        a.body@ == note_page(title@, content@),
{
    let mut out: Vec<char> = Vec::new();
    push_str(&mut out, "# ");
    push_str(&mut out, title);
    push_str(&mut out, "\n\n");
    push_str(&mut out, convert(content).as_str());
    assert(out@ =~= note_page(title@, content@));
    Artifact { file_name: file_name(title, ".md"), body: string_of(&out) }
}

/// The name of the marker image inside the workspace.
pub fn marker_file_name() -> (r: String)
    ensures
        r@ == "drag-marker.png"@,
{
    string_of(&chars_of("drag-marker.png"))
}

/// The bytes of the marker image, if it has to be written: nothing where
/// the file is already there, the image where it is not.
pub fn marker_artifact(already_there: bool) -> (r: Option<Vec<u8>>)
    ensures
        already_there ==> r is None,
        !already_there ==> r is Some && r->0@ == marker_image(),
{
    if already_there {
        None
    } else {
        let bytes: Vec<u8> = vec![
            137u8, 80, 78, 71, 13, 10, 26, 10, 0, 0, 0, 13, 73, 72, 68, 82, 0, 0, 0, 1, 0, 0, 0, 1,
            8, 6, 0, 0, 0, 31, 21, 196, 137, 0, 0, 0, 11, 73, 68, 65, 84, 120, 218, 99, 96, 0, 2, 0,
            0, 5, 0, 1, 233, 250, 220, 216, 0, 0, 0, 0, 73, 69, 78, 68, 174, 66, 96, 130,
        ];
        assert(bytes@ =~= marker_image());
        Some(bytes)
    }
}

/// The name of the workspace directory. A path is taken to lie in the
/// workspace exactly if this name occurs in it.
pub fn workspace_name() -> (r: &'static str)
    ensures
        r@ == "pawkit-drag"@,
{
    "pawkit-drag"
}

/// Whether `path` names the workspace: the workspace's name occurs in its
/// text. This is a coarse test on the text, not on where the path leads.
pub fn is_workspace_path(path: &str) -> (r: bool)
    ensures
        r == contains_seq(path@, "pawkit-drag"@),
{
    let p = chars_of(path);
    let name = chars_of(workspace_name());
    contains_chars(&p, &name)
}

/// What to do when the caller asks for `path` to be removed: delete it if
/// it names the workspace, and otherwise leave it alone.
pub fn cleanup(path: &str) -> (r: Cleanup)
    ensures
        r == (if contains_seq(path@, "pawkit-drag"@) {
            Cleanup::Delete
        } else {
            Cleanup::Ignore
        }),
{
    if is_workspace_path(path) {
        Cleanup::Delete
    } else {
        Cleanup::Ignore
    }
}

} // verus!
