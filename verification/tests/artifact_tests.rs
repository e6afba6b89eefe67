use pawkit_desktop::artifact::{
    bookmark_artifact, cleanup, convert, escape_html, escape_xml, is_workspace_path,
    marker_artifact, marker_file_name, note_artifact, snapshot_artifact, workspace_name, Cleanup,
    FileError,
};

#[test]
fn note_from_html() {
    let note = note_artifact("My Title: v2", "<p>Hello <strong>World</strong></p>");
    assert_eq!(note.file_name, "My Title_ v2.md");
    assert_eq!(note.body, "# My Title: v2\n\nHello **World**");
}

#[test]
fn note_from_the_structured_format() {
    let content = r#"[{"type":"h1","children":[{"text":"Hi"}]}, {"type":"p","children":[{"text":"world","bold":true}]}]"#;
    let note = note_artifact("T", content);
    assert_eq!(note.file_name, "T.md");
    assert_eq!(note.body, "# T\n\n# Hi\n**world**");
}

#[test]
fn converts_by_shape_and_falls_back() {
    assert_eq!(convert(r#"[{"text":"a","italic":true}]"#), "*a*");
    assert_eq!(convert("  [{\"text\":\"a\"}]\n"), "a");
    assert_eq!(convert("[<b>not json</b>]"), "[**not json**]");
    assert_eq!(convert("[1, 2"), "[1, 2");
    assert_eq!(convert("<p>x</p>"), "x");
    assert_eq!(convert(""), "");
    assert_eq!(convert("[]"), "");
}

#[test]
fn bookmark_file() {
    let bookmark = bookmark_artifact("https://example.com/?a=1&b=<2>", "A/B");
    assert_eq!(bookmark.file_name, "A_B.webloc");
    assert_eq!(
        bookmark.body,
        "<?xml version=\"1.0\" encoding=\"UTF-8\"?>\n<!DOCTYPE plist PUBLIC \"-//Apple//DTD PLIST 1.0//EN\" \"http://www.apple.com/DTDs/PropertyList-1.0.dtd\">\n<plist version=\"1.0\">\n<dict>\n\t<key>URL</key>\n\t<string>https://example.com/?a=1&amp;b=&lt;2&gt;</string>\n</dict>\n</plist>\n"
    );
}

#[test]
fn escaping() {
    assert_eq!(escape_xml("a & b < c > d \" '"), "a &amp; b &lt; c &gt; d \" '");
    assert_eq!(escape_html("a & b < c > d \" '"), "a &amp; b &lt; c &gt; d &quot; &#39;");
    assert_eq!(escape_html(""), "");
    assert_eq!(escape_xml("&amp;"), "&amp;amp;");
}

#[test]
fn snapshot_with_everything() {
    let snapshot = snapshot_artifact(
        "https://example.com/?a=1&b=2",
        "Tom's <Page>",
        Some("It says \"hi\""),
        Some("https://example.com/i.png"),
        Some("<p>kept <b>as is</b></p>"),
        Some("1 < 2"),
    );
    assert_eq!(snapshot.file_name, "Tom's _Page_.html");
    let body = snapshot.body;
    assert!(body.starts_with("<!DOCTYPE html>\n<html>\n<head>\n<meta charset=\"utf-8\">\n<meta http-equiv=\"refresh\" content=\"0; url=https://example.com/?a=1&amp;b=2\">\n<title>Tom&#39;s &lt;Page&gt;</title>\n<style>\n"));
    assert!(body.contains("</style>\n</head>\n<body>\n<h1><a href=\"https://example.com/?a=1&amp;b=2\">Tom&#39;s &lt;Page&gt;</a></h1>\n<img src=\"https://example.com/i.png\" alt=\"\">\n<p class=\"description\">It says &quot;hi&quot;</p>\n<div class=\"content\"><p>kept <b>as is</b></p></div>\n<div class=\"notes\">1 &lt; 2</div>\n</body>\n</html>\n"));
    assert!(body.ends_with("</body>\n</html>\n"));
}

#[test]
fn snapshot_with_nothing_optional() {
    let snapshot = snapshot_artifact("https://e.org", "T", None, None, None, None);
    assert_eq!(snapshot.file_name, "T.html");
    assert!(snapshot.body.ends_with(
        "</style>\n</head>\n<body>\n<h1><a href=\"https://e.org\">T</a></h1>\n</body>\n</html>\n"
    ));
    assert!(!snapshot.body.contains("<img"));
    assert!(!snapshot.body.contains("class=\"description\""));
    assert!(!snapshot.body.contains("class=\"content\""));
    assert!(!snapshot.body.contains("class=\"notes\""));
}

#[test]
fn marker_is_written_once() {
    assert_eq!(marker_artifact(true), None);
    let bytes = marker_artifact(false).expect("the image");
    assert_eq!(bytes.len(), 68);
    assert_eq!(&bytes[..8], &[0x89, b'P', b'N', b'G', 0x0d, 0x0a, 0x1a, 0x0a]);
    assert_eq!(&bytes[12..16], b"IHDR");
    assert_eq!(&bytes[16..24], &[0, 0, 0, 1, 0, 0, 0, 1]);
    assert_eq!(&bytes[bytes.len() - 8..bytes.len() - 4], b"IEND");
    assert_eq!(marker_file_name(), "drag-marker.png");
}

#[test]
fn cleanup_leaves_paths_outside_the_workspace() {
    assert_eq!(cleanup("/etc/passwd"), Cleanup::Ignore);
    assert!(!is_workspace_path("/etc/passwd"));
    assert_eq!(cleanup(""), Cleanup::Ignore);
    assert_eq!(cleanup("/tmp/pawkit-dra/x.md"), Cleanup::Ignore);
}

#[test]
fn cleanup_deletes_paths_that_name_the_workspace() {
    assert_eq!(workspace_name(), "pawkit-drag");
    assert_eq!(cleanup("/tmp/pawkit-drag/My Title_ v2.md"), Cleanup::Delete);
    assert_eq!(cleanup("pawkit-drag"), Cleanup::Delete);
    assert_eq!(cleanup("/home/u/pawkit-drag-copy/x"), Cleanup::Delete);
    assert!(is_workspace_path("C:\\Temp\\pawkit-drag\\a.html"));
}

#[test]
fn file_errors_carry_their_cause() {
    assert_eq!(
        FileError::CreateDirectory("read-only".to_string()).message(),
        "Failed to create temp dir: read-only"
    );
    assert_eq!(FileError::Write("disk full".to_string()).message(), "Failed to write file: disk full");
    assert_eq!(
        FileError::Delete("not found".to_string()).message(),
        "Failed to delete file: not found"
    );
}
