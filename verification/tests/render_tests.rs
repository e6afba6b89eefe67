use pawkit_desktop::document::{Attributes, Marks, Node};
use pawkit_desktop::render::{classify, render, render_node, ElementKind};

fn plain(text: &str) -> Node {
    Node::Text { text: text.to_string(), marks: Marks::none() }
}

fn marked(text: &str, marks: Marks) -> Node {
    Node::Text { text: text.to_string(), marks }
}

fn element(tag: &str, children: Vec<Node>) -> Node {
    Node::Element { tag: tag.to_string(), children, attributes: Attributes::empty() }
}

fn element_with(tag: &str, children: Vec<Node>, attributes: Attributes) -> Node {
    Node::Element { tag: tag.to_string(), children, attributes }
}

#[test]
fn heading_and_bold_paragraph() {
    let bold = Marks { bold: true, ..Marks::none() };
    let document = vec![
        element("h1", vec![plain("Hi")]),
        element("p", vec![marked("world", bold)]),
    ];
    assert_eq!(render(&document), "# Hi\n**world**");
}

#[test]
fn untrimmed_rendering_ends_each_block_with_a_line_break() {
    let bold = Marks { bold: true, ..Marks::none() };
    assert_eq!(render_node(&element("h1", vec![plain("Hi")])), "# Hi\n");
    assert_eq!(render_node(&element("p", vec![marked("world", bold)])), "**world**\n");
}

#[test]
fn each_mark_alone() {
    let none = Marks::none();
    assert_eq!(render_node(&marked("x", Marks { bold: true, ..none })), "**x**");
    assert_eq!(render_node(&marked("x", Marks { italic: true, ..none })), "*x*");
    assert_eq!(render_node(&marked("x", Marks { code: true, ..none })), "`x`");
    assert_eq!(render_node(&marked("x", Marks { strikethrough: true, ..none })), "~~x~~");
    assert_eq!(render_node(&marked("x", Marks { highlight: true, ..none })), "==x==");
    assert_eq!(render_node(&plain("x")), "x");
}

#[test]
fn marks_nest_in_the_fixed_order() {
    let all = Marks { bold: true, italic: true, code: true, strikethrough: true, highlight: true };
    assert_eq!(render_node(&marked("x", all)), "==~~`***x***`~~==");
    let two = Marks { bold: true, code: true, ..Marks::none() };
    assert_eq!(render_node(&marked("x", two)), "`**x**`");
    let outer = Marks { italic: true, highlight: true, ..Marks::none() };
    assert_eq!(render_node(&marked("x", outer)), "==*x*==");
}

#[test]
fn every_subset_of_marks_wraps_in_order() {
    for bits in 0u8..32 {
        let marks = Marks {
            bold: bits & 1 != 0,
            italic: bits & 2 != 0,
            code: bits & 4 != 0,
            strikethrough: bits & 8 != 0,
            highlight: bits & 16 != 0,
        };
        let mut expected = String::from("t");
        for (on, mark) in [
            (marks.bold, "**"),
            (marks.italic, "*"),
            (marks.code, "`"),
            (marks.strikethrough, "~~"),
            (marks.highlight, "=="),
        ] {
            if on {
                expected = format!("{mark}{expected}{mark}");
            }
        }
        assert_eq!(render_node(&marked("t", marks)), expected);
    }
}

#[test]
fn headings_of_every_level() {
    for (tag, hashes) in [("h1", "#"), ("h2", "##"), ("h3", "###"), ("h4", "####"), ("h5", "#####"), ("h6", "######")] {
        assert_eq!(render_node(&element(tag, vec![plain("T")])), format!("{hashes} T\n"));
    }
}

#[test]
fn blockquote_prefixes_every_line() {
    let quote = element("blockquote", vec![plain("a\nb")]);
    assert_eq!(render_node(&quote), "> a\n> b\n");
    let empty = element("blockquote", vec![]);
    assert_eq!(render_node(&empty), "> \n");
}

#[test]
fn lists_and_items() {
    let list = element(
        "ul",
        vec![element("li", vec![plain(" one ")]), element("li", vec![plain("two")])],
    );
    assert_eq!(render_node(&list), "- one\n- two\n");
    let ordered = element("ol", vec![element("lic", vec![plain("x")])]);
    assert_eq!(render_node(&ordered), "- x\n");
}

#[test]
fn checklist_items() {
    let checked = Attributes { checked: true, ..Attributes::empty() };
    assert_eq!(render_node(&element_with("action_item", vec![plain("done")], checked)), "- [x] done\n");
    assert_eq!(render_node(&element("action_item", vec![plain(" todo ")])), "- [ ] todo\n");
}

#[test]
fn code_block_with_and_without_language() {
    let rust = Attributes { lang: Some("rust".to_string()), ..Attributes::empty() };
    let lines = vec![element("code_line", vec![plain("let x = 1;\n")])];
    assert_eq!(render_node(&element_with("code_block", lines, rust)), "```rust\nlet x = 1;\n```\n");
    let bare = element("code_block", vec![element("code_line", vec![plain("x")])]);
    assert_eq!(render_node(&bare), "```\nx\n```\n");
}

#[test]
fn code_line_adds_nothing() {
    assert_eq!(render_node(&element("code_line", vec![plain(" a "), plain("b")])), " a b");
}

#[test]
fn links() {
    let to = Attributes { url: Some("https://example.com".to_string()), ..Attributes::empty() };
    assert_eq!(render_node(&element_with("a", vec![plain("site")], to)), "[site](https://example.com)");
    assert_eq!(render_node(&element("link", vec![plain("site")])), "[site]()");
}

#[test]
fn rule_image_and_mention() {
    assert_eq!(render_node(&element("hr", vec![plain("ignored")])), "---\n");
    let picture = Attributes {
        url: Some("u.png".to_string()),
        alt: Some("A".to_string()),
        ..Attributes::empty()
    };
    assert_eq!(render_node(&element_with("img", vec![], picture)), "![A](u.png)\n");
    assert_eq!(render_node(&element("img", vec![])), "![]()\n");
    let who = Attributes { value: Some("Ada".to_string()), ..Attributes::empty() };
    assert_eq!(render_node(&element_with("mention", vec![], who)), "[[Ada]]");
    assert_eq!(render_node(&element("mention", vec![])), "[[]]");
}

#[test]
fn callouts() {
    let warning = Attributes { variant: Some("warning".to_string()), ..Attributes::empty() };
    assert_eq!(
        render_node(&element_with("callout", vec![plain("a\nb")], warning)),
        "> [!warning]\n> a\n> b\n"
    );
    assert_eq!(render_node(&element("callout", vec![plain("a")])), "> [!note]\n> a\n");
}

#[test]
fn unknown_tags_pass_their_children_through() {
    let inner = vec![plain("a"), element("p", vec![plain("b")])];
    let expected = "ab\n";
    assert_eq!(render_node(&element("table", vec![plain("a"), element("p", vec![plain("b")])])), expected);
    assert_eq!(render_node(&element("", inner)), expected);
    assert_eq!(render_node(&element("P", vec![plain("x")])), "x");
}

#[test]
fn top_level_nodes_stand_on_lines_of_their_own() {
    assert_eq!(render(&vec![plain("a"), plain("b")]), "a\nb");
    assert_eq!(render(&vec![element("p", vec![plain("a")]), plain("b")]), "a\nb");
    assert_eq!(render(&vec![]), "");
    assert_eq!(render(&vec![plain("  a  ")]), "a");
}

#[test]
fn tags_are_classified() {
    assert_eq!(classify("p"), ElementKind::Paragraph);
    assert_eq!(classify("h3"), ElementKind::Heading(3));
    assert_eq!(classify("h7"), ElementKind::Other);
    assert_eq!(classify("ul"), ElementKind::List);
    assert_eq!(classify("ol"), ElementKind::List);
    assert_eq!(classify("li"), ElementKind::ListItem);
    assert_eq!(classify("lic"), ElementKind::ListItem);
    assert_eq!(classify("action_item"), ElementKind::ChecklistItem);
    assert_eq!(classify("code_block"), ElementKind::CodeBlock);
    assert_eq!(classify("code_line"), ElementKind::CodeLine);
    assert_eq!(classify("a"), ElementKind::Link);
    assert_eq!(classify("link"), ElementKind::Link);
    assert_eq!(classify("hr"), ElementKind::Rule);
    assert_eq!(classify("img"), ElementKind::Image);
    assert_eq!(classify("mention"), ElementKind::Mention);
    assert_eq!(classify("callout"), ElementKind::Callout);
    assert_eq!(classify("blockquote"), ElementKind::Blockquote);
    assert_eq!(classify("Blockquote"), ElementKind::Other);
}
