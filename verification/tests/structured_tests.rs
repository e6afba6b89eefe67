use pawkit_desktop::document::{Attributes, Marks, Node};
use pawkit_desktop::json::{parse, Json};
use pawkit_desktop::render::{render, render_node};
use pawkit_desktop::structured::{document_from, is_structured_format, read_document};

fn leaf(text: &str) -> Node {
    Node::Text { text: text.to_string(), marks: Marks::none() }
}

#[test]
fn shape_of_the_structured_format() {
    assert!(is_structured_format("[]"));
    assert!(is_structured_format("  [ {\"text\":\"a\"} ]\n"));
    assert!(is_structured_format("[not json]"));
    assert!(is_structured_format("\u{a0}[1]\u{3000}"));
    assert!(!is_structured_format(""));
    assert!(!is_structured_format("["));
    assert!(!is_structured_format("]"));
    assert!(!is_structured_format("]["));
    assert!(!is_structured_format("<p>[x]</p>"));
    assert!(!is_structured_format("{\"a\":[]}"));
    assert!(!is_structured_format("[1] x"));
}

#[test]
fn reads_the_heading_and_paragraph_example() {
    let content = r#"[{"type":"h1","children":[{"text":"Hi"}]}, {"type":"p","children":[{"text":"world","bold":true}]}]"#;
    let document = read_document(content).expect("a document");
    assert_eq!(
        document,
        vec![
            Node::Element {
                tag: "h1".to_string(),
                children: vec![leaf("Hi")],
                attributes: Attributes::empty(),
            },
            Node::Element {
                tag: "p".to_string(),
                children: vec![Node::Text {
                    text: "world".to_string(),
                    marks: Marks { bold: true, ..Marks::none() },
                }],
                attributes: Attributes::empty(),
            },
        ]
    );
    assert_eq!(render(&document), "# Hi\n**world**");
}

#[test]
fn only_an_array_is_a_document() {
    assert_eq!(read_document("{}"), None);
    assert_eq!(read_document("\"text\""), None);
    assert_eq!(read_document("null"), None);
    assert_eq!(read_document("[not json]"), None);
    assert_eq!(read_document("[]"), Some(vec![]));
    assert_eq!(document_from(&Json::Null), None);
    assert_eq!(document_from(&Json::Array(vec![])), Some(vec![]));
}

#[test]
fn marks_are_the_members_that_are_true() {
    let document = read_document(
        r#"[{"text":"x","bold":true,"italic":false,"code":1,"strikethrough":"yes","highlight":true}]"#,
    )
    .expect("a document");
    assert_eq!(
        document,
        vec![Node::Text {
            text: "x".to_string(),
            marks: Marks { bold: true, highlight: true, ..Marks::none() },
        }]
    );
}

#[test]
fn the_order_of_the_marks_in_the_input_does_not_matter() {
    let one = read_document(r#"[{"text":"x","bold":true,"code":true,"highlight":true}]"#).unwrap();
    let other = read_document(r#"[{"highlight":true,"code":true,"text":"x","bold":true}]"#).unwrap();
    assert_eq!(one, other);
    assert_eq!(render(&one), "==`**x**`==");
    assert_eq!(render(&other), "==`**x**`==");
}

#[test]
fn the_order_of_an_element_s_members_does_not_matter() {
    let one = read_document(r#"[{"type":"a","url":"u","children":[{"text":"t"}]}]"#).unwrap();
    let other = read_document(r#"[{"children":[{"text":"t"}],"url":"u","type":"a"}]"#).unwrap();
    assert_eq!(one, other);
    assert_eq!(render(&one), "[t](u)");
}

#[test]
fn attributes_are_read_with_their_defaults() {
    let document = read_document(
        r#"[{"type":"img","url":"u.png","alt":"A","lang":"rust","variant":"tip","value":"v","checked":true,"other":[1,{"x":null}]}]"#,
    )
    .expect("a document");
    assert_eq!(
        document,
        vec![Node::Element {
            tag: "img".to_string(),
            children: vec![],
            attributes: Attributes {
                url: Some("u.png".to_string()),
                lang: Some("rust".to_string()),
                checked: true,
                variant: Some("tip".to_string()),
                alt: Some("A".to_string()),
                value: Some("v".to_string()),
            },
        }]
    );
    let bare = read_document(r#"[{"type":"action_item","url":5,"checked":"true"}]"#).unwrap();
    assert_eq!(
        bare,
        vec![Node::Element {
            tag: "action_item".to_string(),
            children: vec![],
            attributes: Attributes::empty(),
        }]
    );
}

#[test]
fn malformed_nodes_render_as_nothing() {
    let document = read_document(r#"[1, "s", null, [], {"text":"a"}, true]"#).expect("a document");
    assert_eq!(document.len(), 6);
    assert_eq!(document[0], leaf(""));
    assert_eq!(document[3], leaf(""));
    assert_eq!(document[4], leaf("a"));
    assert_eq!(render(&document), "a");
}

#[test]
fn an_object_without_text_or_type_passes_its_children_through() {
    let document = read_document(r#"[{"children":[{"text":"a"},{"text":"b"}]}]"#).unwrap();
    assert_eq!(
        document,
        vec![Node::Element {
            tag: String::new(),
            children: vec![leaf("a"), leaf("b")],
            attributes: Attributes::empty(),
        }]
    );
    assert_eq!(render_node(&document[0]), "ab");
    let no_children = read_document(r#"[{"type":"p","children":"none"}]"#).unwrap();
    assert_eq!(render_node(&no_children[0]), "\n");
}

#[test]
fn a_member_given_twice_counts_the_last_time() {
    let document = read_document(r#"[{"text":"a","text":"b","bold":true,"bold":false}]"#).unwrap();
    assert_eq!(document, vec![leaf("b")]);
}

#[test]
fn text_that_is_no_string_makes_no_text_node() {
    let document = read_document(r#"[{"text":5,"type":"p","children":[{"text":"x"}]}]"#).unwrap();
    assert_eq!(render(&document), "x");
}

#[test]
fn nested_lists_are_read() {
    let content = r#"[{"type":"ul","children":[{"type":"li","children":[{"type":"lic","children":[{"text":"one"}]}]}]}]"#;
    let json = parse(content).expect("json");
    let document = document_from(&json).expect("a document");
    assert_eq!(render(&document), "- - one");
}
