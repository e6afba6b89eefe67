//! Markdown from a document: marks wrap text in a fixed order, elements
//! dispatch on their tag, unknown tags pass their children through.

use crate::document::{
    document_model, lemma_element_model, text_model, Attributes, AttributesModel, Document, Marks,
    Node, NodeModel,
};
use crate::text::{
    chars_of, equal_chars, push_all, push_str, replace_all, replace_chars, string_of, trim,
    trim_chars,
};
use vstd::prelude::*;

verus! {

/// What an element's tag asks of the renderer.
#[derive(Clone, Copy, Debug, PartialEq, Eq)]
pub enum ElementKind {
    Paragraph,
    Heading(u8),
    Blockquote,
    List,
    ListItem,
    ChecklistItem,
    CodeBlock,
    CodeLine,
    Link,
    Rule,
    Image,
    Mention,
    Callout,
    Other,
}

/// The kind that a tag names. Tags are case-sensitive; a tag that names
/// nothing is `Other`.
pub open spec fn kind_of(tag: Seq<char>) -> ElementKind {
    if tag == "p"@ {
        ElementKind::Paragraph
    } else if tag == "h1"@ {
        ElementKind::Heading(1)
    } else if tag == "h2"@ {
        ElementKind::Heading(2)
    } else if tag == "h3"@ {
        ElementKind::Heading(3)
    } else if tag == "h4"@ {
        ElementKind::Heading(4)
    } else if tag == "h5"@ {
        ElementKind::Heading(5)
    } else if tag == "h6"@ {
        ElementKind::Heading(6)
    } else if tag == "blockquote"@ {
        ElementKind::Blockquote
    } else if tag == "ul"@ || tag == "ol"@ {
        ElementKind::List
    } else if tag == "li"@ || tag == "lic"@ {
        ElementKind::ListItem
    } else if tag == "action_item"@ {
        ElementKind::ChecklistItem
    } else if tag == "code_block"@ {
        ElementKind::CodeBlock
    } else if tag == "code_line"@ {
        ElementKind::CodeLine
    } else if tag == "a"@ || tag == "link"@ {
        ElementKind::Link
    } else if tag == "hr"@ {
        ElementKind::Rule
    } else if tag == "img"@ {
        ElementKind::Image
    } else if tag == "mention"@ {
        ElementKind::Mention
    } else if tag == "callout"@ {
        ElementKind::Callout
    } else {
        ElementKind::Other
    }
}

/// `s` between two copies of `mark` if `on`, else `s`.
pub open spec fn wrapped(s: Seq<char>, on: bool, mark: Seq<char>) -> Seq<char> {
    if on {
        mark + s + mark
    } else {
        s
    }
}

/// A text node in Markdown. The marks present wrap the text one after the
/// other, each around what the marks before it made: bold `**`, italic `*`,
/// code `` ` ``, strikethrough `~~`, highlight `==`. Bold is innermost.
pub open spec fn rendered_text(text: Seq<char>, marks: Marks) -> Seq<char> {
    let bold = wrapped(text, marks.bold, "**"@);
    let italic = wrapped(bold, marks.italic, "*"@);
    let code = wrapped(italic, marks.code, "`"@);
    let strikethrough = wrapped(code, marks.strikethrough, "~~"@);
    wrapped(strikethrough, marks.highlight, "=="@)
}

/// The value of an attribute, empty if it was not given.
pub open spec fn or_empty(o: Option<Seq<char>>) -> Seq<char> {
    match o {
        Some(s) => s,
        None => Seq::empty(),
    }
}

/// The variant of a callout: `note` if none was given.
pub open spec fn variant_of(o: Option<Seq<char>>) -> Seq<char> {
    match o {
        Some(s) => s,
        None => "note"@,
    }
}

/// `level` number signs.
pub open spec fn hashes(level: u8) -> Seq<char> {
    Seq::new(level as nat, |i: int| '#')
}

/// `s` with `> ` before each of its lines: at its start and after each line
/// break.
pub open spec fn quoted(s: Seq<char>) -> Seq<char> {
    "> "@ + replace_all(s, "\n"@, "\n> "@)
}

/// An element in Markdown, given its kind, the rendering of its children and
/// its attributes.
pub open spec fn rendered_element(
    kind: ElementKind,
    inner: Seq<char>,
    attributes: AttributesModel,
) -> Seq<char> {
    match kind {
        ElementKind::Paragraph => inner + "\n"@,
        ElementKind::Heading(level) => hashes(level) + " "@ + inner + "\n"@,
        ElementKind::Blockquote => quoted(inner) + "\n"@,
        ElementKind::List => inner,
        ElementKind::ListItem => "- "@ + trim(inner) + "\n"@,
        ElementKind::ChecklistItem => (if attributes.checked {
            "- [x] "@
        } else {
            "- [ ] "@
        }) + trim(inner) + "\n"@,
        ElementKind::CodeBlock => "```"@ + or_empty(attributes.lang) + "\n"@ + trim(inner)
            + "\n```\n"@,
        ElementKind::CodeLine => inner,
        ElementKind::Link => "["@ + inner + "]("@ + or_empty(attributes.url) + ")"@,
        ElementKind::Rule => "---\n"@,
        ElementKind::Image => "!["@ + or_empty(attributes.alt) + "]("@ + or_empty(attributes.url)
            + ")\n"@,
        ElementKind::Mention => "[["@ + or_empty(attributes.value) + "]]"@,
        ElementKind::Callout => "> [!"@ + variant_of(attributes.variant) + "]\n"@ + quoted(inner)
            + "\n"@,
        ElementKind::Other => inner,
    }
}

/// One node in Markdown.
pub open spec fn rendered_node(node: NodeModel) -> Seq<char>
    decreases node,
{
    match node {
        NodeModel::Text { text, marks } => rendered_text(text, marks),
        NodeModel::Element { tag, children, attributes } => rendered_element(
            kind_of(tag),
            rendered_nodes(children),
            attributes,
        ),
    }
}

/// The renderings of `nodes`, one after the other, with nothing between.
pub open spec fn rendered_nodes(nodes: Seq<NodeModel>) -> Seq<char>
    decreases nodes,
{
    if nodes.len() == 0 {
        Seq::empty()
    } else {
        rendered_nodes(nodes.drop_last()) + rendered_node(nodes.last())
    }
}

/// `block` after `before`, with a line break between them unless `before`
/// is empty or ends in one.
pub open spec fn joined(before: Seq<char>, block: Seq<char>) -> Seq<char> {
    if before.len() > 0 && before.last() != '\n' {
        before + "\n"@ + block
    } else {
        before + block
    }
}

/// The renderings of top-level nodes, each on a line of its own.
pub open spec fn rendered_blocks(nodes: Seq<NodeModel>) -> Seq<char>
    decreases nodes.len(),
{
    if nodes.len() == 0 {
        Seq::empty()
    } else {
        joined(rendered_blocks(nodes.drop_last()), rendered_node(nodes.last()))
    }
}

/// A document in Markdown: its top-level nodes each on a line of its own,
/// trimmed.
pub open spec fn rendered_document(nodes: Seq<NodeModel>) -> Seq<char> {
    trim(rendered_blocks(nodes))
}

/// An element whose tag names nothing renders as its children do.
pub proof fn lemma_unknown_tag_passes_through(
    tag: Seq<char>,
    children: Seq<NodeModel>,
    attributes: AttributesModel,
)
    requires
        kind_of(tag) == ElementKind::Other,
    ensures
        rendered_node(NodeModel::Element { tag, children, attributes }) == rendered_nodes(children),
{
}

/// Children render one after the other with nothing between: the
/// rendering of two runs of nodes is the rendering of the first followed by
/// that of the second.
pub proof fn lemma_rendered_nodes_concat(first: Seq<NodeModel>, second: Seq<NodeModel>)
    ensures
        rendered_nodes(first + second) == rendered_nodes(first) + rendered_nodes(second),
    decreases second.len(),
{
    if second.len() == 0 {
        assert(first + second =~= first);
        assert(rendered_nodes(first) + Seq::<char>::empty() =~= rendered_nodes(first));
    } else {
        assert((first + second).drop_last() =~= first + second.drop_last());
        assert((first + second).last() == second.last());
        lemma_rendered_nodes_concat(first, second.drop_last());
        assert(rendered_nodes(first) + rendered_nodes(second.drop_last()) + rendered_node(
            second.last(),
        ) =~= rendered_nodes(first) + (rendered_nodes(second.drop_last()) + rendered_node(
            second.last(),
        )));
    }
}

/// A text node renders as its text inside its marks, nested in one fixed
/// order: highlight around strikethrough around code around italic around
/// bold.
pub proof fn lemma_mark_order(text: Seq<char>, marks: Marks)
    ensures
        rendered_node(NodeModel::Text { text, marks }) == wrapped(
            wrapped(
                wrapped(
                    wrapped(wrapped(text, marks.bold, "**"@), marks.italic, "*"@),
                    marks.code,
                    "`"@,
                ),
                marks.strikethrough,
                "~~"@,
            ),
            marks.highlight,
            "=="@,
        ),
{
}

/// Whether `v` holds exactly the characters of `text`.
fn is_text(v: &Vec<char>, text: &str) -> (b: bool)
    ensures
        b == (v@ == text@),
{
    equal_chars(v, &chars_of(text))
}

/// The kind that `tag` names.
pub fn classify(tag: &str) -> (kind: ElementKind)
    ensures
        kind == kind_of(tag@),
{
    let t = chars_of(tag);
    if is_text(&t, "p") {
        ElementKind::Paragraph
    } else if is_text(&t, "h1") {
        ElementKind::Heading(1)
    } else if is_text(&t, "h2") {
        ElementKind::Heading(2)
    } else if is_text(&t, "h3") {
        ElementKind::Heading(3)
    } else if is_text(&t, "h4") {
        ElementKind::Heading(4)
    } else if is_text(&t, "h5") {
        ElementKind::Heading(5)
    } else if is_text(&t, "h6") {
        ElementKind::Heading(6)
    } else if is_text(&t, "blockquote") {
        ElementKind::Blockquote
    } else if is_text(&t, "ul") || is_text(&t, "ol") {
        ElementKind::List
    } else if is_text(&t, "li") || is_text(&t, "lic") {
        ElementKind::ListItem
    } else if is_text(&t, "action_item") {
        ElementKind::ChecklistItem
    } else if is_text(&t, "code_block") {
        ElementKind::CodeBlock
    } else if is_text(&t, "code_line") {
        ElementKind::CodeLine
    } else if is_text(&t, "a") || is_text(&t, "link") {
        ElementKind::Link
    } else if is_text(&t, "hr") {
        ElementKind::Rule
    } else if is_text(&t, "img") {
        ElementKind::Image
    } else if is_text(&t, "mention") {
        ElementKind::Mention
    } else if is_text(&t, "callout") {
        ElementKind::Callout
    } else {
        ElementKind::Other
    }
}

/// `inner` between two copies of `mark` if `on`, else `inner`.
fn wrap(inner: Vec<char>, on: bool, mark: &str) -> (r: Vec<char>)
    ensures
        r@ == wrapped(inner@, on, mark@),
{
    if on {
        let mut out: Vec<char> = Vec::new();
        push_str(&mut out, mark);
        push_all(&mut out, &inner);
        push_str(&mut out, mark);
        out
    } else {
        inner
    }
}

/// Appends the value of an attribute, or nothing if it was not given.
fn push_attribute(out: &mut Vec<char>, value: &Option<String>)
    ensures
        final(out)@ == old(out)@ + or_empty(text_model(*value)),
{
    match value {
        Some(s) => {
            push_str(out, s.as_str());
        },
        None => {
            assert(out@ + Seq::<char>::empty() =~= out@);
        },
    }
}

/// `> ` before each line of `inner`.
fn quote(inner: &Vec<char>) -> (r: Vec<char>)
    ensures
        r@ == quoted(inner@),
{
    let line_break = chars_of("\n");
    let quoted_break = chars_of("\n> ");
    let body = replace_chars(inner, &line_break, &quoted_break);
    let mut out: Vec<char> = Vec::new();
    push_str(&mut out, "> ");
    push_all(&mut out, &body);
    out
}

/// The Markdown of an element, from its kind, the rendering of its children
/// and its attributes.
fn element_chars(kind: ElementKind, inner: Vec<char>, attributes: &Attributes) -> (r: Vec<char>)
    ensures
        r@ == rendered_element(kind, inner@, attributes@),
{
    let mut out: Vec<char> = Vec::new();
    match kind {
        ElementKind::Paragraph => {
            push_all(&mut out, &inner);
            push_str(&mut out, "\n");
        },
        ElementKind::Heading(level) => {
            let mut i: u8 = 0;
            while i < level
                invariant
                    i <= level,
                    out@ == hashes(i),
                decreases level - i,
            {
                out.push('#');
                i += 1;
                assert(out@ =~= hashes(i));
            }
            push_str(&mut out, " ");
            push_all(&mut out, &inner);
            push_str(&mut out, "\n");
        },
        ElementKind::Blockquote => {
            let body = quote(&inner);
            push_all(&mut out, &body);
            push_str(&mut out, "\n");
        },
        ElementKind::List => {
            return inner;
        },
        ElementKind::ListItem => {
            let body = trim_chars(&inner);
            push_str(&mut out, "- ");
            push_all(&mut out, &body);
            push_str(&mut out, "\n");
        },
        ElementKind::ChecklistItem => {
            let body = trim_chars(&inner);
            if attributes.checked {
                push_str(&mut out, "- [x] ");
            } else {
                push_str(&mut out, "- [ ] ");
            }
            push_all(&mut out, &body);
            push_str(&mut out, "\n");
        },
        ElementKind::CodeBlock => {
            let body = trim_chars(&inner);
            push_str(&mut out, "```");
            push_attribute(&mut out, &attributes.lang);
            push_str(&mut out, "\n");
            push_all(&mut out, &body);
            push_str(&mut out, "\n```\n");
        },
        ElementKind::CodeLine => {
            return inner;
        },
        ElementKind::Link => {
            push_str(&mut out, "[");
            push_all(&mut out, &inner);
            push_str(&mut out, "](");
            push_attribute(&mut out, &attributes.url);
            push_str(&mut out, ")");
        },
        ElementKind::Rule => {
            push_str(&mut out, "---\n");
        },
        ElementKind::Image => {
            push_str(&mut out, "![");
            push_attribute(&mut out, &attributes.alt);
            push_str(&mut out, "](");
            push_attribute(&mut out, &attributes.url);
            push_str(&mut out, ")\n");
        },
        ElementKind::Mention => {
            push_str(&mut out, "[[");
            push_attribute(&mut out, &attributes.value);
            push_str(&mut out, "]]");
        },
        ElementKind::Callout => {
            let body = quote(&inner);
            push_str(&mut out, "> [!");
            match &attributes.variant {
                Some(v) => {
                    push_str(&mut out, v.as_str());
                },
                None => {
                    push_str(&mut out, "note");
                },
            }
            push_str(&mut out, "]\n");
            push_all(&mut out, &body);
            push_str(&mut out, "\n");
        },
        ElementKind::Other => {
            return inner;
        },
    }
    out
}

/// The Markdown of a text node.
fn text_chars(text: &str, marks: Marks) -> (r: Vec<char>)
    ensures
        r@ == rendered_text(text@, marks),
{
    let plain = chars_of(text);
    let bold = wrap(plain, marks.bold, "**");
    let italic = wrap(bold, marks.italic, "*");
    let code = wrap(italic, marks.code, "`");
    let strikethrough = wrap(code, marks.strikethrough, "~~");
    wrap(strikethrough, marks.highlight, "==")
}

/// The Markdown of one node, as characters.
fn node_chars(node: &Node) -> (r: Vec<char>)
    ensures
        r@ == rendered_node(node@),
    decreases node,
{
    match node {
        Node::Text { text, marks } => text_chars(text.as_str(), *marks),
        Node::Element { tag, children, attributes } => {
            let kind = classify(tag.as_str());
            let inner = nodes_chars(children);
            proof {
                lemma_element_model(*tag, *children, *attributes);
            }
            element_chars(kind, inner, attributes)
        },
    }
}

/// The Markdown of `nodes`, one after the other, as characters.
fn nodes_chars(nodes: &Vec<Node>) -> (r: Vec<char>)
    ensures
        r@ == rendered_nodes(document_model(nodes@)),
    decreases nodes,
{
    let ghost models = document_model(nodes@);
    let mut out: Vec<char> = Vec::new();
    let mut i: usize = 0;
    assert(models.take(0) =~= Seq::<NodeModel>::empty());
    while i < nodes.len()
        invariant
            i <= nodes.len(),
            models == document_model(nodes@),
            out@ == rendered_nodes(models.take(i as int)),
        decreases nodes.len() - i,
    {
        let piece = node_chars(&nodes[i]);
        proof {
            assert(models.take(i + 1).drop_last() =~= models.take(i as int));
            assert(models.take(i + 1).last() == nodes@[i as int]@);
        }
        push_all(&mut out, &piece);
        i += 1;
    }
    assert(models.take(nodes.len() as int) =~= models);
    out
}

/// Renders one node as Markdown.
pub fn render_node(node: &Node) -> (r: String)
    ensures
        r@ == rendered_node(node@),
{
    let chars = node_chars(node);
    string_of(&chars)
}

/// Renders a document as Markdown: every top-level node on a line of its
/// own, the whole trimmed. Never fails; an element with an unknown tag
/// renders as its children.
pub fn render(document: &Document) -> (r: String)
    ensures
        r@ == rendered_document(document_model(document@)),
{
    let ghost models = document_model(document@);
    let mut out: Vec<char> = Vec::new();
    let mut i: usize = 0;
    assert(models.take(0) =~= Seq::<NodeModel>::empty());
    while i < document.len()
        invariant
            i <= document.len(),
            models == document_model(document@),
            out@ == rendered_blocks(models.take(i as int)),
        decreases document.len() - i,
    {
        let piece = node_chars(&document[i]);
        proof {
            assert(models.take(i + 1).drop_last() =~= models.take(i as int));
            assert(models.take(i + 1).last() == document@[i as int]@);
        }
        if out.len() > 0 && out[out.len() - 1] != '\n' {
            push_str(&mut out, "\n");
        }
        push_all(&mut out, &piece);
        i += 1;
    }
    assert(models.take(document.len() as int) =~= models);
    let trimmed = trim_chars(&out);
    string_of(&trimmed)
}

} // verus!
