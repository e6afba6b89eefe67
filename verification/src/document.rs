//! The structured rich-text document: a sequence of nodes, each a text leaf
//! with marks or a tagged element with children and attributes.

use vstd::prelude::*;

verus! {

/// The formatting marks of a text node.
#[derive(Clone, Copy, Debug, PartialEq, Eq)]
pub struct Marks {
    pub bold: bool,
    pub italic: bool,
    pub code: bool,
    pub strikethrough: bool,
    pub highlight: bool,
}

/// The attributes of an element node. An attribute that the input did not
/// give is `None`, or `false` for `checked`.
#[derive(Debug, PartialEq, Eq)]
pub struct Attributes {
    pub url: Option<String>,
    pub lang: Option<String>,
    pub checked: bool,
    pub variant: Option<String>,
    pub alt: Option<String>,
    pub value: Option<String>,
}

/// One node of a document.
#[derive(Debug, PartialEq, Eq)]
pub enum Node {
    Text { text: String, marks: Marks },
    Element { tag: String, children: Vec<Node>, attributes: Attributes },
}

/// A document: its top-level nodes in reading order.
pub type Document = Vec<Node>;

/// What an `Attributes` value holds, as plain sequences.
pub struct AttributesModel {
    pub url: Option<Seq<char>>,
    pub lang: Option<Seq<char>>,
    pub checked: bool,
    pub variant: Option<Seq<char>>,
    pub alt: Option<Seq<char>>,
    pub value: Option<Seq<char>>,
}

/// What a `Node` holds, as plain sequences.
pub enum NodeModel {
    Text { text: Seq<char>, marks: Marks },
    Element { tag: Seq<char>, children: Seq<NodeModel>, attributes: AttributesModel },
}

/// The characters of an optional string.
pub open spec fn text_model(o: Option<String>) -> Option<Seq<char>> {
    match o {
        Some(s) => Some(s@),
        None => None,
    }
}

impl View for Attributes {
    type V = AttributesModel;

    open spec fn view(&self) -> AttributesModel {
        AttributesModel {
            url: text_model(self.url),
            lang: text_model(self.lang),
            checked: self.checked,
            variant: text_model(self.variant),
            alt: text_model(self.alt),
            value: text_model(self.value),
        }
    }
}

impl View for Node {
    type V = NodeModel;

    open spec fn view(&self) -> NodeModel {
        node_model(*self)
    }
}

/// The model of one node.
pub open spec fn node_model(node: Node) -> NodeModel
    decreases node,
{
    match node {
        Node::Text { text, marks } => NodeModel::Text { text: text@, marks },
        Node::Element { tag, children, attributes } => NodeModel::Element {
            tag: tag@,
            children: Seq::new(
                children@.len(),
                |i: int|
                    if 0 <= i < children@.len() {
                        node_model(children@[i])
                    } else {
                        NodeModel::Text { text: Seq::empty(), marks: Marks::unmarked() }
                    },
            ),
            attributes: attributes@,
        },
    }
}

/// The models of the nodes of `nodes`, in order.
pub open spec fn document_model(nodes: Seq<Node>) -> Seq<NodeModel> {
    Seq::new(nodes.len(), |i: int| nodes[i]@)
}

impl Marks {
    /// No mark set.
    pub open spec fn unmarked() -> Marks {
        Marks { bold: false, italic: false, code: false, strikethrough: false, highlight: false }
    }

    /// No mark set.
    pub fn none() -> (m: Marks)
        ensures
            m == Marks::unmarked(),
    {
        Marks { bold: false, italic: false, code: false, strikethrough: false, highlight: false }
    }
}

impl AttributesModel {
    /// No attribute given.
    pub open spec fn empty() -> AttributesModel {
        AttributesModel {
            url: None,
            lang: None,
            checked: false,
            variant: None,
            alt: None,
            value: None,
        }
    }
}

impl Attributes {
    /// No attribute given.
    pub fn empty() -> (a: Attributes)
        ensures
            a@ == AttributesModel::empty(),
    {
        Attributes { url: None, lang: None, checked: false, variant: None, alt: None, value: None }
    }
}

/// The children of an element's model are the models of its children.
pub proof fn lemma_element_model(tag: String, children: Vec<Node>, attributes: Attributes)
    ensures
        (Node::Element { tag, children, attributes })@ == (NodeModel::Element {
            tag: tag@,
            children: document_model(children@),
            attributes: attributes@,
        }),
{
    let n = Node::Element { tag, children, attributes };
    assert(n@->children =~= document_model(children@));
}

} // verus!
