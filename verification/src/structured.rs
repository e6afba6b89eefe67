//! The structured format: a JSON array of nodes. An object with a string
//! member `text` is a text node, whose marks are the members that are
//! `true`; any other object is an element with a `type`, `children` and
//! attributes. What is missing or of another shape takes its default.

use crate::document::{
    document_model, lemma_element_model, text_model, Attributes, AttributesModel, Document, Marks,
    Node, NodeModel,
};
use crate::json::{
    items_model, lemma_array_model, lemma_object_model, members_model, parse, parsed, Json,
    JsonModel,
};
use crate::text::{chars_of, same_text, trim, trim_chars};
use vstd::prelude::*;

verus! {

/// The index of the last member named `key`. Where a key is given twice
/// the later member counts.
pub open spec fn member_index(members: Seq<(Seq<char>, JsonModel)>, key: Seq<char>) -> Option<int>
    decreases members.len(),
{
    if members.len() == 0 {
        None
    } else if members.last().0 == key {
        Some(members.len() - 1)
    } else {
        member_index(members.drop_last(), key)
    }
}

/// The value of the member named `key`.
pub open spec fn member(members: Seq<(Seq<char>, JsonModel)>, key: Seq<char>) -> Option<JsonModel> {
    match member_index(members, key) {
        Some(k) => Some(members[k].1),
        None => None,
    }
}

/// The string that the member named `key` holds, if it is there and holds
/// one.
pub open spec fn text_member(members: Seq<(Seq<char>, JsonModel)>, key: Seq<char>) -> Option<
    Seq<char>,
> {
    match member(members, key) {
        Some(JsonModel::Text(text)) => Some(text),
        _ => None,
    }
}

/// The member named `key` is there and is `true`.
pub open spec fn flag_member(members: Seq<(Seq<char>, JsonModel)>, key: Seq<char>) -> bool {
    member(members, key) == Some(JsonModel::Bool(true))
}

/// The marks that the members of a text node set.
pub open spec fn marks_of(members: Seq<(Seq<char>, JsonModel)>) -> Marks {
    Marks {
        bold: flag_member(members, "bold"@),
        italic: flag_member(members, "italic"@),
        code: flag_member(members, "code"@),
        strikethrough: flag_member(members, "strikethrough"@),
        highlight: flag_member(members, "highlight"@),
    }
}

/// The attributes that the members of an element give.
pub open spec fn attributes_of(members: Seq<(Seq<char>, JsonModel)>) -> AttributesModel {
    AttributesModel {
        url: text_member(members, "url"@),
        lang: text_member(members, "lang"@),
        checked: flag_member(members, "checked"@),
        variant: text_member(members, "variant"@),
        alt: text_member(members, "alt"@),
        value: text_member(members, "value"@),
    }
}

/// The node that stands for anything that is no object: empty text.
pub open spec fn empty_node() -> NodeModel {
    NodeModel::Text { text: Seq::empty(), marks: Marks::unmarked() }
}

/// The node that a JSON value describes.
pub open spec fn node_of(json: JsonModel) -> NodeModel
    decreases json,
{
    match json {
        JsonModel::Object(members) => match text_member(members, "text"@) {
            Some(text) => NodeModel::Text { text, marks: marks_of(members) },
            None => NodeModel::Element {
                tag: match text_member(members, "type"@) {
                    Some(tag) => tag,
                    None => Seq::empty(),
                },
                children: match member_index(members, "children"@) {
                    Some(k) => if 0 <= k < members.len() {
                        match members[k].1 {
                            JsonModel::Array(items) => nodes_of(items),
                            _ => Seq::empty(),
                        }
                    } else {
                        Seq::empty()
                    },
                    None => Seq::empty(),
                },
                attributes: attributes_of(members),
            },
        },
        _ => empty_node(),
    }
}

/// The nodes that the items of a JSON array describe, in order.
pub open spec fn nodes_of(items: Seq<JsonModel>) -> Seq<NodeModel>
    decreases items,
{
    Seq::new(
        items.len(),
        |i: int|
            if 0 <= i < items.len() {
                node_of(items[i])
            } else {
                empty_node()
            },
    )
}

/// The document that a JSON value describes: the nodes of an array, and
/// nothing for any other value.
pub open spec fn document_of(json: JsonModel) -> Option<Seq<NodeModel>> {
    match json {
        JsonModel::Array(items) => Some(nodes_of(items)),
        _ => None,
    }
}

/// The document that `content` is the structured form of, if it is JSON
/// text of an array.
pub open spec fn structured_document(content: Seq<char>) -> Option<Seq<NodeModel>> {
    match parsed(content) {
        Some(json) => document_of(json),
        None => None,
    }
}

/// The shape of the structured format: trimmed, `content` begins with `[`
/// and ends with `]`.
pub open spec fn looks_structured(content: Seq<char>) -> bool {
    let t = trim(content);
    t.len() > 0 && t[0] == '[' && t.last() == ']'
}

/// No two members have the same key.
pub open spec fn distinct_keys(members: Seq<(Seq<char>, JsonModel)>) -> bool {
    forall|i: int, j: int|
        0 <= i < j < members.len() ==> (#[trigger] members[i]).0 != (#[trigger] members[j]).0
}

/// `member_index` finds the last member with the key.
pub proof fn lemma_member_index(members: Seq<(Seq<char>, JsonModel)>, key: Seq<char>)
    ensures
        match member_index(members, key) {
            Some(k) => 0 <= k < members.len() && members[k].0 == key && forall|j: int|
                k < j < members.len() ==> (#[trigger] members[j]).0 != key,
            None => forall|j: int| 0 <= j < members.len() ==> (#[trigger] members[j]).0 != key,
        },
    decreases members.len(),
{
    if members.len() > 0 && members.last().0 != key {
        lemma_member_index(members.drop_last(), key);
        match member_index(members.drop_last(), key) {
            Some(k) => {
                assert(members.drop_last()[k] == members[k]);
                assert forall|j: int| k < j < members.len() implies (#[trigger] members[j]).0
                    != key by {
                    if j < members.len() - 1 {
                        assert(members.drop_last()[j] == members[j]);
                    }
                }
            },
            None => {
                assert forall|j: int| 0 <= j < members.len() implies (#[trigger] members[j]).0
                    != key by {
                    if j < members.len() - 1 {
                        assert(members.drop_last()[j] == members[j]);
                    }
                }
            },
        }
    }
}

/// A member that the input does not give takes its default: no string, and
/// `false`.
pub proof fn lemma_missing_member_defaults(members: Seq<(Seq<char>, JsonModel)>, key: Seq<char>)
    requires
        forall|j: int| 0 <= j < members.len() ==> (#[trigger] members[j]).0 != key,
    ensures
        member(members, key) is None,
        text_member(members, key) is None,
        !flag_member(members, key),
{
    lemma_member_index(members, key);
}

/// Among members with distinct keys, the value of a key is the value of the
/// one member that has it.
pub proof fn lemma_member_is_contained(
    members: Seq<(Seq<char>, JsonModel)>,
    key: Seq<char>,
    value: JsonModel,
)
    requires
        distinct_keys(members),
    ensures
        member(members, key) == Some(value) <==> members.contains((key, value)),
{
    lemma_member_index(members, key);
    if members.contains((key, value)) {
        let j = choose|j: int| 0 <= j < members.len() && members[j] == (key, value);
        assert(members[j].0 == key);
        let k = member_index(members, key)->0;
        if k != j {
            if k < j {
                assert(members[k].0 != members[j].0);
            } else {
                assert(members[j].0 != members[k].0);
            }
        }
    }
    if member(members, key) == Some(value) {
        let k = member_index(members, key)->0;
        assert(members[k] == (key, value));
    }
}

/// Two lists of the same members, each with distinct keys, give every key
/// the same value, whatever their order.
pub proof fn lemma_member_order(
    first: Seq<(Seq<char>, JsonModel)>,
    second: Seq<(Seq<char>, JsonModel)>,
    key: Seq<char>,
)
    requires
        distinct_keys(first),
        distinct_keys(second),
        first.to_multiset() == second.to_multiset(),
    ensures
        member(first, key) == member(second, key),
{
    broadcast use vstd::seq_lib::group_to_multiset_ensures;

    lemma_member_index(first, key);
    lemma_member_index(second, key);
    match member(first, key) {
        Some(value) => {
            lemma_member_is_contained(first, key, value);
            assert(first.to_multiset().count((key, value)) > 0);
            assert(second.contains((key, value)));
            lemma_member_is_contained(second, key, value);
        },
        None => {
            if let Some(value) = member(second, key) {
                lemma_member_is_contained(second, key, value);
                assert(second.to_multiset().count((key, value)) > 0);
                assert(first.contains((key, value)));
                lemma_member_is_contained(first, key, value);
            }
        },
    }
}

/// The node that an object describes does not depend on the order in which
/// its members are written: two objects of the same members, each without
/// a repeated key, describe the same node. So the marks of a text node nest
/// in the renderer's order, not in the order in which the input sets them.
pub proof fn lemma_node_ignores_member_order(
    first: Seq<(Seq<char>, JsonModel)>,
    second: Seq<(Seq<char>, JsonModel)>,
)
    requires
        distinct_keys(first),
        distinct_keys(second),
        first.to_multiset() == second.to_multiset(),
    ensures
        node_of(JsonModel::Object(first)) == node_of(JsonModel::Object(second)),
{
    lemma_member_order(first, second, "text"@);
    lemma_member_order(first, second, "bold"@);
    lemma_member_order(first, second, "italic"@);
    lemma_member_order(first, second, "code"@);
    lemma_member_order(first, second, "strikethrough"@);
    lemma_member_order(first, second, "highlight"@);
    lemma_member_order(first, second, "type"@);
    lemma_member_order(first, second, "children"@);
    lemma_member_order(first, second, "url"@);
    lemma_member_order(first, second, "lang"@);
    lemma_member_order(first, second, "checked"@);
    lemma_member_order(first, second, "variant"@);
    lemma_member_order(first, second, "alt"@);
    lemma_member_order(first, second, "value"@);
    lemma_member_index(first, "children"@);
    lemma_member_index(second, "children"@);
}

/// The index of the last member named `key`.
fn find_member(members: &Vec<(String, Json)>, key: &str) -> (r: Option<usize>)
    ensures
        match r {
            Some(k) => k < members.len() && member_index(members_model(members@), key@) == Some(
                k as int,
            ),
            None => member_index(members_model(members@), key@) is None,
        },
{
    let ghost model = members_model(members@);
    let mut i: usize = members.len();
    assert(model.take(i as int) =~= model);
    while i > 0
        invariant
            i <= members.len(),
            model == members_model(members@),
            member_index(model, key@) == member_index(model.take(i as int), key@),
        decreases i,
    {
        assert(model.take(i as int).drop_last() =~= model.take(i - 1));
        assert(model.take(i as int).last() == model[i - 1]);
        if same_text(members[i - 1].0.as_str(), key) {
            return Some(i - 1);
        }
        i -= 1;
    }
    None
}

/// The string that the member named `key` holds.
fn text_of(members: &Vec<(String, Json)>, key: &str) -> (r: Option<String>)
    ensures
        text_model(r) == text_member(members_model(members@), key@),
{
    match find_member(members, key) {
        Some(k) => match &members[k].1 {
            Json::Text(text) => Some(text.clone()),
            _ => None,
        },
        None => None,
    }
}

/// Whether the member named `key` is there and is `true`.
fn flag_of(members: &Vec<(String, Json)>, key: &str) -> (r: bool)
    ensures
        r == flag_member(members_model(members@), key@),
{
    match find_member(members, key) {
        Some(k) => match &members[k].1 {
            Json::Bool(b) => *b,
            _ => false,
        },
        None => false,
    }
}

/// The node that `json` describes.
fn node_from(json: &Json) -> (node: Node)
    ensures
        node@ == node_of(json@),
    decreases json,
{
    match json {
        Json::Object(members) => {
            proof {
                lemma_object_model(*members);
            }
            match text_of(members, "text") {
                Some(text) => Node::Text {
                    text,
                    marks: Marks {
                        bold: flag_of(members, "bold"),
                        italic: flag_of(members, "italic"),
                        code: flag_of(members, "code"),
                        strikethrough: flag_of(members, "strikethrough"),
                        highlight: flag_of(members, "highlight"),
                    },
                },
                None => {
                    let tag = match text_of(members, "type") {
                        Some(tag) => tag,
                        None => String::new(),
                    };
                    let children = match find_member(members, "children") {
                        Some(k) => match &members[k].1 {
                            Json::Array(items) => {
                                proof {
                                    lemma_array_model(*items);
                                }
                                nodes_from(items)
                            },
                            _ => Vec::new(),
                        },
                        None => Vec::new(),
                    };
                    let attributes = Attributes {
                        url: text_of(members, "url"),
                        lang: text_of(members, "lang"),
                        checked: flag_of(members, "checked"),
                        variant: text_of(members, "variant"),
                        alt: text_of(members, "alt"),
                        value: text_of(members, "value"),
                    };
                    proof {
                        lemma_element_model(tag, children, attributes);
                        assert(document_model(children@) =~= node_of(json@)->children);
                    }
                    Node::Element { tag, children, attributes }
                },
            }
        },
        _ => Node::Text { text: String::new(), marks: Marks::none() },
    }
}

/// The nodes that `items` describe, in order.
fn nodes_from(items: &Vec<Json>) -> (nodes: Vec<Node>)
    ensures
        document_model(nodes@) == nodes_of(items_model(items@)),
    decreases items,
{
    let mut nodes: Vec<Node> = Vec::new();
    let mut i: usize = 0;
    while i < items.len()
        invariant
            i <= items.len(),
            nodes.len() == i,
            forall|j: int| 0 <= j < i ==> (#[trigger] nodes@[j])@ == node_of(items@[j]@),
        decreases items.len() - i,
    {
        let node = node_from(&items[i]);
        nodes.push(node);
        i += 1;
    }
    assert(document_model(nodes@) =~= nodes_of(items_model(items@)));
    nodes
}

/// The document that `json` describes: `Some` for an array, whose items
/// become the nodes, and `None` for any other value.
pub fn document_from(json: &Json) -> (r: Option<Document>)
    ensures
        match r {
            Some(document) => document_of(json@) == Some(document_model(document@)),
            None => document_of(json@) is None,
        },
{
    match json {
        Json::Array(items) => {
            proof {
                lemma_array_model(*items);
            }
            Some(nodes_from(items))
        },
        _ => None,
    }
}

/// Reads a document from its structured form: `Some` where `content` is
/// the JSON text of an array, `None` for any other text.
pub fn read_document(content: &str) -> (r: Option<Document>)
    ensures
        match r {
            Some(document) => structured_document(content@) == Some(document_model(document@)),
            None => structured_document(content@) is None,
        },
{
    match parse(content) {
        Some(json) => document_from(&json),
        None => None,
    }
}

/// Whether `content` has the shape of the structured format: trimmed, it
/// begins with `[` and ends with `]`. This looks at the shape only; the
/// text may still fail to parse.
pub fn is_structured_format(content: &str) -> (r: bool)
    ensures
        r == looks_structured(content@),
{
    let src = chars_of(content);
    let t = trim_chars(&src);
    t.len() > 0 && t[0] == '[' && t[t.len() - 1] == ']'
}

} // verus!
