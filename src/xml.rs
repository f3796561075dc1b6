use crate::error::{missing, DecodeError, DecodeErrorView};
use crate::text::{eq_ignore_case, same_ignoring_case};
use vstd::prelude::*;

verus! {

#[verifier::external_type_specification]
#[verifier::external_body]
pub struct ExXmlError(roxmltree::Error);

/// One node of a parsed XML document. A document is the list of its nodes in
/// document order, the root first; a node refers to its parent by position.
#[derive(Debug)]
pub struct XmlNode {
    /// Whether the node is an element (else the root, text, a comment, ...).
    pub element: bool,
    /// The local tag name of an element; empty for other nodes.
    pub name: String,
    /// The attributes of an element, as (local name, value), in document order.
    pub attributes: Vec<(String, String)>,
    /// For an element, the text of its first child when that is text; for text
    /// and comments, their own text.
    pub text: Option<String>,
    /// The position of the parent; `None` for the root.
    pub parent: Option<usize>,
}

/// An [`XmlNode`] as plain values.
pub struct XmlNodeView {
    pub element: bool,
    pub name: Seq<char>,
    pub attributes: Seq<(Seq<char>, Seq<char>)>,
    pub text: Option<Seq<char>>,
    pub parent: Option<usize>,
}

impl View for XmlNode {
    type V = XmlNodeView;

    open spec fn view(&self) -> XmlNodeView {
        XmlNodeView {
            element: self.element,
            name: self.name@,
            attributes: self.attributes.deep_view(),
            text: self.text.deep_view(),
            parent: self.parent,
        }
    }
}

impl DeepView for XmlNode {
    type V = XmlNodeView;

    open spec fn deep_view(&self) -> XmlNodeView {
        self@
    }
}

/// The nodes of the XML document `text`, or `None` where it is not well-formed.
pub uninterp spec fn xml_nodes_of(text: Seq<char>) -> Option<Seq<XmlNodeView>>;

/// Relies on `roxmltree::Document::parse`, which either rejects `text` or gives
/// its tree; `descendants` of the document walks it in document order, and a
/// node's id is its position in that walk. The result depends on `text` alone.
#[verifier::external_body]
fn parse_xml(text: &str) -> (r: Result<Vec<XmlNode>, roxmltree::Error>)
    ensures
        r matches Ok(nodes) ==> xml_nodes_of(text@) == Some(nodes.deep_view()),
        r is Err ==> xml_nodes_of(text@) is None,
{
    let doc = roxmltree::Document::parse(text)?;
    Ok(doc.descendants().map(|n| XmlNode {
        element: n.is_element(),
        name: n.tag_name().name().to_string(),
        attributes: n.attributes().iter().map(|a| (a.name().to_string(), a.value().to_string()))
            .collect(),
        text: n.text().map(|t| t.to_string()),
        parent: n.parent().map(|p| p.id().get_usize()),
    }).collect())
}

/// Parses an XML document into its nodes.
pub fn parse_document(text: &str) -> (r: Result<Vec<XmlNode>, DecodeError>)
    ensures
        r matches Ok(nodes) ==> xml_nodes_of(text@) == Some(nodes.deep_view()),
        r matches Err(e) ==> xml_nodes_of(text@) is None && e@ == DecodeErrorView::Xml,
{
    match parse_xml(text) {
        Ok(nodes) => Ok(nodes),
        Err(e) => Err(DecodeError::Xml(e)),
    }
}

/// `n` is an element whose tag is `name`, compared case-insensitively.
pub open spec fn is_named(n: XmlNodeView, name: Seq<char>) -> bool {
    n.element && same_ignoring_case(n.name, name)
}

/// The position of the first element named `name` among `nodes[..end]`.
pub open spec fn first_named(nodes: Seq<XmlNodeView>, name: Seq<char>, end: int) -> Option<usize>
    decreases end,
{
    if end <= 0 {
        None
    } else {
        match first_named(nodes, name, end - 1) {
            Some(i) => Some(i),
            None => if is_named(nodes[end - 1], name) {
                Some((end - 1) as usize)
            } else {
                None
            },
        }
    }
}

/// The positions, in document order, of the children of `nodes[parent]` among
/// `nodes[..end]` that are elements named `name`.
pub open spec fn named_children(
    nodes: Seq<XmlNodeView>,
    parent: int,
    name: Seq<char>,
    end: int,
) -> Seq<int>
    decreases end,
{
    if end <= 0 {
        seq![]
    } else {
        let before = named_children(nodes, parent, name, end - 1);
        if nodes[end - 1].parent == Some(parent as usize) && is_named(nodes[end - 1], name) {
            before.push(end - 1)
        } else {
            before
        }
    }
}

/// The value of the first attribute among `attributes[..end]` whose name is
/// `name`, compared case-insensitively.
pub open spec fn attribute_in(
    attributes: Seq<(Seq<char>, Seq<char>)>,
    name: Seq<char>,
    end: int,
) -> Option<Seq<char>>
    decreases end,
{
    if end <= 0 {
        None
    } else {
        match attribute_in(attributes, name, end - 1) {
            Some(v) => Some(v),
            None => if same_ignoring_case(attributes[end - 1].0, name) {
                Some(attributes[end - 1].1)
            } else {
                None
            },
        }
    }
}

proof fn lemma_first_named_stays(nodes: Seq<XmlNodeView>, name: Seq<char>, k: int, end: int)
    requires
        k <= end,
        first_named(nodes, name, k) is Some,
    ensures
        first_named(nodes, name, end) == first_named(nodes, name, k),
    decreases end - k,
{
    if end > k {
        lemma_first_named_stays(nodes, name, k, end - 1);
    }
}

pub proof fn lemma_first_named_bound(nodes: Seq<XmlNodeView>, name: Seq<char>, end: int)
    ensures
        first_named(nodes, name, end) matches Some(i) ==> 0 <= i < end,
    decreases end,
{
    if end > 0 {
        lemma_first_named_bound(nodes, name, end - 1);
    }
}

proof fn lemma_attribute_in_stays(
    attributes: Seq<(Seq<char>, Seq<char>)>,
    name: Seq<char>,
    k: int,
    end: int,
)
    requires
        k <= end,
        attribute_in(attributes, name, k) is Some,
    ensures
        attribute_in(attributes, name, end) == attribute_in(attributes, name, k),
    decreases end - k,
{
    if end > k {
        lemma_attribute_in_stays(attributes, name, k, end - 1);
    }
}

/// The value of the attribute `name` of `n`.
pub open spec fn attribute_of(n: XmlNodeView, name: Seq<char>) -> Option<Seq<char>> {
    attribute_in(n.attributes, name, n.attributes.len() as int)
}

/// Looks up an attribute of `node` by name, case-insensitively.
pub fn node_attribute(node: &XmlNode, attr: &str) -> (r: Option<String>)
    ensures
        r.deep_view() == attribute_of(node@, attr@),
{
    let n = node.attributes.len();
    let mut i: usize = 0;
    while i < n
        invariant
            n == node.attributes@.len(),
            i <= n,
            attribute_in(node@.attributes, attr@, i as int) is None,
        decreases n - i,
    {
        let (key, value) = &node.attributes[i];
        if eq_ignore_case(key.as_str(), attr) {
            proof {
                assert(node@.attributes[i as int] == (key@, value@));
                lemma_attribute_in_stays(node@.attributes, attr@, i + 1, n as int);
            }
            return Some(value.clone());
        }
        proof {
            assert(node@.attributes[i as int] == (key@, value@));
        }
        i = i + 1;
    }
    None
}

/// Looks up an attribute of `node`, failing with the element's name and the
/// attribute's where it is absent.
pub fn find_node_attribute(node: &XmlNode, attr: &str) -> (r: Result<String, DecodeError>)
    ensures
        r matches Ok(v) ==> attribute_of(node@, attr@) == Some(v@),
        r matches Err(e) ==> attribute_of(node@, attr@) is None && e@
            == DecodeErrorView::MissingElement(node.name@, attr@),
{
    match node_attribute(node, attr) {
        Some(v) => Ok(v),
        None => Err(DecodeError::MissingElement(node.name.clone(), String::from_str(attr))),
    }
}

/// Finds the first element named `element` in document order, failing with
/// `docname` and `element` where there is none.
pub fn find_root_node(nodes: &Vec<XmlNode>, element: &str, docname: &str) -> (r: Result<
    usize,
    DecodeError,
>)
    ensures
        r matches Ok(i) ==> first_named(nodes.deep_view(), element@, nodes@.len() as int) == Some(
            i,
        ),
        r matches Err(e) ==> first_named(nodes.deep_view(), element@, nodes@.len() as int) is None
            && e@ == DecodeErrorView::MissingElement(docname@, element@),
{
    let n = nodes.len();
    let mut i: usize = 0;
    while i < n
        invariant
            n == nodes@.len(),
            i <= n,
            first_named(nodes.deep_view(), element@, i as int) is None,
        decreases n - i,
    {
        let node = &nodes[i];
        if node.element && eq_ignore_case(node.name.as_str(), element) {
            proof {
                assert(nodes.deep_view()[i as int] == node@);
                lemma_first_named_stays(nodes.deep_view(), element@, i + 1, n as int);
            }
            return Ok(i);
        }
        proof {
            assert(nodes.deep_view()[i as int] == node@);
        }
        i = i + 1;
    }
    Err(missing(docname, element))
}

} // verus!
