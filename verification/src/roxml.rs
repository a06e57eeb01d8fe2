//! Building an [`XmlDocument`] from a document parsed by `roxmltree`.
use vstd::prelude::*;

use crate::xml::{
    nodes_view, well_formed, NodeKindView, NodeView, XmlAttribute, XmlDocument, XmlNamespace,
    XmlNode, XmlNodeKind,
};
use crate::text::opt_string_view;

verus! {

#[verifier::external_type_specification]
#[verifier::external_body]
pub struct ExDocument<'input>(roxmltree::Document<'input>);

/// The nodes of a parsed document, node `i` being the one whose
/// `roxmltree::NodeId` is `i`: its parent, children, kind and expanded tag
/// name, attributes, and the namespace bindings in scope of it.
pub uninterp spec fn roxml_nodes(doc: roxmltree::Document) -> Seq<NodeView>;

/// The kind of a node, without its tag name.
enum NodeCategory {
    Root,
    Element,
    Text,
    Comment,
    ProcessingInstruction,
}

/// Whether a node kind is of a category.
spec fn kind_in(kind: NodeKindView, c: NodeCategory) -> bool {
    match c {
        NodeCategory::Root => kind is Root,
        NodeCategory::Element => kind is Element,
        NodeCategory::Text => kind is Text,
        NodeCategory::Comment => kind is Comment,
        NodeCategory::ProcessingInstruction => kind is ProcessingInstruction,
    }
}

/// `Document::descendants` of the document (which starts at the root and
/// walks every node), counted with `ExactSizeIterator::len`: the number of
/// nodes.
#[verifier::external_body]
fn rx_node_count(doc: &roxmltree::Document) -> (n: usize)
    ensures
        n == roxml_nodes(*doc).len(),
{
    doc.descendants().len()
}

/// `Node::parent` of node `id` (found with `Document::get_node`), as the
/// index of the parent's `NodeId`.
#[verifier::external_body]
fn rx_parent(doc: &roxmltree::Document, id: usize) -> (r: Option<usize>)
    requires
        id < roxml_nodes(*doc).len(),
    ensures
        r == roxml_nodes(*doc)[id as int].parent,
{
    match doc.get_node(roxmltree::NodeId::from(id)).unwrap().parent() {
        Some(p) => Some(p.id().get_usize()),
        None => None,
    }
}

/// `Node::children` of node `id`, each as the index of its `NodeId`.
#[verifier::external_body]
fn rx_children(doc: &roxmltree::Document, id: usize) -> (r: Vec<usize>)
    requires
        id < roxml_nodes(*doc).len(),
    ensures
        r@ == roxml_nodes(*doc)[id as int].children,
{
    doc.get_node(roxmltree::NodeId::from(id)).unwrap().children().map(|c| c.id().get_usize()).collect()
}

/// `Node::node_type` of node `id`.
#[verifier::external_body]
fn rx_node_type(doc: &roxmltree::Document, id: usize) -> (r: NodeCategory)
    requires
        id < roxml_nodes(*doc).len(),
    ensures
        kind_in(roxml_nodes(*doc)[id as int].kind, r),
{
    match doc.get_node(roxmltree::NodeId::from(id)).unwrap().node_type() {
        roxmltree::NodeType::Root => NodeCategory::Root,
        roxmltree::NodeType::Element => NodeCategory::Element,
        roxmltree::NodeType::Text => NodeCategory::Text,
        roxmltree::NodeType::Comment => NodeCategory::Comment,
        roxmltree::NodeType::PI => NodeCategory::ProcessingInstruction,
    }
}

/// `Node::tag_name` of element `id`: namespace URI and local name.
#[verifier::external_body]
fn rx_tag_name(doc: &roxmltree::Document, id: usize) -> (r: (Option<String>, String))
    requires
        id < roxml_nodes(*doc).len(),
        roxml_nodes(*doc)[id as int].kind is Element,
    ensures
        opt_string_view(r.0) == roxml_nodes(*doc)[id as int].kind->namespace,
        r.1@ == roxml_nodes(*doc)[id as int].kind->name,
{
    let name = doc.get_node(roxmltree::NodeId::from(id)).unwrap().tag_name();
    (name.namespace().map(|s| s.to_owned()), name.name().to_owned())
}

/// `Node::attributes` of node `id`, each as namespace URI, local name and
/// value.
#[verifier::external_body]
fn rx_attributes(doc: &roxmltree::Document, id: usize) -> (r: Vec<XmlAttribute>)
    requires
        id < roxml_nodes(*doc).len(),
    ensures
        r@.map_values(|a: XmlAttribute| a@) == roxml_nodes(*doc)[id as int].attributes,
{
    doc.get_node(roxmltree::NodeId::from(id)).unwrap().attributes().map(
        |a| XmlAttribute {
            namespace: a.namespace().map(|s| s.to_owned()),
            name: a.name().to_owned(),
            value: a.value().to_owned(),
        },
    ).collect()
}

/// `Node::namespaces` of node `id`: every binding in scope, as prefix and
/// URI.
#[verifier::external_body]
fn rx_namespaces(doc: &roxmltree::Document, id: usize) -> (r: Vec<XmlNamespace>)
    requires
        id < roxml_nodes(*doc).len(),
    ensures
        r@.map_values(|b: XmlNamespace| b@) == roxml_nodes(*doc)[id as int].namespaces,
{
    doc.get_node(roxmltree::NodeId::from(id)).unwrap().namespaces().map(
        |b| XmlNamespace { prefix: b.name().map(|s| s.to_owned()), uri: b.uri().to_owned() },
    ).collect()
}

impl XmlDocument {
    /// The tree of a document parsed by `roxmltree`, node `i` being the one
    /// whose `NodeId` is `i`; `None` when it is not a well-formed tree.
    pub fn from_roxmltree(doc: &roxmltree::Document) -> (r: Option<XmlDocument>)
        ensures
            r is Some <==> well_formed(roxml_nodes(*doc)),
            r matches Some(d) ==> d@ == roxml_nodes(*doc),
    {
        let ghost model = roxml_nodes(*doc);
        let n = rx_node_count(doc);
        let mut nodes: Vec<XmlNode> = Vec::new();
        let mut i: usize = 0;
        while i < n
            invariant
                model == roxml_nodes(*doc),
                n == model.len(),
                i <= n,
                nodes@.len() == i,
                forall|k: int| 0 <= k < i ==> (#[trigger] nodes@[k])@ == model[k],
            decreases n - i,
        {
            let parent = rx_parent(doc, i);
            let children = rx_children(doc, i);
            let kind = match rx_node_type(doc, i) {
                NodeCategory::Root => XmlNodeKind::Root,
                NodeCategory::Element => {
                    let (namespace, name) = rx_tag_name(doc, i);
                    XmlNodeKind::Element { namespace, name }
                },
                NodeCategory::Text => XmlNodeKind::Text,
                NodeCategory::Comment => XmlNodeKind::Comment,
                NodeCategory::ProcessingInstruction => XmlNodeKind::ProcessingInstruction,
            };
            let attributes = rx_attributes(doc, i);
            let namespaces = rx_namespaces(doc, i);
            let node = XmlNode { parent, children, kind, attributes, namespaces };
            assert(node@ == model[i as int]);
            nodes.push(node);
            i = i + 1;
        }
        assert(nodes_view(nodes@) =~= model);
        XmlDocument::new(nodes)
    }
}

} // verus!
