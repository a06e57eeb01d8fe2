//! The parts of a WSDL 1.1 document: messages and their parts, port types
//! and their operations, bindings, services and their ports, each a handle
//! on an element of an [`XmlDocument`].
use vstd::prelude::*;

use crate::error::{
    invalid_reference, missing_attribute, missing_element, ErrorAt, ErrorDesc, NodeId, WsError,
    WsErrorType,
};
use crate::qname::{resolve_qualified, spec_resolve_qualified, spec_split_qualified, split_qualified, ExpandedName};
use crate::text::str_equal;
use crate::xml::{
    ancestor_attribute, attr_value_pred, attribute_of, element_pred, tag_pred, NodeView,
    XmlDocument,
};
use crate::seqs::first_where;

verus! {

// ---------------------------------------------------------------------------
// What each operation returns, over the document's nodes
// ---------------------------------------------------------------------------

/// The WSDL 1.1 namespace URI.
pub open spec fn wsdl_ns() -> Seq<char> {
    "http://schemas.xmlsoap.org/wsdl/"@
}

/// The WSDL 1.1 namespace URI.
pub fn wsdl_namespace() -> (r: &'static str)
    ensures
        r@ == wsdl_ns(),
{
    "http://schemas.xmlsoap.org/wsdl/"
}

/// The WSDL children of node `id` with local name `local`, in order.
pub open spec fn wsdl_children(nodes: Seq<NodeView>, id: usize, local: Seq<char>) -> Seq<usize> {
    nodes[id as int].children.filter(tag_pred(nodes, wsdl_ns(), local))
}

/// The `name` attribute of node `id`, which must be present.
pub open spec fn spec_name(nodes: Seq<NodeView>, id: usize) -> Result<Seq<char>, ErrorAt> {
    match attribute_of(nodes[id as int], "name"@) {
        Some(v) => Ok(v),
        None => Err(ErrorAt { node: id, desc: ErrorDesc::MissingAttribute("name"@) }),
    }
}

/// The document element: the first element child of the root.
pub open spec fn root_element_of(nodes: Seq<NodeView>) -> usize {
    match first_where(nodes[0].children, element_pred(nodes)) {
        Some(e) => e,
        None => 0,
    }
}

/// The `definitions` element among the children of the root.
pub open spec fn spec_definitions(nodes: Seq<NodeView>) -> Result<usize, ErrorAt> {
    match first_where(nodes[0].children, tag_pred(nodes, wsdl_ns(), "definitions"@)) {
        Some(d) => Ok(d),
        None => Err(
            ErrorAt {
                node: root_element_of(nodes),
                desc: ErrorDesc::MissingElement("definitions"@),
            },
        ),
    }
}

/// The WSDL children of the `definitions` element with local name `local`.
pub open spec fn spec_top_level(nodes: Seq<NodeView>, local: Seq<char>) -> Result<
    Seq<usize>,
    ErrorAt,
> {
    match spec_definitions(nodes) {
        Ok(d) => Ok(wsdl_children(nodes, d, local)),
        Err(e) => Err(e),
    }
}

/// The target namespace of node `id`: the `targetNamespace` attribute of its
/// nearest proper ancestor that has one.
pub open spec fn spec_target_namespace(nodes: Seq<NodeView>, id: usize) -> Result<
    Seq<char>,
    ErrorAt,
> {
    let found = match nodes[id as int].parent {
        Some(p) => ancestor_attribute(nodes, p as int, "targetNamespace"@),
        None => None,
    };
    match found {
        Some(v) => Ok(v),
        None => Err(ErrorAt { node: id, desc: ErrorDesc::MissingAttribute("targetNamespace"@) }),
    }
}

/// The type of a message part: its `element` attribute or else its `type`
/// attribute, resolved in scope of the part.
pub open spec fn spec_typename(nodes: Seq<NodeView>, id: usize) -> Result<
    (Option<Seq<char>>, Seq<char>),
    ErrorAt,
> {
    let n = nodes[id as int];
    let typename = match attribute_of(n, "element"@) {
        Some(v) => Some(v),
        None => attribute_of(n, "type"@),
    };
    match typename {
        None => Err(ErrorAt { node: id, desc: ErrorDesc::MissingAttribute("type"@) }),
        Some(q) => match spec_resolve_qualified(n, q) {
            Ok(e) => Ok(e),
            Err(d) => Err(ErrorAt { node: id, desc: d }),
        },
    }
}

/// The element among the WSDL children `local` of `definitions` whose name
/// is the local part of the qualified name held by attribute `attr` of node
/// `id`.
pub open spec fn spec_reference(
    nodes: Seq<NodeView>,
    id: usize,
    attr: Seq<char>,
    local: Seq<char>,
) -> Result<usize, ErrorAt> {
    match attribute_of(nodes[id as int], attr) {
        None => Err(ErrorAt { node: id, desc: ErrorDesc::MissingAttribute(attr) }),
        Some(q) => {
            let name = spec_split_qualified(q).1;
            match spec_top_level(nodes, local) {
                Err(e) => Err(e),
                Ok(candidates) => match first_where(
                    candidates,
                    attr_value_pred(nodes, "name"@, name),
                ) {
                    Some(x) => Ok(x),
                    None => Err(ErrorAt { node: id, desc: ErrorDesc::InvalidReference(name) }),
                },
            }
        },
    }
}

/// The message named by the `message` attribute of the first WSDL child
/// `local` (`input`, `output` or `fault`) of operation `id`; none when there
/// is no such child or it names no message.
pub open spec fn spec_message_ref(nodes: Seq<NodeView>, id: usize, local: Seq<char>) -> Result<
    Option<usize>,
    ErrorAt,
> {
    let reference = match first_where(nodes[id as int].children, tag_pred(nodes, wsdl_ns(), local)) {
        Some(c) => attribute_of(nodes[c as int], "message"@),
        None => None,
    };
    match reference {
        None => Ok(None),
        Some(q) => {
            let name = spec_split_qualified(q).1;
            match spec_top_level(nodes, "message"@) {
                Err(e) => Err(e),
                Ok(messages) => match first_where(messages, attr_value_pred(nodes, "name"@, name)) {
                    Some(m) => Ok(Some(m)),
                    None => Err(ErrorAt { node: id, desc: ErrorDesc::InvalidReference(name) }),
                },
            }
        },
    }
}

/// The first of `ops` named `name`; an operation without a name ends the
/// search with an error.
pub open spec fn spec_find_operation(nodes: Seq<NodeView>, ops: Seq<usize>, name: Seq<char>) -> Result<
    Option<usize>,
    ErrorAt,
>
    decreases ops.len(),
{
    if ops.len() == 0 {
        Ok(None)
    } else {
        match spec_name(nodes, ops[0]) {
            Err(e) => Err(e),
            Ok(n) => if n == name {
                Ok(Some(ops[0]))
            } else {
                spec_find_operation(nodes, ops.drop_first(), name)
            },
        }
    }
}

/// The port type operation that binding operation `id` binds: the operation
/// of the binding's port type with the same name.
pub open spec fn spec_port_operation(nodes: Seq<NodeView>, id: usize) -> Result<usize, ErrorAt> {
    match spec_name(nodes, id) {
        Err(e) => Err(e),
        Ok(name) => match nodes[id as int].parent {
            None => Err(ErrorAt { node: id, desc: ErrorDesc::NoParentNode }),
            Some(binding) => match spec_reference(nodes, binding, "type"@, "portType"@) {
                Err(e) => Err(e),
                Ok(port_type) => match spec_find_operation(
                    nodes,
                    wsdl_children(nodes, port_type, "operation"@),
                    name,
                ) {
                    Err(e) => Err(e),
                    Ok(Some(op)) => Ok(op),
                    Ok(None) => Err(ErrorAt { node: id, desc: ErrorDesc::MissingElement(name) }),
                },
            },
        },
    }
}

// ---------------------------------------------------------------------------
// Handles on elements
// ---------------------------------------------------------------------------

/// A handle on a node of a document.
pub trait WsNode<'a>: Sized {
    /// The nodes of the document the handle points into.
    spec fn nodes(&self) -> Seq<NodeView>;

    /// The position of the node.
    spec fn id(&self) -> usize;

    /// The handle on node `id` of `doc`.
    fn at(doc: &'a XmlDocument, id: usize) -> (r: Self)
        requires
            id < doc@.len(),
        ensures
            r.nodes() == doc@,
            r.id() == id,
    ;
}

/// Handles on exactly the nodes `ids` of `nodes`, in order.
pub open spec fn handles_are<'a, T: WsNode<'a>>(v: Seq<T>, nodes: Seq<NodeView>, ids: Seq<usize>) -> bool {
    &&& v.len() == ids.len()
    &&& forall|k: int| 0 <= k < v.len() ==> (#[trigger] v[k]).nodes() == nodes && v[k].id() == ids[k]
}

/// A result that is a handle on node `i` of `nodes` when `expected` is
/// `Ok(i)`, and the expected error otherwise.
pub open spec fn handle_result<'a, T: WsNode<'a>>(
    r: Result<T, WsError>,
    nodes: Seq<NodeView>,
    expected: Result<usize, ErrorAt>,
) -> bool {
    match expected {
        Ok(i) => r matches Ok(h) && h.nodes() == nodes && h.id() == i,
        Err(e) => r matches Err(x) && x@ == e,
    }
}

/// Like [`handle_result`], for an optional handle.
pub open spec fn opt_handle_result<'a, T: WsNode<'a>>(
    r: Result<Option<T>, WsError>,
    nodes: Seq<NodeView>,
    expected: Result<Option<usize>, ErrorAt>,
) -> bool {
    match expected {
        Ok(Some(i)) => r matches Ok(Some(h)) && h.nodes() == nodes && h.id() == i,
        Ok(None) => r matches Ok(None),
        Err(e) => r matches Err(x) && x@ == e,
    }
}

/// Like [`handle_result`], for a list of handles.
pub open spec fn handles_result<'a, T: WsNode<'a>>(
    r: Result<Vec<T>, WsError>,
    nodes: Seq<NodeView>,
    expected: Result<Seq<usize>, ErrorAt>,
) -> bool {
    match expected {
        Ok(ids) => r matches Ok(v) && handles_are(v@, nodes, ids),
        Err(e) => r matches Err(x) && x@ == e,
    }
}

/// A string result taken by characters.
pub open spec fn str_result_view(r: Result<&str, WsError>) -> Result<Seq<char>, ErrorAt> {
    match r {
        Ok(s) => Ok(s@),
        Err(e) => Err(e@),
    }
}

/// An expanded-name result taken by views.
pub open spec fn name_result_view(r: Result<ExpandedName, WsError>) -> Result<
    (Option<Seq<char>>, Seq<char>),
    ErrorAt,
> {
    match r {
        Ok(n) => Ok(n@),
        Err(e) => Err(e@),
    }
}

/// A node-position result taken by its error's view.
pub open spec fn id_result_view(r: Result<usize, WsError>) -> Result<usize, ErrorAt> {
    match r {
        Ok(i) => Ok(i),
        Err(e) => Err(e@),
    }
}

/// The handles on nodes `ids` of `doc`.
fn handles_for<'a, T: WsNode<'a>>(doc: &'a XmlDocument, ids: &Vec<usize>) -> (r: Vec<T>)
    requires
        forall|k: int| 0 <= k < ids@.len() ==> #[trigger] ids@[k] < doc@.len(),
    ensures
        handles_are(r@, doc@, ids@),
{
    let mut out: Vec<T> = Vec::new();
    let mut k: usize = 0;
    while k < ids.len()
        invariant
            forall|k2: int| 0 <= k2 < ids@.len() ==> #[trigger] ids@[k2] < doc@.len(),
            k <= ids@.len(),
            out@.len() == k,
            forall|k2: int|
                0 <= k2 < k ==> (#[trigger] out@[k2]).nodes() == doc@ && out@[k2].id() == ids@[k2],
        decreases ids@.len() - k,
    {
        let h = T::at(doc, ids[k]);
        out.push(h);
        k = k + 1;
    }
    out
}

/// The `name` attribute of node `id`.
fn node_name<'a>(doc: &'a XmlDocument, id: usize) -> (r: Result<&'a str, WsError>)
    requires
        id < doc@.len(),
    ensures
        str_result_view(r) == spec_name(doc@, id),
{
    match doc.attribute(id, "name") {
        Some(v) => Ok(v),
        None => Err(missing_attribute(id, "name")),
    }
}

/// The WSDL children of node `id` with local name `local`.
fn wsdl_children_of<'a>(doc: &'a XmlDocument, id: usize, local: &str) -> (r: Vec<usize>)
    requires
        id < doc@.len(),
    ensures
        r@ == wsdl_children(doc@, id, local@),
        forall|k: int| 0 <= k < r@.len() ==> #[trigger] r@[k] < doc@.len(),
{
    let r = doc.children_tagged(id, wsdl_namespace(), local);
    proof {
        use_type_invariant(doc);
        crate::seqs::lemma_filter_members(
            doc@[id as int].children,
            tag_pred(doc@, wsdl_ns(), local@),
        );
        assert forall|k: int| 0 <= k < r@.len() implies #[trigger] r@[k] < doc@.len() by {
            let j = choose|j: int|
                0 <= j < doc@[id as int].children.len() && doc@[id as int].children[j] == r@[k];
            assert(doc@[id as int].children[j] < doc@.len());
        }
    }
    r
}

/// The target namespace of node `id`: the `targetNamespace` attribute of its
/// nearest proper ancestor that has one.
pub fn target_namespace<'a>(doc: &'a XmlDocument, id: usize) -> (r: Result<&'a str, WsError>)
    requires
        id < doc@.len(),
    ensures
        str_result_view(r) == spec_target_namespace(doc@, id),
{
    let found = match doc.parent(id) {
        Some(p) => doc.ancestor_attribute(p, "targetNamespace"),
        None => None,
    };
    match found {
        Some(v) => Ok(v),
        None => Err(missing_attribute(id, "targetNamespace")),
    }
}

/// Describes a WSDL `message`: the parameters of a call.
#[derive(Debug, Clone, Copy)]
pub struct WsMessage<'a> {
    doc: &'a XmlDocument,
    id: usize,
}

/// Describes a part of a WSDL message: one parameter.
#[derive(Debug, Clone, Copy)]
pub struct WsMessagePart<'a> {
    doc: &'a XmlDocument,
    id: usize,
}

/// Describes a WSDL `portType`: a group of operations.
#[derive(Debug, Clone, Copy)]
pub struct WsPortType<'a> {
    doc: &'a XmlDocument,
    id: usize,
}

/// An operation of a WSDL `portType`: a function.
#[derive(Debug, Clone, Copy)]
pub struct WsPortOperation<'a> {
    doc: &'a XmlDocument,
    id: usize,
}

/// An operation of a WSDL binding.
#[derive(Debug, Clone, Copy)]
pub struct WsBindingOperation<'a> {
    doc: &'a XmlDocument,
    id: usize,
}

/// A WSDL binding: how the operations of a port type go to and from the
/// wire.
#[derive(Debug, Clone, Copy)]
pub struct WsBinding<'a> {
    doc: &'a XmlDocument,
    id: usize,
}

/// A port of a WSDL service.
#[derive(Debug)]
pub struct WsServicePort<'a> {
    doc: &'a XmlDocument,
    id: usize,
}

/// A WSDL service, usually an HTTP endpoint that serves messages bound with
/// a [`WsBinding`].
#[derive(Debug)]
pub struct WsService<'a> {
    doc: &'a XmlDocument,
    id: usize,
}

impl<'a> WsNode<'a> for WsMessage<'a> {
    closed spec fn nodes(&self) -> Seq<NodeView> {
        self.doc@
    }

    closed spec fn id(&self) -> usize {
        self.id
    }

    fn at(doc: &'a XmlDocument, id: usize) -> (r: Self) {
        WsMessage { doc, id }
    }
}

impl<'a> WsNode<'a> for WsMessagePart<'a> {
    closed spec fn nodes(&self) -> Seq<NodeView> {
        self.doc@
    }

    closed spec fn id(&self) -> usize {
        self.id
    }

    fn at(doc: &'a XmlDocument, id: usize) -> (r: Self) {
        WsMessagePart { doc, id }
    }
}

impl<'a> WsNode<'a> for WsPortType<'a> {
    closed spec fn nodes(&self) -> Seq<NodeView> {
        self.doc@
    }

    closed spec fn id(&self) -> usize {
        self.id
    }

    fn at(doc: &'a XmlDocument, id: usize) -> (r: Self) {
        WsPortType { doc, id }
    }
}

impl<'a> WsNode<'a> for WsPortOperation<'a> {
    closed spec fn nodes(&self) -> Seq<NodeView> {
        self.doc@
    }

    closed spec fn id(&self) -> usize {
        self.id
    }

    fn at(doc: &'a XmlDocument, id: usize) -> (r: Self) {
        WsPortOperation { doc, id }
    }
}

impl<'a> WsNode<'a> for WsBindingOperation<'a> {
    closed spec fn nodes(&self) -> Seq<NodeView> {
        self.doc@
    }

    closed spec fn id(&self) -> usize {
        self.id
    }

    fn at(doc: &'a XmlDocument, id: usize) -> (r: Self) {
        WsBindingOperation { doc, id }
    }
}

impl<'a> WsNode<'a> for WsBinding<'a> {
    closed spec fn nodes(&self) -> Seq<NodeView> {
        self.doc@
    }

    closed spec fn id(&self) -> usize {
        self.id
    }

    fn at(doc: &'a XmlDocument, id: usize) -> (r: Self) {
        WsBinding { doc, id }
    }
}

impl<'a> WsNode<'a> for WsServicePort<'a> {
    closed spec fn nodes(&self) -> Seq<NodeView> {
        self.doc@
    }

    closed spec fn id(&self) -> usize {
        self.id
    }

    fn at(doc: &'a XmlDocument, id: usize) -> (r: Self) {
        WsServicePort { doc, id }
    }
}

impl<'a> WsNode<'a> for WsService<'a> {
    closed spec fn nodes(&self) -> Seq<NodeView> {
        self.doc@
    }

    closed spec fn id(&self) -> usize {
        self.id
    }

    fn at(doc: &'a XmlDocument, id: usize) -> (r: Self) {
        WsService { doc, id }
    }
}


impl<'a> WsMessage<'a> {
    #[verifier::type_invariant]
    spec fn inv(self) -> bool {
        self.id < self.doc@.len()
    }

    /// The name of this element.
    pub fn name(&self) -> (r: Result<&'a str, WsError>)
        ensures
            str_result_view(r) == spec_name(self.nodes(), self.id()),
    {
        proof {
            use_type_invariant(self);
        }
        node_name(self.doc, self.id)
    }

    /// The XML node this element is.
    pub fn node(&self) -> (r: NodeId)
        ensures
            r.0 == self.id(),
            r.0 < self.nodes().len(),
    {
        proof {
            use_type_invariant(self);
        }
        NodeId(self.id)
    }
}

impl<'a> WsMessagePart<'a> {
    #[verifier::type_invariant]
    spec fn inv(self) -> bool {
        self.id < self.doc@.len()
    }

    /// The name of this element.
    pub fn name(&self) -> (r: Result<&'a str, WsError>)
        ensures
            str_result_view(r) == spec_name(self.nodes(), self.id()),
    {
        proof {
            use_type_invariant(self);
        }
        node_name(self.doc, self.id)
    }

    /// The XML node this element is.
    pub fn node(&self) -> (r: NodeId)
        ensures
            r.0 == self.id(),
            r.0 < self.nodes().len(),
    {
        proof {
            use_type_invariant(self);
        }
        NodeId(self.id)
    }
}

impl<'a> WsPortType<'a> {
    #[verifier::type_invariant]
    spec fn inv(self) -> bool {
        self.id < self.doc@.len()
    }

    /// The name of this element.
    pub fn name(&self) -> (r: Result<&'a str, WsError>)
        ensures
            str_result_view(r) == spec_name(self.nodes(), self.id()),
    {
        proof {
            use_type_invariant(self);
        }
        node_name(self.doc, self.id)
    }

    /// The XML node this element is.
    pub fn node(&self) -> (r: NodeId)
        ensures
            r.0 == self.id(),
            r.0 < self.nodes().len(),
    {
        proof {
            use_type_invariant(self);
        }
        NodeId(self.id)
    }
}

impl<'a> WsPortOperation<'a> {
    #[verifier::type_invariant]
    spec fn inv(self) -> bool {
        self.id < self.doc@.len()
    }

    /// The name of this element.
    pub fn name(&self) -> (r: Result<&'a str, WsError>)
        ensures
            str_result_view(r) == spec_name(self.nodes(), self.id()),
    {
        proof {
            use_type_invariant(self);
        }
        node_name(self.doc, self.id)
    }

    /// The XML node this element is.
    pub fn node(&self) -> (r: NodeId)
        ensures
            r.0 == self.id(),
            r.0 < self.nodes().len(),
    {
        proof {
            use_type_invariant(self);
        }
        NodeId(self.id)
    }
}

impl<'a> WsBindingOperation<'a> {
    #[verifier::type_invariant]
    spec fn inv(self) -> bool {
        self.id < self.doc@.len()
    }

    /// The name of this element.
    pub fn name(&self) -> (r: Result<&'a str, WsError>)
        ensures
            str_result_view(r) == spec_name(self.nodes(), self.id()),
    {
        proof {
            use_type_invariant(self);
        }
        node_name(self.doc, self.id)
    }

    /// The XML node this element is.
    pub fn node(&self) -> (r: NodeId)
        ensures
            r.0 == self.id(),
            r.0 < self.nodes().len(),
    {
        proof {
            use_type_invariant(self);
        }
        NodeId(self.id)
    }
}

impl<'a> WsBinding<'a> {
    #[verifier::type_invariant]
    spec fn inv(self) -> bool {
        self.id < self.doc@.len()
    }

    /// The name of this element.
    pub fn name(&self) -> (r: Result<&'a str, WsError>)
        ensures
            str_result_view(r) == spec_name(self.nodes(), self.id()),
    {
        proof {
            use_type_invariant(self);
        }
        node_name(self.doc, self.id)
    }

    /// The XML node this element is.
    pub fn node(&self) -> (r: NodeId)
        ensures
            r.0 == self.id(),
            r.0 < self.nodes().len(),
    {
        proof {
            use_type_invariant(self);
        }
        NodeId(self.id)
    }
}

impl<'a> WsServicePort<'a> {
    #[verifier::type_invariant]
    spec fn inv(self) -> bool {
        self.id < self.doc@.len()
    }

    /// The name of this element.
    pub fn name(&self) -> (r: Result<&'a str, WsError>)
        ensures
            str_result_view(r) == spec_name(self.nodes(), self.id()),
    {
        proof {
            use_type_invariant(self);
        }
        node_name(self.doc, self.id)
    }

    /// The XML node this element is.
    pub fn node(&self) -> (r: NodeId)
        ensures
            r.0 == self.id(),
            r.0 < self.nodes().len(),
    {
        proof {
            use_type_invariant(self);
        }
        NodeId(self.id)
    }
}

impl<'a> WsService<'a> {
    #[verifier::type_invariant]
    spec fn inv(self) -> bool {
        self.id < self.doc@.len()
    }

    /// The name of this element.
    pub fn name(&self) -> (r: Result<&'a str, WsError>)
        ensures
            str_result_view(r) == spec_name(self.nodes(), self.id()),
    {
        proof {
            use_type_invariant(self);
        }
        node_name(self.doc, self.id)
    }

    /// The XML node this element is.
    pub fn node(&self) -> (r: NodeId)
        ensures
            r.0 == self.id(),
            r.0 < self.nodes().len(),
    {
        proof {
            use_type_invariant(self);
        }
        NodeId(self.id)
    }
}


/// A WSDL document.
pub struct Wsdl<'a>(&'a XmlDocument);

impl<'a> Wsdl<'a> {
    /// The nodes of the document.
    pub closed spec fn nodes(&self) -> Seq<NodeView> {
        self.0@
    }

    /// Reads `document` as a WSDL document.
    pub fn new(document: &'a XmlDocument) -> (r: Self)
        ensures
            r.nodes() == document@,
    {
        Wsdl(document)
    }

    /// The `definitions` element: the WSDL child of the root of that name.
    fn definitions(&self) -> (r: Result<usize, WsError>)
        ensures
            id_result_view(r) == spec_definitions(self.nodes()),
            r matches Ok(d) ==> d < self.nodes().len(),
    {
        let doc = self.0;
        proof {
            use_type_invariant(doc);
        }
        let root = doc.root();
        match doc.first_child_tagged(root, wsdl_namespace(), "definitions") {
            Some(d) => Ok(d),
            None => Err(missing_element(doc.root_element(), "definitions")),
        }
    }

    /// The WSDL children of `definitions` with local name `local`.
    fn top_level(&self, local: &str) -> (r: Result<Vec<usize>, WsError>)
        ensures
            match spec_top_level(self.nodes(), local@) {
                Ok(ids) => r matches Ok(v) && v@ == ids,
                Err(e) => r matches Err(x) && x@ == e,
            },
            r matches Ok(v) ==> forall|k: int|
                0 <= k < v@.len() ==> #[trigger] v@[k] < self.nodes().len(),
    {
        let d = match self.definitions() {
            Ok(d) => d,
            Err(e) => {
                return Err(e);
            },
        };
        Ok(wsdl_children_of(self.0, d, local))
    }

    /// The port types of the document.
    pub fn port_types(&self) -> (r: Result<Vec<WsPortType<'a>>, WsError>)
        ensures
            handles_result(r, self.nodes(), spec_top_level(self.nodes(), "portType"@)),
    {
        match self.top_level("portType") {
            Ok(ids) => Ok(handles_for(self.0, &ids)),
            Err(e) => Err(e),
        }
    }

    /// The messages of the document.
    pub fn messages(&self) -> (r: Result<Vec<WsMessage<'a>>, WsError>)
        ensures
            handles_result(r, self.nodes(), spec_top_level(self.nodes(), "message"@)),
    {
        match self.top_level("message") {
            Ok(ids) => Ok(handles_for(self.0, &ids)),
            Err(e) => Err(e),
        }
    }

    /// The bindings of the document.
    pub fn bindings(&self) -> (r: Result<Vec<WsBinding<'a>>, WsError>)
        ensures
            handles_result(r, self.nodes(), spec_top_level(self.nodes(), "binding"@)),
    {
        match self.top_level("binding") {
            Ok(ids) => Ok(handles_for(self.0, &ids)),
            Err(e) => Err(e),
        }
    }

    /// The services of the document.
    pub fn services(&self) -> (r: Result<Vec<WsService<'a>>, WsError>)
        ensures
            handles_result(r, self.nodes(), spec_top_level(self.nodes(), "service"@)),
    {
        match self.top_level("service") {
            Ok(ids) => Ok(handles_for(self.0, &ids)),
            Err(e) => Err(e),
        }
    }

    /// The element among the WSDL children `local` of `definitions` whose
    /// name is the local part of the qualified name held by attribute `attr`
    /// of node `id`.
    fn reference(&self, id: usize, attr: &str, local: &str) -> (r: Result<usize, WsError>)
        requires
            id < self.nodes().len(),
        ensures
            id_result_view(r) == spec_reference(self.nodes(), id, attr@, local@),
            r matches Ok(x) ==> x < self.nodes().len(),
    {
        let doc = self.0;
        let typename = match doc.attribute(id, attr) {
            Some(t) => t,
            None => {
                return Err(missing_attribute(id, attr));
            },
        };
        let (_namespace, name) = match split_qualified(typename) {
            Ok(parts) => parts,
            Err(e) => {
                return Err(WsError::new(id, e));
            },
        };
        let candidates = match self.top_level(local) {
            Ok(v) => v,
            Err(e) => {
                return Err(e);
            },
        };
        match doc.find_by_attribute(&candidates, "name", name) {
            Some(x) => {
                proof {
                    crate::seqs::lemma_first_where_found(
                        candidates@,
                        attr_value_pred(doc@, "name"@, name@),
                    );
                }
                Ok(x)
            },
            None => Err(invalid_reference(id, name)),
        }
    }
}


impl<'a> WsMessage<'a> {
    /// The parts of this message, in document order.
    pub fn parts(&self) -> (r: Vec<WsMessagePart<'a>>)
        ensures
            handles_are(r@, self.nodes(), wsdl_children(self.nodes(), self.id(), "part"@)),
    {
        proof {
            use_type_invariant(self);
        }
        let ids = wsdl_children_of(self.doc, self.id, "part");
        handles_for(self.doc, &ids)
    }
}

impl<'a> WsMessagePart<'a> {
    /// The type of this part: its `element` attribute or else its `type`
    /// attribute, resolved in scope of the part.
    pub fn typename(&self) -> (r: Result<ExpandedName<'a>, WsError>)
        ensures
            name_result_view(r) == spec_typename(self.nodes(), self.id()),
    {
        proof {
            use_type_invariant(self);
        }
        let doc = self.doc;
        let typename = match doc.attribute(self.id, "element") {
            Some(t) => t,
            None => match doc.attribute(self.id, "type") {
                Some(t) => t,
                None => {
                    return Err(missing_attribute(self.id, "type"));
                },
            },
        };
        match resolve_qualified(doc, self.id, typename) {
            Ok(name) => Ok(name),
            Err(e) => Err(WsError::new(self.id, e)),
        }
    }
}

impl<'a> WsPortType<'a> {
    /// The target namespace of this port type.
    pub fn target_namespace(&self) -> (r: Result<&'a str, WsError>)
        ensures
            str_result_view(r) == spec_target_namespace(self.nodes(), self.id()),
    {
        proof {
            use_type_invariant(self);
        }
        target_namespace(self.doc, self.id)
    }

    /// The operations of this port type, in document order; this never
    /// fails.
    pub fn operations(&self) -> (r: Result<Vec<WsPortOperation<'a>>, WsError>)
        ensures
            r matches Ok(v) && handles_are(
                v@,
                self.nodes(),
                wsdl_children(self.nodes(), self.id(), "operation"@),
            ),
    {
        proof {
            use_type_invariant(self);
        }
        let ids = wsdl_children_of(self.doc, self.id, "operation");
        Ok(handles_for(self.doc, &ids))
    }
}

impl<'a> WsPortOperation<'a> {
    /// The message named by the first WSDL child `local` of this operation.
    fn referenced_message(&self, local: &str) -> (r: Result<Option<WsMessage<'a>>, WsError>)
        ensures
            opt_handle_result(r, self.nodes(), spec_message_ref(self.nodes(), self.id(), local@)),
    {
        proof {
            use_type_invariant(self);
        }
        let doc = self.doc;
        let reference = match doc.first_child_tagged(self.id, wsdl_namespace(), local) {
            Some(c) => doc.attribute(c, "message"),
            None => None,
        };
        let message_typename = match reference {
            Some(m) => m,
            None => {
                return Ok(None);
            },
        };
        let (_namespace, message_name) = match split_qualified(message_typename) {
            Ok(parts) => parts,
            Err(e) => {
                return Err(WsError::new(self.id, e));
            },
        };
        let wsdl = Wsdl(doc);
        let messages = match wsdl.top_level("message") {
            Ok(v) => v,
            Err(e) => {
                return Err(e);
            },
        };
        match doc.find_by_attribute(&messages, "name", message_name) {
            Some(m) => {
                proof {
                    crate::seqs::lemma_first_where_found(
                        messages@,
                        attr_value_pred(doc@, "name"@, message_name@),
                    );
                }
                Ok(Some(WsMessage { doc, id: m }))
            },
            None => Err(invalid_reference(self.id, message_name)),
        }
    }

    /// The input message of this operation.
    pub fn input(&self) -> (r: Result<Option<WsMessage<'a>>, WsError>)
        ensures
            opt_handle_result(r, self.nodes(), spec_message_ref(self.nodes(), self.id(), "input"@)),
    {
        self.referenced_message("input")
    }

    /// The output message of this operation.
    pub fn output(&self) -> (r: Result<Option<WsMessage<'a>>, WsError>)
        ensures
            opt_handle_result(
                r,
                self.nodes(),
                spec_message_ref(self.nodes(), self.id(), "output"@),
            ),
    {
        self.referenced_message("output")
    }

    /// The fault message of this operation.
    pub fn fault(&self) -> (r: Result<Option<WsMessage<'a>>, WsError>)
        ensures
            opt_handle_result(r, self.nodes(), spec_message_ref(self.nodes(), self.id(), "fault"@)),
    {
        self.referenced_message("fault")
    }
}

impl<'a> WsBinding<'a> {
    /// The port type this binding binds: the one named by its `type`
    /// attribute.
    pub fn port_type(&self) -> (r: Result<WsPortType<'a>, WsError>)
        ensures
            handle_result(r, self.nodes(), spec_reference(self.nodes(), self.id(), "type"@, "portType"@)),
    {
        proof {
            use_type_invariant(self);
        }
        match Wsdl(self.doc).reference(self.id, "type", "portType") {
            Ok(p) => Ok(WsPortType { doc: self.doc, id: p }),
            Err(e) => Err(e),
        }
    }

    /// The operations of this binding, in document order; this never fails.
    pub fn operations(&self) -> (r: Result<Vec<WsBindingOperation<'a>>, WsError>)
        ensures
            r matches Ok(v) && handles_are(
                v@,
                self.nodes(),
                wsdl_children(self.nodes(), self.id(), "operation"@),
            ),
    {
        proof {
            use_type_invariant(self);
        }
        let ids = wsdl_children_of(self.doc, self.id, "operation");
        Ok(handles_for(self.doc, &ids))
    }
}

impl<'a> WsServicePort<'a> {
    /// The binding of this port: the one named by its `binding` attribute.
    pub fn binding(&self) -> (r: Result<WsBinding<'a>, WsError>)
        ensures
            handle_result(
                r,
                self.nodes(),
                spec_reference(self.nodes(), self.id(), "binding"@, "binding"@),
            ),
    {
        proof {
            use_type_invariant(self);
        }
        match Wsdl(self.doc).reference(self.id, "binding", "binding") {
            Ok(b) => Ok(WsBinding { doc: self.doc, id: b }),
            Err(e) => Err(e),
        }
    }
}

impl<'a> WsService<'a> {
    /// The ports of this service, in document order; this never fails.
    pub fn ports(&self) -> (r: Result<Vec<WsServicePort<'a>>, WsError>)
        ensures
            r matches Ok(v) && handles_are(
                v@,
                self.nodes(),
                wsdl_children(self.nodes(), self.id(), "port"@),
            ),
    {
        proof {
            use_type_invariant(self);
        }
        let ids = wsdl_children_of(self.doc, self.id, "port");
        Ok(handles_for(self.doc, &ids))
    }
}


impl<'a> WsBindingOperation<'a> {
    /// The port type operation that this binding operation binds: the
    /// operation with the same name in the port type of the enclosing
    /// binding.
    pub fn port_operation(&self) -> (r: Result<WsPortOperation<'a>, WsError>)
        ensures
            handle_result(r, self.nodes(), spec_port_operation(self.nodes(), self.id())),
    {
        proof {
            use_type_invariant(self);
        }
        let doc = self.doc;
        let name = match self.name() {
            Ok(n) => n,
            Err(e) => {
                return Err(e);
            },
        };
        let parent = match doc.parent(self.id) {
            Some(p) => p,
            None => {
                return Err(WsError::new(self.id, WsErrorType::NoParentNode));
            },
        };
        let binding = WsBinding { doc, id: parent };
        let port_type = match binding.port_type() {
            Ok(p) => p,
            Err(e) => {
                return Err(e);
            },
        };
        let operations = match port_type.operations() {
            Ok(v) => v,
            Err(e) => {
                return Err(e);
            },
        };
        let ghost nodes = doc@;
        let ghost ops = wsdl_children(nodes, port_type.id, "operation"@);
        let mut k: usize = 0;
        let ghost outcome = match spec_find_operation(nodes, ops, name@) {
            Err(e) => Err(e),
            Ok(Some(op)) => Ok(op),
            Ok(None) => Err(ErrorAt { node: self.id, desc: ErrorDesc::MissingElement(name@) }),
        };
        proof {
            assert(ops.skip(0) =~= ops);
            assert(spec_port_operation(nodes, self.id) == outcome);
        }
        while k < operations.len()
            invariant
                spec_port_operation(nodes, self.id) == outcome,
                outcome == match spec_find_operation(nodes, ops, name@) {
                    Err(e) => Err(e),
                    Ok(Some(op)) => Ok(op),
                    Ok(None) => Err(ErrorAt { node: self.id, desc: ErrorDesc::MissingElement(name@) }),
                },
                self.id() == self.id,
                nodes == doc@,
                nodes == self.nodes(),
                handles_are(operations@, nodes, ops),
                k <= operations@.len(),
                spec_find_operation(nodes, ops, name@) == spec_find_operation(
                    nodes,
                    ops.skip(k as int),
                    name@,
                ),
            decreases operations@.len() - k,
        {
            let op = &operations[k];
            assert(ops.skip(k as int)[0] == ops[k as int]);
            assert(ops.skip(k as int).drop_first() =~= ops.skip(k + 1));
            let op_name = match op.name() {
                Ok(n) => n,
                Err(e) => {
                    return Err(e);
                },
            };
            if str_equal(op_name, name) {
                proof {
                    use_type_invariant(op);
                }
                return Ok(WsPortOperation { doc: op.doc, id: op.id });
            }
            k = k + 1;
        }
        assert(ops.skip(k as int).len() == 0);
        Err(missing_element(self.id, name))
    }
}

} // verus!
