//! An XML document held as an arena of nodes, with the read operations that a
//! WSDL consumer needs: parents, children, tag names, attributes and the
//! namespaces in scope of an element.
use vstd::prelude::*;

use crate::seqs::{first_where, lemma_first_where_at, lemma_first_where_none, lemma_filter_take_step};
use crate::text::{opt_str_equal, opt_str_view, opt_string_view, str_equal};

verus! {

// ---------------------------------------------------------------------------
// Mathematical model
// ---------------------------------------------------------------------------

/// An attribute as its namespace URI, local name and value.
pub struct AttributeView {
    pub namespace: Option<Seq<char>>,
    pub name: Seq<char>,
    pub value: Seq<char>,
}

/// A namespace binding in scope of an element: prefix (`None` for the default
/// namespace) and URI.
pub struct NamespaceView {
    pub prefix: Option<Seq<char>>,
    pub uri: Seq<char>,
}

/// What kind of node a node is; an element carries its expanded tag name.
pub enum NodeKindView {
    Root,
    Element { namespace: Option<Seq<char>>, name: Seq<char> },
    Text,
    Comment,
    ProcessingInstruction,
}

/// One node of the tree. `parent` and `children` are positions in the
/// document's node sequence; `namespaces` are all bindings in scope of the
/// node, in the order in which a lookup searches them.
pub struct NodeView {
    pub parent: Option<usize>,
    pub children: Seq<usize>,
    pub kind: NodeKindView,
    pub attributes: Seq<AttributeView>,
    pub namespaces: Seq<NamespaceView>,
}

/// A well-formed tree: node 0 is the root and the only node without a
/// parent, every other node comes after its parent, every child of a node
/// names that node as its parent, and the root has an element child.
pub open spec fn well_formed(nodes: Seq<NodeView>) -> bool {
    &&& nodes.len() > 0
    &&& nodes[0].kind is Root
    &&& nodes[0].parent is None
    &&& forall|i: int|
        0 < i < nodes.len() ==> (#[trigger] nodes[i]).parent is Some && nodes[i].parent.unwrap()
            < i
    &&& forall|i: int, k: int|
        0 <= i < nodes.len() && 0 <= k < nodes[i].children.len() ==> {
            let c = #[trigger] nodes[i].children[k];
            &&& c < nodes.len()
            &&& nodes[c as int].parent == Some(i as usize)
        }
    &&& first_where(nodes[0].children, element_pred(nodes)) is Some
}

/// Holds of the positions of element nodes.
pub open spec fn element_pred(nodes: Seq<NodeView>) -> spec_fn(usize) -> bool {
    |c: usize| nodes[c as int].kind is Element
}

/// Whether a node is an element with namespace URI `ns` and local name
/// `local`.
pub open spec fn has_tag(n: NodeView, ns: Seq<char>, local: Seq<char>) -> bool {
    &&& n.kind is Element
    &&& n.kind->namespace == Some(ns)
    &&& n.kind->name == local
}

/// Holds of the positions of elements with the given expanded name.
pub open spec fn tag_pred(nodes: Seq<NodeView>, ns: Seq<char>, local: Seq<char>) -> spec_fn(
    usize,
) -> bool {
    |c: usize| has_tag(nodes[c as int], ns, local)
}

/// Holds of the attributes that have no namespace and the given local name.
pub open spec fn attr_pred(name: Seq<char>) -> spec_fn(AttributeView) -> bool {
    |a: AttributeView| a.namespace is None && a.name == name
}

/// The value of the first attribute without namespace called `name`; only
/// elements have attributes.
pub open spec fn attribute_of(n: NodeView, name: Seq<char>) -> Option<Seq<char>> {
    if n.kind is Element {
        match first_where(n.attributes, attr_pred(name)) {
            Some(a) => Some(a.value),
            None => None,
        }
    } else {
        None
    }
}

/// Holds of the namespace bindings for `prefix`.
pub open spec fn prefix_pred(prefix: Option<Seq<char>>) -> spec_fn(NamespaceView) -> bool {
    |b: NamespaceView| b.prefix == prefix
}

/// The URI bound to `prefix` in scope of a node (innermost binding first);
/// only elements have namespaces in scope.
pub open spec fn namespace_uri_of(n: NodeView, prefix: Option<Seq<char>>) -> Option<Seq<char>> {
    if n.kind is Element {
        match first_where(n.namespaces, prefix_pred(prefix)) {
            Some(b) => Some(b.uri),
            None => None,
        }
    } else {
        None
    }
}

/// Holds of the positions of nodes whose attribute `attr` equals `value`.
pub open spec fn attr_value_pred(nodes: Seq<NodeView>, attr: Seq<char>, value: Seq<char>) -> spec_fn(
    usize,
) -> bool {
    |c: usize| attribute_of(nodes[c as int], attr) == Some(value)
}

/// The value of attribute `name` on node `id` or, failing that, on the
/// nearest ancestor that has it.
pub open spec fn ancestor_attribute(nodes: Seq<NodeView>, id: int, name: Seq<char>) -> Option<
    Seq<char>,
>
    decreases id,
{
    if id < 0 || id >= nodes.len() {
        None
    } else {
        match attribute_of(nodes[id], name) {
            Some(v) => Some(v),
            None => match nodes[id].parent {
                Some(p) => if p < id {
                    ancestor_attribute(nodes, p as int, name)
                } else {
                    None
                },
                None => None,
            },
        }
    }
}

// ---------------------------------------------------------------------------
// Executable data
// ---------------------------------------------------------------------------

/// An attribute of an element.
#[derive(Debug, Clone)]
pub struct XmlAttribute {
    pub namespace: Option<String>,
    pub name: String,
    pub value: String,
}

impl View for XmlAttribute {
    type V = AttributeView;

    open spec fn view(&self) -> AttributeView {
        AttributeView {
            namespace: opt_string_view(self.namespace),
            name: self.name@,
            value: self.value@,
        }
    }
}

/// A namespace binding in scope of an element.
#[derive(Debug, Clone)]
pub struct XmlNamespace {
    pub prefix: Option<String>,
    pub uri: String,
}

impl View for XmlNamespace {
    type V = NamespaceView;

    open spec fn view(&self) -> NamespaceView {
        NamespaceView { prefix: opt_string_view(self.prefix), uri: self.uri@ }
    }
}

/// The kind of a node.
#[derive(Debug, Clone)]
pub enum XmlNodeKind {
    Root,
    Element { namespace: Option<String>, name: String },
    Text,
    Comment,
    ProcessingInstruction,
}

impl View for XmlNodeKind {
    type V = NodeKindView;

    open spec fn view(&self) -> NodeKindView {
        match self {
            XmlNodeKind::Root => NodeKindView::Root,
            XmlNodeKind::Element { namespace, name } => NodeKindView::Element {
                namespace: opt_string_view(*namespace),
                name: name@,
            },
            XmlNodeKind::Text => NodeKindView::Text,
            XmlNodeKind::Comment => NodeKindView::Comment,
            XmlNodeKind::ProcessingInstruction => NodeKindView::ProcessingInstruction,
        }
    }
}

/// One node of an [`XmlDocument`].
#[derive(Debug, Clone)]
pub struct XmlNode {
    pub parent: Option<usize>,
    pub children: Vec<usize>,
    pub kind: XmlNodeKind,
    pub attributes: Vec<XmlAttribute>,
    pub namespaces: Vec<XmlNamespace>,
}

impl View for XmlNode {
    type V = NodeView;

    open spec fn view(&self) -> NodeView {
        NodeView {
            parent: self.parent,
            children: self.children@,
            kind: self.kind@,
            attributes: self.attributes@.map_values(|a: XmlAttribute| a@),
            namespaces: self.namespaces@.map_values(|b: XmlNamespace| b@),
        }
    }
}

/// The nodes of a sequence, each taken by its view.
pub open spec fn nodes_view(nodes: Seq<XmlNode>) -> Seq<NodeView> {
    nodes.map_values(|n: XmlNode| n@)
}

/// A well-formed XML tree (see [`well_formed`]); node 0 is the root.
#[derive(Debug)]
pub struct XmlDocument {
    nodes: Vec<XmlNode>,
}

impl View for XmlDocument {
    type V = Seq<NodeView>;

    closed spec fn view(&self) -> Seq<NodeView> {
        nodes_view(self.nodes@)
    }
}

impl XmlDocument {
    /// Every document is well-formed.
    #[verifier::type_invariant]
    pub open spec fn inv(self) -> bool {
        well_formed(self@)
    }

    /// Builds a document from its nodes; `None` when they do not form a
    /// well-formed tree.
    pub fn new(nodes: Vec<XmlNode>) -> (r: Option<XmlDocument>)
        ensures
            r is Some <==> well_formed(nodes_view(nodes@)),
            r matches Some(d) ==> d@ == nodes_view(nodes@),
    {
        if Self::check_well_formed(&nodes) {
            Some(XmlDocument { nodes })
        } else {
            None
        }
    }

    /// Whether a sequence of nodes forms a well-formed tree.
    pub fn check_well_formed(nodes: &Vec<XmlNode>) -> (r: bool)
        ensures
            r == well_formed(nodes_view(nodes@)),
    {
        let ghost v = nodes_view(nodes@);
        let n = nodes.len();
        if n == 0 {
            return false;
        }
        assert(v[0] == nodes@[0]@);
        match &nodes[0].kind {
            XmlNodeKind::Root => {},
            _ => {
                return false;
            },
        }
        if nodes[0].parent.is_some() {
            return false;
        }
        assert(v[0].kind is Root && v[0].parent is None);
        let mut i: usize = 1;
        while i < n
            invariant
                n == nodes@.len(),
                v == nodes_view(nodes@),
                1 <= i <= n,
                forall|j: int|
                    0 < j < i ==> (#[trigger] v[j]).parent is Some && v[j].parent.unwrap() < j,
            decreases n - i,
        {
            assert(v[i as int] == nodes@[i as int]@);
            match nodes[i].parent {
                Some(p) => {
                    if p >= i {
                        return false;
                    }
                },
                None => {
                    return false;
                },
            }
            i = i + 1;
        }
        let mut i: usize = 0;
        while i < n
            invariant
                n == nodes@.len(),
                v == nodes_view(nodes@),
                i <= n,
                v[0].kind is Root,
                v[0].parent is None,
                forall|j: int|
                    0 < j < v.len() ==> (#[trigger] v[j]).parent is Some && v[j].parent.unwrap() < j,
                forall|j: int, k: int|
                    0 <= j < i && 0 <= k < v[j].children.len() ==> {
                        let c = #[trigger] v[j].children[k];
                        &&& c < v.len()
                        &&& v[c as int].parent == Some(j as usize)
                    },
            decreases n - i,
        {
            assert(v[i as int] == nodes@[i as int]@);
            let children = &nodes[i].children;
            let mut k: usize = 0;
            while k < children.len()
                invariant
                    n == nodes@.len(),
                    v == nodes_view(nodes@),
                    i < n,
                    v[0].kind is Root,
                    v[0].parent is None,
                    forall|j: int|
                        0 < j < v.len() ==> (#[trigger] v[j]).parent is Some && v[j].parent.unwrap() < j,
                    children@ == v[i as int].children,
                    k <= children@.len(),
                    forall|j: int, k2: int|
                        0 <= j < i && 0 <= k2 < v[j].children.len() ==> {
                            let c = #[trigger] v[j].children[k2];
                            &&& c < v.len()
                            &&& v[c as int].parent == Some(j as usize)
                        },
                    forall|k2: int|
                        0 <= k2 < k ==> {
                            let c = #[trigger] v[i as int].children[k2];
                            &&& c < v.len()
                            &&& v[c as int].parent == Some(i)
                        },
                decreases children@.len() - k,
            {
                let c = children[k];
                assert(c == v[i as int].children[k as int]);
                if c >= n {
                    return false;
                }
                assert(v[c as int] == nodes@[c as int]@);
                match nodes[c].parent {
                    Some(p) => {
                        if p != i {
                            return false;
                        }
                    },
                    None => {
                        return false;
                    },
                }
                k = k + 1;
            }
            i = i + 1;
        }
        let root_children = &nodes[0].children;
        let mut k: usize = 0;
        while k < root_children.len()
            invariant
                n == nodes@.len(),
                n > 0,
                v == nodes_view(nodes@),
                v[0].kind is Root,
                v[0].parent is None,
                forall|j: int|
                    0 < j < v.len() ==> (#[trigger] v[j]).parent is Some && v[j].parent.unwrap() < j,
                root_children@ == v[0].children,
                k <= root_children@.len(),
                forall|k2: int| 0 <= k2 < k ==> !element_pred(v)(#[trigger] v[0].children[k2]),
                forall|j: int, k2: int|
                    0 <= j < n && 0 <= k2 < v[j].children.len() ==> {
                        let c = #[trigger] v[j].children[k2];
                        &&& c < v.len()
                        &&& v[c as int].parent == Some(j as usize)
                    },
            decreases root_children@.len() - k,
        {
            let c = root_children[k];
            assert(c == v[0].children[k as int]);
            assert(v[c as int] == nodes@[c as int]@);
            match &nodes[c].kind {
                XmlNodeKind::Element { .. } => {
                    proof {
                        lemma_first_where_at(v[0].children, element_pred(v), k as int);
                    }
                    return true;
                },
                _ => {},
            }
            k = k + 1;
        }
        proof {
            lemma_first_where_none(v[0].children, element_pred(v));
        }
        false
    }

    /// The data of node `id`.
    fn node(&self, id: usize) -> (r: &XmlNode)
        requires
            id < self@.len(),
        ensures
            r@ == self@[id as int],
    {
        &self.nodes[id]
    }

    /// The number of nodes.
    pub fn len(&self) -> (n: usize)
        ensures
            n == self@.len(),
    {
        self.nodes.len()
    }

    /// The position of the root node, which is always 0.
    pub fn root(&self) -> (r: usize)
        ensures
            r == 0,
            r < self@.len(),
    {
        proof {
            use_type_invariant(self);
        }
        0
    }

    /// The first element child of the root: the document element.
    pub fn root_element(&self) -> (r: usize)
        ensures
            first_where(self@[0].children, element_pred(self@)) == Some(r),
            r < self@.len(),
    {
        proof {
            use_type_invariant(self);
        }
        let children = &self.node(0).children;
        let mut k: usize = 0;
        while k < children.len()
            invariant
                well_formed(self@),
                children@ == self@[0].children,
                k <= children@.len(),
                forall|k2: int| 0 <= k2 < k ==> !element_pred(self@)(#[trigger] self@[0].children[k2]),
            decreases children@.len() - k,
        {
            let c = children[k];
            assert(c == self@[0].children[k as int]);
            if self.is_element(c) {
                proof {
                    lemma_first_where_at(self@[0].children, element_pred(self@), k as int);
                }
                return c;
            }
            k = k + 1;
        }
        proof {
            lemma_first_where_none(self@[0].children, element_pred(self@));
        }
        0
    }

    /// Whether node `id` is an element.
    pub fn is_element(&self, id: usize) -> (r: bool)
        requires
            id < self@.len(),
        ensures
            r == self@[id as int].kind is Element,
    {
        match &self.node(id).kind {
            XmlNodeKind::Element { .. } => true,
            _ => false,
        }
    }

    /// The parent of node `id`; only the root has none.
    pub fn parent(&self, id: usize) -> (r: Option<usize>)
        requires
            id < self@.len(),
        ensures
            r == self@[id as int].parent,
            r matches Some(p) ==> p < id,
            r is None <==> id == 0,
    {
        proof {
            use_type_invariant(self);
        }
        self.node(id).parent
    }

    /// The children of node `id`, in document order.
    pub fn children(&self, id: usize) -> (r: &Vec<usize>)
        requires
            id < self@.len(),
        ensures
            r@ == self@[id as int].children,
            forall|k: int| 0 <= k < r@.len() ==> #[trigger] r@[k] < self@.len(),
    {
        proof {
            use_type_invariant(self);
        }
        let r = &self.node(id).children;
        assert forall|k: int| 0 <= k < r@.len() implies #[trigger] r@[k] < self@.len() by {
            assert(r@[k] == self@[id as int].children[k]);
        }
        r
    }

    /// Whether node `id` is an element with namespace URI `ns` and local
    /// name `local`.
    pub fn has_tag_name(&self, id: usize, ns: &str, local: &str) -> (r: bool)
        requires
            id < self@.len(),
        ensures
            r == has_tag(self@[id as int], ns@, local@),
    {
        match &self.node(id).kind {
            XmlNodeKind::Element { namespace, name } => {
                match namespace {
                    Some(n) => str_equal(n.as_str(), ns) && str_equal(name.as_str(), local),
                    None => false,
                }
            },
            _ => false,
        }
    }

    /// The value of the attribute of node `id` that has no namespace and
    /// local name `name`.
    pub fn attribute<'a>(&'a self, id: usize, name: &str) -> (r: Option<&'a str>)
        requires
            id < self@.len(),
        ensures
            opt_str_view(r) == attribute_of(self@[id as int], name@),
    {
        let node = self.node(id);
        if !self.is_element(id) {
            return None;
        }
        let attrs = &node.attributes;
        let ghost view = self@[id as int].attributes;
        let mut j: usize = 0;
        while j < attrs.len()
            invariant
                id < self@.len(),
                self@[id as int].kind is Element,
                view == self@[id as int].attributes,
                view == attrs@.map_values(|a: XmlAttribute| a@),
                j <= attrs@.len(),
                forall|k: int| 0 <= k < j ==> !attr_pred(name@)(#[trigger] view[k]),
            decreases attrs@.len() - j,
        {
            let a = &attrs[j];
            assert(view[j as int] == a@);
            if a.namespace.is_none() && str_equal(a.name.as_str(), name) {
                proof {
                    lemma_first_where_at(view, attr_pred(name@), j as int);
                }
                return Some(a.value.as_str());
            }
            j = j + 1;
        }
        proof {
            lemma_first_where_none(view, attr_pred(name@));
        }
        None
    }

    /// The URI bound to `prefix` in scope of node `id`.
    pub fn lookup_namespace_uri<'a>(&'a self, id: usize, prefix: Option<&str>) -> (r: Option<
        &'a str,
    >)
        requires
            id < self@.len(),
        ensures
            opt_str_view(r) == namespace_uri_of(self@[id as int], opt_str_view(prefix)),
    {
        let node = self.node(id);
        if !self.is_element(id) {
            return None;
        }
        let bindings = &node.namespaces;
        let ghost view = self@[id as int].namespaces;
        let mut j: usize = 0;
        while j < bindings.len()
            invariant
                id < self@.len(),
                self@[id as int].kind is Element,
                view == self@[id as int].namespaces,
                view == bindings@.map_values(|b: XmlNamespace| b@),
                j <= bindings@.len(),
                forall|k: int| 0 <= k < j ==> !prefix_pred(opt_str_view(prefix))(#[trigger] view[k]),
            decreases bindings@.len() - j,
        {
            let b = &bindings[j];
            assert(view[j as int] == b@);
            if opt_str_equal(&b.prefix, prefix) {
                proof {
                    lemma_first_where_at(view, prefix_pred(opt_str_view(prefix)), j as int);
                }
                return Some(b.uri.as_str());
            }
            j = j + 1;
        }
        proof {
            lemma_first_where_none(view, prefix_pred(opt_str_view(prefix)));
        }
        None
    }

    /// The first child of node `id` with the given expanded tag name.
    pub fn first_child_tagged(&self, id: usize, ns: &str, local: &str) -> (r: Option<usize>)
        requires
            id < self@.len(),
        ensures
            r == first_where(self@[id as int].children, tag_pred(self@, ns@, local@)),
            r matches Some(c) ==> c < self@.len(),
    {
        let children = self.children(id);
        let ghost view = self@[id as int].children;
        let mut k: usize = 0;
        while k < children.len()
            invariant
                children@ == view,
                view == self@[id as int].children,
                forall|k2: int| 0 <= k2 < children@.len() ==> #[trigger] children@[k2] < self@.len(),
                k <= children@.len(),
                forall|k2: int| 0 <= k2 < k ==> !tag_pred(self@, ns@, local@)(#[trigger] view[k2]),
            decreases children@.len() - k,
        {
            let c = children[k];
            if self.has_tag_name(c, ns, local) {
                proof {
                    lemma_first_where_at(view, tag_pred(self@, ns@, local@), k as int);
                }
                return Some(c);
            }
            k = k + 1;
        }
        proof {
            lemma_first_where_none(view, tag_pred(self@, ns@, local@));
        }
        None
    }

    /// The children of node `id` with the given expanded tag name, in
    /// document order.
    pub fn children_tagged(&self, id: usize, ns: &str, local: &str) -> (r: Vec<usize>)
        requires
            id < self@.len(),
        ensures
            r@ == self@[id as int].children.filter(tag_pred(self@, ns@, local@)),
    {
        let children = self.children(id);
        let ghost view = self@[id as int].children;
        let ghost pred = tag_pred(self@, ns@, local@);
        let mut out: Vec<usize> = Vec::new();
        let mut k: usize = 0;
        proof {
            reveal(Seq::filter);
            assert(view.take(0) =~= Seq::<usize>::empty());
        }
        while k < children.len()
            invariant
                children@ == view,
                view == self@[id as int].children,
                pred == tag_pred(self@, ns@, local@),
                forall|k2: int| 0 <= k2 < children@.len() ==> #[trigger] children@[k2] < self@.len(),
                k <= children@.len(),
                out@ == view.take(k as int).filter(pred),
            decreases children@.len() - k,
        {
            let c = children[k];
            proof {
                lemma_filter_take_step(view, pred, k as int);
            }
            if self.has_tag_name(c, ns, local) {
                out.push(c);
            }
            k = k + 1;
        }
        assert(view.take(k as int) =~= view);
        out
    }

    /// The first node among `ids` whose attribute `attr` has value `value`.
    pub fn find_by_attribute(&self, ids: &Vec<usize>, attr: &str, value: &str) -> (r: Option<
        usize,
    >)
        requires
            forall|k: int| 0 <= k < ids@.len() ==> #[trigger] ids@[k] < self@.len(),
        ensures
            r == first_where(ids@, attr_value_pred(self@, attr@, value@)),
    {
        let ghost pred = attr_value_pred(self@, attr@, value@);
        let mut k: usize = 0;
        while k < ids.len()
            invariant
                pred == attr_value_pred(self@, attr@, value@),
                forall|k2: int| 0 <= k2 < ids@.len() ==> #[trigger] ids@[k2] < self@.len(),
                k <= ids@.len(),
                forall|k2: int| 0 <= k2 < k ==> !pred(#[trigger] ids@[k2]),
            decreases ids@.len() - k,
        {
            let c = ids[k];
            let found = match self.attribute(c, attr) {
                Some(v) => str_equal(v, value),
                None => false,
            };
            if found {
                proof {
                    lemma_first_where_at(ids@, pred, k as int);
                }
                return Some(c);
            }
            k = k + 1;
        }
        proof {
            lemma_first_where_none(ids@, pred);
        }
        None
    }

    /// The value of attribute `name` on node `id` or on its nearest ancestor
    /// that has it.
    pub fn ancestor_attribute<'a>(&'a self, id: usize, name: &str) -> (r: Option<&'a str>)
        requires
            id < self@.len(),
        ensures
            opt_str_view(r) == ancestor_attribute(self@, id as int, name@),
    {
        proof {
            use_type_invariant(self);
        }
        let mut cur = id;
        loop
            invariant
                well_formed(self@),
                cur < self@.len(),
                ancestor_attribute(self@, id as int, name@) == ancestor_attribute(
                    self@,
                    cur as int,
                    name@,
                ),
            decreases cur,
        {
            match self.attribute(cur, name) {
                Some(v) => {
                    return Some(v);
                },
                None => {},
            }
            match self.parent(cur) {
                Some(p) => {
                    cur = p;
                },
                None => {
                    return None;
                },
            }
        }
    }
}

} // verus!
