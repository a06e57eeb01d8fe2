//! Properties that hold across the operations of the library.
use vstd::prelude::*;

use crate::error::{ErrorAt, ErrorDesc};
use crate::qname::{spec_resolve_qualified, spec_split_qualified, up_to_colon};
use crate::seqs::{first_where, lemma_filter_members, lemma_first_where_found};
use crate::wsdl::{
    root_element_of, spec_definitions, spec_find_operation, spec_message_ref, spec_name,
    spec_port_operation, spec_reference, spec_target_namespace, spec_top_level, wsdl_children,
    wsdl_ns,
};
use crate::xml::{
    ancestor_attribute, attr_value_pred, attribute_of, has_tag, namespace_uri_of, tag_pred,
    well_formed, NodeView,
};

verus! {

/// Whether a string holds no colon.
pub open spec fn colon_free(s: Seq<char>) -> bool {
    forall|k: int| 0 <= k < s.len() ==> s[k] != ':'
}

/// Whether a string holds at most one colon.
pub open spec fn at_most_one_colon(s: Seq<char>) -> bool {
    forall|i: int, j: int| 0 <= i < j < s.len() && s[i] == ':' ==> s[j] != ':'
}

proof fn lemma_up_to_colon(s: Seq<char>)
    ensures
        colon_free(up_to_colon(s)),
        colon_free(s) ==> up_to_colon(s) == s,
        up_to_colon(s).len() <= s.len(),
        forall|k: int| 0 <= k < up_to_colon(s).len() ==> up_to_colon(s)[k] == s[k],
{
    s.index_of_first_ensures(':');
    if colon_free(s) {
        assert(!s.contains(':'));
    }
}

/// Splitting a qualified name gives a prefix and a local name that hold no
/// colon; when the name holds at most one colon, the prefix, a colon and the
/// local name put back together give the name again, and without a colon the
/// local name is the whole name.
pub proof fn lemma_split_qualified_parts(q: Seq<char>)
    ensures
        spec_split_qualified(q).0 matches Some(p) ==> colon_free(p),
        colon_free(spec_split_qualified(q).1),
        spec_split_qualified(q).0 is None <==> colon_free(q),
        at_most_one_colon(q) ==> match spec_split_qualified(q) {
            (None, local) => local == q,
            (Some(p), local) => p + seq![':'] + local == q,
        },
{
    q.index_of_first_ensures(':');
    match q.index_of_first(':') {
        None => {
            assert forall|k: int| 0 <= k < q.len() implies q[k] != ':' by {
                if q[k] == ':' {
                    assert(q.contains(':'));
                }
            }
            lemma_up_to_colon(q);
        },
        Some(i) => {
            let rest = q.skip(i + 1);
            lemma_up_to_colon(rest);
            assert(!colon_free(q)) by {
                assert(q[i] == ':');
            }
            if at_most_one_colon(q) {
                assert forall|k: int| 0 <= k < rest.len() implies rest[k] != ':' by {
                    assert(rest[k] == q[i + 1 + k]);
                }
                assert(q.take(i) + seq![':'] + rest =~= q);
            }
        },
    }
}

/// Resolving a qualified name yields the local name that splitting it
/// yields, with a namespace exactly when the name has a prefix; it fails
/// exactly when the prefix is bound to no namespace in scope.
pub proof fn lemma_resolve_agrees_with_split(n: NodeView, q: Seq<char>)
    ensures
        spec_resolve_qualified(n, q) matches Ok((ns, local)) ==> local == spec_split_qualified(q).1
            && (ns is None <==> spec_split_qualified(q).0 is None),
        spec_resolve_qualified(n, q) is Err <==> (spec_split_qualified(q).0 matches Some(p)
            && namespace_uri_of(n, Some(p)) is None),
        spec_resolve_qualified(n, q) matches Err(d) ==> d == ErrorDesc::InvalidReference(q),
{
}

/// The WSDL children of a node with a given local name are children of that
/// node, with that expanded name, and every such child is among them.
pub proof fn lemma_wsdl_children(nodes: Seq<NodeView>, id: usize, local: Seq<char>)
    requires
        well_formed(nodes),
        id < nodes.len(),
    ensures
        forall|k: int|
            0 <= k < wsdl_children(nodes, id, local).len() ==> {
                let c = #[trigger] wsdl_children(nodes, id, local)[k];
                &&& c < nodes.len()
                &&& nodes[c as int].parent == Some(id)
                &&& has_tag(nodes[c as int], wsdl_ns(), local)
                &&& nodes[id as int].children.contains(c)
            },
        forall|j: int|
            0 <= j < nodes[id as int].children.len() && has_tag(
                nodes[nodes[id as int].children[j] as int],
                wsdl_ns(),
                local,
            ) ==> wsdl_children(nodes, id, local).contains(#[trigger] nodes[id as int].children[j]),
{
    let children = nodes[id as int].children;
    let pred = tag_pred(nodes, wsdl_ns(), local);
    lemma_filter_members(children, pred);
    broadcast use vstd::seq_lib::group_filter_ensures;

    assert forall|k: int| 0 <= k < wsdl_children(nodes, id, local).len() implies {
        let c = #[trigger] wsdl_children(nodes, id, local)[k];
        &&& c < nodes.len()
        &&& nodes[c as int].parent == Some(id)
        &&& has_tag(nodes[c as int], wsdl_ns(), local)
        &&& children.contains(c)
    } by {
        let c = wsdl_children(nodes, id, local)[k];
        assert(pred(c));
        let j = choose|j: int| 0 <= j < children.len() && children[j] == c;
        assert(children[j] == nodes[id as int].children[j]);
    }
    assert forall|j: int|
        0 <= j < children.len() && has_tag(
            nodes[children[j] as int],
            wsdl_ns(),
            local,
        ) implies wsdl_children(nodes, id, local).contains(#[trigger] children[j]) by {
        assert(pred(children[j]));
    }
}

/// The lists of port types, messages, bindings and services fail together,
/// with the same error: the document element lacks a `definitions` element.
pub proof fn lemma_top_level_fail_together(nodes: Seq<NodeView>, a: Seq<char>, b: Seq<char>)
    ensures
        spec_top_level(nodes, a) is Err <==> spec_top_level(nodes, b) is Err,
        spec_top_level(nodes, a) matches Err(e) ==> spec_top_level(nodes, b) == Err::<Seq<usize>, ErrorAt>(e)
            && e == (ErrorAt {
            node: root_element_of(nodes),
            desc: ErrorDesc::MissingElement("definitions"@),
        }),
{
}

/// A reference held by attribute `attr` of node `id` (a binding's `type`, a
/// service port's `binding`) resolves to an element of the list it refers
/// to, whose name is the local part of the reference.
pub proof fn lemma_reference_is_listed(
    nodes: Seq<NodeView>,
    id: usize,
    attr: Seq<char>,
    local: Seq<char>,
)
    ensures
        spec_reference(nodes, id, attr, local) matches Ok(x) ==> {
            &&& attribute_of(nodes[id as int], attr) matches Some(q)
            &&& spec_top_level(nodes, local) matches Ok(list)
            &&& list.contains(x)
            &&& spec_name(nodes, x) == Ok::<Seq<char>, ErrorAt>(spec_split_qualified(q).1)
        },
{
    if let Some(q) = attribute_of(nodes[id as int], attr) {
        if let Ok(list) = spec_top_level(nodes, local) {
            let name = spec_split_qualified(q).1;
            lemma_first_where_found(list, attr_value_pred(nodes, "name"@, name));
        }
    }
}

/// An operation's input, output or fault names a message of the document,
/// whose name is the local part of the reference.
pub proof fn lemma_message_ref_is_listed(nodes: Seq<NodeView>, id: usize, local: Seq<char>)
    ensures
        spec_message_ref(nodes, id, local) matches Ok(Some(m)) ==> {
            &&& first_where(nodes[id as int].children, tag_pred(nodes, wsdl_ns(), local)) matches Some(c)
            &&& attribute_of(nodes[c as int], "message"@) matches Some(q)
            &&& spec_top_level(nodes, "message"@) matches Ok(messages)
            &&& messages.contains(m)
            &&& spec_name(nodes, m) == Ok::<Seq<char>, ErrorAt>(spec_split_qualified(q).1)
        },
{
    if let Some(c) = first_where(nodes[id as int].children, tag_pred(nodes, wsdl_ns(), local)) {
        if let Some(q) = attribute_of(nodes[c as int], "message"@) {
            if let Ok(messages) = spec_top_level(nodes, "message"@) {
                let name = spec_split_qualified(q).1;
                lemma_first_where_found(messages, attr_value_pred(nodes, "name"@, name));
            }
        }
    }
}

proof fn lemma_find_operation(nodes: Seq<NodeView>, ops: Seq<usize>, name: Seq<char>)
    ensures
        spec_find_operation(nodes, ops, name) matches Ok(Some(op)) ==> ops.contains(op) && spec_name(
            nodes,
            op,
        ) == Ok::<Seq<char>, ErrorAt>(name),
        spec_find_operation(nodes, ops, name) matches Err(e) ==> exists|k: int|
            0 <= k < ops.len() && e.node == ops[k],
    decreases ops.len(),
{
    if ops.len() > 0 {
        lemma_find_operation(nodes, ops.drop_first(), name);
        if let Ok(Some(op)) = spec_find_operation(nodes, ops, name) {
            if spec_name(nodes, ops[0]) != Ok::<Seq<char>, ErrorAt>(name) {
                let k = choose|k: int| 0 <= k < ops.drop_first().len() && ops.drop_first()[k] == op;
                assert(ops[k + 1] == op);
            } else {
                assert(ops[0] == ops[0]);
            }
        }
        if let Err(e) = spec_find_operation(nodes, ops, name) {
            if e.node != ops[0] {
                let k = choose|k: int| 0 <= k < ops.drop_first().len() && e.node == ops.drop_first()[k];
                assert(e.node == ops[k + 1]);
            }
        }
    }
}

/// The port type operation that a binding operation binds has the binding
/// operation's name and is an operation of the port type of the enclosing
/// binding.
pub proof fn lemma_port_operation_matches(nodes: Seq<NodeView>, id: usize)
    ensures
        spec_port_operation(nodes, id) matches Ok(op) ==> {
            &&& spec_name(nodes, op) == spec_name(nodes, id)
            &&& nodes[id as int].parent matches Some(binding)
            &&& spec_reference(nodes, binding, "type"@, "portType"@) matches Ok(port_type)
            &&& wsdl_children(nodes, port_type, "operation"@).contains(op)
        },
{
    if let Ok(name) = spec_name(nodes, id) {
        if let Some(binding) = nodes[id as int].parent {
            if let Ok(port_type) = spec_reference(nodes, binding, "type"@, "portType"@) {
                lemma_find_operation(nodes, wsdl_children(nodes, port_type, "operation"@), name);
            }
        }
    }
}

/// The target namespace is inherited: a child of a node that carries
/// `targetNamespace` has that target namespace, and a child of a node that
/// does not has the same target namespace as that node.
pub proof fn lemma_target_namespace_inherited(nodes: Seq<NodeView>, p: usize, c: usize)
    requires
        well_formed(nodes),
        p < nodes.len(),
        c < nodes.len(),
        nodes[c as int].parent == Some(p),
    ensures
        attribute_of(nodes[p as int], "targetNamespace"@) matches Some(v) ==> spec_target_namespace(
            nodes,
            c,
        ) == Ok::<Seq<char>, ErrorAt>(v),
        attribute_of(nodes[p as int], "targetNamespace"@) is None && p != 0 ==> (
        spec_target_namespace(nodes, c) is Ok <==> spec_target_namespace(nodes, p) is Ok),
        attribute_of(nodes[p as int], "targetNamespace"@) is None && p != 0 ==> (
        spec_target_namespace(nodes, c) matches Ok(v) ==> spec_target_namespace(nodes, p)
            == Ok::<Seq<char>, ErrorAt>(v)),
{
    if p != 0 {
        assert(nodes[p as int].parent is Some && nodes[p as int].parent.unwrap() < p);
    }
    assert(ancestor_attribute(nodes, p as int, "targetNamespace"@) == match attribute_of(
        nodes[p as int],
        "targetNamespace"@,
    ) {
        Some(v) => Some(v),
        None => match nodes[p as int].parent {
            Some(pp) => if pp < p {
                ancestor_attribute(nodes, pp as int, "targetNamespace"@)
            } else {
                None
            },
            None => None,
        },
    });
}

/// Every error reported by the reference-following operations names a node
/// of the document.
pub proof fn lemma_errors_name_document_nodes(nodes: Seq<NodeView>, id: usize, local: Seq<char>)
    requires
        well_formed(nodes),
        id < nodes.len(),
    ensures
        spec_definitions(nodes) matches Err(e) ==> e.node < nodes.len(),
        spec_reference(nodes, id, "type"@, local) matches Err(e) ==> e.node < nodes.len(),
        spec_message_ref(nodes, id, local) matches Err(e) ==> e.node < nodes.len(),
        spec_port_operation(nodes, id) matches Err(e) ==> e.node < nodes.len(),
{
    let pred = crate::xml::element_pred(nodes);
    lemma_first_where_found(nodes[0].children, pred);
    if let Ok(name) = spec_name(nodes, id) {
        if let Some(binding) = nodes[id as int].parent {
            if id != 0 {
                assert(binding < id);
            }
            if let Ok(port_type) = spec_reference(nodes, binding, "type"@, "portType"@) {
                let ops = wsdl_children(nodes, port_type, "operation"@);
                lemma_find_operation(nodes, ops, name);
                lemma_reference_is_listed(nodes, binding, "type"@, "portType"@);
                if let Ok(d) = spec_definitions(nodes) {
                    lemma_first_where_found(nodes[0].children, tag_pred(nodes, wsdl_ns(), "definitions"@));
                    let j = choose|j: int| 0 <= j < nodes[0].children.len() && nodes[0].children[j] == d && tag_pred(nodes, wsdl_ns(), "definitions"@)(d) && forall|k: int| 0 <= k < j ==> !tag_pred(nodes, wsdl_ns(), "definitions"@)(#[trigger] nodes[0].children[k]);
                    assert(nodes[0].children[j] < nodes.len());
                    lemma_wsdl_children(nodes, d, "portType"@);
                    lemma_wsdl_children(nodes, port_type, "operation"@);
                }
            }
        }
    }
}

} // verus!
