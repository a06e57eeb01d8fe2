//! What the WSDL lookups find, stated over the XML tree itself: which
//! elements the lists hold, which element a reference names, and when each
//! error comes.
use vstd::prelude::*;

use crate::error::{ErrorAt, ErrorDesc};
use crate::qname::spec_split_qualified;
use crate::seqs::{lemma_filter_members, lemma_first_where_at, lemma_first_where_none};
use crate::wsdl::{
    root_element_of, spec_find_operation, spec_message_ref, spec_port_operation, spec_reference,
    spec_top_level, spec_typename, wsdl_ns,
};
use crate::xml::{attr_value_pred, attribute_of, has_tag, namespace_uri_of, tag_pred, NodeView};

verus! {

/// The children of node `parent` that are WSDL elements called `local`, in
/// document order.
pub open spec fn tagged_children(nodes: Seq<NodeView>, parent: usize, local: Seq<char>) -> Seq<
    usize,
> {
    nodes[parent as int].children.filter(tag_pred(nodes, wsdl_ns(), local))
}

/// `c`, at position `pos` among the children of `parent`, is the first of
/// them that is a WSDL element called `local`.
pub open spec fn first_tagged_child_at(
    nodes: Seq<NodeView>,
    parent: usize,
    pos: int,
    c: usize,
    local: Seq<char>,
) -> bool {
    &&& 0 <= pos < nodes[parent as int].children.len()
    &&& nodes[parent as int].children[pos] == c
    &&& has_tag(nodes[c as int], wsdl_ns(), local)
    &&& forall|k: int|
        0 <= k < pos ==> !has_tag(
            nodes[(#[trigger] nodes[parent as int].children[k]) as int],
            wsdl_ns(),
            local,
        )
}

/// No child of `parent` is a WSDL element called `local`.
pub open spec fn no_tagged_child(nodes: Seq<NodeView>, parent: usize, local: Seq<char>) -> bool {
    forall|k: int|
        0 <= k < nodes[parent as int].children.len() ==> !has_tag(
            nodes[(#[trigger] nodes[parent as int].children[k]) as int],
            wsdl_ns(),
            local,
        )
}

/// `list[j]` is the first element of `list` whose `name` attribute is `name`.
pub open spec fn first_named_at(nodes: Seq<NodeView>, list: Seq<usize>, j: int, name: Seq<char>) -> bool {
    &&& 0 <= j < list.len()
    &&& attribute_of(nodes[list[j] as int], "name"@) == Some(name)
    &&& forall|k: int|
        0 <= k < j ==> attribute_of(nodes[(#[trigger] list[k]) as int], "name"@) != Some(name)
}

/// No element of `list` has `name` as its `name` attribute.
pub open spec fn none_named(nodes: Seq<NodeView>, list: Seq<usize>, name: Seq<char>) -> bool {
    forall|k: int|
        0 <= k < list.len() ==> attribute_of(nodes[(#[trigger] list[k]) as int], "name"@) != Some(name)
}

proof fn lemma_first_child(nodes: Seq<NodeView>, parent: usize, pos: int, c: usize, local: Seq<char>)
    requires
        first_tagged_child_at(nodes, parent, pos, c, local),
    ensures
        crate::seqs::first_where(nodes[parent as int].children, tag_pred(nodes, wsdl_ns(), local))
            == Some(c),
{
    let s = nodes[parent as int].children;
    let pred = tag_pred(nodes, wsdl_ns(), local);
    assert forall|k: int| 0 <= k < pos implies !pred(#[trigger] s[k]) by {}
    lemma_first_where_at(s, pred, pos);
}

proof fn lemma_no_child(nodes: Seq<NodeView>, parent: usize, local: Seq<char>)
    requires
        no_tagged_child(nodes, parent, local),
    ensures
        crate::seqs::first_where(nodes[parent as int].children, tag_pred(nodes, wsdl_ns(), local))
            is None,
{
    let s = nodes[parent as int].children;
    let pred = tag_pred(nodes, wsdl_ns(), local);
    assert forall|k: int| 0 <= k < s.len() implies !pred(#[trigger] s[k]) by {}
    lemma_first_where_none(s, pred);
}

proof fn lemma_first_named(nodes: Seq<NodeView>, list: Seq<usize>, j: int, name: Seq<char>)
    requires
        first_named_at(nodes, list, j, name),
    ensures
        crate::seqs::first_where(list, attr_value_pred(nodes, "name"@, name)) == Some(list[j]),
{
    let pred = attr_value_pred(nodes, "name"@, name);
    assert forall|k: int| 0 <= k < j implies !pred(#[trigger] list[k]) by {}
    lemma_first_where_at(list, pred, j);
}

proof fn lemma_none_named(nodes: Seq<NodeView>, list: Seq<usize>, name: Seq<char>)
    requires
        none_named(nodes, list, name),
    ensures
        crate::seqs::first_where(list, attr_value_pred(nodes, "name"@, name)) is None,
{
    let pred = attr_value_pred(nodes, "name"@, name);
    assert forall|k: int| 0 <= k < list.len() implies !pred(#[trigger] list[k]) by {}
    lemma_first_where_none(list, pred);
}

/// When `definitions` is the first WSDL `definitions` child of the root,
/// the list of top-level elements called `local` (messages, port types,
/// bindings or services) holds every WSDL child of `definitions` with that
/// name, in document order, and nothing else.
pub proof fn lemma_top_level_lists_every_child(
    nodes: Seq<NodeView>,
    pos: int,
    definitions: usize,
    local: Seq<char>,
)
    requires
        first_tagged_child_at(nodes, 0, pos, definitions, "definitions"@),
    ensures
        spec_top_level(nodes, local) matches Ok(list) && {
            &&& list == nodes[definitions as int].children.filter(
                tag_pred(nodes, wsdl_ns(), local),
            )
            &&& forall|j: int|
                0 <= j < nodes[definitions as int].children.len() && has_tag(
                    nodes[nodes[definitions as int].children[j] as int],
                    wsdl_ns(),
                    local,
                ) ==> list.contains(#[trigger] nodes[definitions as int].children[j])
            &&& forall|k: int|
                0 <= k < list.len() ==> has_tag(nodes[(#[trigger] list[k]) as int], wsdl_ns(), local)
                    && nodes[definitions as int].children.contains(list[k])
        },
{
    lemma_first_child(nodes, 0, pos, definitions, "definitions"@);
    let children = nodes[definitions as int].children;
    let pred = tag_pred(nodes, wsdl_ns(), local);
    lemma_filter_members(children, pred);
    broadcast use vstd::seq_lib::group_filter_ensures;

    let list = children.filter(pred);
    assert forall|j: int|
        0 <= j < children.len() && has_tag(
            nodes[children[j] as int],
            wsdl_ns(),
            local,
        ) implies list.contains(#[trigger] children[j]) by {
        assert(pred(children[j]));
    }
    assert forall|k: int| 0 <= k < list.len() implies has_tag(
        nodes[(#[trigger] list[k]) as int],
        wsdl_ns(),
        local,
    ) && children.contains(list[k]) by {
        assert(pred(list[k]));
    }
}

/// Without a WSDL `definitions` child of the root, every top-level list
/// fails with a missing `definitions` element at the document element.
pub proof fn lemma_top_level_without_definitions(nodes: Seq<NodeView>, local: Seq<char>)
    requires
        no_tagged_child(nodes, 0, "definitions"@),
    ensures
        spec_top_level(nodes, local) == Err::<Seq<usize>, ErrorAt>(
            ErrorAt {
                node: root_element_of(nodes),
                desc: ErrorDesc::MissingElement("definitions"@),
            },
        ),
{
    lemma_no_child(nodes, 0, "definitions"@);
}

/// Following a reference (a binding's `type`, a service port's `binding`):
/// the result is the first element of the referenced list whose name is the
/// local part of the reference; it is an invalid reference exactly when no
/// element of the list has that name; a missing attribute is reported at
/// the referring node.
pub proof fn lemma_reference_finds_named(
    nodes: Seq<NodeView>,
    id: usize,
    attr: Seq<char>,
    local: Seq<char>,
    pos: int,
    definitions: usize,
)
    requires
        first_tagged_child_at(nodes, 0, pos, definitions, "definitions"@),
    ensures
        attribute_of(nodes[id as int], attr) is None ==> spec_reference(nodes, id, attr, local)
            == Err::<usize, ErrorAt>(
            ErrorAt { node: id, desc: ErrorDesc::MissingAttribute(attr) },
        ),
        forall|q: Seq<char>, j: int|
            attribute_of(nodes[id as int], attr) == Some(q) && #[trigger] first_named_at(
                nodes,
                tagged_children(nodes, definitions, local),
                j,
                spec_split_qualified(q).1,
            ) ==> spec_reference(nodes, id, attr, local) == Ok::<usize, ErrorAt>(
                tagged_children(nodes, definitions, local)[j],
            ),
        forall|q: Seq<char>|
            attribute_of(nodes[id as int], attr) == Some(q) && #[trigger] none_named(
                nodes,
                tagged_children(nodes, definitions, local),
                spec_split_qualified(q).1,
            ) ==> spec_reference(nodes, id, attr, local) == Err::<usize, ErrorAt>(
                ErrorAt {
                    node: id,
                    desc: ErrorDesc::InvalidReference(spec_split_qualified(q).1),
                },
            ),
{
    lemma_first_child(nodes, 0, pos, definitions, "definitions"@);
    let list = tagged_children(nodes, definitions, local);
    assert forall|q: Seq<char>, j: int|
        attribute_of(nodes[id as int], attr) == Some(q) && #[trigger] first_named_at(
            nodes,
            list,
            j,
            spec_split_qualified(q).1,
        ) implies spec_reference(nodes, id, attr, local) == Ok::<usize, ErrorAt>(list[j]) by {
        lemma_first_named(nodes, list, j, spec_split_qualified(q).1);
    }
    assert forall|q: Seq<char>|
        attribute_of(nodes[id as int], attr) == Some(q) && #[trigger] none_named(
            nodes,
            list,
            spec_split_qualified(q).1,
        ) implies spec_reference(nodes, id, attr, local) == Err::<usize, ErrorAt>(
        ErrorAt { node: id, desc: ErrorDesc::InvalidReference(spec_split_qualified(q).1) },
    ) by {
        lemma_none_named(nodes, list, spec_split_qualified(q).1);
    }
}

/// An operation's input, output or fault (its first WSDL child called
/// `local`): with no such child, or one without a `message` attribute, there
/// is no message; otherwise the result is the first message of the document
/// whose name is the local part of the reference, and an invalid reference
/// exactly when no message has that name.
pub proof fn lemma_message_ref_finds_named(
    nodes: Seq<NodeView>,
    id: usize,
    local: Seq<char>,
    pos: int,
    definitions: usize,
)
    requires
        first_tagged_child_at(nodes, 0, pos, definitions, "definitions"@),
    ensures
        no_tagged_child(nodes, id, local) ==> spec_message_ref(nodes, id, local) == Ok::<
            Option<usize>,
            ErrorAt,
        >(None),
        forall|cpos: int, c: usize|
            #[trigger] first_tagged_child_at(nodes, id, cpos, c, local) && attribute_of(
                nodes[c as int],
                "message"@,
            ) is None ==> spec_message_ref(nodes, id, local) == Ok::<Option<usize>, ErrorAt>(
                None,
            ),
        forall|cpos: int, c: usize, q: Seq<char>, j: int|
            #[trigger] first_tagged_child_at(nodes, id, cpos, c, local) && attribute_of(
                nodes[c as int],
                "message"@,
            ) == Some(q) && #[trigger] first_named_at(
                nodes,
                tagged_children(nodes, definitions, "message"@),
                j,
                spec_split_qualified(q).1,
            ) ==> spec_message_ref(nodes, id, local) == Ok::<Option<usize>, ErrorAt>(
                Some(tagged_children(nodes, definitions, "message"@)[j]),
            ),
        forall|cpos: int, c: usize, q: Seq<char>|
            #[trigger] first_tagged_child_at(nodes, id, cpos, c, local) && attribute_of(
                nodes[c as int],
                "message"@,
            ) == Some(q) && #[trigger] none_named(
                nodes,
                tagged_children(nodes, definitions, "message"@),
                spec_split_qualified(q).1,
            ) ==> spec_message_ref(nodes, id, local) == Err::<Option<usize>, ErrorAt>(
                ErrorAt {
                    node: id,
                    desc: ErrorDesc::InvalidReference(spec_split_qualified(q).1),
                },
            ),
{
    lemma_first_child(nodes, 0, pos, definitions, "definitions"@);
    let messages = tagged_children(nodes, definitions, "message"@);
    if no_tagged_child(nodes, id, local) {
        lemma_no_child(nodes, id, local);
    }
    assert forall|cpos: int, c: usize|
        #[trigger] first_tagged_child_at(nodes, id, cpos, c, local) && attribute_of(
            nodes[c as int],
            "message"@,
        ) is None implies spec_message_ref(nodes, id, local) == Ok::<Option<usize>, ErrorAt>(
        None,
    ) by {
        lemma_first_child(nodes, id, cpos, c, local);
    }
    assert forall|cpos: int, c: usize, q: Seq<char>, j: int|
        #[trigger] first_tagged_child_at(nodes, id, cpos, c, local) && attribute_of(
            nodes[c as int],
            "message"@,
        ) == Some(q) && #[trigger] first_named_at(
            nodes,
            messages,
            j,
            spec_split_qualified(q).1,
        ) implies spec_message_ref(nodes, id, local) == Ok::<Option<usize>, ErrorAt>(
        Some(messages[j]),
    ) by {
        lemma_first_child(nodes, id, cpos, c, local);
        lemma_first_named(nodes, messages, j, spec_split_qualified(q).1);
    }
    assert forall|cpos: int, c: usize, q: Seq<char>|
        #[trigger] first_tagged_child_at(nodes, id, cpos, c, local) && attribute_of(
            nodes[c as int],
            "message"@,
        ) == Some(q) && #[trigger] none_named(
            nodes,
            messages,
            spec_split_qualified(q).1,
        ) implies spec_message_ref(nodes, id, local) == Err::<Option<usize>, ErrorAt>(
        ErrorAt { node: id, desc: ErrorDesc::InvalidReference(spec_split_qualified(q).1) },
    ) by {
        lemma_first_child(nodes, id, cpos, c, local);
        lemma_none_named(nodes, messages, spec_split_qualified(q).1);
    }
}

/// The operations before position `j` all have names other than `name`.
pub open spec fn named_otherwise_before(nodes: Seq<NodeView>, ops: Seq<usize>, j: int, name: Seq<char>) -> bool {
    forall|k: int|
        0 <= k < j ==> attribute_of(nodes[(#[trigger] ops[k]) as int], "name"@) is Some
            && attribute_of(nodes[ops[k] as int], "name"@) != Some(name)
}

proof fn lemma_find_operation_cases(nodes: Seq<NodeView>, ops: Seq<usize>, name: Seq<char>, j: int)
    requires
        0 <= j <= ops.len(),
        named_otherwise_before(nodes, ops, j, name),
    ensures
        j < ops.len() && attribute_of(nodes[ops[j] as int], "name"@) == Some(name)
            ==> spec_find_operation(nodes, ops, name) == Ok::<Option<usize>, ErrorAt>(
            Some(ops[j]),
        ),
        j < ops.len() && attribute_of(nodes[ops[j] as int], "name"@) is None
            ==> spec_find_operation(nodes, ops, name) == Err::<Option<usize>, ErrorAt>(
            ErrorAt { node: ops[j], desc: ErrorDesc::MissingAttribute("name"@) },
        ),
        j == ops.len() ==> spec_find_operation(nodes, ops, name) == Ok::<Option<usize>, ErrorAt>(
            None,
        ),
    decreases j,
{
    if j > 0 {
        let rest = ops.drop_first();
        assert(attribute_of(nodes[ops[0] as int], "name"@) is Some);
        assert forall|k: int| 0 <= k < j - 1 implies attribute_of(
            nodes[(#[trigger] rest[k]) as int],
            "name"@,
        ) is Some && attribute_of(nodes[rest[k] as int], "name"@) != Some(name) by {
            assert(rest[k] == ops[k + 1]);
        }
        lemma_find_operation_cases(nodes, rest, name, j - 1);
    }
}

/// A binding operation named `name`, inside a binding whose port type is
/// `port_type`, binds the first operation of that port type called `name`,
/// provided every operation before it has a name; an operation without a
/// name met first is reported as such; and the operation is missing only
/// when every operation of the port type has another name.
pub proof fn lemma_port_operation_finds_named(
    nodes: Seq<NodeView>,
    id: usize,
    name: Seq<char>,
    binding: usize,
    port_type: usize,
)
    requires
        attribute_of(nodes[id as int], "name"@) == Some(name),
        nodes[id as int].parent == Some(binding),
        spec_reference(nodes, binding, "type"@, "portType"@) == Ok::<usize, ErrorAt>(port_type),
    ensures
        forall|j: int|
            0 <= j < tagged_children(nodes, port_type, "operation"@).len()
                && #[trigger] named_otherwise_before(
                nodes,
                tagged_children(nodes, port_type, "operation"@),
                j,
                name,
            ) && attribute_of(
                nodes[tagged_children(nodes, port_type, "operation"@)[j] as int],
                "name"@,
            ) == Some(name) ==> spec_port_operation(nodes, id) == Ok::<usize, ErrorAt>(
                tagged_children(nodes, port_type, "operation"@)[j],
            ),
        forall|j: int|
            0 <= j < tagged_children(nodes, port_type, "operation"@).len()
                && #[trigger] named_otherwise_before(
                nodes,
                tagged_children(nodes, port_type, "operation"@),
                j,
                name,
            ) && attribute_of(
                nodes[tagged_children(nodes, port_type, "operation"@)[j] as int],
                "name"@,
            ) is None ==> spec_port_operation(nodes, id) == Err::<usize, ErrorAt>(
                ErrorAt {
                    node: tagged_children(nodes, port_type, "operation"@)[j],
                    desc: ErrorDesc::MissingAttribute("name"@),
                },
            ),
        named_otherwise_before(
            nodes,
            tagged_children(nodes, port_type, "operation"@),
            tagged_children(nodes, port_type, "operation"@).len() as int,
            name,
        ) ==> spec_port_operation(nodes, id) == Err::<usize, ErrorAt>(
            ErrorAt { node: id, desc: ErrorDesc::MissingElement(name) },
        ),
{
    let ops = tagged_children(nodes, port_type, "operation"@);
    assert forall|j: int|
        0 <= j < ops.len() && #[trigger] named_otherwise_before(nodes, ops, j, name)
            && attribute_of(nodes[ops[j] as int], "name"@) == Some(name) implies spec_port_operation(
        nodes,
        id,
    ) == Ok::<usize, ErrorAt>(ops[j]) by {
        lemma_find_operation_cases(nodes, ops, name, j);
    }
    assert forall|j: int|
        0 <= j < ops.len() && #[trigger] named_otherwise_before(nodes, ops, j, name)
            && attribute_of(nodes[ops[j] as int], "name"@) is None implies spec_port_operation(
        nodes,
        id,
    ) == Err::<usize, ErrorAt>(
        ErrorAt { node: ops[j], desc: ErrorDesc::MissingAttribute("name"@) },
    ) by {
        lemma_find_operation_cases(nodes, ops, name, j);
    }
    if named_otherwise_before(nodes, ops, ops.len() as int, name) {
        lemma_find_operation_cases(nodes, ops, name, ops.len() as int);
    }
}

/// The type of a message part is the name held by its `element` attribute,
/// or by its `type` attribute when it has no `element`: a prefixed name
/// resolves to the URI bound to the prefix in scope of the part and the
/// local part of the name, an unprefixed name to no namespace and the whole
/// name, and an unbound prefix is an invalid reference to the whole name.
pub proof fn lemma_typename_resolves(nodes: Seq<NodeView>, id: usize, q: Seq<char>)
    requires
        attribute_of(nodes[id as int], "element"@) == Some(q) || (attribute_of(
            nodes[id as int],
            "element"@,
        ) is None && attribute_of(nodes[id as int], "type"@) == Some(q)),
    ensures
        forall|p: Seq<char>|
            spec_split_qualified(q).0 == Some(p) && (#[trigger] namespace_uri_of(
                nodes[id as int],
                Some(p),
            )) is Some ==> spec_typename(nodes, id) == Ok::<
                (Option<Seq<char>>, Seq<char>),
                ErrorAt,
            >((namespace_uri_of(nodes[id as int], Some(p)), spec_split_qualified(q).1)),
        forall|p: Seq<char>|
            spec_split_qualified(q).0 == Some(p) && #[trigger] namespace_uri_of(
                nodes[id as int],
                Some(p),
            ) is None ==> spec_typename(nodes, id) == Err::<
                (Option<Seq<char>>, Seq<char>),
                ErrorAt,
            >(ErrorAt { node: id, desc: ErrorDesc::InvalidReference(q) }),
        spec_split_qualified(q).0 is None ==> spec_typename(nodes, id) == Ok::<
            (Option<Seq<char>>, Seq<char>),
            ErrorAt,
        >((None, q)),
{
    crate::laws::lemma_split_qualified_parts(q);
    if spec_split_qualified(q).0 is None {
        q.index_of_first_ensures(':');
    }
}

/// A message part with neither an `element` nor a `type` attribute has no
/// type: that is reported as a missing `type` attribute at the part.
pub proof fn lemma_typename_missing(nodes: Seq<NodeView>, id: usize)
    requires
        attribute_of(nodes[id as int], "element"@) is None,
        attribute_of(nodes[id as int], "type"@) is None,
    ensures
        spec_typename(nodes, id) == Err::<(Option<Seq<char>>, Seq<char>), ErrorAt>(
            ErrorAt { node: id, desc: ErrorDesc::MissingAttribute("type"@) },
        ),
{
}

} // verus!
