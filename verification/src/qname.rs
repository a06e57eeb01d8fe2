//! Qualified names (`prefix:local`) and their resolution against the
//! namespaces in scope of an element.
use vstd::prelude::*;

use crate::error::{ErrorDesc, WsErrorType};
use crate::text::{find_char, opt_str_view};
use crate::xml::{namespace_uri_of, NodeView, XmlDocument};

verus! {

/// A name together with the URI of its namespace, if it has one.
#[derive(Debug, Clone, Copy, PartialEq, Eq)]
pub struct ExpandedName<'a> {
    pub namespace: Option<&'a str>,
    pub name: &'a str,
}

impl<'a> View for ExpandedName<'a> {
    type V = (Option<Seq<char>>, Seq<char>);

    open spec fn view(&self) -> (Option<Seq<char>>, Seq<char>) {
        (opt_str_view(self.namespace), self.name@)
    }
}

/// The part of `s` before its first `:`, or all of `s` when it has none.
pub open spec fn up_to_colon(s: Seq<char>) -> Seq<char> {
    match s.index_of_first(':') {
        Some(j) => s.take(j),
        None => s,
    }
}

/// A qualified name split into its prefix and its local name: without a
/// colon there is no prefix and the local name is the whole name; otherwise
/// the prefix is what precedes the first colon and the local name is what
/// lies between the first colon and the next one (or the end).
pub open spec fn spec_split_qualified(q: Seq<char>) -> (Option<Seq<char>>, Seq<char>) {
    match q.index_of_first(':') {
        None => (None, q),
        Some(i) => (Some(q.take(i)), up_to_colon(q.skip(i + 1))),
    }
}

/// A qualified name resolved in scope of node `n`: a prefix must be bound
/// to a namespace there, or the name is an invalid reference.
pub open spec fn spec_resolve_qualified(n: NodeView, q: Seq<char>) -> Result<
    (Option<Seq<char>>, Seq<char>),
    ErrorDesc,
> {
    let (prefix, local) = spec_split_qualified(q);
    match prefix {
        None => Ok((None, local)),
        Some(p) => match namespace_uri_of(n, Some(p)) {
            Some(uri) => Ok((Some(uri), local)),
            None => Err(ErrorDesc::InvalidReference(q)),
        },
    }
}

/// The part of `s` before its first `:`, or all of `s`.
fn prefix_before_colon<'b>(s: &'b str) -> (r: &'b str)
    ensures
        r@ == up_to_colon(s@),
{
    match find_char(s, ':') {
        Some(j) => {
            proof {
                s@.index_of_first_ensures(':');
            }
            s.substring_char(0, j)
        },
        None => s,
    }
}

/// Splits a qualified name into its prefix and local name; this never
/// fails.
pub fn split_qualified(qualified_name: &str) -> (r: Result<(Option<&str>, &str), WsErrorType>)
    ensures
        r matches Ok((prefix, local)) && (opt_str_view(prefix), local@) == spec_split_qualified(
            qualified_name@,
        ),
{
    match find_char(qualified_name, ':') {
        Some(i) => {
            proof {
                qualified_name@.index_of_first_ensures(':');
            }
            let n = qualified_name.unicode_len();
            let prefix = qualified_name.substring_char(0, i);
            let rest = qualified_name.substring_char(i + 1, n);
            assert(rest@ =~= qualified_name@.skip(i + 1));
            let local = prefix_before_colon(rest);
            Ok((Some(prefix), local))
        },
        None => Ok((None, qualified_name)),
    }
}

/// Resolves a qualified name in scope of node `id`: the prefix, if any, is
/// looked up among the namespaces in scope there.
pub fn resolve_qualified<'a>(doc: &'a XmlDocument, id: usize, qualified_name: &'a str) -> (r:
    Result<ExpandedName<'a>, WsErrorType>)
    requires
        id < doc@.len(),
    ensures
        match spec_resolve_qualified(doc@[id as int], qualified_name@) {
            Ok(v) => r matches Ok(e) && e@ == v,
            Err(d) => r matches Err(t) && t@ == d,
        },
{
    let (prefix, local) = match split_qualified(qualified_name) {
        Ok(parts) => parts,
        Err(e) => {
            return Err(e);
        },
    };
    match prefix {
        Some(p) => match doc.lookup_namespace_uri(id, Some(p)) {
            Some(uri) => Ok(ExpandedName { namespace: Some(uri), name: local }),
            None => Err(WsErrorType::InvalidReference(qualified_name.to_owned())),
        },
        None => Ok(ExpandedName { namespace: None, name: local }),
    }
}

} // verus!
