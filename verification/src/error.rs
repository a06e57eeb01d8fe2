//! Errors met while reading a WSDL document, and the node at which each one
//! was met.
use vstd::prelude::*;

verus! {

/// How a WSDL document is malformed.
#[derive(Debug, PartialEq, Eq)]
pub enum WsErrorMalformedType {
    MissingAttribute(String),
    MissingElement(String),
}

/// What went wrong.
#[derive(Debug, PartialEq, Eq)]
pub enum WsErrorType {
    MalformedWsdl(WsErrorMalformedType),
    InvalidReference(String),
    NoParentNode,
}

/// The position of a node in its [`crate::xml::XmlDocument`].
#[derive(Debug, Clone, Copy, PartialEq, Eq, Hash, Structural)]
pub struct NodeId(pub usize);

/// An error, and the node at which it was met.
#[derive(Debug, PartialEq, Eq)]
pub struct WsError(pub NodeId, pub WsErrorType);

/// An error's kind and text, taken by characters.
pub enum ErrorDesc {
    MissingAttribute(Seq<char>),
    MissingElement(Seq<char>),
    InvalidReference(Seq<char>),
    NoParentNode,
}

/// An error as the position of its node and its kind.
pub struct ErrorAt {
    pub node: usize,
    pub desc: ErrorDesc,
}

impl View for WsErrorType {
    type V = ErrorDesc;

    open spec fn view(&self) -> ErrorDesc {
        match self {
            WsErrorType::MalformedWsdl(WsErrorMalformedType::MissingAttribute(s)) => {
                ErrorDesc::MissingAttribute(s@)
            },
            WsErrorType::MalformedWsdl(WsErrorMalformedType::MissingElement(s)) => {
                ErrorDesc::MissingElement(s@)
            },
            WsErrorType::InvalidReference(s) => ErrorDesc::InvalidReference(s@),
            WsErrorType::NoParentNode => ErrorDesc::NoParentNode,
        }
    }
}

impl View for WsError {
    type V = ErrorAt;

    open spec fn view(&self) -> ErrorAt {
        ErrorAt { node: self.0.0, desc: self.1@ }
    }
}

/// The text of a malformation.
pub open spec fn malformed_message(t: WsErrorMalformedType) -> Seq<char> {
    match t {
        WsErrorMalformedType::MissingAttribute(s) => "missing attribute \""@ + s@ + "\""@,
        WsErrorMalformedType::MissingElement(s) => "missing element \""@ + s@ + "\""@,
    }
}

/// The text of an error kind.
pub open spec fn error_type_message(t: WsErrorType) -> Seq<char> {
    match t {
        WsErrorType::MalformedWsdl(m) => "The input WSDL document was malformed: "@
            + malformed_message(m),
        WsErrorType::InvalidReference(s) => "Attempt to refer to unknown element "@ + s@,
        WsErrorType::NoParentNode => "Node unexpectedly did not have a parent node"@,
    }
}

impl WsErrorMalformedType {
    /// The human-readable text of this malformation.
    pub fn message(&self) -> (r: String)
        ensures
            r@ == malformed_message(*self),
    {
        match self {
            WsErrorMalformedType::MissingAttribute(s) => {
                let mut r = String::from_str("missing attribute \"");
                r.append(s.as_str());
                r.append("\"");
                r
            },
            WsErrorMalformedType::MissingElement(s) => {
                let mut r = String::from_str("missing element \"");
                r.append(s.as_str());
                r.append("\"");
                r
            },
        }
    }
}

impl WsErrorType {
    /// The human-readable text of this error kind.
    pub fn message(&self) -> (r: String)
        ensures
            r@ == error_type_message(*self),
    {
        match self {
            WsErrorType::MalformedWsdl(m) => {
                let mut r = String::from_str("The input WSDL document was malformed: ");
                let inner = m.message();
                r.append(inner.as_str());
                r
            },
            WsErrorType::InvalidReference(s) => {
                let mut r = String::from_str("Attempt to refer to unknown element ");
                r.append(s.as_str());
                r
            },
            WsErrorType::NoParentNode => String::from_str(
                "Node unexpectedly did not have a parent node",
            ),
        }
    }
}

impl WsError {
    /// An error of kind `typ` met at node `node`.
    pub fn new(node: usize, typ: WsErrorType) -> (r: WsError)
        ensures
            r@ == (ErrorAt { node, desc: typ@ }),
    {
        WsError(NodeId(node), typ)
    }

    /// The human-readable text of this error: that of its kind.
    pub fn message(&self) -> (r: String)
        ensures
            r@ == error_type_message(self.1),
    {
        self.1.message()
    }
}

/// The error for a missing attribute `name` at node `node`.
pub fn missing_attribute(node: usize, name: &str) -> (r: WsError)
    ensures
        r@ == (ErrorAt { node, desc: ErrorDesc::MissingAttribute(name@) }),
{
    WsError::new(
        node,
        WsErrorType::MalformedWsdl(WsErrorMalformedType::MissingAttribute(name.to_owned())),
    )
}

/// The error for a missing element `name` at node `node`.
pub fn missing_element(node: usize, name: &str) -> (r: WsError)
    ensures
        r@ == (ErrorAt { node, desc: ErrorDesc::MissingElement(name@) }),
{
    WsError::new(
        node,
        WsErrorType::MalformedWsdl(WsErrorMalformedType::MissingElement(name.to_owned())),
    )
}

/// The error for a reference to an unknown element `name` at node `node`.
pub fn invalid_reference(node: usize, name: &str) -> (r: WsError)
    ensures
        r@ == (ErrorAt { node, desc: ErrorDesc::InvalidReference(name@) }),
{
    WsError::new(node, WsErrorType::InvalidReference(name.to_owned()))
}

} // verus!
