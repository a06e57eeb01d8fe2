//! Typed, verified access to the contents of a WSDL 1.1 document.
//!
//! The XML tree is held by [`xml::XmlDocument`], a checked arena of nodes whose
//! well-formedness is a type invariant. [`wsdl`] walks that tree the way a WSDL
//! consumer does: definitions, messages, port types, bindings and services,
//! with qualified names resolved by [`qname`]. [`roxml`] builds the tree from a
//! document parsed by `roxmltree`.
pub mod error;
pub mod laws;
pub mod lookup_laws;
pub mod qname;
pub mod roxml;
pub mod seqs;
pub mod text;
pub mod wsdl;
pub mod xml;
