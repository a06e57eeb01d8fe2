# wsdl

Typed access to the parts of a WSDL 1.1 document — messages and their parts,
port types and their operations, bindings, services and their ports — with
every operation verified by Verus against a mathematical model of the XML tree.

- `src/xml.rs`: the XML tree (`XmlDocument`), its model (`NodeView`) and its
  read operations: parents, children, tag names, attributes, namespaces in scope.
- `src/qname.rs`: splitting and resolving qualified names.
- `src/wsdl.rs`: the WSDL handles (`Wsdl`, `WsMessage`, `WsPortType`, ...) and
  what each operation returns, as spec functions over the model.
- `src/error.rs`: errors, with the node at which each was met, and their texts.
- `src/roxml.rs`: building an `XmlDocument` from a document parsed by `roxmltree`.
- `src/laws.rs`: properties that span operations.
- `app/lib.rs`: the error types with `std::error::Error`/`Display` (via
  `thiserror`) and `roxmltree` node ids.
