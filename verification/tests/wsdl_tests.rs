use wsdl::error::{NodeId, WsError, WsErrorMalformedType, WsErrorType};
use wsdl::qname::{resolve_qualified, split_qualified};
use wsdl::wsdl::{target_namespace, Wsdl};
use wsdl::xml::{XmlAttribute, XmlDocument, XmlNamespace, XmlNode, XmlNodeKind};

const STOCK_QUOTE: &str = r#"<?xml version="1.0"?>
<definitions name="StockQuote"
    targetNamespace="http://example.com/stockquote.wsdl"
    xmlns:tns="http://example.com/stockquote.wsdl"
    xmlns:xsd1="http://example.com/stockquote.xsd"
    xmlns:soap="http://schemas.xmlsoap.org/wsdl/soap/"
    xmlns="http://schemas.xmlsoap.org/wsdl/">
  <message name="GetLastTradePriceInput">
    <part name="body" element="xsd1:TradePriceRequest"/>
  </message>
  <message name="GetLastTradePriceOutput">
    <part name="body" element="xsd1:TradePrice"/>
    <part name="extra" type="plainType"/>
  </message>
  <portType name="StockQuotePortType">
    <operation name="GetLastTradePrice">
      <input message="tns:GetLastTradePriceInput"/>
      <output message="tns:GetLastTradePriceOutput"/>
    </operation>
    <operation name="Broken">
      <input message="tns:NoSuchMessage"/>
      <fault message="GetLastTradePriceOutput"/>
    </operation>
  </portType>
  <binding name="StockQuoteSoapBinding" type="tns:StockQuotePortType">
    <soap:binding style="document" transport="http://schemas.xmlsoap.org/soap/http"/>
    <operation name="GetLastTradePrice">
      <soap:operation soapAction="http://example.com/GetLastTradePrice"/>
    </operation>
    <operation name="Missing"/>
  </binding>
  <binding name="DanglingBinding" type="tns:NoSuchPortType"/>
  <service name="StockQuoteService">
    <documentation>My first service</documentation>
    <port name="StockQuotePort" binding="tns:StockQuoteSoapBinding"/>
    <port name="NoBindingPort"/>
  </service>
</definitions>
"#;

fn load(text: &str) -> XmlDocument {
    let parsed = roxmltree::Document::parse(text).unwrap();
    XmlDocument::from_roxmltree(&parsed).unwrap()
}

fn malformed_attribute(name: &str) -> WsErrorType {
    WsErrorType::MalformedWsdl(WsErrorMalformedType::MissingAttribute(name.to_string()))
}

#[test]
fn lists_top_level_elements() {
    let doc = load(STOCK_QUOTE);
    let wsdl = Wsdl::new(&doc);
    let names = |v: Vec<&str>| v.into_iter().map(|s| s.to_string()).collect::<Vec<_>>();
    let messages = wsdl.messages().unwrap();
    assert_eq!(
        names(messages.iter().map(|m| m.name().unwrap()).collect()),
        vec!["GetLastTradePriceInput", "GetLastTradePriceOutput"]
    );
    let port_types = wsdl.port_types().unwrap();
    assert_eq!(port_types.len(), 1);
    assert_eq!(port_types[0].name().unwrap(), "StockQuotePortType");
    let bindings = wsdl.bindings().unwrap();
    assert_eq!(
        names(bindings.iter().map(|b| b.name().unwrap()).collect()),
        vec!["StockQuoteSoapBinding", "DanglingBinding"]
    );
    let services = wsdl.services().unwrap();
    assert_eq!(services.len(), 1);
    assert_eq!(services[0].name().unwrap(), "StockQuoteService");
}

#[test]
fn message_parts_and_types() {
    let doc = load(STOCK_QUOTE);
    let wsdl = Wsdl::new(&doc);
    let messages = wsdl.messages().unwrap();
    let parts = messages[1].parts();
    assert_eq!(parts.len(), 2);
    assert_eq!(parts[0].name().unwrap(), "body");
    let t = parts[0].typename().unwrap();
    assert_eq!(t.namespace, Some("http://example.com/stockquote.xsd"));
    assert_eq!(t.name, "TradePrice");
    let t = parts[1].typename().unwrap();
    assert_eq!(t.namespace, None);
    assert_eq!(t.name, "plainType");
}

#[test]
fn port_type_operations_and_messages() {
    let doc = load(STOCK_QUOTE);
    let wsdl = Wsdl::new(&doc);
    let port_type = &wsdl.port_types().unwrap()[0];
    assert_eq!(port_type.target_namespace().unwrap(), "http://example.com/stockquote.wsdl");
    let ops = port_type.operations().unwrap();
    assert_eq!(ops.len(), 2);
    assert_eq!(ops[0].name().unwrap(), "GetLastTradePrice");
    let input = ops[0].input().unwrap().unwrap();
    assert_eq!(input.name().unwrap(), "GetLastTradePriceInput");
    let output = ops[0].output().unwrap().unwrap();
    assert_eq!(output.name().unwrap(), "GetLastTradePriceOutput");
    assert!(ops[0].fault().unwrap().is_none());
    // A reference without a prefix resolves by local name too.
    let fault = ops[1].fault().unwrap().unwrap();
    assert_eq!(fault.name().unwrap(), "GetLastTradePriceOutput");
    // An unknown message is an invalid reference at the operation.
    let err = ops[1].input().unwrap_err();
    assert_eq!(err, WsError(ops[1].node(), WsErrorType::InvalidReference("NoSuchMessage".to_string())));
}

#[test]
fn bindings_and_services() {
    let doc = load(STOCK_QUOTE);
    let wsdl = Wsdl::new(&doc);
    let bindings = wsdl.bindings().unwrap();
    let port_type = bindings[0].port_type().unwrap();
    assert_eq!(port_type.name().unwrap(), "StockQuotePortType");
    let err = bindings[1].port_type().unwrap_err();
    assert_eq!(err, WsError(bindings[1].node(), WsErrorType::InvalidReference("NoSuchPortType".to_string())));

    let ops = bindings[0].operations().unwrap();
    assert_eq!(ops.len(), 2);
    let port_op = ops[0].port_operation().unwrap();
    assert_eq!(port_op.name().unwrap(), "GetLastTradePrice");
    let err = ops[1].port_operation().unwrap_err();
    assert_eq!(
        err,
        WsError(
            ops[1].node(),
            WsErrorType::MalformedWsdl(WsErrorMalformedType::MissingElement("Missing".to_string()))
        )
    );

    let service = &wsdl.services().unwrap()[0];
    let ports = service.ports().unwrap();
    assert_eq!(ports.len(), 2);
    assert_eq!(ports[0].name().unwrap(), "StockQuotePort");
    assert_eq!(ports[0].binding().unwrap().name().unwrap(), "StockQuoteSoapBinding");
    let err = ports[1].binding().unwrap_err();
    assert_eq!(err, WsError(ports[1].node(), malformed_attribute("binding")));
}

#[test]
fn missing_definitions() {
    let doc = load("<!-- c --><root xmlns='http://schemas.xmlsoap.org/wsdl/'><message name='m'/></root>");
    let wsdl = Wsdl::new(&doc);
    let root_element = doc.root_element();
    let expected = WsError(
        NodeId(root_element),
        WsErrorType::MalformedWsdl(WsErrorMalformedType::MissingElement("definitions".to_string())),
    );
    assert_eq!(wsdl.messages().unwrap_err(), expected);
    assert_eq!(wsdl.port_types().unwrap_err(), expected);
    assert_eq!(wsdl.bindings().unwrap_err(), expected);
    assert_eq!(wsdl.services().unwrap_err(), expected);
}

#[test]
fn definitions_outside_wsdl_namespace_is_missing() {
    let doc = load("<definitions><message name='m'/></definitions>");
    let wsdl = Wsdl::new(&doc);
    assert!(wsdl.messages().is_err());
}

#[test]
fn missing_name_attribute() {
    let doc = load(
        "<definitions xmlns='http://schemas.xmlsoap.org/wsdl/'><message/><portType><operation/></portType></definitions>",
    );
    let wsdl = Wsdl::new(&doc);
    let m = &wsdl.messages().unwrap()[0];
    assert_eq!(m.name().unwrap_err(), WsError(m.node(), malformed_attribute("name")));
    let pt = &wsdl.port_types().unwrap()[0];
    assert_eq!(
        pt.target_namespace().unwrap_err(),
        WsError(pt.node(), malformed_attribute("targetNamespace"))
    );
}

#[test]
fn port_operation_stops_at_unnamed_operation() {
    let doc = load(
        "<definitions xmlns='http://schemas.xmlsoap.org/wsdl/'>\
         <portType name='P'><operation/><operation name='op'/></portType>\
         <binding name='B' type='P'><operation name='op'/></binding></definitions>",
    );
    let wsdl = Wsdl::new(&doc);
    let pt_ops = wsdl.port_types().unwrap()[0].operations().unwrap();
    let b_ops = wsdl.bindings().unwrap()[0].operations().unwrap();
    let err = b_ops[0].port_operation().unwrap_err();
    assert_eq!(err, WsError(pt_ops[0].node(), malformed_attribute("name")));
}

#[test]
fn part_without_type() {
    let doc = load(
        "<definitions xmlns='http://schemas.xmlsoap.org/wsdl/'><message name='m'><part name='p'/><part name='q' type='x:T'/></message></definitions>",
    );
    let wsdl = Wsdl::new(&doc);
    let parts = wsdl.messages().unwrap()[0].parts();
    assert_eq!(parts[0].typename().unwrap_err(), WsError(parts[0].node(), malformed_attribute("type")));
    assert_eq!(
        parts[1].typename().unwrap_err(),
        WsError(parts[1].node(), WsErrorType::InvalidReference("x:T".to_string()))
    );
}

#[test]
fn split_qualified_cases() {
    assert_eq!(split_qualified("tns:Foo").unwrap(), (Some("tns"), "Foo"));
    assert_eq!(split_qualified("Foo").unwrap(), (None, "Foo"));
    assert_eq!(split_qualified("a:b:c").unwrap(), (Some("a"), "b"));
    assert_eq!(split_qualified(":x").unwrap(), (Some(""), "x"));
    assert_eq!(split_qualified("x:").unwrap(), (Some("x"), ""));
    assert_eq!(split_qualified("é:ü").unwrap(), (Some("é"), "ü"));
}

#[test]
fn resolve_qualified_cases() {
    let doc = load("<e xmlns:n='urn:n' xmlns='urn:default'><c/></e>");
    let e = doc.root_element();
    let r = resolve_qualified(&doc, e, "n:local").unwrap();
    assert_eq!((r.namespace, r.name), (Some("urn:n"), "local"));
    let r = resolve_qualified(&doc, e, "plain").unwrap();
    assert_eq!((r.namespace, r.name), (None, "plain"));
    let err = resolve_qualified(&doc, e, "m:x").err().unwrap();
    assert_eq!(err, WsErrorType::InvalidReference("m:x".to_string()));
    // Bindings are inherited by children.
    let c = doc.children(e)[0];
    let r = resolve_qualified(&doc, c, "n:y").unwrap();
    assert_eq!(r.namespace, Some("urn:n"));
}

#[test]
fn target_namespace_is_inherited() {
    let doc = load("<a targetNamespace='urn:a'><b><c targetNamespace='urn:c'/></b></a>");
    let a = doc.root_element();
    let b = doc.children(a)[0];
    let c = doc.children(b)[0];
    assert_eq!(target_namespace(&doc, b).unwrap(), "urn:a");
    // A node's own attribute does not count: only its ancestors'.
    assert_eq!(target_namespace(&doc, c).unwrap(), "urn:a");
    assert!(target_namespace(&doc, a).is_err());
}

#[test]
fn error_messages() {
    let e = WsError(NodeId(3), malformed_attribute("name"));
    assert_eq!(e.message(), "The input WSDL document was malformed: missing attribute \"name\"");
    let e = WsErrorType::MalformedWsdl(WsErrorMalformedType::MissingElement("definitions".to_string()));
    assert_eq!(e.message(), "The input WSDL document was malformed: missing element \"definitions\"");
    let e = WsErrorType::InvalidReference("tns:X".to_string());
    assert_eq!(e.message(), "Attempt to refer to unknown element tns:X");
    assert_eq!(WsErrorType::NoParentNode.message(), "Node unexpectedly did not have a parent node");
}

fn element(parent: usize, children: Vec<usize>, name: &str) -> XmlNode {
    XmlNode {
        parent: Some(parent),
        children,
        kind: XmlNodeKind::Element { namespace: None, name: name.to_string() },
        attributes: vec![XmlAttribute { namespace: None, name: "name".to_string(), value: name.to_string() }],
        namespaces: vec![XmlNamespace { prefix: Some("p".to_string()), uri: "urn:p".to_string() }],
    }
}

fn root(children: Vec<usize>) -> XmlNode {
    XmlNode { parent: None, children, kind: XmlNodeKind::Root, attributes: vec![], namespaces: vec![] }
}

#[test]
fn document_well_formedness() {
    assert!(XmlDocument::new(vec![root(vec![1]), element(0, vec![], "e")]).is_some());
    // No nodes.
    assert!(XmlDocument::new(vec![]).is_none());
    // No document element.
    assert!(XmlDocument::new(vec![root(vec![])]).is_none());
    // A child pointing past the end.
    assert!(XmlDocument::new(vec![root(vec![1, 2]), element(0, vec![], "e")]).is_none());
    // A parent that does not come first.
    assert!(XmlDocument::new(vec![root(vec![2]), element(2, vec![], "x"), element(0, vec![1], "e")]).is_none());
    // A child that names another parent.
    assert!(XmlDocument::new(vec![root(vec![1, 2]), element(0, vec![2], "e"), element(0, vec![], "f")]).is_none());
    // A second root.
    let mut second = root(vec![]);
    second.parent = None;
    assert!(XmlDocument::new(vec![root(vec![1]), element(0, vec![], "e"), second]).is_none());
}

#[test]
fn hand_built_document_accessors() {
    let doc = XmlDocument::new(vec![root(vec![1]), element(0, vec![2], "e"), element(1, vec![], "f")]).unwrap();
    assert_eq!(doc.len(), 3);
    assert_eq!(doc.root(), 0);
    assert_eq!(doc.root_element(), 1);
    assert_eq!(doc.parent(2), Some(1));
    assert_eq!(doc.parent(0), None);
    assert_eq!(doc.attribute(2, "name"), Some("f"));
    assert_eq!(doc.attribute(0, "name"), None);
    assert_eq!(doc.lookup_namespace_uri(1, Some("p")), Some("urn:p"));
    assert_eq!(doc.lookup_namespace_uri(1, None), None);
    assert!(!doc.has_tag_name(1, "", "e"));
    assert_eq!(doc.ancestor_attribute(2, "name"), Some("f"));
}

#[test]
fn roxmltree_conversion_keeps_node_ids() {
    let text = "<a x='1'><!-- c --><b y='2'/>text</a>";
    let parsed = roxmltree::Document::parse(text).unwrap();
    let doc = XmlDocument::from_roxmltree(&parsed).unwrap();
    assert_eq!(doc.len(), parsed.descendants().count());
    for n in parsed.descendants() {
        let id = n.id().get_usize();
        assert_eq!(doc.parent(id), n.parent().map(|p| p.id().get_usize()));
        assert_eq!(doc.is_element(id), n.is_element());
        assert_eq!(doc.attribute(id, "x"), n.attribute("x"));
        assert_eq!(doc.attribute(id, "y"), n.attribute("y"));
        let kids: Vec<usize> = n.children().map(|c| c.id().get_usize()).collect();
        assert_eq!(doc.children(id), &kids);
    }
}

#[test]
fn split_parts_rejoin() {
    for q in ["tns:Foo", "Foo", ":x", "x:", ""] {
        let (prefix, local) = split_qualified(q).unwrap();
        assert!(!local.contains(':'));
        match prefix {
            Some(p) => {
                assert!(!p.contains(':'));
                assert_eq!(format!("{}:{}", p, local), q);
            }
            None => assert_eq!(local, q),
        }
    }
}

#[test]
fn resolve_agrees_with_split_on_local_name() {
    let doc = load("<e xmlns:n='urn:n'/>");
    let e = doc.root_element();
    for q in ["n:a", "b", "n:c:d"] {
        let resolved = resolve_qualified(&doc, e, q).unwrap();
        let (prefix, local) = split_qualified(q).unwrap();
        assert_eq!(resolved.name, local);
        assert_eq!(resolved.namespace.is_none(), prefix.is_none());
    }
}

#[test]
fn listed_elements_are_children_with_the_tag() {
    let doc = load(STOCK_QUOTE);
    let wsdl = Wsdl::new(&doc);
    for message in wsdl.messages().unwrap() {
        for part in message.parts() {
            assert_eq!(doc.parent(part.node().0), Some(message.node().0));
            assert!(doc.has_tag_name(part.node().0, "http://schemas.xmlsoap.org/wsdl/", "part"));
        }
    }
    let service = &wsdl.services().unwrap()[0];
    for port in service.ports().unwrap() {
        assert_eq!(doc.parent(port.node().0), Some(service.node().0));
    }
}

#[test]
fn references_land_in_their_lists() {
    let doc = load(STOCK_QUOTE);
    let wsdl = Wsdl::new(&doc);
    let binding = &wsdl.bindings().unwrap()[0];
    let port_type = binding.port_type().unwrap();
    assert!(wsdl.port_types().unwrap().iter().any(|p| p.node() == port_type.node()));
    let port = &wsdl.services().unwrap()[0].ports().unwrap()[0];
    let bound = port.binding().unwrap();
    assert!(wsdl.bindings().unwrap().iter().any(|b| b.node() == bound.node()));
    let op = &port_type.operations().unwrap()[0];
    let input = op.input().unwrap().unwrap();
    assert!(wsdl.messages().unwrap().iter().any(|m| m.node() == input.node()));
    let bop = &binding.operations().unwrap()[0];
    let pop = bop.port_operation().unwrap();
    assert_eq!(pop.name().unwrap(), bop.name().unwrap());
    assert!(port_type.operations().unwrap().iter().any(|o| o.node() == pop.node()));
}

#[test]
fn errors_name_document_nodes() {
    let doc = load(STOCK_QUOTE);
    let wsdl = Wsdl::new(&doc);
    let bindings = wsdl.bindings().unwrap();
    let errs = vec![
        bindings[1].port_type().unwrap_err(),
        bindings[0].operations().unwrap()[1].port_operation().unwrap_err(),
        wsdl.port_types().unwrap()[0].operations().unwrap()[1].input().unwrap_err(),
    ];
    for e in errs {
        assert!(e.0 .0 < doc.len());
    }
}
