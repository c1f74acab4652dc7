use yaserde::xml::quick::{decompose_qname, map_quick_error_text};
use yaserde::xml::{QuickXmlReader, XmlEventReader, XmlLightEvent, XmlReadEvent};

fn reader(xml: &'static str) -> QuickXmlReader<&'static [u8]> {
    QuickXmlReader::from_reader(xml.as_bytes())
}

fn start_local(event: &XmlReadEvent) -> Option<String> {
    match event {
        XmlReadEvent::StartElement { name, .. } => Some(name.local_name.clone()),
        _ => None,
    }
}

fn end_local(event: &XmlReadEvent) -> Option<String> {
    match event {
        XmlReadEvent::EndElement { name } => Some(name.local_name.clone()),
        _ => None,
    }
}

#[test]
fn quick_peek_twice_gives_the_same_event() {
    let mut r = reader("<a><b/></a>");
    let first = r.peek_light_event().unwrap();
    let second = r.peek_light_event().unwrap();
    assert_eq!(first, second);
    assert_eq!(
        first,
        XmlLightEvent::StartElement { local_name: "a".into(), namespace: None }
    );
}

#[test]
fn quick_peek_then_next_light_consumes_the_peeked_event() {
    let mut r = reader("<a>text</a>");
    let peeked = r.peek_light_event().unwrap();
    let next = r.next_light_event().unwrap();
    assert_eq!(peeked, next);
    assert_eq!(r.next_light_event().unwrap(), XmlLightEvent::Characters("text".into()));
}

#[test]
fn quick_peek_then_next_event_gives_the_full_event() {
    let mut r = reader(r#"<a x="1">t</a>"#);
    assert!(r.supports_light_events());
    let peeked = r.peek_light_event().unwrap();
    let next = r.next_event().unwrap();
    assert_eq!(XmlLightEvent::from(&next), peeked);
    match next {
        XmlReadEvent::StartElement { attributes, .. } => {
            assert_eq!(attributes.len(), 1);
            assert_eq!(attributes[0].name.local_name, "x");
            assert_eq!(attributes[0].value, "1");
        }
        other => panic!("unexpected {:?}", other),
    }
}

#[test]
fn quick_self_closing_element_gives_start_then_end() {
    let mut r = reader("<root><leaf/></root>");
    assert_eq!(start_local(&r.next_event().unwrap()), Some("root".into()));
    assert_eq!(start_local(&r.next_event().unwrap()), Some("leaf".into()));
    assert_eq!(end_local(&r.next_event().unwrap()), Some("leaf".into()));
    assert_eq!(end_local(&r.next_event().unwrap()), Some("root".into()));
}

#[test]
fn quick_end_document_repeats() {
    let mut r = reader("<root/>");
    r.next_event().unwrap();
    r.next_event().unwrap();
    assert_eq!(r.next_event().unwrap(), XmlReadEvent::EndDocument);
    assert_eq!(r.next_event().unwrap(), XmlReadEvent::EndDocument);
    assert_eq!(r.next_light_event().unwrap(), XmlLightEvent::EndDocument);
}

#[test]
fn quick_document_without_root_is_refused() {
    let mut r = reader("<!-- nothing -->");
    let err = r.next_event().unwrap_err();
    assert_eq!(err, "Unexpected end of stream: no root element found");
    let again = r.next_event().unwrap_err();
    assert_eq!(again, "Unexpected end of stream: no root element found");
}

#[test]
fn quick_skips_comments_and_white_space_and_trims_text() {
    let mut r = reader("<?xml version=\"1.0\"?><a>\n  <!-- c -->\n  <b>  x y  </b>\n</a>");
    assert_eq!(start_local(&r.next_event().unwrap()), Some("a".into()));
    assert_eq!(start_local(&r.next_event().unwrap()), Some("b".into()));
    assert_eq!(r.next_event().unwrap(), XmlReadEvent::Characters("x y".into()));
    assert_eq!(end_local(&r.next_event().unwrap()), Some("b".into()));
    assert_eq!(end_local(&r.next_event().unwrap()), Some("a".into()));
}

#[test]
fn quick_cdata_is_reported_as_characters() {
    let mut r = reader("<a><![CDATA[ <raw> ]]></a>");
    r.next_event().unwrap();
    assert_eq!(r.next_event().unwrap(), XmlReadEvent::Characters("<raw>".into()));
}

#[test]
fn quick_adjacent_text_and_cdata_are_one_event() {
    let mut r = reader("<a> x <![CDATA[y]]><!-- c --> z </a>");
    r.next_event().unwrap();
    assert_eq!(r.next_event().unwrap(), XmlReadEvent::Characters("x y z".into()));
    assert_eq!(end_local(&r.next_event().unwrap()), Some("a".into()));
}

#[test]
fn quick_text_before_a_self_closing_element() {
    let mut r = reader("<a>t<b/></a>");
    r.next_event().unwrap();
    assert_eq!(r.next_event().unwrap(), XmlReadEvent::Characters("t".into()));
    assert_eq!(start_local(&r.next_event().unwrap()), Some("b".into()));
    assert_eq!(end_local(&r.next_event().unwrap()), Some("b".into()));
    assert_eq!(end_local(&r.next_event().unwrap()), Some("a".into()));
    assert_eq!(r.next_event().unwrap(), XmlReadEvent::EndDocument);
}

#[test]
fn quick_namespaces_are_resolved() {
    let mut r = reader(r#"<s:Envelope xmlns:s="urn:test" s:id="1"/>"#);
    match r.next_event().unwrap() {
        XmlReadEvent::StartElement { name, attributes, namespace } => {
            assert_eq!(name.local_name, "Envelope");
            assert_eq!(name.prefix.as_deref(), Some("s"));
            assert_eq!(name.namespace.as_deref(), Some("urn:test"));
            assert_eq!(attributes.len(), 1);
            assert_eq!(attributes[0].name.local_name, "id");
            assert_eq!(attributes[0].name.namespace.as_deref(), Some("urn:test"));
            assert_eq!(namespace.get("s").map(|u| u.as_str()), Some("urn:test"));
        }
        other => panic!("unexpected {:?}", other),
    }
}

#[test]
fn quick_unknown_prefix_is_refused() {
    let mut r = reader("<p:a/>");
    assert_eq!(r.next_event().unwrap_err(), "unknown namespace prefix p");
}

#[test]
fn quick_mismatched_closing_tag_is_refused() {
    let mut r = reader("<a><b></c></a>");
    r.next_event().unwrap();
    r.next_event().unwrap();
    assert_eq!(r.next_event().unwrap_err(), "Unexpected closing tag: c != b");
}

#[test]
fn quick_peek_attributes_leaves_the_event() {
    let mut r = reader(r#"<a k="v"><b/></a>"#);
    let attributes = r.peek_attributes().unwrap().unwrap();
    assert_eq!(attributes.len(), 1);
    assert_eq!(attributes[0].value, "v");
    assert_eq!(start_local(&r.next_event().unwrap()), Some("a".into()));
    r.next_event().unwrap();
    r.next_event().unwrap();
    assert_eq!(r.peek_attributes().unwrap(), None);
}

#[test]
fn quick_read_inner_text_returns_text_and_leaves_end_tag() {
    let mut r = reader("<root><tag>hello</tag></root>");
    r.next_event().unwrap();
    r.peek_light_event().unwrap();
    assert_eq!(r.read_inner_text().unwrap(), Some("hello".to_string()));
    assert_eq!(
        r.peek_light_event().unwrap(),
        XmlLightEvent::EndElement { local_name: "tag".into() }
    );
    assert_eq!(end_local(&r.next_event().unwrap()), Some("tag".into()));
    assert_eq!(end_local(&r.next_event().unwrap()), Some("root".into()));
}

#[test]
fn quick_read_inner_text_joins_text_and_cdata() {
    let mut r = reader("<tag>a<![CDATA[b]]>c</tag>");
    assert_eq!(r.read_inner_text().unwrap(), Some("abc".to_string()));
}

#[test]
fn quick_read_inner_text_of_empty_element_is_none() {
    let mut r = reader("<root><tag></tag><other/></root>");
    r.next_event().unwrap();
    assert_eq!(r.read_inner_text().unwrap(), None);
    assert_eq!(end_local(&r.next_event().unwrap()), Some("tag".into()));
    assert_eq!(start_local(&r.next_event().unwrap()), Some("other".into()));
}

#[test]
fn quick_read_inner_text_of_self_closing_element_is_none() {
    let mut r = reader("<tag/>");
    assert_eq!(r.read_inner_text().unwrap(), None);
    assert_eq!(end_local(&r.next_event().unwrap()), Some("tag".into()));
}

#[test]
fn quick_read_inner_text_refuses_child_elements() {
    let mut r = reader("<tag><child/>x</tag>");
    assert_eq!(r.read_inner_text().unwrap_err(), "Expected text content in <tag>");
    assert_eq!(start_local(&r.next_event().unwrap()), Some("child".into()));
}

#[test]
fn quick_read_inner_text_needs_a_start_tag() {
    let mut r = reader("<a>x</a>");
    r.next_event().unwrap();
    r.peek_light_event().unwrap();
    assert_eq!(r.read_inner_text().unwrap_err(), "Internal error: expected StartElement");
    assert_eq!(r.next_event().unwrap(), XmlReadEvent::Characters("x".into()));
}

#[test]
fn closing_tag_message_is_rewritten() {
    assert_eq!(
        map_quick_error_text("ill-formed document: expected `</b>`, but `</c>` was found".to_string()),
        "Unexpected closing tag: c != b"
    );
    assert_eq!(map_quick_error_text("some other error".to_string()), "some other error");
    assert_eq!(
        map_quick_error_text("ill-formed document: expected `</b>` only".to_string()),
        "ill-formed document: expected `</b>` only"
    );
}

#[test]
fn qualified_names_split_at_the_first_colon() {
    let (local, prefix) = decompose_qname(&b"s:a:b".to_vec());
    assert_eq!(local, b"a:b".to_vec());
    assert_eq!(prefix, Some(b"s".to_vec()));
    let (local, prefix) = decompose_qname(&b"plain".to_vec());
    assert_eq!(local, b"plain".to_vec());
    assert_eq!(prefix, None);
}
