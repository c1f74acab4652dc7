use yaserde::YaSerialize;
use std::io::Cursor;
use yaserde::de::{from_reader_with_parser, inner_value_start, Deserializer};
use yaserde::primitives::deserialize_primitives;
use yaserde::ser::{to_string, to_string_content, writer_after, Config, Serializer};
use yaserde::text::{
    char_is_whitespace, find_chars, split_once_chars, strip_prefix_text, trim_end_char_text, trim_text,
};
use yaserde::xml::{
    XmlAttribute, XmlEventReader, XmlLightEvent, XmlName, XmlNamespace, XmlReadEvent, XmlRsReader,
};

/// A reader that hands out a fixed list of events, then the end of the document.
struct Scripted {
    events: Vec<XmlReadEvent>,
}

impl Scripted {
    fn new(mut events: Vec<XmlReadEvent>) -> Self {
        events.reverse();
        Scripted { events }
    }
}

impl XmlEventReader for Scripted {
    fn next_event(&mut self) -> Result<XmlReadEvent, String> {
        Ok(self.events.pop().unwrap_or(XmlReadEvent::EndDocument))
    }
}

fn start(local: &str) -> XmlReadEvent {
    XmlReadEvent::StartElement {
        name: XmlName::local(local),
        attributes: Vec::new(),
        namespace: XmlNamespace::empty(),
    }
}

fn end(local: &str) -> XmlReadEvent {
    XmlReadEvent::EndElement { name: XmlName::local(local) }
}

#[test]
fn xml_name_constructors_and_accessors() {
    let plain = XmlName::local("a");
    assert_eq!(plain.local_name, "a");
    assert_eq!(plain.prefix_ref(), None);
    assert_eq!(plain.namespace_ref(), None);
    let qualified = XmlName::qualified("b", "urn:x", Some("x"));
    assert_eq!(qualified.local_name, "b");
    assert_eq!(qualified.prefix_ref(), Some("x"));
    assert_eq!(qualified.namespace_ref(), Some("urn:x"));
    let unprefixed = XmlName::qualified("c", "urn:y", None::<&str>);
    assert_eq!(unprefixed.prefix_ref(), None);
    assert_eq!(unprefixed.namespace_ref(), Some("urn:y"));
    assert_ne!(plain, qualified);
    assert_eq!(plain.clone(), XmlName::local("a".to_string()));
    let attribute = XmlAttribute::new(XmlName::local("k"), "v");
    assert_eq!(attribute.value, "v");
    assert_eq!(attribute.name, XmlName::local("k"));
}

#[test]
fn namespace_put_reports_new_prefixes_only_once() {
    let mut ns = XmlNamespace::empty();
    assert!(ns.is_empty());
    assert!(ns.put("a", "urn:1"));
    assert!(!ns.put("a", "urn:2"));
    assert_eq!(ns.get("a").map(|u| u.as_str()), Some("urn:2"));
    assert!(!ns.is_empty());
}

#[test]
fn namespace_force_put_returns_the_previous_uri() {
    let mut ns = XmlNamespace::empty();
    assert_eq!(ns.force_put("p", "urn:1"), None);
    assert_eq!(ns.force_put("p", "urn:2"), Some("urn:1".to_string()));
    assert_eq!(ns.get("p").map(|u| u.as_str()), Some("urn:2"));
    assert_eq!(ns.get("q"), None);
}

#[test]
fn namespace_extend_prefers_the_other_mapping() {
    let mut ns = XmlNamespace::empty();
    ns.put("a", "urn:1");
    ns.put("b", "urn:2");
    let mut other = XmlNamespace::empty();
    other.put("b", "urn:3");
    other.put("c", "urn:4");
    ns.extend(&other);
    assert_eq!(ns.get("a").map(|u| u.as_str()), Some("urn:1"));
    assert_eq!(ns.get("b").map(|u| u.as_str()), Some("urn:3"));
    assert_eq!(ns.get("c").map(|u| u.as_str()), Some("urn:4"));
    let before = ns.clone();
    ns.extend(&XmlNamespace::empty());
    assert_eq!(ns, before);
}

#[test]
fn namespace_equality_ignores_binding_order() {
    let mut one = XmlNamespace::empty();
    one.put("a", "urn:1");
    one.put("b", "urn:2");
    let mut two = XmlNamespace::default();
    two.put("b", "urn:2");
    two.put("a", "urn:1");
    assert_eq!(one, two);
    two.put("a", "urn:9");
    assert_ne!(one, two);
}

#[test]
fn light_event_keeps_local_name_and_namespace() {
    let event = XmlReadEvent::StartElement {
        name: XmlName::qualified("n", "urn:z", Some("z")),
        attributes: vec![XmlAttribute::new(XmlName::local("k"), "v")],
        namespace: XmlNamespace::empty(),
    };
    assert_eq!(
        XmlLightEvent::from(&event),
        XmlLightEvent::StartElement { local_name: "n".into(), namespace: Some("urn:z".into()) }
    );
    assert_eq!(XmlLightEvent::from(&end("e")), XmlLightEvent::EndElement { local_name: "e".into() });
    assert_eq!(XmlLightEvent::from(&XmlReadEvent::EndDocument), XmlLightEvent::EndDocument);
}

#[test]
fn default_reader_methods_report_no_support() {
    let mut r = Scripted::new(vec![start("a")]);
    assert!(!r.supports_light_events());
    assert_eq!(
        r.peek_light_event().unwrap_err(),
        "light events are not supported by this backend"
    );
    assert_eq!(
        r.peek_attributes().unwrap_err(),
        "attribute peeking is not supported by this backend"
    );
    assert_eq!(
        r.read_inner_text().unwrap_err(),
        "inner text fast path is not supported by this backend"
    );
    assert_eq!(
        r.next_light_event().unwrap(),
        XmlLightEvent::StartElement { local_name: "a".into(), namespace: None }
    );
}

#[test]
fn deserializer_tracks_depth() {
    let mut d = Deserializer::new(Scripted::new(vec![start("a"), start("b"), end("b"), end("a")]));
    assert_eq!(d.depth(), 0);
    d.next_event().unwrap();
    assert_eq!(d.depth(), 1);
    assert_eq!(d.peek().unwrap(), &start("b"));
    assert_eq!(d.depth(), 1);
    d.next_event().unwrap();
    assert_eq!(d.depth(), 2);
    d.next_event().unwrap();
    d.next_event().unwrap();
    assert_eq!(d.depth(), 0);
}

#[test]
fn deserializer_refuses_unbalanced_end_tag() {
    let mut d = Deserializer::new(Scripted::new(vec![end("a")]));
    assert_eq!(d.next_event().unwrap_err(), "End tag </a> closes no open element");
    assert_eq!(d.depth(), 0);
}

#[test]
fn deserializer_skip_element_consumes_the_rest_of_the_element() {
    let mut d = Deserializer::new(Scripted::new(vec![
        start("a"),
        start("b"),
        XmlReadEvent::Characters("x".into()),
        end("b"),
        end("a"),
        start("c"),
    ]));
    d.next_event().unwrap();
    let mut seen = 0;
    d.skip_element(|_| seen += 1).unwrap();
    assert_eq!(seen, 4);
    assert_eq!(d.depth(), 0);
    assert_eq!(d.next_event().unwrap(), start("c"));
}

#[test]
fn deserializer_expect_end_element_messages() {
    let mut d = Deserializer::new(Scripted::new(vec![start("a"), end("b")]));
    d.next_event().unwrap();
    assert_eq!(
        d.expect_end_element(&XmlName::local("a")).unwrap_err(),
        "End tag </b> didn't match the start tag <a>"
    );
    let mut d = Deserializer::new(Scripted::new(vec![start("a"), XmlReadEvent::Characters("t".into())]));
    d.next_event().unwrap();
    assert_eq!(d.expect_end_element(&XmlName::local("a")).unwrap_err(), "Unexpected token </a>");
    let mut d = Deserializer::new(Scripted::new(vec![start("a"), end("a")]));
    d.next_event().unwrap();
    d.expect_end_element(&XmlName::local("a")).unwrap();
    assert_eq!(d.depth(), 0);
}

#[test]
fn deserializer_read_inner_value_needs_a_start_tag() {
    let mut d = Deserializer::new(Scripted::new(vec![XmlReadEvent::Characters("t".into())]));
    let r: Result<(), String> = d.read_inner_value(|_| Ok(()));
    assert_eq!(r.unwrap_err(), "Internal error: Bad Event");
    let mut d = Deserializer::new(Scripted::new(vec![start("a"), end("a")]));
    let r: Result<u8, String> = d.read_inner_value(|_| Ok(7));
    assert_eq!(r.unwrap(), 7);
    assert_eq!(d.depth(), 0);
}

#[test]
fn deserialize_primitives_reads_the_text_after_the_start_tag() {
    let mut d = Deserializer::new(Scripted::new(vec![
        start("n"),
        XmlReadEvent::Characters("42".into()),
        end("n"),
    ]));
    let r: Result<u32, String> = deserialize_primitives(&mut d, |t: &str| t.parse::<u32>().map_err(|e| e.to_string()));
    assert_eq!(r.unwrap(), 42);
    let mut d = Deserializer::new(Scripted::new(vec![start("n"), end("n")]));
    let r: Result<String, String> = deserialize_primitives(&mut d, |t: &str| Ok(t.to_string()));
    assert_eq!(r.unwrap(), "");
    let mut d = Deserializer::new(Scripted::new(vec![end("n")]));
    let r: Result<String, String> = deserialize_primitives(&mut d, |t: &str| Ok(t.to_string()));
    assert_eq!(r.unwrap_err(), "Start element not found");
}

#[test]
fn string_round_trips_through_xml_rs() {
    let xml = to_string(&"a < b".to_string()).unwrap();
    assert_eq!(xml, r#"<?xml version="1.0" encoding="UTF-8"?><String>a &lt; b</String>"#);
    let back: String = from_reader_with_parser(XmlRsReader::from_reader(xml.as_bytes())).unwrap();
    assert_eq!(back, "a < b");
    assert_eq!(to_string_content(&"t".to_string()).unwrap(), "t");
}

#[test]
fn serializer_settings_round_trip() {
    let config = Config::default();
    assert!(!config.perform_indent);
    assert!(config.write_document_declaration);
    assert_eq!(config.indent_string, None);
    let mut s = Serializer::new_from_writer(Cursor::new(Vec::new()), &config);
    assert!(!s.skip_start_end());
    assert_eq!(s.get_start_event_name(), None);
    s.set_start_event_name(Some("x".to_string()));
    s.set_skip_start_end(true);
    assert_eq!(s.get_start_event_name(), Some("x".to_string()));
    assert!(s.skip_start_end());
    s.write_start_element("x", Vec::new(), XmlNamespace::empty()).unwrap();
    s.write_characters("text").unwrap();
    s.write_end_element().unwrap();
    let bytes = s.into_inner().into_inner();
    assert_eq!(String::from_utf8(bytes).unwrap(), r#"<?xml version="1.0" encoding="UTF-8"?><x>text</x>"#);
}

#[test]
fn text_helpers() {
    assert_eq!(trim_text(" \t a b \n"), "a b");
    assert_eq!(trim_text("   "), "");
    assert_eq!(strip_prefix_text("prefix-rest", "prefix-"), Some("rest".to_string()));
    assert_eq!(strip_prefix_text("rest", "prefix-"), None);
    assert_eq!(trim_end_char_text("name>>", '>'), "name");
    let s: Vec<char> = "a, b, c".chars().collect();
    let p: Vec<char> = ", ".chars().collect();
    assert_eq!(find_chars(&s, &p), Some(1));
    assert_eq!(split_once_chars(&s, &p), Some(("a".to_string(), "b, c".to_string())));
    let q: Vec<char> = ";".chars().collect();
    assert_eq!(split_once_chars(&s, &q), None);
}


#[test]
fn read_events_write_back_through_xml_rs() {
    let mut writer = xml::writer::EmitterConfig::new()
        .write_document_declaration(false)
        .create_writer(Vec::new());
    let events = vec![
        XmlReadEvent::StartElement {
            name: XmlName::local("a"),
            attributes: vec![XmlAttribute::new(XmlName::local("k"), "v")],
            namespace: XmlNamespace::empty(),
        },
        XmlReadEvent::Characters("x & y".into()),
        end("a"),
        XmlReadEvent::EndDocument,
    ];
    for event in &events {
        event.write_to_xml_rs(&mut writer).unwrap();
    }
    let out = String::from_utf8(writer.into_inner()).unwrap();
    assert_eq!(out, r#"<a k="v">x &amp; y</a>"#);
}

#[test]
fn xml_name_text_has_its_prefix() {
    assert_eq!(XmlName::qualified("Envelope", "urn:s", Some("s")).to_string(), "s:Envelope");
    assert_eq!(XmlName::local("item").to_string(), "item");
    assert_eq!(XmlName::qualified("x", "urn:n", None::<String>).to_string(), "x");
}

#[test]
fn string_adds_no_attributes() {
    let mut ns = XmlNamespace::empty();
    ns.put("p", "urn:p");
    let attributes = vec![XmlAttribute::new(XmlName::local("k"), "v")];
    let (a, n) = "x".to_string().serialize_attributes(attributes.clone(), ns.clone()).unwrap();
    assert_eq!(a, attributes);
    assert_eq!(n, ns);
}

#[test]
fn skip_element_at_an_end_tag_closes_the_element() {
    let mut d = Deserializer::new(Scripted::new(vec![start("a"), end("a")]));
    d.next_event().unwrap();
    d.peek().unwrap();
    d.skip_element(|_| {}).unwrap();
    assert_eq!(d.depth(), 0);
}

#[test]
fn inner_value_start_takes_only_a_start_tag() {
    assert_eq!(inner_value_start(Ok(start("a"))).unwrap(), XmlName::local("a"));
    assert_eq!(inner_value_start(Ok(end("a"))).unwrap_err(), "Internal error: Bad Event");
    assert_eq!(
        inner_value_start(Ok(XmlReadEvent::Characters("t".into()))).unwrap_err(),
        "Internal error: Bad Event"
    );
    assert_eq!(inner_value_start(Err("broken".to_string())).unwrap_err(), "Internal error: Bad Event");
}

#[test]
fn read_inner_value_returns_the_closure_value_from_xml_rs() {
    let mut d = Deserializer::new(XmlRsReader::from_reader("<a>x</a>".as_bytes()));
    let r = d.read_inner_value(|d| match d.next_event()? {
        XmlReadEvent::Characters(s) => Ok(s),
        _ => Err("no text".to_string()),
    });
    assert_eq!(r.unwrap(), "x");
    assert_eq!(d.depth(), 0);
}

#[test]
fn read_inner_value_refuses_a_mismatched_end_tag() {
    let mut d = Deserializer::new(Scripted::new(vec![start("a"), end("b")]));
    let r: Result<u8, String> = d.read_inner_value(|_| Ok(1));
    assert_eq!(r.unwrap_err(), "End tag </b> didn't match the start tag <a>");
}

#[test]
fn white_space_is_the_unicode_set() {
    for u in 0u32..0x3100 {
        if let Some(c) = char::from_u32(u) {
            assert_eq!(char_is_whitespace(c), c.is_whitespace(), "U+{:04X}", u);
        }
    }
    for c in ['\u{FEFF}', '\u{200B}', '\u{180E}', 'a', '\u{10FFFF}'] {
        assert_eq!(char_is_whitespace(c), c.is_whitespace());
    }
    assert_eq!(trim_text("\u{3000}\u{85}a b\u{2029}\u{A0}"), "a b");
}

#[test]
fn writer_after_passes_the_model_error_through() {
    let s = Serializer::new_for_inner(Vec::new());
    assert_eq!(writer_after(s, Err("model refused".to_string())).unwrap_err(), "model refused");
    let mut s = Serializer::new_for_inner(Vec::new());
    s.write_start_element("a", Vec::new(), XmlNamespace::empty()).unwrap();
    s.write_end_element().unwrap();
    let bytes = writer_after(s, Ok(())).unwrap();
    assert_eq!(String::from_utf8(bytes).unwrap(), "<a />");
}

#[test]
fn default_next_light_event_is_the_light_form_of_next_event() {
    let mut r = Scripted::new(vec![start("a"), XmlReadEvent::Characters("t".into()), end("a")]);
    assert_eq!(
        r.next_light_event().unwrap(),
        XmlLightEvent::StartElement { local_name: "a".to_string(), namespace: None }
    );
    assert_eq!(r.next_light_event().unwrap(), XmlLightEvent::Characters("t".to_string()));
    assert_eq!(r.next_light_event().unwrap(), XmlLightEvent::EndElement { local_name: "a".to_string() });
    assert_eq!(r.next_light_event().unwrap(), XmlLightEvent::EndDocument);
}

#[test]
fn deserialize_primitives_refuses_a_failed_read() {
    struct Failing;
    impl XmlEventReader for Failing {
        fn next_event(&mut self) -> Result<XmlReadEvent, String> {
            Err("broken input".to_string())
        }
    }
    let mut d = Deserializer::new(Failing);
    let r: Result<String, String> = deserialize_primitives(&mut d, |t: &str| Ok(t.to_string()));
    assert_eq!(r.unwrap_err(), "Start element not found");
    let mut d = Deserializer::new(Failing);
    let r: Result<u8, String> = d.read_inner_value(|_| Ok(1));
    assert_eq!(r.unwrap_err(), "Internal error: Bad Event");
}

#[test]
fn read_inner_value_passes_the_closure_error_through() {
    let mut d = Deserializer::new(Scripted::new(vec![start("a"), end("a")]));
    let r: Result<u8, String> = d.read_inner_value(|d| {
        assert_eq!(d.depth(), 1);
        Err("closure refused".to_string())
    });
    assert_eq!(r.unwrap_err(), "closure refused");
    assert_eq!(d.depth(), 1);
}
