use yaserde::de::{from_reader_dyn, from_reader_with_parser, Deserializer};
use yaserde::xml::{QuickXmlReader, XmlEventReader, XmlReadEvent, XmlRsReader};
use yaserde::YaDeserialize;

#[derive(Debug, PartialEq)]
struct Root {
    item: String,
}

const XML: &str = "<Root><item>a<![CDATA[b]]>c</item></Root>";

/// Reads the text of the element that starts next (empty text for an empty
/// element), consuming the element.
fn read_text_element<P: XmlEventReader>(reader: &mut Deserializer<P>) -> Result<String, String> {
    let mut value = String::deserialize(reader)?;
    let mut first = true;
    while let XmlReadEvent::Characters(text) = reader.peek()? {
        if !first {
            value.push_str(text);
        }
        first = false;
        reader.next_event()?;
    }
    match reader.next_event()? {
        XmlReadEvent::EndElement { .. } => Ok(value),
        other => Err(format!("unexpected {:?}", other)),
    }
}

/// Consumes the start tag of the root element, checking its local name.
fn expect_root<P: XmlEventReader>(reader: &mut Deserializer<P>, local: &str) -> Result<XmlReadEvent, String> {
    loop {
        match reader.next_event()? {
            event @ XmlReadEvent::StartElement { .. } => {
                if let XmlReadEvent::StartElement { name, .. } = &event {
                    if name.local_name != local {
                        return Err(format!("expected <{}>, found <{}>", local, name.local_name));
                    }
                }
                return Ok(event);
            }
            XmlReadEvent::EndDocument => return Err("no root element".to_string()),
            _ => {}
        }
    }
}

/// Visits each child element of the current element by local name; unknown
/// children are skipped. Consumes the closing tag.
fn for_each_child<P: XmlEventReader>(
    reader: &mut Deserializer<P>,
    mut visit: impl FnMut(&mut Deserializer<P>, &str) -> Result<bool, String>,
) -> Result<(), String> {
    loop {
        let next = reader.peek()?.clone();
        match next {
            XmlReadEvent::StartElement { name, .. } => {
                if !visit(reader, &name.local_name)? {
                    reader.next_event()?;
                    reader.skip_element(|_| {})?;
                }
            }
            XmlReadEvent::EndElement { .. } => {
                reader.next_event()?;
                return Ok(());
            }
            XmlReadEvent::EndDocument => return Err("unexpected end of document".to_string()),
            _ => {
                reader.next_event()?;
            }
        }
    }
}

impl YaDeserialize for Root {
    fn deserialize<P: XmlEventReader>(reader: &mut Deserializer<P>) -> Result<Self, String> {
        expect_root(reader, "Root")?;
        let mut item = String::new();
        for_each_child(reader, |r, name| {
            if name == "item" {
                item = read_text_element(r)?;
                Ok(true)
            } else {
                Ok(false)
            }
        })?;
        Ok(Root { item })
    }
}

#[test]
fn xml_rs_backend_can_be_selected_explicitly() {
    let parser = XmlRsReader::from_reader(XML.as_bytes());
    let loaded: Root = from_reader_with_parser(parser).unwrap();
    assert_eq!(loaded, Root { item: "abc".into() });
}

#[test]
fn xml_rs_backend_can_be_selected_dynamically() {
    let parser = Box::new(XmlRsReader::from_reader(XML.as_bytes()));
    let loaded: Root = from_reader_dyn(parser).unwrap();
    assert_eq!(loaded, Root { item: "abc".into() });
}

#[derive(Debug, PartialEq)]
struct NamespacedEnvelope {
    id: String,
    child: String,
}

impl YaDeserialize for NamespacedEnvelope {
    fn deserialize<P: XmlEventReader>(reader: &mut Deserializer<P>) -> Result<Self, String> {
        let start = expect_root(reader, "Envelope")?;
        let mut id = String::new();
        if let XmlReadEvent::StartElement { name, attributes, .. } = &start {
            if name.namespace.as_deref() != Some("urn:test") {
                return Err("wrong namespace".to_string());
            }
            for attribute in attributes {
                if attribute.name.local_name == "id" {
                    id = attribute.value.clone();
                }
            }
        }
        let mut child = String::new();
        for_each_child(reader, |r, name| {
            if name == "child" {
                child = read_text_element(r)?;
                Ok(true)
            } else {
                Ok(false)
            }
        })?;
        Ok(NamespacedEnvelope { id, child })
    }
}

#[derive(Debug, PartialEq)]
struct FlattenOuter {
    known: String,
    extra: FlattenExtra,
}

#[derive(Debug, PartialEq)]
struct FlattenExtra {
    other: String,
}

impl YaDeserialize for FlattenOuter {
    fn deserialize<P: XmlEventReader>(reader: &mut Deserializer<P>) -> Result<Self, String> {
        expect_root(reader, "FlattenOuter")?;
        let mut known = String::new();
        let mut other = String::new();
        for_each_child(reader, |r, name| match name {
            "known" => {
                known = read_text_element(r)?;
                Ok(true)
            }
            "other" => {
                other = read_text_element(r)?;
                Ok(true)
            }
            _ => Ok(false),
        })?;
        Ok(FlattenOuter { known, extra: FlattenExtra { other } })
    }
}

#[derive(Debug, PartialEq)]
enum Choice {
    A,
    B,
}

#[derive(Debug, PartialEq)]
struct ChoiceHolder {
    choice: Choice,
}

impl YaDeserialize for ChoiceHolder {
    fn deserialize<P: XmlEventReader>(reader: &mut Deserializer<P>) -> Result<Self, String> {
        expect_root(reader, "ChoiceHolder")?;
        let mut choice = Choice::A;
        for_each_child(reader, |r, name| {
            if name == "choice" {
                choice = match read_text_element(r)?.as_str() {
                    "B" => Choice::B,
                    _ => Choice::A,
                };
                Ok(true)
            } else {
                Ok(false)
            }
        })?;
        Ok(ChoiceHolder { choice })
    }
}

#[test]
fn quick_xml_backend_can_be_selected_explicitly() {
    let parser = QuickXmlReader::from_reader(std::io::Cursor::new(XML));
    let loaded: Root = from_reader_with_parser(parser).unwrap();
    assert_eq!(loaded, Root { item: "abc".into() });
}

fn assert_xml_rs_parity_cases() {
    let spaced = "<Root><!-- skip --><item> a <![CDATA[b]]> c </item></Root>";
    let loaded: Root = from_reader_with_parser(XmlRsReader::from_reader(spaced.as_bytes())).unwrap();
    assert_eq!(loaded, Root { item: "a b c".into() });

    let namespaced = r#"<s:Envelope xmlns:s="urn:test" id="1"><s:child>value</s:child></s:Envelope>"#;
    let loaded: NamespacedEnvelope =
        from_reader_with_parser(XmlRsReader::from_reader(namespaced.as_bytes())).unwrap();
    assert_eq!(loaded, NamespacedEnvelope { id: "1".into(), child: "value".into() });

    let flattened = "<FlattenOuter><known>k</known><other>o</other></FlattenOuter>";
    let loaded: FlattenOuter =
        from_reader_with_parser(XmlRsReader::from_reader(flattened.as_bytes())).unwrap();
    assert_eq!(loaded, FlattenOuter { known: "k".into(), extra: FlattenExtra { other: "o".into() } });

    let choice = "<ChoiceHolder><choice>B</choice></ChoiceHolder>";
    let loaded: ChoiceHolder =
        from_reader_with_parser(XmlRsReader::from_reader(choice.as_bytes())).unwrap();
    assert_eq!(loaded, ChoiceHolder { choice: Choice::B });
}

#[test]
fn xml_rs_backend_parity_cases() {
    assert_xml_rs_parity_cases();
}

#[test]
fn quick_xml_backend_parity_cases() {
    let spaced = "<Root><!-- skip --><item> a <![CDATA[b]]> c </item></Root>";
    let loaded: Root =
        from_reader_with_parser(QuickXmlReader::from_reader(std::io::Cursor::new(spaced))).unwrap();
    assert_eq!(loaded, Root { item: "a b c".into() });

    let namespaced = r#"<s:Envelope xmlns:s="urn:test" id="1"><s:child>value</s:child></s:Envelope>"#;
    let loaded: NamespacedEnvelope =
        from_reader_with_parser(QuickXmlReader::from_reader(std::io::Cursor::new(namespaced))).unwrap();
    assert_eq!(loaded, NamespacedEnvelope { id: "1".into(), child: "value".into() });

    let flattened = "<FlattenOuter><known>k</known><other>o</other></FlattenOuter>";
    let loaded: FlattenOuter =
        from_reader_with_parser(QuickXmlReader::from_reader(std::io::Cursor::new(flattened))).unwrap();
    assert_eq!(loaded, FlattenOuter { known: "k".into(), extra: FlattenExtra { other: "o".into() } });

    let choice = "<ChoiceHolder><choice>B</choice></ChoiceHolder>";
    let loaded: ChoiceHolder =
        from_reader_with_parser(QuickXmlReader::from_reader(std::io::Cursor::new(choice))).unwrap();
    assert_eq!(loaded, ChoiceHolder { choice: Choice::B });
}
