use std::io::{Cursor, Write};
use yaserde::de::Deserializer;
use yaserde::ser::Serializer;
use yaserde::xml::{XmlAttribute, XmlEventReader, XmlNamespace, XmlReadEvent, XmlRsReader};
use yaserde::{YaDeserialize, YaSerialize};

#[derive(Debug, PartialEq)]
struct Item {
    value: String,
}

impl YaDeserialize for Item {
    fn deserialize<P: XmlEventReader>(reader: &mut Deserializer<P>) -> Result<Self, String> {
        match reader.next_event()? {
            XmlReadEvent::StartElement { name, .. } if name.local_name == "item" => {}
            other => return Err(format!("unexpected {:?}", other)),
        }
        let mut value = String::new();
        loop {
            match reader.peek()?.clone() {
                XmlReadEvent::StartElement { name, .. } if name.local_name == "value" => {
                    value = reader.read_inner_value(|r| {
                        let text = match r.peek()? {
                            XmlReadEvent::Characters(text) => text.clone(),
                            _ => String::new(),
                        };
                        if !text.is_empty() {
                            r.next_event()?;
                        }
                        Ok(text)
                    })?;
                }
                XmlReadEvent::EndElement { .. } => {
                    reader.next_event()?;
                    break;
                }
                XmlReadEvent::EndDocument => return Err("unexpected end of document".to_string()),
                _ => {
                    reader.next_event()?;
                }
            }
        }
        Ok(Item { value })
    }
}

impl YaSerialize for Item {
    fn serialize<W: Write>(&self, writer: &mut Serializer<W>) -> Result<(), String> {
        let skip = writer.skip_start_end();
        if !skip {
            let label = writer.get_start_event_name().unwrap_or_else(|| "item".to_string());
            writer.set_start_event_name(None);
            writer.write_start_element(label, Vec::new(), XmlNamespace::empty())?;
        }
        writer.set_start_event_name(Some("value".to_string()));
        writer.set_skip_start_end(false);
        self.value.serialize(writer)?;
        writer.set_start_event_name(None);
        if !skip {
            writer.write_end_element()?;
        }
        Ok(())
    }

    fn serialize_attributes(
        &self,
        attributes: Vec<XmlAttribute>,
        namespace: XmlNamespace,
    ) -> Result<(Vec<XmlAttribute>, XmlNamespace), String> {
        Ok((attributes, namespace))
    }
}

#[test]
fn deserializer_new_accepts_event_reader() {
    let xml = "<item><value>hello</value></item>";
    let reader = XmlRsReader::from_reader(xml.as_bytes());
    let mut deserializer = Deserializer::new(reader);

    let item = Item::deserialize(&mut deserializer).unwrap();

    assert_eq!(item, Item { value: "hello".into() });
}

#[test]
fn serializer_new_accepts_event_writer() {
    let item = Item { value: "hello".into() };
    let buffer = Cursor::new(Vec::new());
    let writer = xml::writer::EventWriter::new(buffer);
    let mut serializer = Serializer::new(writer);

    item.serialize(&mut serializer).unwrap();

    let buffer = serializer.into_inner();
    let xml = String::from_utf8(buffer.into_inner()).unwrap();
    assert_eq!(xml, "<?xml version=\"1.0\" encoding=\"UTF-8\"?><item><value>hello</value></item>");
}
