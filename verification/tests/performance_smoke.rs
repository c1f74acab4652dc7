use yaserde::de::{from_str, Deserializer};
use yaserde::xml::{XmlEventReader, XmlReadEvent};
use yaserde::YaDeserialize;

#[derive(Debug, PartialEq)]
struct Items {
    item: Vec<String>,
}

impl YaDeserialize for Items {
    fn deserialize<P: XmlEventReader>(reader: &mut Deserializer<P>) -> Result<Self, String> {
        match reader.next_event()? {
            XmlReadEvent::StartElement { name, .. } if name.local_name == "Items" => {}
            other => return Err(format!("unexpected {:?}", other)),
        }
        let mut item = Vec::new();
        loop {
            match reader.peek()?.clone() {
                XmlReadEvent::StartElement { name, .. } if name.local_name == "item" => {
                    let value = String::deserialize(reader)?;
                    if let XmlReadEvent::Characters(_) = reader.peek()? {
                        reader.next_event()?;
                    }
                    reader.next_event()?;
                    item.push(value);
                }
                XmlReadEvent::EndElement { .. } => {
                    reader.next_event()?;
                    break;
                }
                XmlReadEvent::EndDocument => return Err("unexpected end of document".to_string()),
                _ => {
                    reader.next_event()?;
                }
            }
        }
        Ok(Items { item })
    }
}

#[test]
fn large_document_deserialization_smoke() {
    let mut xml = String::from("<Items>");
    for idx in 0..512 {
        xml.push_str("<item>");
        xml.push_str(&idx.to_string());
        xml.push_str("</item>");
    }
    xml.push_str("</Items>");

    let loaded: Items = from_str(&xml).unwrap();
    assert_eq!(loaded.item.len(), 512);
    assert_eq!(loaded.item[0], "0");
    assert_eq!(loaded.item[511], "511");
}
