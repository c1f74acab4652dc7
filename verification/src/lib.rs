//! Serialization and deserialization of XML, over interchangeable parser backends.
use vstd::prelude::*;
use std::io::Write;

pub mod text;
pub mod xml;
pub mod de;
pub mod ser;
pub mod primitives;

verus! {

/// A type that can be read back from XML events.
pub trait YaDeserialize: Sized {
    fn deserialize<P: xml::XmlEventReader>(reader: &mut de::Deserializer<P>) -> Result<Self, String>;
}

/// A type that can be written as XML events.
pub trait YaSerialize: Sized {
    fn serialize<W: Write>(&self, writer: &mut ser::Serializer<W>) -> Result<(), String>;

    /// Adds the attributes and namespace bindings that the value contributes
    /// to the start tag of an enclosing element.
    fn serialize_attributes(
        &self,
        attributes: Vec<xml::XmlAttribute>,
        namespace: xml::XmlNamespace,
    ) -> Result<(Vec<xml::XmlAttribute>, xml::XmlNamespace), String>;
}

} // verus!
