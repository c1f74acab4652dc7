//! Reading and writing values that are a single element with text content.
use vstd::prelude::*;
use std::io::Write;
use crate::de::{next_event_outcome, peek_outcome, peeked_value, Deserializer};
use crate::ser::Serializer;
use crate::xml::emitter::HandedEvent;
use crate::xml::name::XmlNameView;
use crate::xml::{XmlEventReader, XmlNamespace, XmlReadEvent};
use crate::{YaDeserialize, YaSerialize};

verus! {

/// The events `serialize_primitives` writes for `content` in an element named `name`.
pub open spec fn primitive_events(skip: bool, name: Seq<char>, content: Seq<char>) -> Seq<HandedEvent> {
    if skip {
        seq![HandedEvent::Characters(content)]
    } else {
        seq![
            HandedEvent::StartElement {
                name: XmlNameView { local_name: name, namespace: None, prefix: None },
                attributes: Seq::empty(),
                namespace: Map::empty(),
            },
            HandedEvent::Characters(content),
            HandedEvent::EndElement { name: None },
        ]
    }
}

/// The message `deserialize_primitives` returns when no start tag comes next.
pub open spec fn start_not_found_message() -> Seq<char> {
    "Start element not found"@
}

/// Writes `serialize_function(self_bypass)` as the text of an element named
/// after the serializer's start name, or `default_name` when it has none; with
/// the serializer set to skip start and end tags, writes the text alone.
pub fn serialize_primitives<S, W: Write>(
    self_bypass: &S,
    default_name: &str,
    writer: &mut Serializer<W>,
    serialize_function: impl FnOnce(&S) -> String,
) -> (r: Result<(), String>)
    requires
        call_requires(serialize_function, (self_bypass,)),
    ensures
        final(writer).skips_start_end() == old(writer).skips_start_end(),
        final(writer).start_name() == old(writer).start_name(),
        r is Ok ==> exists|content: String|
            call_ensures(serialize_function, (self_bypass,), content) && final(writer).emitted()
                == old(writer).emitted() + primitive_events(
                old(writer).skips_start_end(),
                match old(writer).start_name() {
                    Some(n) => n,
                    None => default_name@,
                },
                content@,
            ),
{
    let ghost start = writer.emitted();
    let name = match writer.get_start_event_name() {
        Some(name) => name,
        None => default_name.to_owned(),
    };
    let skip = writer.skip_start_end();
    if !skip {
        let attributes: Vec<crate::xml::XmlAttribute> = Vec::new();
        assert(crate::xml::name::attributes_view(attributes@) =~= Seq::empty());
        writer.write_start_element(&name, attributes, XmlNamespace::empty())?;
    }
    let content = serialize_function(self_bypass);
    writer.write_characters(content.as_str())?;
    if !skip {
        writer.write_end_element()?;
    }
    if skip {
        assert(writer.emitted() =~= start + primitive_events(skip, name@, content@));
    } else {
        assert(writer.emitted() =~= start + primitive_events(skip, name@, content@));
    }
    Ok(())
}

/// Consumes a start tag and hands the text that follows it (or the empty text
/// when no text follows) to `deserialize_function`; the text itself is left
/// unconsumed.
pub fn deserialize_primitives<S, P: XmlEventReader>(
    reader: &mut Deserializer<P>,
    deserialize_function: impl FnOnce(&str) -> Result<S, String>,
) -> (r: Result<S, String>)
    requires
        forall|t: &str| call_requires(deserialize_function, (t,)),
    ensures
        (old(reader).pending() matches Some(p) && !(p is StartElement)) ==> (r matches Err(m) && m@
            == start_not_found_message() && final(reader).pending() == old(reader).pending()),
        final(reader).consumed().len() <= old(reader).consumed().len() + 1,
        old(reader).pending() is None ==> final(reader).reads() > old(reader).reads(),
        (old(reader).pending() matches Some(p) && p is StartElement && crate::de::depth_step_fits(
            old(reader).current_depth(),
            p@,
        )) ==> final(reader).consumed().len() == old(reader).consumed().len() + 1,
        r is Ok ==> final(reader).consumed().len() == old(reader).consumed().len() + 1,
        final(reader).consumed().take(old(reader).consumed().len() as int) == old(reader).consumed(),
        final(reader).consumed().len() == old(reader).consumed().len() ==> {
            &&& r is Err
            &&& final(reader).current_depth() == old(reader).current_depth()
            &&& match final(reader).pending() {
                Some(p) => !(p is StartElement) ==> (r matches Err(m) && m@ == start_not_found_message()),
                None => true,
            }
        },
        final(reader).consumed().len() == old(reader).consumed().len() + 1 ==> {
            &&& final(reader).consumed().last() is StartElement
            &&& final(reader).current_depth() == old(reader).current_depth() + 1
            &&& exists|t: &str| {
                &&& call_ensures(deserialize_function, (t,), r)
                &&& match final(reader).pending() {
                    Some(XmlReadEvent::Characters(text)) => t@ == text@,
                    _ => t@ == ""@,
                }
            }
        },
        exists|d1: Deserializer<P>, p1: Result<XmlReadEvent, String>|
            {
                &&& #[trigger] peek_outcome(*old(reader), d1, p1)
                &&& if p1 matches Ok(XmlReadEvent::StartElement { .. }) {
                    exists|d2: Deserializer<P>, e: Result<XmlReadEvent, String>|
                        {
                            &&& #[trigger] next_event_outcome(d1, d2, e)
                            &&& match e {
                                Err(m) => r == Err::<S, String>(m) && *final(reader) == d2,
                                Ok(_) => exists|p2: Result<XmlReadEvent, String>, t: &str|
                                    #![trigger peek_outcome(d2, *final(reader), p2), call_ensures(deserialize_function, (t,), r)]
                                    {
                                        &&& peek_outcome(d2, *final(reader), p2)
                                        &&& call_ensures(deserialize_function, (t,), r)
                                        &&& match p2 {
                                            Ok(XmlReadEvent::Characters(text)) => t@ == text@,
                                            _ => t@ == ""@,
                                        }
                                    },
                            }
                        }
                } else {
                    r matches Err(m) && m@ == start_not_found_message() && *final(reader) == d1
                }
            },
{
    let peeked = reader.peek();
    let ghost p1 = peeked_value(peeked);
    let is_start = match peeked {
        Ok(XmlReadEvent::StartElement { .. }) => true,
        _ => false,
    };
    let ghost d1 = *reader;
    assert(peek_outcome(*old(reader), d1, p1));
    if !is_start {
        return Err("Start element not found".to_owned());
    }
    let consumed = reader.next_event();
    let ghost d2 = *reader;
    assert(next_event_outcome(d1, d2, consumed));
    consumed?;
    let peeked = reader.peek();
    let ghost p2 = peeked_value(peeked);
    match peeked {
        Ok(XmlReadEvent::Characters(text)) => deserialize_function(text.as_str()),
        _ => deserialize_function(""),
    }
}

impl YaSerialize for String {
    /// Writes the string as the text of an element named after the
    /// serializer's start name, or `String` when it has none.
    fn serialize<W: Write>(&self, writer: &mut Serializer<W>) -> (r: Result<(), String>)
        ensures
            final(writer).skips_start_end() == old(writer).skips_start_end(),
            final(writer).start_name() == old(writer).start_name(),
            r is Ok ==> final(writer).emitted() == old(writer).emitted() + primitive_events(
                old(writer).skips_start_end(),
                match old(writer).start_name() {
                    Some(n) => n,
                    None => "String"@,
                },
                self@,
            ),
    {
        serialize_primitives(self, "String", writer, |content: &String| -> (s: String)
            ensures
                s@ == content@,
            { content.clone() })
    }

    /// A string adds no attributes and no namespace bindings: both come back
    /// as they were given.
    fn serialize_attributes(
        &self,
        attributes: Vec<crate::xml::XmlAttribute>,
        namespace: XmlNamespace,
    ) -> (r: Result<(Vec<crate::xml::XmlAttribute>, XmlNamespace), String>)
        ensures
            r == Ok::<(Vec<crate::xml::XmlAttribute>, XmlNamespace), String>((attributes, namespace)),
    {
        Ok((attributes, namespace))
    }
}

impl YaDeserialize for String {
    /// Consumes a start tag and returns the text that follows it, or the
    /// empty string where no text follows; the text stays unconsumed.
    fn deserialize<P: XmlEventReader>(reader: &mut Deserializer<P>) -> (r: Result<Self, String>)
        ensures
            (old(reader).pending() matches Some(p) && !(p is StartElement)) ==> (r matches Err(m) && m@
                == start_not_found_message()),
            r matches Ok(s) ==> match final(reader).pending() {
                Some(XmlReadEvent::Characters(text)) => s@ == text@,
                _ => s@ == ""@,
            },
            exists|d1: Deserializer<P>, p1: Result<XmlReadEvent, String>|
                {
                    &&& #[trigger] peek_outcome(*old(reader), d1, p1)
                    &&& if p1 matches Ok(XmlReadEvent::StartElement { .. }) {
                        exists|d2: Deserializer<P>, e: Result<XmlReadEvent, String>|
                            {
                                &&& #[trigger] next_event_outcome(d1, d2, e)
                                &&& match e {
                                    Err(m) => r == Err::<String, String>(m) && *final(reader) == d2,
                                    Ok(_) => exists|p2: Result<XmlReadEvent, String>|
                                        {
                                            &&& #[trigger] peek_outcome(d2, *final(reader), p2)
                                            &&& r matches Ok(s) && s@ == match p2 {
                                                Ok(XmlReadEvent::Characters(text)) => text@,
                                                _ => ""@,
                                            }
                                        },
                                }
                            }
                    } else {
                        r matches Err(m) && m@ == start_not_found_message() && *final(reader) == d1
                    }
                },
    {
        deserialize_primitives(reader, |text: &str| -> (r: Result<String, String>)
            ensures
                r matches Ok(s) && s@ == text@,
            { Ok(text.to_owned()) })
    }
}

} // verus!
