//! The `xml-rs` event reader, with the record of every event it has given.
//! Only the call into `xml-rs` in this module adds to that record.
use vstd::prelude::*;
use std::io::Read;
use ::xml::attribute::OwnedAttribute as RsOwnedAttribute;
use ::xml::name::OwnedName as RsOwnedName;
use ::xml::reader::EventReader as RsEventReader;
use ::xml::reader::XmlEvent as RsReadEvent;
use crate::xml::name::{XmlAttribute, XmlName};
use crate::xml::namespace::{map_of_pairs_in_turn, pairs_view};
use crate::xml::ReadEventView;

verus! {

/// An `xml::reader::EventReader` over any byte source.  Verus cannot be told of
/// `EventReader` itself, whose parameter is bound by `std::io::Read`, so the
/// reader is held here, out of Verus's sight, with its source boxed.
#[verifier::external_body]
pub struct XmlRsSource<'a> {
    pub(crate) reader: RsEventReader<Box<dyn Read + 'a>>,
}

/// An event of the `xml-rs` reader, as plain values.
pub enum XmlRsEvent {
    StartDocument,
    EndDocument,
    ProcessingInstruction,
    StartElement { name: XmlName, attributes: Vec<XmlAttribute>, namespace: Vec<(String, String)> },
    EndElement { name: XmlName },
    CData(String),
    Comment,
    Characters(String),
    Whitespace(String),
}

/// The read event that an `xml-rs` event becomes; `None` for the events that
/// are skipped (document start, processing instructions, comments).  Text,
/// CDATA and whitespace all become `Characters`.
pub open spec fn read_view_of_xml_rs(raw: XmlRsEvent) -> Option<ReadEventView> {
    match raw {
        XmlRsEvent::StartDocument | XmlRsEvent::ProcessingInstruction | XmlRsEvent::Comment => None,
        XmlRsEvent::StartElement { name, attributes, namespace } => Some(ReadEventView::StartElement {
            name: name@,
            attributes: crate::xml::name::attributes_view(attributes@),
            namespace: map_of_pairs_in_turn(pairs_view(namespace@)),
        }),
        XmlRsEvent::EndElement { name } => Some(ReadEventView::EndElement { name: name@ }),
        XmlRsEvent::Characters(text) | XmlRsEvent::CData(text) | XmlRsEvent::Whitespace(text) => Some(
            ReadEventView::Characters(text@),
        ),
        XmlRsEvent::EndDocument => Some(ReadEventView::EndDocument),
    }
}

/// An `xml-rs` event reader with what each event it has given became.
pub struct XmlRsInput<'a> {
    source: XmlRsSource<'a>,
    pulled: Ghost<Seq<Option<ReadEventView>>>,
    pulls: Ghost<nat>,
}

impl<'a> XmlRsInput<'a> {
    /// What each event `xml::reader::EventReader::next` has given became, in
    /// order (`read_view_of_xml_rs`).
    pub closed spec fn pulled(&self) -> Seq<Option<ReadEventView>> {
        self.pulled@
    }

    /// How many times `xml::reader::EventReader::next` has been called,
    /// failed calls included.
    pub closed spec fn pulls(&self) -> nat {
        self.pulls@
    }
}

/// An input over `source`, from which nothing has been read.
pub fn input_of(source: XmlRsSource<'_>) -> (r: XmlRsInput<'_>)
    ensures
        r.pulled() == Seq::<Option<ReadEventView>>::empty(),
        r.pulls() == 0,
{
    XmlRsInput { source, pulled: Ghost(Seq::empty()), pulls: Ghost(0) }
}

/// Moves the fields of an `xml::name::OwnedName` into an `XmlName`.
#[verifier::external_body]
fn xml_name_from_xml_rs(name: RsOwnedName) -> XmlName {
    XmlName { local_name: name.local_name, namespace: name.namespace, prefix: name.prefix }
}

/// Moves the fields of an `xml::attribute::OwnedAttribute` into an `XmlAttribute`.
#[verifier::external_body]
fn xml_attribute_from_xml_rs(attribute: RsOwnedAttribute) -> XmlAttribute {
    XmlAttribute { name: xml_name_from_xml_rs(attribute.name), value: attribute.value }
}

/// Tells the variants of an `xml::reader::XmlEvent` apart, moving their fields
/// into an `XmlRsEvent`: attributes in order, and the bindings of the
/// namespace map collected with `Vec::from_iter`, in the map's order.
#[verifier::external_body]
fn xml_rs_event_fields(event: RsReadEvent) -> XmlRsEvent {
    match event {
        RsReadEvent::StartDocument { .. } => XmlRsEvent::StartDocument,
        RsReadEvent::EndDocument => XmlRsEvent::EndDocument,
        RsReadEvent::ProcessingInstruction { .. } => XmlRsEvent::ProcessingInstruction,
        RsReadEvent::StartElement { name, attributes, namespace } => XmlRsEvent::StartElement {
            name: xml_name_from_xml_rs(name),
            attributes: attributes.into_iter().map(xml_attribute_from_xml_rs).collect(),
            namespace: Vec::from_iter(namespace.0),
        },
        RsReadEvent::EndElement { name } => XmlRsEvent::EndElement { name: xml_name_from_xml_rs(name) },
        RsReadEvent::CData(text) => XmlRsEvent::CData(text),
        RsReadEvent::Comment(_) => XmlRsEvent::Comment,
        RsReadEvent::Characters(text) => XmlRsEvent::Characters(text),
        RsReadEvent::Whitespace(text) => XmlRsEvent::Whitespace(text),
    }
}

/// Calls `xml::reader::EventReader::next` and gives the event as plain values,
/// recording what it becomes; an error becomes the message that
/// `xml::reader::Error::msg` gives, and no event is recorded.  Every call is
/// counted.
#[verifier::external_body]
pub fn pull_xml_rs_event(input: &mut XmlRsInput<'_>) -> (r: Result<XmlRsEvent, String>)
    ensures
        r matches Ok(e) ==> final(input).pulled() == old(input).pulled().push(read_view_of_xml_rs(e)),
        r is Err ==> final(input).pulled() == old(input).pulled(),
        final(input).pulls() == old(input).pulls() + 1,
{
    input.pulls = Ghost(input.pulls@ + 1);
    let event = match input.source.reader.next() {
        Ok(event) => xml_rs_event_fields(event),
        Err(e) => return Err(e.msg().to_string()),
    };
    input.pulled = Ghost(input.pulled@.push(read_view_of_xml_rs(event)));
    Ok(event)
}

} // verus!
