//! The `xml-rs` event writer, with the record of every event it has accepted.
//! Only the calls into `xml-rs` in this module add to that record.
use vstd::prelude::*;
use std::borrow::Cow;
use std::io::Write;
use ::xml::attribute::OwnedAttribute as RsOwnedAttribute;
use ::xml::writer::EventWriter as RsEventWriter;
use ::xml::writer::events::XmlEvent as RsWriteEvent;
use ::xml::writer::Error as RsEmitterError;
use crate::xml::name::{attributes_view, XmlAttribute, XmlAttributeView, XmlName, XmlNameView};
use ::xml::namespace::Namespace as RsNamespace;
use std::collections::BTreeMap;
use crate::xml::namespace::{distinct_keys, map_of, pairs_view};
use crate::xml::{ReadEventView, WriteEventView};

verus! {

/// An event as it was handed to `xml::writer::EventWriter::write`.
pub enum HandedEvent {
    /// `XmlEvent::StartElement` with this name, these attributes in this
    /// order, and these namespace bindings.
    StartElement {
        name: XmlNameView,
        attributes: Seq<XmlAttributeView>,
        namespace: Map<Seq<char>, Seq<char>>,
    },
    /// `XmlEvent::EndElement`, naming the element it closes or not.
    EndElement { name: Option<XmlNameView> },
    /// `XmlEvent::characters`: text, escaped by the writer.
    Characters(Seq<char>),
    /// `XmlEvent::cdata`: a CDATA section.
    CData(Seq<char>),
    /// Another `xml-rs` event, handed over as the caller built it.
    Other,
}

/// The event a parser-neutral write event is handed to `xml-rs` as; a start
/// tag's name is a local name.
pub open spec fn handed_of_write(e: WriteEventView) -> HandedEvent {
    match e {
        WriteEventView::StartElement { name, attributes, namespace } => HandedEvent::StartElement {
            name: XmlNameView { local_name: name, namespace: None, prefix: None },
            attributes,
            namespace,
        },
        WriteEventView::EndElement => HandedEvent::EndElement { name: None },
        WriteEventView::Characters(t) => HandedEvent::Characters(t),
        WriteEventView::CData(t) => HandedEvent::CData(t),
    }
}

/// The event a read event is handed to `xml-rs` as; the end of the document
/// is not handed over.
pub open spec fn handed_of_read(e: ReadEventView) -> Option<HandedEvent> {
    match e {
        ReadEventView::StartElement { name, attributes, namespace } => Some(
            HandedEvent::StartElement { name, attributes, namespace },
        ),
        ReadEventView::EndElement { name } => Some(HandedEvent::EndElement { name: Some(name) }),
        ReadEventView::Characters(t) => Some(HandedEvent::Characters(t)),
        ReadEventView::EndDocument => None,
    }
}

/// An `xml::writer::EventWriter` together with its `write` method, taken where
/// the sink is known to implement `std::io::Write`.  Verus cannot check a trait
/// impl whose parameter is bound by `std::io::Write`, so the writers reach
/// `write` through this pointer instead of through the bound.  The writer is
/// held either owned or borrowed (`T` is `EventWriter<W>` or
/// `&mut EventWriter<W>`).
#[verifier::external_body]
#[verifier::reject_recursive_types(T)]
pub struct RsEmitter<T> {
    writer: T,
    write: for<'e> fn(&mut T, RsWriteEvent<'e>) -> Result<(), RsEmitterError>,
}

/// An `xml-rs` event writer with the events it has accepted so far.
#[verifier::reject_recursive_types(T)]
pub struct Emitter<T> {
    em: RsEmitter<T>,
    handed: Ghost<Seq<HandedEvent>>,
    writes: Ghost<nat>,
}

impl<T> Emitter<T> {
    /// The events `xml::writer::EventWriter::write` has accepted, in order.
    pub closed spec fn handed(&self) -> Seq<HandedEvent> {
        self.handed@
    }

    /// How many times `xml::writer::EventWriter::write` has been called,
    /// failed calls included.
    pub closed spec fn writes(&self) -> nat {
        self.writes@
    }
}

/// An `xml::namespace::Namespace` with the bindings it holds.
pub struct RsBindings {
    ns: RsNamespace,
    bindings: Ghost<Map<Seq<char>, Seq<char>>>,
}

impl RsBindings {
    /// Each prefix bound, with its URI.
    pub closed spec fn bindings(&self) -> Map<Seq<char>, Seq<char>> {
        self.bindings@
    }
}

/// Collects the pairs into the `BTreeMap` of an `xml::namespace::Namespace`
/// with `BTreeMap::from_iter`; where no prefix occurs twice, the map binds
/// each prefix of the pairs to its URI, and nothing else.
#[verifier::external_body]
pub(crate) fn xml_rs_namespace_from_pairs(pairs: Vec<(String, String)>) -> (r: RsBindings)
    ensures
        distinct_keys(pairs_view(pairs@)) ==> r.bindings() == map_of(pairs_view(pairs@)),
{
    let bindings = Ghost(map_of(pairs_view(pairs@)));
    RsBindings { ns: RsNamespace(BTreeMap::from_iter(pairs)), bindings }
}

/// Calls `xml::writer::EventWriter::write`.
#[verifier::external_body]
fn xml_rs_write<W: Write>(writer: &mut RsEventWriter<W>, event: RsWriteEvent<'_>) -> Result<(), RsEmitterError> {
    writer.write(event)
}

/// Calls `xml::writer::EventWriter::write` through a borrowed writer.
#[verifier::external_body]
fn xml_rs_write_borrowed<W: Write>(writer: &mut &mut RsEventWriter<W>, event: RsWriteEvent<'_>) -> Result<(), RsEmitterError> {
    writer.write(event)
}

/// Pairs an owned writer with `xml::writer::EventWriter::write`; nothing is
/// written yet.
#[verifier::external_body]
pub(crate) fn rs_emitter<W: Write>(writer: RsEventWriter<W>) -> (r: Emitter<RsEventWriter<W>>)
    ensures
        r.handed() == Seq::<HandedEvent>::empty(),
        r.writes() == 0,
{
    Emitter { em: RsEmitter { writer, write: xml_rs_write::<W> }, handed: Ghost(Seq::empty()), writes: Ghost(0) }
}

/// Pairs a borrowed writer with `xml::writer::EventWriter::write`; nothing is
/// written through it yet.
#[verifier::external_body]
pub(crate) fn rs_emitter_borrowed<W: Write>(writer: &mut RsEventWriter<W>) -> (r: Emitter<&mut RsEventWriter<W>>)
    ensures
        r.handed() == Seq::<HandedEvent>::empty(),
        r.writes() == 0,
{
    Emitter {
        em: RsEmitter { writer, write: xml_rs_write_borrowed::<W> },
        handed: Ghost(Seq::empty()),
        writes: Ghost(0),
    }
}

/// Calls `xml::writer::EventWriter::write` with `XmlEvent::StartElement` made of
/// the name, the attributes (in order, each by `OwnedAttribute::borrow`) and
/// the namespace bindings, converted one for one.
#[verifier::external_body]
pub(crate) fn emit_start_element<T>(
    em: &mut Emitter<T>,
    name: &XmlName,
    attributes: &Vec<XmlAttribute>,
    namespace: RsBindings,
) -> (r: Result<(), RsEmitterError>)
    ensures
        r is Ok ==> final(em).handed() == old(em).handed().push(
            HandedEvent::StartElement {
                name: name@,
                attributes: attributes_view(attributes@),
                namespace: namespace.bindings(),
            },
        ),
        r is Err ==> final(em).handed() == old(em).handed(),
        final(em).writes() == old(em).writes() + 1,
{
    let owned: Vec<RsOwnedAttribute> = attributes.iter().map(XmlAttribute::to_xml_rs).collect();
    let rs_name = name.to_xml_rs();
    let event = RsWriteEvent::StartElement {
        name: rs_name.borrow(),
        attributes: Cow::Owned(owned.iter().map(RsOwnedAttribute::borrow).collect()),
        namespace: Cow::Owned(namespace.ns),
    };
    em.writes = Ghost(em.writes@ + 1);
    let r = (em.em.write)(&mut em.em.writer, event);
    if r.is_ok() {
        em.handed = Ghost(em.handed@.push(HandedEvent::StartElement {
            name: name@, attributes: attributes_view(attributes@), namespace: namespace.bindings@ }));
    }
    r
}

/// Calls `xml::writer::EventWriter::write` with `XmlEvent::end_element()`, which
/// closes the innermost open element.
#[verifier::external_body]
pub(crate) fn emit_end_element<T>(em: &mut Emitter<T>) -> (r: Result<(), RsEmitterError>)
    ensures
        r is Ok ==> final(em).handed() == old(em).handed().push(HandedEvent::EndElement { name: None }),
        r is Err ==> final(em).handed() == old(em).handed(),
        final(em).writes() == old(em).writes() + 1,
{
    em.writes = Ghost(em.writes@ + 1);
    let r = (em.em.write)(&mut em.em.writer, RsWriteEvent::end_element().into());
    if r.is_ok() {
        em.handed = Ghost(em.handed@.push(HandedEvent::EndElement { name: None }));
    }
    r
}

/// Calls `xml::writer::EventWriter::write` with `XmlEvent::EndElement` naming
/// the element it closes (the name converted one for one).
#[verifier::external_body]
pub(crate) fn emit_named_end_element<T>(em: &mut Emitter<T>, name: &XmlName) -> (r: Result<(), RsEmitterError>)
    ensures
        r is Ok ==> final(em).handed() == old(em).handed().push(HandedEvent::EndElement { name: Some(name@) }),
        r is Err ==> final(em).handed() == old(em).handed(),
        final(em).writes() == old(em).writes() + 1,
{
    let rs_name = name.to_xml_rs();
    em.writes = Ghost(em.writes@ + 1);
    let r = (em.em.write)(&mut em.em.writer, RsWriteEvent::EndElement { name: Some(rs_name.borrow()) });
    if r.is_ok() {
        em.handed = Ghost(em.handed@.push(HandedEvent::EndElement { name: Some(name@) }));
    }
    r
}

/// Calls `xml::writer::EventWriter::write` with `XmlEvent::characters(text)`.
#[verifier::external_body]
pub(crate) fn emit_characters<T>(em: &mut Emitter<T>, text: &str) -> (r: Result<(), RsEmitterError>)
    ensures
        r is Ok ==> final(em).handed() == old(em).handed().push(HandedEvent::Characters(text@)),
        r is Err ==> final(em).handed() == old(em).handed(),
        final(em).writes() == old(em).writes() + 1,
{
    em.writes = Ghost(em.writes@ + 1);
    let r = (em.em.write)(&mut em.em.writer, RsWriteEvent::characters(text));
    if r.is_ok() {
        em.handed = Ghost(em.handed@.push(HandedEvent::Characters(text@)));
    }
    r
}

/// Calls `xml::writer::EventWriter::write` with `XmlEvent::cdata(text)`.
#[verifier::external_body]
pub(crate) fn emit_cdata<T>(em: &mut Emitter<T>, text: &str) -> (r: Result<(), RsEmitterError>)
    ensures
        r is Ok ==> final(em).handed() == old(em).handed().push(HandedEvent::CData(text@)),
        r is Err ==> final(em).handed() == old(em).handed(),
        final(em).writes() == old(em).writes() + 1,
{
    em.writes = Ghost(em.writes@ + 1);
    let r = (em.em.write)(&mut em.em.writer, RsWriteEvent::cdata(text));
    if r.is_ok() {
        em.handed = Ghost(em.handed@.push(HandedEvent::CData(text@)));
    }
    r
}

/// Calls `xml::writer::EventWriter::write` with any event that converts into an
/// `xml-rs` writer event.
#[verifier::external_body]
pub(crate) fn emit_event<'a, T, E: Into<RsWriteEvent<'a>>>(em: &mut Emitter<T>, event: E) -> (r: Result<
    (),
    RsEmitterError,
>)
    ensures
        r is Ok ==> final(em).handed() == old(em).handed().push(HandedEvent::Other),
        r is Err ==> final(em).handed() == old(em).handed(),
        final(em).writes() == old(em).writes() + 1,
{
    em.writes = Ghost(em.writes@ + 1);
    let r = (em.em.write)(&mut em.em.writer, event.into());
    if r.is_ok() {
        em.handed = Ghost(em.handed@.push(HandedEvent::Other));
    }
    r
}

/// Calls `xml::writer::EventWriter::into_inner`.
#[verifier::external_body]
pub(crate) fn event_writer_into_inner<W: Write>(em: Emitter<RsEventWriter<W>>) -> W {
    em.em.writer.into_inner()
}

} // verus!
