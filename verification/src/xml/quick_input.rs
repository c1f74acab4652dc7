//! The `quick-xml` event reader, with the trace of every read and every text
//! decoding made through it.  Only the calls into `quick-xml` in this module
//! add to that trace.
use vstd::prelude::*;
use std::io::BufRead;
use quick_xml::events::BytesCData as QuickCData;
use quick_xml::events::BytesEnd as QuickEnd;
use quick_xml::events::BytesStart as QuickStart;
use quick_xml::events::BytesText as QuickText;
use quick_xml::events::Event as QuickEventKind;
use quick_xml::reader::NsReader as QuickNsReader;
use quick_xml::Error as QuickError;
use quick_xml::events::attributes::Attribute as QuickAttribute;
use quick_xml::events::attributes::Attributes as QuickAttributes;
use quick_xml::name::QName as QuickQName;
use crate::xml::quick::{qname_prefix, resolve_fields, QuickResolve, ResolveView};

verus! {

/// An event of the `quick-xml` reader, owned, with its variants told apart.
pub enum QuickRawEvent {
    Start(QuickStart<'static>),
    Empty(QuickStart<'static>),
    End(QuickEnd<'static>),
    Text(QuickText<'static>),
    CData(QuickCData<'static>),
    Eof,
    /// A declaration, processing instruction, doctype, comment or entity reference.
    Skipped,
}

/// Calls `quick_xml::reader::NsReader::read_event_into` and takes the event
/// out of the buffer, telling its variants apart.
#[verifier::external_body]
pub(crate) fn read_quick_event<R: BufRead>(reader: &mut QuickNsReader<R>, buf: &mut Vec<u8>) -> Result<QuickRawEvent, QuickError> {
    Ok(match reader.read_event_into(buf)? {
        QuickEventKind::Start(e) => QuickRawEvent::Start(e.into_owned()),
        QuickEventKind::Empty(e) => QuickRawEvent::Empty(e.into_owned()),
        QuickEventKind::End(e) => QuickRawEvent::End(e.into_owned()),
        QuickEventKind::Text(e) => QuickRawEvent::Text(e.into_owned()),
        QuickEventKind::CData(e) => QuickRawEvent::CData(e.into_owned()),
        QuickEventKind::Eof => QuickRawEvent::Eof,
        _ => QuickRawEvent::Skipped,
    })
}

/// A `quick_xml::reader::NsReader` together with its `read_event_into`, taken
/// where the source is known to implement `std::io::BufRead`.  Verus cannot
/// check a trait impl whose parameter is bound by `BufRead`, so the reader's
/// impl of `XmlEventReader` reaches `read_event_into` through this pointer.
#[verifier::external_body]
#[verifier::reject_recursive_types(R)]
pub struct QuickSource<R> {
    pub(crate) reader: QuickNsReader<R>,
    pub(crate) read: fn(&mut QuickNsReader<R>, &mut Vec<u8>) -> Result<QuickRawEvent, QuickError>,
}

/// Which kind of event a read gave, or that it failed.
pub enum RawKind {
    Start,
    Empty,
    End,
    Text,
    CData,
    Eof,
    Skipped,
    Failed,
}

/// The kind of what a read gave.
pub open spec fn kind_of(r: Result<QuickRawEvent, QuickError>) -> RawKind {
    match r {
        Ok(QuickRawEvent::Start(_)) => RawKind::Start,
        Ok(QuickRawEvent::Empty(_)) => RawKind::Empty,
        Ok(QuickRawEvent::End(_)) => RawKind::End,
        Ok(QuickRawEvent::Text(_)) => RawKind::Text,
        Ok(QuickRawEvent::CData(_)) => RawKind::CData,
        Ok(QuickRawEvent::Eof) => RawKind::Eof,
        Ok(QuickRawEvent::Skipped) => RawKind::Skipped,
        Err(_) => RawKind::Failed,
    }
}

/// One step of the trace: a read from the parser, or the decoding of a text
/// or CDATA event into characters.
pub enum TraceEntry {
    Read(RawKind),
    DecodedText(Seq<char>),
    DecodedCData(Seq<char>),
    /// An element name resolved in the current scope, and what it resolved to.
    ResolvedElement(Seq<u8>, ResolveView),
    /// An attribute name resolved in the current scope, and what it resolved to.
    ResolvedAttribute(Seq<u8>, ResolveView),
    /// The attributes of a start tag gave one more attribute.
    AttributeListed,
    /// The attributes of a start tag gave no more attribute.
    AttributesEnd,
    /// The qualified name of the attribute given last.
    AttributeKey(Seq<u8>),
    /// The unescaped value of an attribute.
    AttributeValue(Seq<char>),
}

/// A `quick-xml` reader with the trace of what was read and decoded through it.
#[verifier::reject_recursive_types(R)]
pub struct QuickInput<R> {
    source: QuickSource<R>,
    trace: Ghost<Seq<TraceEntry>>,
}

impl<R> QuickInput<R> {
    /// Every read and every decoding made through this reader, in order.
    pub closed spec fn trace(&self) -> Seq<TraceEntry> {
        self.trace@
    }

    /// The reader, for the calls that only look at its state.
    pub fn source(&self) -> &QuickSource<R> {
        &self.source
    }
}

/// An input over `source`, through which nothing has been read.
pub fn input_of<R>(source: QuickSource<R>) -> (r: QuickInput<R>)
    ensures
        r.trace() == Seq::<TraceEntry>::empty(),
{
    QuickInput { source, trace: Ghost(Seq::empty()) }
}

/// Reads the next event into `buf` through the paired `read_event_into`, and
/// records the kind of what came back.
#[verifier::external_body]
pub fn quick_read<R>(input: &mut QuickInput<R>, buf: &mut Vec<u8>) -> (r: Result<QuickRawEvent, QuickError>)
    ensures
        final(input).trace() == old(input).trace().push(TraceEntry::Read(kind_of(r))),
{
    let r = (input.source.read)(&mut input.source.reader, buf);
    input.trace = Ghost(input.trace@.push(TraceEntry::Read(kind_of(r))));
    r
}

/// Calls `quick_xml::events::BytesText::decode`, recording the characters it
/// gives; an error becomes its message, and nothing is recorded.
#[verifier::external_body]
pub fn text_decode<R>(input: &mut QuickInput<R>, text: &QuickText<'_>) -> (r: Result<String, String>)
    ensures
        r matches Ok(s) ==> final(input).trace() == old(input).trace().push(TraceEntry::DecodedText(s@)),
        r is Err ==> final(input).trace() == old(input).trace(),
{
    match text.decode() {
        Ok(s) => {
            input.trace = Ghost(input.trace@.push(TraceEntry::DecodedText(s@)));
            Ok(s.into_owned())
        },
        Err(e) => Err(e.to_string()),
    }
}

/// Calls `quick_xml::events::BytesCData::decode`, recording the characters it
/// gives; an error becomes its message, and nothing is recorded.
#[verifier::external_body]
pub fn cdata_decode<R>(input: &mut QuickInput<R>, cdata: &QuickCData<'_>) -> (r: Result<String, String>)
    ensures
        r matches Ok(s) ==> final(input).trace() == old(input).trace().push(TraceEntry::DecodedCData(s@)),
        r is Err ==> final(input).trace() == old(input).trace(),
{
    match cdata.decode() {
        Ok(s) => {
            input.trace = Ghost(input.trace@.push(TraceEntry::DecodedCData(s@)));
            Ok(s.into_owned())
        },
        Err(e) => Err(e.to_string()),
    }
}

/// Calls `quick_xml::reader::NsReader::resolve_element` on a qualified name, in
/// the namespace scope of the last event read, recording the name and what it
/// resolved to.
#[verifier::external_body]
pub fn resolve_element_name<R>(input: &mut QuickInput<R>, qname: &[u8]) -> (r: QuickResolve)
    ensures
        final(input).trace() == old(input).trace().push(TraceEntry::ResolvedElement(qname@, r@)),
        qname_prefix(qname@) matches Some(p) ==> (r@ is Bound || r@ == ResolveView::Unknown(p)),
{
    let r = resolve_fields(input.source.reader.resolve_element(QuickQName(qname)).0);
    input.trace = Ghost(input.trace@.push(TraceEntry::ResolvedElement(qname@, r@)));
    r
}

/// Calls `quick_xml::reader::NsReader::resolve_attribute` on a qualified name,
/// in the namespace scope of the last event read, recording the name and what
/// it resolved to.  An attribute name without a prefix is in no namespace,
/// whatever the default namespace.
#[verifier::external_body]
pub fn resolve_attribute_name<R>(input: &mut QuickInput<R>, qname: &[u8]) -> (r: QuickResolve)
    ensures
        final(input).trace() == old(input).trace().push(TraceEntry::ResolvedAttribute(qname@, r@)),
        qname_prefix(qname@) is None ==> r@ == ResolveView::Unbound,
        qname_prefix(qname@) matches Some(p) ==> (r@ is Bound || r@ == ResolveView::Unknown(p)),
{
    let r = resolve_fields(input.source.reader.resolve_attribute(QuickQName(qname)).0);
    input.trace = Ghost(input.trace@.push(TraceEntry::ResolvedAttribute(qname@, r@)));
    r
}

/// Calls `Iterator::next` on the attributes of a start tag, recording whether
/// it gave one more attribute or none; an attribute that does not parse
/// becomes the message of its `AttrError`, and nothing is recorded.
#[verifier::external_body]
pub fn next_attribute<'a, R>(input: &mut QuickInput<R>, attributes: &mut QuickAttributes<'a>) -> (r: Option<
    Result<QuickAttribute<'a>, String>,
>)
    ensures
        r matches Some(Ok(_)) ==> final(input).trace() == old(input).trace().push(TraceEntry::AttributeListed),
        r is None ==> final(input).trace() == old(input).trace().push(TraceEntry::AttributesEnd),
        r matches Some(Err(_)) ==> final(input).trace() == old(input).trace(),
{
    match attributes.next() {
        Some(Ok(attribute)) => {
            input.trace = Ghost(input.trace@.push(TraceEntry::AttributeListed));
            Some(Ok(attribute))
        },
        Some(Err(e)) => Some(Err(e.to_string())),
        None => {
            input.trace = Ghost(input.trace@.push(TraceEntry::AttributesEnd));
            None
        },
    }
}

/// The bytes of an attribute's qualified name (its `key` field), recorded.
#[verifier::external_body]
pub fn attribute_key<R>(input: &mut QuickInput<R>, attribute: &QuickAttribute<'_>) -> (r: Vec<u8>)
    ensures
        final(input).trace() == old(input).trace().push(TraceEntry::AttributeKey(r@)),
{
    let r = attribute.key.as_ref().to_vec();
    input.trace = Ghost(input.trace@.push(TraceEntry::AttributeKey(r@)));
    r
}

/// Calls `quick_xml::events::attributes::Attribute::unescape_value`, recording
/// the value; an error becomes its message, and nothing is recorded.
#[verifier::external_body]
pub fn attribute_value<R>(input: &mut QuickInput<R>, attribute: &QuickAttribute<'_>) -> (r: Result<String, String>)
    ensures
        r matches Ok(v) ==> final(input).trace() == old(input).trace().push(TraceEntry::AttributeValue(v@)),
        r is Err ==> final(input).trace() == old(input).trace(),
{
    match attribute.unescape_value() {
        Ok(value) => {
            let v = value.into_owned();
            input.trace = Ghost(input.trace@.push(TraceEntry::AttributeValue(v@)));
            Ok(v)
        },
        Err(e) => Err(e.to_string()),
    }
}

} // verus!
