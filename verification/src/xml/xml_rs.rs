//! The `xml-rs` backend: a reader and a writer adapter, and the calls into `xml-rs`
//! that they make.
use vstd::prelude::*;
use std::io::{Read, Write};
use ::xml::attribute::OwnedAttribute as RsOwnedAttribute;
use ::xml::name::OwnedName as RsOwnedName;
use ::xml::reader::EventReader as RsEventReader;
use ::xml::reader::ParserConfig as RsParserConfig;
use ::xml::reader::XmlEvent as RsReadEvent;
use ::xml::writer::EmitterConfig as RsEmitterConfig;
use ::xml::writer::EventWriter as RsEventWriter;
use ::xml::writer::Error as RsEmitterError;
use crate::xml::name::{opt_view, XmlAttribute, XmlName};
use crate::xml::namespace::{XmlNamespace, map_of_pairs_in_turn, pairs_view};
use crate::xml::rs_input::{
    input_of, pull_xml_rs_event, read_view_of_xml_rs, XmlRsEvent, XmlRsInput, XmlRsSource,
};
use crate::xml::emitter::{
    emit_cdata, emit_characters, emit_end_element, emit_named_end_element, emit_start_element,
    event_writer_into_inner, handed_of_read, handed_of_write, rs_emitter, rs_emitter_borrowed,
    xml_rs_namespace_from_pairs, Emitter, HandedEvent, RsBindings,
};
use crate::xml::{ReadEventView, XmlEventReader, XmlEventWriter, XmlReadEvent, XmlWriteEvent};

verus! {

/// Turns an `xml-rs` event into the parser-neutral event, or `None` for an
/// event that the reader skips.
pub fn read_event_of_xml_rs(raw: XmlRsEvent) -> (r: Option<XmlReadEvent>)
    ensures
        match (r, read_view_of_xml_rs(raw)) {
            (Some(e), Some(v)) => e@ == v,
            (None, None) => true,
            _ => false,
        },
{
    match raw {
        XmlRsEvent::StartDocument | XmlRsEvent::ProcessingInstruction | XmlRsEvent::Comment => None,
        XmlRsEvent::StartElement { name, attributes, namespace } => Some(XmlReadEvent::StartElement {
            name,
            attributes,
            namespace: XmlNamespace::from_pairs(namespace),
        }),
        XmlRsEvent::EndElement { name } => Some(XmlReadEvent::EndElement { name }),
        XmlRsEvent::Characters(text) => Some(XmlReadEvent::Characters(text)),
        XmlRsEvent::CData(text) => Some(XmlReadEvent::Characters(text)),
        XmlRsEvent::Whitespace(text) => Some(XmlReadEvent::Characters(text)),
        XmlRsEvent::EndDocument => Some(XmlReadEvent::EndDocument),
    }
}

/// The settings of an `xml::reader::ParserConfig` that the reader chooses.
pub struct ParserSettings {
    pub trim_whitespace: bool,
    pub whitespace_to_characters: bool,
    pub cdata_to_characters: bool,
    pub ignore_comments: bool,
    pub coalesce_characters: bool,
}

/// An `xml::reader::ParserConfig` together with the settings it holds.
pub struct ParserSetup {
    config: RsParserConfig,
    settings: Ghost<ParserSettings>,
}

impl ParserSetup {
    /// The settings the configuration holds.
    pub closed spec fn settings(&self) -> ParserSettings {
        self.settings@
    }
}

/// Calls `xml::reader::ParserConfig::new`, whose settings are: white space
/// kept and reported as such, CDATA reported as such, comments ignored and
/// adjacent text joined.
#[verifier::external_body]
fn parser_config_new() -> (r: ParserSetup)
    ensures
        r.settings() == (ParserSettings {
            trim_whitespace: false,
            whitespace_to_characters: false,
            cdata_to_characters: false,
            ignore_comments: true,
            coalesce_characters: true,
        }),
{
    ParserSetup {
        config: RsParserConfig::new(),
        settings: Ghost(
            ParserSettings {
                trim_whitespace: false,
                whitespace_to_characters: false,
                cdata_to_characters: false,
                ignore_comments: true,
                coalesce_characters: true,
            },
        ),
    }
}

/// Calls `xml::reader::ParserConfig::trim_whitespace`, which sets that
/// setting alone.
#[verifier::external_body]
fn parser_trim_whitespace(setup: ParserSetup, value: bool) -> (r: ParserSetup)
    ensures
        r.settings() == (ParserSettings { trim_whitespace: value, ..setup.settings() }),
{
    let settings = Ghost(ParserSettings { trim_whitespace: value, ..setup.settings@ });
    ParserSetup { config: setup.config.trim_whitespace(value), settings }
}

/// Calls `xml::reader::ParserConfig::whitespace_to_characters`, which sets
/// that setting alone.
#[verifier::external_body]
fn parser_whitespace_to_characters(setup: ParserSetup, value: bool) -> (r: ParserSetup)
    ensures
        r.settings() == (ParserSettings { whitespace_to_characters: value, ..setup.settings() }),
{
    let settings = Ghost(ParserSettings { whitespace_to_characters: value, ..setup.settings@ });
    ParserSetup { config: setup.config.whitespace_to_characters(value), settings }
}

/// Calls `xml::reader::ParserConfig::cdata_to_characters`, which sets that
/// setting alone.
#[verifier::external_body]
fn parser_cdata_to_characters(setup: ParserSetup, value: bool) -> (r: ParserSetup)
    ensures
        r.settings() == (ParserSettings { cdata_to_characters: value, ..setup.settings() }),
{
    let settings = Ghost(ParserSettings { cdata_to_characters: value, ..setup.settings@ });
    ParserSetup { config: setup.config.cdata_to_characters(value), settings }
}

/// Calls `xml::reader::ParserConfig::ignore_comments`, which sets that setting
/// alone.
#[verifier::external_body]
fn parser_ignore_comments(setup: ParserSetup, value: bool) -> (r: ParserSetup)
    ensures
        r.settings() == (ParserSettings { ignore_comments: value, ..setup.settings() }),
{
    let settings = Ghost(ParserSettings { ignore_comments: value, ..setup.settings@ });
    ParserSetup { config: setup.config.ignore_comments(value), settings }
}

/// Calls `xml::reader::ParserConfig::coalesce_characters`, which sets that
/// setting alone.
#[verifier::external_body]
fn parser_coalesce_characters(setup: ParserSetup, value: bool) -> (r: ParserSetup)
    ensures
        r.settings() == (ParserSettings { coalesce_characters: value, ..setup.settings() }),
{
    let settings = Ghost(ParserSettings { coalesce_characters: value, ..setup.settings@ });
    ParserSetup { config: setup.config.coalesce_characters(value), settings }
}

/// Calls `xml::reader::EventReader::new_with_config` on the boxed byte source
/// with the configuration.
#[verifier::external_body]
fn event_reader_with_config<'a, R: Read + 'a>(source: R, setup: ParserSetup) -> XmlRsSource<'a> {
    XmlRsSource { reader: RsEventReader::new_with_config(Box::new(source), setup.config) }
}

/// The parser settings of `XmlRsReader::from_reader`: white space trimmed and
/// reported as text, CDATA reported as text, comments ignored, adjacent text
/// joined.
pub open spec fn reader_settings() -> ParserSettings {
    ParserSettings {
        trim_whitespace: true,
        whitespace_to_characters: true,
        cdata_to_characters: true,
        ignore_comments: true,
        coalesce_characters: true,
    }
}

/// `xml-rs` reader adapter.
pub struct XmlRsReader<'a> {
    inner: XmlRsInput<'a>,
    settings: Ghost<Option<ParserSettings>>,
}

impl<'a> XmlRsReader<'a> {
    /// What each event pulled from `xml-rs` so far became, in order: `None`
    /// for an event that was skipped.
    pub closed spec fn pulled(&self) -> Seq<Option<ReadEventView>> {
        self.inner.pulled()
    }

    /// How many times an event has been asked of `xml-rs`, failed calls
    /// included.
    pub closed spec fn pulls(&self) -> nat {
        self.inner.pulls()
    }

    /// The settings of the `xml-rs` parser, where the reader chose them.
    pub closed spec fn parser_settings(&self) -> Option<ParserSettings> {
        self.settings@
    }

    /// A reader over a parser that was configured elsewhere.
    pub fn new(inner: XmlRsSource<'a>) -> (r: Self)
        ensures
            r.pulled() == Seq::<Option<ReadEventView>>::empty(),
            r.pulls() == 0,
            r.parser_settings() is None,
    {
        XmlRsReader { inner: input_of(inner), settings: Ghost(None) }
    }

    /// A reader that trims whitespace, reports whitespace and CDATA as
    /// characters, joins adjacent text and ignores comments.
    pub fn from_reader<R: Read + 'a>(reader: R) -> (r: Self)
        ensures
            r.pulled() == Seq::<Option<ReadEventView>>::empty(),
            r.pulls() == 0,
            r.parser_settings() == Some(reader_settings()),
    {
        let setup = parser_config_new();
        let setup = parser_trim_whitespace(setup, true);
        let setup = parser_whitespace_to_characters(setup, true);
        let setup = parser_cdata_to_characters(setup, true);
        let setup = parser_ignore_comments(setup, true);
        let setup = parser_coalesce_characters(setup, true);
        let ghost settings = setup.settings();
        XmlRsReader {
            inner: input_of(event_reader_with_config(reader, setup)),
            settings: Ghost(Some(settings)),
        }
    }
}

/// Whether `pulled` extends `before` by events that were all skipped.
pub open spec fn skipped_since(before: Seq<Option<ReadEventView>>, pulled: Seq<Option<ReadEventView>>) -> bool {
    &&& pulled.len() >= before.len()
    &&& pulled.take(before.len() as int) == before
    &&& forall|i: int| before.len() <= i < pulled.len() ==> #[trigger] pulled[i] is None
}

impl<'a> XmlEventReader for XmlRsReader<'a> {
    /// The next event that is not a document start, processing instruction or
    /// comment, in its parser-neutral form: the events pulled before it in
    /// this call were all skipped ones.
    fn next_event(&mut self) -> (r: Result<XmlReadEvent, String>)
        ensures
            match r {
                Ok(e) => {
                    &&& final(self).pulled().len() > old(self).pulled().len()
                    &&& skipped_since(old(self).pulled(), final(self).pulled().drop_last())
                    &&& final(self).pulled().last() == Some(e@)
                },
                Err(_) => skipped_since(old(self).pulled(), final(self).pulled()),
            },
            final(self).parser_settings() == old(self).parser_settings(),
            final(self).pulls() > old(self).pulls(),
            r is Ok ==> final(self).pulls() - old(self).pulls() == final(self).pulled().len() - old(
                self,
            ).pulled().len(),
    {
        let mut skipped: u64 = 0;
        assert(self.pulled().take(self.pulled().len() as int) =~= self.pulled());
        loop
            invariant
                skipped_since(old(self).pulled(), self.pulled()),
                self.settings == old(self).settings,
                self.pulls() - old(self).pulls() == self.pulled().len() - old(self).pulled().len(),
                skipped > 0 ==> self.pulls() > old(self).pulls(),
            decreases u64::MAX - skipped,
        {
            let ghost before = self.pulled();
            let raw = pull_xml_rs_event(&mut self.inner)?;
            proof {
                assert(self.pulled().drop_last() =~= before);
            }
            match read_event_of_xml_rs(raw) {
                Some(event) => {
                    return Ok(event);
                },
                None => {},
            }
            assert(self.pulled().take(old(self).pulled().len() as int) =~= old(self).pulled());
            if skipped == u64::MAX {
                return Err("Too many consecutive events without content".to_owned());
            }
            skipped = skipped + 1;
        }
    }
}

impl XmlName {
    /// Copies the three components into an `xml::name::OwnedName`.
    #[verifier::external_body]
    pub(crate) fn to_xml_rs(&self) -> RsOwnedName {
        RsOwnedName {
            local_name: self.local_name.clone(),
            namespace: self.namespace.clone(),
            prefix: self.prefix.clone(),
        }
    }
}

impl XmlAttribute {
    /// Calls `xml::attribute::OwnedAttribute::new` on a copy of the name and value.
    #[verifier::external_body]
    pub(crate) fn to_xml_rs(&self) -> RsOwnedAttribute {
        let name = RsOwnedName {
            local_name: self.name.local_name.clone(),
            namespace: self.name.namespace.clone(),
            prefix: self.name.prefix.clone(),
        };
        RsOwnedAttribute::new(name, self.value.clone())
    }
}

impl XmlNamespace {
    /// The bindings as an `xml::namespace::Namespace`: each prefix bound here,
    /// with its URI, and nothing else.
    pub(crate) fn to_xml_rs(&self) -> (r: RsBindings)
        ensures
            r.bindings() == self@,
    {
        xml_rs_namespace_from_pairs(self.to_pairs())
    }
}

/// The `Display` text of an `xml::writer::Error`.
#[verifier::external_body]
pub(crate) fn emitter_error_message(error: RsEmitterError) -> String {
    error.to_string()
}

/// The settings of an `xml::writer::EmitterConfig` that the serializer chooses.
pub struct EmitterSettings {
    pub perform_indent: bool,
    pub write_document_declaration: bool,
    pub cdata_to_characters: bool,
    pub indent_string: Seq<char>,
}

/// An `xml::writer::EmitterConfig` together with the settings it holds.
pub struct EmitterSetup {
    config: RsEmitterConfig,
    settings: Ghost<EmitterSettings>,
}

impl EmitterSetup {
    /// The settings the configuration holds.
    pub closed spec fn settings(&self) -> EmitterSettings {
        self.settings@
    }
}

/// Calls `xml::writer::EmitterConfig::new`, whose settings are: no
/// indentation, a document declaration, CDATA kept as CDATA, and an indent
/// of two spaces.
#[verifier::external_body]
pub(crate) fn emitter_config_new() -> (r: EmitterSetup)
    ensures
        r.settings() == (EmitterSettings {
            perform_indent: false,
            write_document_declaration: true,
            cdata_to_characters: false,
            indent_string: "  "@,
        }),
{
    EmitterSetup {
        config: RsEmitterConfig::new(),
        settings: Ghost(
            EmitterSettings {
                perform_indent: false,
                write_document_declaration: true,
                cdata_to_characters: false,
                indent_string: "  "@,
            },
        ),
    }
}

/// Calls `xml::writer::EmitterConfig::cdata_to_characters`, which sets that
/// setting alone.
#[verifier::external_body]
pub(crate) fn emitter_cdata_to_characters(setup: EmitterSetup, value: bool) -> (r: EmitterSetup)
    ensures
        r.settings() == (EmitterSettings { cdata_to_characters: value, ..setup.settings() }),
{
    let settings = Ghost(EmitterSettings { cdata_to_characters: value, ..setup.settings@ });
    EmitterSetup { config: setup.config.cdata_to_characters(value), settings }
}

/// Calls `xml::writer::EmitterConfig::perform_indent`, which sets that setting
/// alone.
#[verifier::external_body]
pub(crate) fn emitter_perform_indent(setup: EmitterSetup, value: bool) -> (r: EmitterSetup)
    ensures
        r.settings() == (EmitterSettings { perform_indent: value, ..setup.settings() }),
{
    let settings = Ghost(EmitterSettings { perform_indent: value, ..setup.settings@ });
    EmitterSetup { config: setup.config.perform_indent(value), settings }
}

/// Calls `xml::writer::EmitterConfig::write_document_declaration`, which sets
/// that setting alone.
#[verifier::external_body]
pub(crate) fn emitter_write_document_declaration(setup: EmitterSetup, value: bool) -> (r: EmitterSetup)
    ensures
        r.settings() == (EmitterSettings { write_document_declaration: value, ..setup.settings() }),
{
    let settings = Ghost(EmitterSettings { write_document_declaration: value, ..setup.settings@ });
    EmitterSetup { config: setup.config.write_document_declaration(value), settings }
}

/// Calls `xml::writer::EmitterConfig::indent_string`, which sets that setting
/// alone.
#[verifier::external_body]
pub(crate) fn emitter_indent_string(setup: EmitterSetup, value: String) -> (r: EmitterSetup)
    ensures
        r.settings() == (EmitterSettings { indent_string: value@, ..setup.settings() }),
{
    let settings = Ghost(EmitterSettings { indent_string: value@, ..setup.settings@ });
    EmitterSetup { config: setup.config.indent_string(value), settings }
}

/// Calls `xml::writer::EventWriter::new_with_config` with the configuration.
#[verifier::external_body]
pub(crate) fn event_writer_with_config<W: Write>(sink: W, setup: EmitterSetup) -> RsEventWriter<W> {
    RsEventWriter::new_with_config(sink, setup.config)
}

impl XmlReadEvent {
    /// Writes the event to an `xml-rs` writer; the end of the document writes nothing.
    pub fn write_to_xml_rs<W: Write>(&self, writer: &mut RsEventWriter<W>) -> (r: Result<(), RsEmitterError>)
        ensures
            self is EndDocument ==> r is Ok,
    {
        let mut em = rs_emitter_borrowed(writer);
        self.write_with(&mut em)
    }

    /// Hands the event to `xml-rs` as `handed_of_read` says; the end of the
    /// document hands over nothing.
    fn write_with<T>(&self, writer: &mut Emitter<T>) -> (r: Result<(), RsEmitterError>)
        ensures
            match handed_of_read(self@) {
                Some(e) => if r is Ok {
                    final(writer).handed() == old(writer).handed().push(e)
                } else {
                    final(writer).handed() == old(writer).handed()
                },
                None => r is Ok && final(writer).handed() == old(writer).handed(),
            },
            final(writer).writes() == old(writer).writes() + if handed_of_read(self@) is Some {
                1nat
            } else {
                0nat
            },
    {
        match self {
            XmlReadEvent::StartElement { name, attributes, namespace } => emit_start_element(
                writer,
                name,
                attributes,
                namespace.to_xml_rs(),
            ),
            XmlReadEvent::EndElement { name } => emit_named_end_element(writer, name),
            XmlReadEvent::Characters(text) => emit_characters(writer, text.as_str()),
            XmlReadEvent::EndDocument => Ok(()),
        }
    }
}

/// Transitional `xml-rs` writer adapter.
#[verifier::reject_recursive_types(W)]
pub struct XmlRsWriter<W> {
    inner: Emitter<RsEventWriter<W>>,
}

impl<W> XmlRsWriter<W> {
    /// The events the `xml-rs` writer has accepted so far.
    pub closed spec fn written(&self) -> Seq<HandedEvent> {
        self.inner.handed()
    }

    /// How many events have been offered to the `xml-rs` writer, failed
    /// writes included.
    pub closed spec fn write_calls(&self) -> nat {
        self.inner.writes()
    }
}

impl<W: Write> XmlRsWriter<W> {
    pub fn new(inner: RsEventWriter<W>) -> (r: Self)
        ensures
            r.written() == Seq::<HandedEvent>::empty(),
            r.write_calls() == 0,
    {
        XmlRsWriter { inner: rs_emitter(inner) }
    }

    pub fn into_inner(self) -> W {
        event_writer_into_inner(self.inner)
    }
}

/// Turns the `xml-rs` error of a write into its message.
pub(crate) fn emitted_or_message(r: Result<(), RsEmitterError>) -> (out: Result<(), String>)
    ensures
        out is Ok <==> r is Ok,
{
    match r {
        Ok(()) => Ok(()),
        Err(e) => Err(emitter_error_message(e)),
    }
}

impl<W> XmlEventWriter for XmlRsWriter<W> {
    /// Writes the event; a start tag is written under its name as a local name.
    fn write_event(&mut self, event: XmlWriteEvent<'_>) -> (r: Result<(), String>)
        ensures
            r is Ok ==> final(self).written() == old(self).written().push(handed_of_write(event@)),
            r is Err ==> final(self).written() == old(self).written(),
            final(self).write_calls() == old(self).write_calls() + 1,
    {
        let r = match event {
            XmlWriteEvent::StartElement { name, attributes, namespace } => {
                let name = XmlName::local(crate::xml::cow_into_string(name));
                emit_start_element(&mut self.inner, &name, &attributes, namespace.to_xml_rs())
            },
            XmlWriteEvent::EndElement => emit_end_element(&mut self.inner),
            XmlWriteEvent::Characters(text) => emit_characters(&mut self.inner, crate::xml::cow_as_str(&text)),
            XmlWriteEvent::CData(text) => emit_cdata(&mut self.inner, crate::xml::cow_as_str(&text)),
        };
        emitted_or_message(r)
    }
}

} // verus!
