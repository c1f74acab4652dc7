//! Generic data structure serialization framework.
use vstd::prelude::*;
use std::io::Write;
use ::xml::writer::EventWriter as RsEventWriter;
use ::xml::writer::Error as RsEmitterError;
use ::xml::writer::events::XmlEvent as RsWriteEvent;
use crate::text::IntoXmlString;
use crate::xml::name::{attributes_view, opt_view, XmlAttribute, XmlNameView};
use crate::xml::namespace::XmlNamespace;
use crate::xml::emitter::{
    emit_cdata, emit_characters, emit_end_element, emit_event, emit_start_element,
    event_writer_into_inner, handed_of_write, rs_emitter, Emitter, HandedEvent,
};
use crate::xml::xml_rs::{
    emitted_or_message, emitter_cdata_to_characters, emitter_config_new, emitter_indent_string,
    emitter_perform_indent, emitter_write_document_declaration, event_writer_with_config,
    EmitterSettings, EmitterSetup,
};
use crate::xml::XmlWriteEvent;
use crate::YaSerialize;

verus! {

/// Output settings of `to_string_with_config` and `serialize_with_writer`.
pub struct Config {
    pub perform_indent: bool,
    pub write_document_declaration: bool,
    pub indent_string: Option<String>,
}

impl Default for Config {
    /// No indentation, with the document declaration.
    fn default() -> (c: Self)
        ensures
            c.perform_indent == false,
            c.write_document_declaration == true,
            c.indent_string is None,
    {
        Config { perform_indent: false, write_document_declaration: true, indent_string: None }
    }
}

/// A writer of XML events with two settings that the types being serialized
/// read: whether to leave out their own start and end tags, and the name to
/// give their start tag.
#[verifier::reject_recursive_types(W)]
pub struct Serializer<W> {
    writer: Emitter<RsEventWriter<W>>,
    skip_start_end: bool,
    start_event_name: Option<String>,
    settings: Ghost<Option<EmitterSettings>>,
}

impl<W> Serializer<W> {
    /// Whether serialized values should leave out their start and end tags.
    pub closed spec fn skips_start_end(&self) -> bool {
        self.skip_start_end
    }

    /// The name the next start tag should take instead of the type's own.
    pub closed spec fn start_name(&self) -> Option<Seq<char>> {
        opt_view(self.start_event_name)
    }

    /// The events the `xml-rs` writer has accepted so far, in order.
    pub closed spec fn emitted(&self) -> Seq<HandedEvent> {
        self.writer.handed()
    }

    /// How many events have been offered to the `xml-rs` writer, failed
    /// writes included.
    pub closed spec fn write_calls(&self) -> nat {
        self.writer.writes()
    }

    /// The settings of the `xml-rs` writer, where the serializer chose them.
    pub closed spec fn emitter_settings(&self) -> Option<EmitterSettings> {
        self.settings@
    }

    /// A serializer that neither skips tags nor renames them, with nothing written.
    pub open spec fn is_fresh(&self) -> bool {
        &&& !self.skips_start_end()
        &&& self.start_name() is None
        &&& self.emitted() == Seq::<HandedEvent>::empty()
        &&& self.write_calls() == 0
    }
}

/// The `xml-rs` writer settings that `new_from_writer` chooses for `config`:
/// CDATA is kept as CDATA, and the indent is left at two spaces unless
/// `config` gives one.
pub open spec fn settings_for(config: Config) -> EmitterSettings {
    EmitterSettings {
        perform_indent: config.perform_indent,
        write_document_declaration: config.write_document_declaration,
        cdata_to_characters: false,
        indent_string: match config.indent_string {
            Some(indent) => indent@,
            None => "  "@,
        },
    }
}

/// The `xml-rs` writer settings of `to_string`: those of the default
/// configuration.
pub open spec fn default_settings() -> EmitterSettings {
    EmitterSettings {
        perform_indent: false,
        write_document_declaration: true,
        cdata_to_characters: false,
        indent_string: "  "@,
    }
}

/// The configuration alone decides how the writer is set up: the document
/// declaration is written exactly when the configuration asks for it, the
/// output is indented exactly when it asks for it, with its indentation text
/// where it gives one, and CDATA is never turned into text; two
/// configurations that agree on these give the same writer settings.
pub proof fn lemma_config_decides_settings(c: Config, d: Config)
    ensures
        settings_for(c).write_document_declaration == c.write_document_declaration,
        settings_for(c).perform_indent == c.perform_indent,
        c.indent_string matches Some(i) ==> settings_for(c).indent_string == i@,
        !settings_for(c).cdata_to_characters,
        (c.perform_indent == d.perform_indent && c.write_document_declaration == d.write_document_declaration
            && opt_view(c.indent_string) == opt_view(d.indent_string)) ==> settings_for(c) == settings_for(d),
        !inner_settings().write_document_declaration,
        default_settings().write_document_declaration,
{
}

/// The `xml-rs` writer settings of `new_for_inner`: no document declaration,
/// and otherwise those of `xml::writer::EmitterConfig::new`.
pub open spec fn inner_settings() -> EmitterSettings {
    EmitterSettings {
        perform_indent: false,
        write_document_declaration: false,
        cdata_to_characters: false,
        indent_string: "  "@,
    }
}

impl<W: Write> Serializer<W> {
    /// A serializer over a writer that was configured elsewhere.
    pub fn new(writer: RsEventWriter<W>) -> (s: Self)
        ensures
            s.is_fresh(),
            s.emitter_settings() is None,
    {
        Serializer {
            writer: rs_emitter(writer),
            skip_start_end: false,
            start_event_name: None,
            settings: Ghost(None),
        }
    }

    /// A serializer over `writer` with the writer configured by `setup`.
    fn configured(writer: W, setup: EmitterSetup) -> (s: Self)
        ensures
            s.is_fresh(),
            s.emitter_settings() == Some(setup.settings()),
    {
        let ghost settings = setup.settings();
        Serializer {
            writer: rs_emitter(event_writer_with_config(writer, setup)),
            skip_start_end: false,
            start_event_name: None,
            settings: Ghost(Some(settings)),
        }
    }

    /// A serializer over `writer` that writes CDATA as CDATA and follows
    /// `config` for indentation and the document declaration.
    pub fn new_from_writer(writer: W, config: &Config) -> (s: Self)
        ensures
            s.is_fresh(),
            s.emitter_settings() == Some(settings_for(*config)),
    {
        let setup = emitter_config_new();
        let setup = emitter_cdata_to_characters(setup, false);
        let setup = emitter_perform_indent(setup, config.perform_indent);
        let mut setup = emitter_write_document_declaration(setup, config.write_document_declaration);
        if let Some(indent_string_value) = &config.indent_string {
            setup = emitter_indent_string(setup, indent_string_value.clone());
        }
        Self::configured(writer, setup)
    }

    /// A serializer over `writer` that writes no document declaration.
    pub fn new_for_inner(writer: W) -> (s: Self)
        ensures
            s.is_fresh(),
            s.emitter_settings() == Some(inner_settings()),
    {
        let setup = emitter_config_new();
        let setup = emitter_write_document_declaration(setup, false);
        Self::configured(writer, setup)
    }

    pub fn into_inner(self) -> W {
        event_writer_into_inner(self.writer)
    }

    pub fn skip_start_end(&self) -> (b: bool)
        ensures
            b == self.skips_start_end(),
    {
        self.skip_start_end
    }

    pub fn set_skip_start_end(&mut self, state: bool)
        ensures
            final(self).skips_start_end() == state,
            final(self).start_name() == old(self).start_name(),
            final(self).emitter_settings() == old(self).emitter_settings(),
            final(self).emitted() == old(self).emitted(),
            final(self).write_calls() == old(self).write_calls(),
    {
        self.skip_start_end = state;
    }

    pub fn get_start_event_name(&self) -> (name: Option<String>)
        ensures
            opt_view(name) == self.start_name(),
    {
        match &self.start_event_name {
            Some(name) => Some(name.clone()),
            None => None,
        }
    }

    pub fn set_start_event_name(&mut self, name: Option<String>)
        ensures
            final(self).start_name() == opt_view(name),
            final(self).skips_start_end() == old(self).skips_start_end(),
            final(self).emitter_settings() == old(self).emitter_settings(),
            final(self).emitted() == old(self).emitted(),
            final(self).write_calls() == old(self).write_calls(),
    {
        self.start_event_name = name;
    }

    /// Hands an `xml-rs` event to the writer as it is.
    pub fn write<'a, E: Into<RsWriteEvent<'a>>>(&mut self, event: E) -> (r: Result<(), RsEmitterError>)
        ensures
            final(self).skips_start_end() == old(self).skips_start_end(),
            final(self).start_name() == old(self).start_name(),
            final(self).emitter_settings() == old(self).emitter_settings(),
            r is Ok ==> final(self).emitted() == old(self).emitted().push(HandedEvent::Other),
            r is Err ==> final(self).emitted() == old(self).emitted(),
            final(self).write_calls() == old(self).write_calls() + 1,
    {
        emit_event(&mut self.writer, event)
    }

    /// Writes a parser-neutral event, as the matching `write_*` method does; a
    /// start tag is written under its name as a local name.
    pub fn write_event(&mut self, event: XmlWriteEvent<'_>) -> (r: Result<(), String>)
        ensures
            final(self).skips_start_end() == old(self).skips_start_end(),
            final(self).start_name() == old(self).start_name(),
            final(self).emitter_settings() == old(self).emitter_settings(),
            r is Ok ==> final(self).emitted() == old(self).emitted().push(handed_of_write(event@)),
            r is Err ==> final(self).emitted() == old(self).emitted(),
            final(self).write_calls() == old(self).write_calls() + 1,
    {
        match event {
            XmlWriteEvent::StartElement { name, attributes, namespace } => self.write_start_element(
                crate::xml::cow_into_string(name),
                attributes,
                namespace,
            ),
            XmlWriteEvent::EndElement => self.write_end_element(),
            XmlWriteEvent::Characters(text) => self.write_characters(crate::xml::cow_as_str(&text)),
            XmlWriteEvent::CData(text) => self.write_cdata(crate::xml::cow_as_str(&text)),
        }
    }

    /// Writes a start tag named `name` (a local name) with the given attributes,
    /// in order, and namespace bindings.
    pub fn write_start_element<S: IntoXmlString>(
        &mut self,
        name: S,
        attributes: Vec<XmlAttribute>,
        namespace: XmlNamespace,
    ) -> (r: Result<(), String>)
        ensures
            final(self).skips_start_end() == old(self).skips_start_end(),
            final(self).start_name() == old(self).start_name(),
            final(self).emitter_settings() == old(self).emitter_settings(),
            r is Ok ==> final(self).emitted() == old(self).emitted().push(
                HandedEvent::StartElement {
                    name: XmlNameView { local_name: name.text_view(), namespace: None, prefix: None },
                    attributes: attributes_view(attributes@),
                    namespace: namespace@,
                },
            ),
            r is Err ==> final(self).emitted() == old(self).emitted(),
            final(self).write_calls() == old(self).write_calls() + 1,
    {
        let name = crate::xml::XmlName::local(name.into_xml_string());
        emitted_or_message(emit_start_element(&mut self.writer, &name, &attributes, namespace.to_xml_rs()))
    }

    /// Closes the innermost open element.
    pub fn write_end_element(&mut self) -> (r: Result<(), String>)
        ensures
            final(self).skips_start_end() == old(self).skips_start_end(),
            final(self).start_name() == old(self).start_name(),
            final(self).emitter_settings() == old(self).emitter_settings(),
            r is Ok ==> final(self).emitted() == old(self).emitted().push(HandedEvent::EndElement { name: None }),
            r is Err ==> final(self).emitted() == old(self).emitted(),
            final(self).write_calls() == old(self).write_calls() + 1,
    {
        emitted_or_message(emit_end_element(&mut self.writer))
    }

    /// Writes text, which the writer escapes where XML needs it.
    pub fn write_characters(&mut self, text: &str) -> (r: Result<(), String>)
        ensures
            final(self).skips_start_end() == old(self).skips_start_end(),
            final(self).start_name() == old(self).start_name(),
            final(self).emitter_settings() == old(self).emitter_settings(),
            r is Ok ==> final(self).emitted() == old(self).emitted().push(HandedEvent::Characters(text@)),
            r is Err ==> final(self).emitted() == old(self).emitted(),
            final(self).write_calls() == old(self).write_calls() + 1,
    {
        emitted_or_message(emit_characters(&mut self.writer, text))
    }

    /// Writes a CDATA section.
    pub fn write_cdata(&mut self, text: &str) -> (r: Result<(), String>)
        ensures
            final(self).skips_start_end() == old(self).skips_start_end(),
            final(self).start_name() == old(self).start_name(),
            final(self).emitter_settings() == old(self).emitter_settings(),
            r is Ok ==> final(self).emitted() == old(self).emitted().push(HandedEvent::CData(text@)),
            r is Err ==> final(self).emitted() == old(self).emitted(),
            final(self).write_calls() == old(self).write_calls() + 1,
    {
        emitted_or_message(emit_cdata(&mut self.writer, text))
    }
}

/// `write_event` hands `xml-rs` what the matching method hands: a start tag as
/// `write_start_element` (a local name, the attributes in order, the
/// bindings), an end tag as `write_end_element`, text as `write_characters`
/// and a CDATA section as `write_cdata`.
pub proof fn lemma_write_event_as_methods(
    name: Seq<char>,
    attributes: Seq<crate::xml::name::XmlAttributeView>,
    namespace: Map<Seq<char>, Seq<char>>,
    text: Seq<char>,
)
    ensures
        handed_of_write(crate::xml::WriteEventView::StartElement { name, attributes, namespace })
            == (HandedEvent::StartElement {
            name: XmlNameView { local_name: name, namespace: None, prefix: None },
            attributes,
            namespace,
        }),
        handed_of_write(crate::xml::WriteEventView::EndElement) == (HandedEvent::EndElement { name: None }),
        handed_of_write(crate::xml::WriteEventView::Characters(text)) == HandedEvent::Characters(text),
        handed_of_write(crate::xml::WriteEventView::CData(text)) == HandedEvent::CData(text),
{
}

/// What the `serialize_with_writer` family gives back once the model has been
/// serialized with `outcome`: the writer, or the model's error unchanged.
pub fn writer_after<W: Write>(serializer: Serializer<W>, outcome: Result<(), String>) -> (r: Result<
    W,
    String,
>)
    ensures
        match outcome {
            Ok(()) => r is Ok,
            Err(msg) => r == Err::<W, String>(msg),
        },
{
    match outcome {
        Ok(()) => Ok(serializer.into_inner()),
        Err(msg) => Err(msg),
    }
}

/// Serializes `model` into `writer` with the settings of `config`, and gives the
/// writer back.
pub fn serialize_with_writer<W: Write, T: YaSerialize>(model: &T, writer: W, config: &Config) -> (r:
    Result<W, String>)
    ensures
        exists|m: &mut Serializer<W>, outcome: Result<(), String>|
            {
                &&& #[trigger] call_ensures(serialize_model::<W, T>, (model, m), outcome)
                &&& mut_ref_current(m).is_fresh()
                &&& mut_ref_current(m).emitter_settings() == Some(settings_for(*config))
                &&& match outcome {
                    Ok(()) => r is Ok,
                    Err(msg) => r == Err::<W, String>(msg),
                }
            },
{
    let mut serializer = Serializer::new_from_writer(writer, config);
    let outcome = serialize_model(model, &mut serializer);
    writer_after(serializer, outcome)
}

/// Serializes `model` with `serializer`: what the model's `serialize` does.
pub fn serialize_model<W: Write, T: YaSerialize>(model: &T, serializer: &mut Serializer<W>) -> (r: Result<(), String>) {
    model.serialize(serializer)
}

/// Serializes the content of `model` only: no document declaration and no
/// start or end tag of its own.
pub fn serialize_with_writer_content<W: Write, T: YaSerialize>(model: &T, writer: W) -> (r: Result<
    W,
    String,
>)
    ensures
        exists|m: &mut Serializer<W>, outcome: Result<(), String>|
            {
                &&& #[trigger] call_ensures(serialize_model::<W, T>, (model, m), outcome)
                &&& mut_ref_current(m).skips_start_end()
                &&& mut_ref_current(m).start_name() is None
                &&& mut_ref_current(m).emitted() == Seq::<HandedEvent>::empty()
                &&& mut_ref_current(m).write_calls() == 0
                &&& mut_ref_current(m).emitter_settings() == Some(inner_settings())
                &&& match outcome {
                    Ok(()) => r is Ok,
                    Err(msg) => r == Err::<W, String>(msg),
                }
            },
{
    let mut serializer = Serializer::new_for_inner(writer);
    serializer.set_skip_start_end(true);
    let outcome = serialize_model(model, &mut serializer);
    writer_after(serializer, outcome)
}

/// Calls `std::io::Cursor::new` on an empty byte vector.
#[verifier::external_body]
fn byte_cursor() -> std::io::Cursor<Vec<u8>> {
    std::io::Cursor::new(Vec::new())
}

/// Calls `std::io::Cursor::into_inner`.
#[verifier::external_body]
fn byte_cursor_contents(cursor: std::io::Cursor<Vec<u8>>) -> Vec<u8> {
    cursor.into_inner()
}

/// Calls `String::from_utf8`: the bytes decoded as UTF-8, or `None` where they
/// are not valid UTF-8.
#[verifier::external_body]
fn string_from_utf8(bytes: Vec<u8>) -> (r: Option<String>)
    ensures
        r is Some <==> vstd::utf8::valid_utf8(bytes@),
        r matches Some(s) ==> s@ == vstd::utf8::decode_utf8(bytes@),
{
    match String::from_utf8(bytes) {
        Ok(s) => Some(s),
        Err(_) => None,
    }
}

/// The message returned when the written bytes are not UTF-8.
pub open spec fn invalid_utf8_message() -> Seq<char> {
    "Found invalid UTF-8"@
}

/// The written bytes as text.
fn utf8_text(bytes: Vec<u8>) -> (r: Result<String, String>)
    ensures
        r matches Ok(s) ==> vstd::utf8::valid_utf8(bytes@) && s@ == vstd::utf8::decode_utf8(bytes@),
        r matches Err(m) ==> !vstd::utf8::valid_utf8(bytes@) && m@ == invalid_utf8_message(),
{
    match string_from_utf8(bytes) {
        Some(s) => Ok(s),
        None => Err("Found invalid UTF-8".to_owned()),
    }
}

/// Serializes `model` into a string with the default settings.
pub fn to_string<T: YaSerialize>(model: &T) -> (r: Result<String, String>)
    ensures
        exists|m: &mut Serializer<std::io::Cursor<Vec<u8>>>, outcome: Result<(), String>|
            {
                &&& #[trigger] call_ensures(serialize_model::<std::io::Cursor<Vec<u8>>, T>, (model, m), outcome)
                &&& mut_ref_current(m).is_fresh()
                &&& mut_ref_current(m).emitter_settings() == Some(default_settings())
                &&& (outcome matches Err(msg) ==> r == Err::<String, String>(msg))
                &&& (r is Ok ==> outcome is Ok)
            },
{
    let config = Config::default();
    to_string_with_config(model, &config)
}

/// Serializes `model` into a string with the settings of `config`.
pub fn to_string_with_config<T: YaSerialize>(model: &T, config: &Config) -> (r: Result<String, String>)
    ensures
        exists|m: &mut Serializer<std::io::Cursor<Vec<u8>>>, outcome: Result<(), String>|
            {
                &&& #[trigger] call_ensures(serialize_model::<std::io::Cursor<Vec<u8>>, T>, (model, m), outcome)
                &&& mut_ref_current(m).is_fresh()
                &&& mut_ref_current(m).emitter_settings() == Some(settings_for(*config))
                &&& (outcome matches Err(msg) ==> r == Err::<String, String>(msg))
                &&& (r is Ok ==> outcome is Ok)
            },
{
    let cursor = serialize_with_writer(model, byte_cursor(), config)?;
    utf8_text(byte_cursor_contents(cursor))
}

/// Serializes the content of `model` into a string.
pub fn to_string_content<T: YaSerialize>(model: &T) -> (r: Result<String, String>)
    ensures
        exists|m: &mut Serializer<std::io::Cursor<Vec<u8>>>, outcome: Result<(), String>|
            {
                &&& #[trigger] call_ensures(serialize_model::<std::io::Cursor<Vec<u8>>, T>, (model, m), outcome)
                &&& mut_ref_current(m).skips_start_end()
                &&& mut_ref_current(m).start_name() is None
                &&& mut_ref_current(m).emitted() == Seq::<HandedEvent>::empty()
                &&& mut_ref_current(m).emitter_settings() == Some(inner_settings())
                &&& (outcome matches Err(msg) ==> r == Err::<String, String>(msg))
                &&& (r is Ok ==> outcome is Ok)
            },
{
    let cursor = serialize_with_writer_content(model, byte_cursor())?;
    utf8_text(byte_cursor_contents(cursor))
}

} // verus!
