//! Parser-neutral XML values and the reader/writer traits that backends implement.
use vstd::prelude::*;
use std::borrow::Cow;
use vstd::std_specs::convert::FromSpecImpl;

pub mod name;
pub mod namespace;
pub mod emitter;
pub mod rs_input;
pub mod xml_rs;
mod xml_rs_types;
pub mod quick_input;
pub mod quick;
pub mod quick_laws;
mod quick_types;

pub use name::{XmlAttribute, XmlAttributeView, XmlName, XmlNameView};
pub use namespace::XmlNamespace;
pub use rs_input::{XmlRsEvent, XmlRsSource};
pub use xml_rs::{XmlRsReader, XmlRsWriter};
pub use quick::QuickXmlReader;

verus! {

/// Parser-neutral XML events produced by reader backends.
#[derive(Debug, PartialEq)]
pub enum XmlReadEvent {
    StartElement { name: XmlName, attributes: Vec<XmlAttribute>, namespace: XmlNamespace },
    EndElement { name: XmlName },
    Characters(String),
    EndDocument,
}

/// What a read event denotes.
pub enum ReadEventView {
    StartElement {
        name: XmlNameView,
        attributes: Seq<XmlAttributeView>,
        namespace: Map<Seq<char>, Seq<char>>,
    },
    EndElement { name: XmlNameView },
    Characters(Seq<char>),
    EndDocument,
}

impl View for XmlReadEvent {
    type V = ReadEventView;

    open spec fn view(&self) -> ReadEventView {
        match self {
            XmlReadEvent::StartElement { name, attributes, namespace } => ReadEventView::StartElement {
                name: name@,
                attributes: name::attributes_view(attributes@),
                namespace: namespace@,
            },
            XmlReadEvent::EndElement { name } => ReadEventView::EndElement { name: name@ },
            XmlReadEvent::Characters(text) => ReadEventView::Characters(text@),
            XmlReadEvent::EndDocument => ReadEventView::EndDocument,
        }
    }
}

/// Parser-neutral lightweight XML event: no attributes and no namespace map.
#[derive(Debug, PartialEq)]
pub enum XmlLightEvent {
    StartElement { local_name: String, namespace: Option<String> },
    EndElement { local_name: String },
    Characters(String),
    EndDocument,
}

/// What a light event denotes.
pub enum LightEventView {
    StartElement { local_name: Seq<char>, namespace: Option<Seq<char>> },
    EndElement { local_name: Seq<char> },
    Characters(Seq<char>),
    EndDocument,
}

impl View for XmlLightEvent {
    type V = LightEventView;

    open spec fn view(&self) -> LightEventView {
        match self {
            XmlLightEvent::StartElement { local_name, namespace } => LightEventView::StartElement {
                local_name: local_name@,
                namespace: name::opt_view(*namespace),
            },
            XmlLightEvent::EndElement { local_name } => LightEventView::EndElement {
                local_name: local_name@,
            },
            XmlLightEvent::Characters(text) => LightEventView::Characters(text@),
            XmlLightEvent::EndDocument => LightEventView::EndDocument,
        }
    }
}

impl Clone for XmlReadEvent {
    fn clone(&self) -> (r: Self)
        ensures
            r@ == self@,
    {
        match self {
            XmlReadEvent::StartElement { name, attributes, namespace } => XmlReadEvent::StartElement {
                name: name.clone(),
                attributes: name::clone_attributes(attributes),
                namespace: namespace.clone(),
            },
            XmlReadEvent::EndElement { name } => XmlReadEvent::EndElement { name: name.clone() },
            XmlReadEvent::Characters(text) => XmlReadEvent::Characters(text.clone()),
            XmlReadEvent::EndDocument => XmlReadEvent::EndDocument,
        }
    }
}

impl Clone for XmlLightEvent {
    fn clone(&self) -> (r: Self)
        ensures
            r == *self,
    {
        match self {
            XmlLightEvent::StartElement { local_name, namespace } => XmlLightEvent::StartElement {
                local_name: local_name.clone(),
                namespace: copy_opt_string(namespace),
            },
            XmlLightEvent::EndElement { local_name } => XmlLightEvent::EndElement {
                local_name: local_name.clone(),
            },
            XmlLightEvent::Characters(text) => XmlLightEvent::Characters(text.clone()),
            XmlLightEvent::EndDocument => XmlLightEvent::EndDocument,
        }
    }
}

/// The light form of a read event: the start and end tags keep only their local
/// name (and, for a start tag, its namespace URI).
pub open spec fn light_view(e: ReadEventView) -> LightEventView {
    match e {
        ReadEventView::StartElement { name, .. } => LightEventView::StartElement {
            local_name: name.local_name,
            namespace: name.namespace,
        },
        ReadEventView::EndElement { name } => LightEventView::EndElement {
            local_name: name.local_name,
        },
        ReadEventView::Characters(text) => LightEventView::Characters(text),
        ReadEventView::EndDocument => LightEventView::EndDocument,
    }
}

/// The light event that `from` builds out of a read event, as a value.
pub open spec fn light_of(event: &XmlReadEvent) -> XmlLightEvent {
    match event {
        XmlReadEvent::StartElement { name, .. } => XmlLightEvent::StartElement {
            local_name: name.local_name,
            namespace: name.namespace,
        },
        XmlReadEvent::EndElement { name } => XmlLightEvent::EndElement { local_name: name.local_name },
        XmlReadEvent::Characters(text) => XmlLightEvent::Characters(*text),
        XmlReadEvent::EndDocument => XmlLightEvent::EndDocument,
    }
}

/// Copies an optional string, keeping the value.
pub fn copy_opt_string(s: &Option<String>) -> (r: Option<String>)
    ensures
        r == *s,
{
    match s {
        Some(t) => Some(t.clone()),
        None => None,
    }
}

/// The light form of a read event, as a new value.
pub fn light_event_of(event: &XmlReadEvent) -> (light: XmlLightEvent)
    ensures
        light == light_of(event),
        light@ == light_view(event@),
{
    proof {
        lemma_light_of_view(event);
    }
    match event {
        XmlReadEvent::StartElement { name, .. } => XmlLightEvent::StartElement {
            local_name: name.local_name.clone(),
            namespace: copy_opt_string(&name.namespace),
        },
        XmlReadEvent::EndElement { name } => XmlLightEvent::EndElement {
            local_name: name.local_name.clone(),
        },
        XmlReadEvent::Characters(text) => XmlLightEvent::Characters(text.clone()),
        XmlReadEvent::EndDocument => XmlLightEvent::EndDocument,
    }
}

impl<'a> From<&'a XmlReadEvent> for XmlLightEvent {
    fn from(event: &'a XmlReadEvent) -> (light: Self) {
        light_event_of(event)
    }
}

impl<'a> FromSpecImpl<&'a XmlReadEvent> for XmlLightEvent {
    open spec fn obeys_from_spec() -> bool {
        true
    }

    open spec fn from_spec(event: &'a XmlReadEvent) -> XmlLightEvent {
        light_of(event)
    }
}

/// The value `light_of` builds denotes the light form of the event.
pub proof fn lemma_light_of_view(event: &XmlReadEvent)
    ensures
        light_of(event)@ == light_view(event@),
{
}

/// Parser-neutral XML write events.
#[derive(Debug, PartialEq)]
pub enum XmlWriteEvent<'a> {
    StartElement { name: Cow<'a, str>, attributes: Vec<XmlAttribute>, namespace: XmlNamespace },
    EndElement,
    Characters(Cow<'a, str>),
    CData(Cow<'a, str>),
}

/// What a write event denotes.
pub enum WriteEventView {
    StartElement {
        name: Seq<char>,
        attributes: Seq<XmlAttributeView>,
        namespace: Map<Seq<char>, Seq<char>>,
    },
    EndElement,
    Characters(Seq<char>),
    CData(Seq<char>),
}

impl<'a> View for XmlWriteEvent<'a> {
    type V = WriteEventView;

    open spec fn view(&self) -> WriteEventView {
        match self {
            XmlWriteEvent::StartElement { name, attributes, namespace } => WriteEventView::StartElement {
                name: name@,
                attributes: name::attributes_view(attributes@),
                namespace: namespace@,
            },
            XmlWriteEvent::EndElement => WriteEventView::EndElement,
            XmlWriteEvent::Characters(text) => WriteEventView::Characters(text@),
            XmlWriteEvent::CData(text) => WriteEventView::CData(text@),
        }
    }
}

/// A copy of borrowed-or-owned text that borrows wherever `text` borrows.
pub fn copy_cow<'a>(text: &Cow<'a, str>) -> (r: Cow<'a, str>)
    ensures
        r@ == text@,
{
    match text {
        Cow::Borrowed(b) => Cow::Borrowed(*b),
        Cow::Owned(o) => Cow::Owned(o.clone()),
    }
}

impl<'a> Clone for XmlWriteEvent<'a> {
    fn clone(&self) -> (r: Self)
        ensures
            r@ == self@,
    {
        match self {
            XmlWriteEvent::StartElement { name, attributes, namespace } => XmlWriteEvent::StartElement {
                name: copy_cow(name),
                attributes: name::clone_attributes(attributes),
                namespace: namespace.clone(),
            },
            XmlWriteEvent::EndElement => XmlWriteEvent::EndElement,
            XmlWriteEvent::Characters(text) => XmlWriteEvent::Characters(copy_cow(text)),
            XmlWriteEvent::CData(text) => XmlWriteEvent::CData(copy_cow(text)),
        }
    }
}

/// The text of a borrowed-or-owned string.
pub fn cow_as_str<'b>(text: &'b Cow<'_, str>) -> (s: &'b str)
    ensures
        s@ == text@,
{
    match text {
        Cow::Borrowed(b) => b,
        Cow::Owned(o) => o.as_str(),
    }
}

/// An owned copy of borrowed-or-owned text.
pub fn cow_into_string<'a>(text: Cow<'a, str>) -> (s: String)
    ensures
        s@ == text@,
{
    match text {
        Cow::Borrowed(b) => b.to_owned(),
        Cow::Owned(o) => o,
    }
}

/// Low-level pull-reader trait implemented by XML parser backends.
///
/// Only `next_event` must be written; the light-event fast paths are optional and,
/// unless a backend overrides them, report that they are not supported.
pub trait XmlEventReader {
    /// Advances the parser and returns the next event: declarations,
    /// processing instructions and comments are never returned, text and
    /// CDATA come as `Characters`, and the end of the input as `EndDocument`.
    fn next_event(&mut self) -> Result<XmlReadEvent, String>;

    /// Whether the backend implements the light-event methods below.
    fn supports_light_events(&self) -> (r: bool)
        default_ensures
            r == false,
    {
        false
    }

    /// The next event in light form, without consuming it; calling it again
    /// gives the same event.
    fn peek_light_event(&mut self) -> (r: Result<XmlLightEvent, String>)
        default_ensures
            r matches Err(msg) && msg@ == "light events are not supported by this backend"@,
    {
        Err("light events are not supported by this backend".to_owned())
    }

    /// Consumes the next event and returns its light form.
    fn next_light_event(&mut self) -> (r: Result<XmlLightEvent, String>)
        default_ensures
            exists|m: &mut Self, e: Result<XmlReadEvent, String>|
                {
                    &&& #[trigger] call_ensures(Self::next_event, (m,), e)
                    &&& &*m == &*old(self)
                    &&& &*final(m) == &*final(self)
                    &&& match e {
                        Ok(event) => r matches Ok(l) && l@ == light_view(event@),
                        Err(msg) => r == Err::<XmlLightEvent, String>(msg),
                    }
                },
    {
        let event = self.next_event()?;
        Ok(light_event_of(&event))
    }

    /// The attributes of the next event if it is a start tag, `None` for
    /// another event; the event is not consumed.
    fn peek_attributes(&mut self) -> (r: Result<Option<Vec<XmlAttribute>>, String>)
        default_ensures
            r matches Err(msg) && msg@ == "attribute peeking is not supported by this backend"@,
    {
        Err("attribute peeking is not supported by this backend".to_owned())
    }

    /// Consumes the start tag that comes next and the text up to its end tag,
    /// which stays unconsumed; `None` for an element without text.
    fn read_inner_text(&mut self) -> (r: Result<Option<String>, String>)
        default_ensures
            r matches Err(msg) && msg@ == "inner text fast path is not supported by this backend"@,
    {
        Err("inner text fast path is not supported by this backend".to_owned())
    }
}

impl<T: XmlEventReader + ?Sized> XmlEventReader for Box<T> {
    fn next_event(&mut self) -> Result<XmlReadEvent, String> {
        (**self).next_event()
    }

    /// What the boxed reader answers.
    fn supports_light_events(&self) -> (r: bool)
        ensures
            call_ensures(T::supports_light_events, (&**self,), r),
    {
        (**self).supports_light_events()
    }

    fn peek_light_event(&mut self) -> Result<XmlLightEvent, String> {
        (**self).peek_light_event()
    }

    fn next_light_event(&mut self) -> Result<XmlLightEvent, String> {
        (**self).next_light_event()
    }

    fn peek_attributes(&mut self) -> Result<Option<Vec<XmlAttribute>>, String> {
        (**self).peek_attributes()
    }

    fn read_inner_text(&mut self) -> Result<Option<String>, String> {
        (**self).read_inner_text()
    }
}

/// Low-level writer trait for XML emitter backends.
pub trait XmlEventWriter {
    fn write_event(&mut self, event: XmlWriteEvent<'_>) -> Result<(), String>;
}

impl<T: XmlEventWriter + ?Sized> XmlEventWriter for Box<T> {
    fn write_event(&mut self, event: XmlWriteEvent<'_>) -> Result<(), String> {
        (**self).write_event(event)
    }
}

} // verus!
