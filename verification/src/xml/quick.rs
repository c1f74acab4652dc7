//! The `quick-xml` backend: a pull reader with a one-event look-ahead, light
//! events, attribute peeking and an inner-text fast path.  Adjacent text and
//! CDATA sections are joined into one trimmed text event.
use vstd::prelude::*;
use std::collections::VecDeque;
use std::io::BufRead;
use quick_xml::events::attributes::Attribute as QuickAttribute;
use quick_xml::events::attributes::Attributes as QuickAttributes;
use quick_xml::events::BytesEnd as QuickEnd;
use quick_xml::events::BytesStart as QuickStart;
use quick_xml::name::NamespaceBindingsIter as QuickBindings;
use quick_xml::name::PrefixDeclaration as QuickPrefixDeclaration;
use quick_xml::name::QName as QuickQName;
use quick_xml::name::ResolveResult as QuickResolveResult;
use quick_xml::reader::NsReader as QuickNsReader;
use quick_xml::Error as QuickError;
use crate::xml::quick_input::{
    attribute_key, attribute_value, cdata_decode, input_of, next_attribute, quick_read,
    read_quick_event, resolve_attribute_name, resolve_element_name, text_decode, QuickInput,
    QuickRawEvent, QuickSource, RawKind, TraceEntry, kind_of,
};
use crate::text::{
    chars_of, split_once_chars, split_once_spec, strip_prefix_spec, strip_prefix_text,
    trim_end_char, trim_end_char_text, trim_text, trim_ws,
};
use crate::xml::name::{attributes_view, opt_view, XmlAttribute, XmlAttributeView, XmlName, XmlNameView};
use crate::xml::namespace::XmlNamespace;
use crate::xml::{
    light_view, LightEventView, ReadEventView, XmlEventReader, XmlLightEvent, XmlReadEvent,
};

verus! {

/// The characters that `String::from_utf8_lossy` makes of `bytes`.
pub uninterp spec fn lossy_utf8(bytes: Seq<u8>) -> Seq<char>;

/// Calls `String::from_utf8_lossy`: valid UTF-8 is decoded, each invalid
/// sequence becomes U+FFFD.
#[verifier::external_body]
pub(crate) fn lossy_string(bytes: &[u8]) -> (s: String)
    ensures
        s@ == lossy_utf8(bytes@),
        vstd::utf8::valid_utf8(bytes@) ==> s@ == vstd::utf8::decode_utf8(bytes@),
{
    String::from_utf8_lossy(bytes).into_owned()
}

/// The settings of a `quick_xml::reader::Config` that the reader chooses.
pub struct QuickSettings {
    pub trim_text_start: bool,
    pub trim_text_end: bool,
    pub expand_empty_elements: bool,
    pub check_end_names: bool,
}

/// A `quick_xml::reader::NsReader` together with the settings of its
/// configuration.
#[verifier::reject_recursive_types(R)]
pub struct QuickSetup<R> {
    reader: QuickNsReader<R>,
    settings: Ghost<QuickSettings>,
}

impl<R> QuickSetup<R> {
    /// The settings the reader's configuration holds.
    pub closed spec fn settings(&self) -> QuickSettings {
        self.settings@
    }
}

/// Pairs the reader with `read_event_into`.
#[verifier::external_body]
fn quick_source<R: BufRead>(setup: QuickSetup<R>) -> QuickSource<R> {
    QuickSource { reader: setup.reader, read: read_quick_event::<R> }
}

/// Calls `quick_xml::reader::NsReader::from_reader`, whose configuration is
/// `quick_xml::reader::Config::default()`: text left untrimmed, self-closing
/// tags reported as such, end tags checked against start tags.
#[verifier::external_body]
fn ns_reader_from_reader<R>(reader: R) -> (r: QuickSetup<R>)
    ensures
        r.settings() == (QuickSettings {
            trim_text_start: false,
            trim_text_end: false,
            expand_empty_elements: false,
            check_end_names: true,
        }),
{
    QuickSetup {
        reader: QuickNsReader::from_reader(reader),
        settings: Ghost(
            QuickSettings {
                trim_text_start: false,
                trim_text_end: false,
                expand_empty_elements: false,
                check_end_names: true,
            },
        ),
    }
}

/// Calls `quick_xml::reader::Config::trim_text` on the reader's configuration,
/// which sets trimming at both ends of text.
#[verifier::external_body]
fn set_trim_text<R>(setup: &mut QuickSetup<R>, value: bool)
    ensures
        final(setup).settings() == (QuickSettings {
            trim_text_start: value,
            trim_text_end: value,
            ..old(setup).settings()
        }),
{
    setup.settings = Ghost(QuickSettings { trim_text_start: value, trim_text_end: value, ..setup.settings@ });
    setup.reader.config_mut().trim_text(value)
}

/// Sets `expand_empty_elements` in the reader's `quick_xml::reader::Config`.
#[verifier::external_body]
fn set_expand_empty_elements<R>(setup: &mut QuickSetup<R>, value: bool)
    ensures
        final(setup).settings() == (QuickSettings { expand_empty_elements: value, ..old(setup).settings() }),
{
    setup.settings = Ghost(QuickSettings { expand_empty_elements: value, ..setup.settings@ });
    setup.reader.config_mut().expand_empty_elements = value;
}

/// Sets `check_end_names` in the reader's `quick_xml::reader::Config`.
#[verifier::external_body]
fn set_check_end_names<R>(setup: &mut QuickSetup<R>, value: bool)
    ensures
        final(setup).settings() == (QuickSettings { check_end_names: value, ..old(setup).settings() }),
{
    setup.settings = Ghost(QuickSettings { check_end_names: value, ..setup.settings@ });
    setup.reader.config_mut().check_end_names = value;
}

/// The bytes of the qualified name of a start tag (`BytesStart::name`).
#[verifier::external_body]
fn start_qname(start: &QuickStart<'_>) -> Vec<u8> {
    start.name().as_ref().to_vec()
}

/// The bytes of the qualified name of an end tag (`BytesEnd::name`).
#[verifier::external_body]
fn end_qname(end: &QuickEnd<'_>) -> Vec<u8> {
    end.name().as_ref().to_vec()
}

/// A `quick_xml::name::ResolveResult`, with the bytes it holds copied.
pub enum QuickResolve {
    Bound(Vec<u8>),
    Unbound,
    Unknown(Vec<u8>),
}

/// Copies the bytes out of a `quick_xml::name::ResolveResult`.
#[verifier::external_body]
pub(crate) fn resolve_fields(result: QuickResolveResult<'_>) -> QuickResolve {
    match result {
        QuickResolveResult::Bound(ns) => QuickResolve::Bound(ns.0.to_vec()),
        QuickResolveResult::Unbound => QuickResolve::Unbound,
        QuickResolveResult::Unknown(prefix) => QuickResolve::Unknown(prefix),
    }
}

/// Calls `quick_xml::events::BytesStart::attributes`.
#[verifier::external_body]
fn start_attributes<'a>(start: &'a QuickStart<'_>) -> QuickAttributes<'a> {
    start.attributes()
}

/// What `quick_xml::escape::unescape` makes of `raw`: `Ok` with the text where
/// every reference is replaced, or `Err` with the message of its error.
pub uninterp spec fn xml_unescape(raw: Seq<char>) -> Result<Seq<char>, Seq<char>>;

/// Calls `quick_xml::escape::unescape`; an error becomes its message.
#[verifier::external_body]
fn unescape_text(raw: &str) -> (r: Result<String, String>)
    ensures
        match (r, xml_unescape(raw@)) {
            (Ok(s), Ok(t)) => s@ == t,
            (Err(m), Err(t)) => m@ == t,
            _ => false,
        },
{
    match quick_xml::escape::unescape(raw) {
        Ok(s) => Ok(s.into_owned()),
        Err(e) => Err(e.to_string()),
    }
}

/// The `Display` text of a `quick_xml::Error`.
#[verifier::external_body]
fn quick_error_text(error: QuickError) -> String {
    error.to_string()
}

/// Calls `quick_xml::name::NamespaceResolver::bindings` on the reader's
/// resolver: the bindings in scope, the innermost last.
#[verifier::external_body]
fn binding_iter<'a, R>(source: &'a QuickSource<R>) -> QuickBindings<'a> {
    source.reader.resolver().bindings()
}

/// Calls `Iterator::next` on the bindings and copies the prefix and URI bytes
/// out; `None` stands for the default namespace.
#[verifier::external_body]
fn next_binding(bindings: &mut QuickBindings<'_>) -> Option<(Option<Vec<u8>>, Vec<u8>)> {
    match bindings.next() {
        Some((QuickPrefixDeclaration::Default, uri)) => Some((None, uri.0.to_vec())),
        Some((QuickPrefixDeclaration::Named(prefix), uri)) => Some((Some(prefix.to_vec()), uri.0.to_vec())),
        None => None,
    }
}

/// The namespace bindings in scope at the last event read, in the order the
/// resolver lists them.  (A scope cannot hold more bindings than a `u64`
/// counts; the loop stops there.)
fn namespace_bindings<R>(source: &QuickSource<R>) -> Vec<(Option<Vec<u8>>, Vec<u8>)> {
    let mut iter = binding_iter(source);
    let mut out: Vec<(Option<Vec<u8>>, Vec<u8>)> = Vec::new();
    let mut count: u64 = 0;
    while count < u64::MAX
        decreases u64::MAX - count,
    {
        match next_binding(&mut iter) {
            Some(binding) => out.push(binding),
            None => {
                return out;
            },
        }
        count = count + 1;
    }
    out
}

/// The position of the first `:` in `q` at or after `i`.
pub open spec fn first_colon_from(q: Seq<u8>, i: int) -> Option<int>
    decreases q.len() - i,
{
    if i < 0 || i >= q.len() {
        None
    } else if q[i] == 58u8 {
        Some(i)
    } else {
        first_colon_from(q, i + 1)
    }
}

/// The local part of a qualified name: what follows its first `:`, or all of
/// it (`quick_xml::name::QName::decompose`).
pub open spec fn qname_local(q: Seq<u8>) -> Seq<u8> {
    match first_colon_from(q, 0) {
        Some(i) => q.skip(i + 1),
        None => q,
    }
}

/// The prefix of a qualified name: what precedes its first `:`, if it has one.
pub open spec fn qname_prefix(q: Seq<u8>) -> Option<Seq<u8>> {
    match first_colon_from(q, 0) {
        Some(i) => Some(q.take(i)),
        None => None,
    }
}

/// Splits a qualified name at its first `:` into local part and prefix, as
/// `quick_xml::name::QName::decompose` does.
pub fn decompose_qname(q: &Vec<u8>) -> (r: (Vec<u8>, Option<Vec<u8>>))
    ensures
        r.0@ == qname_local(q@),
        match (r.1, qname_prefix(q@)) {
            (Some(p), Some(x)) => p@ == x,
            (None, None) => true,
            _ => false,
        },
{
    let mut i: usize = 0;
    while i < q.len()
        invariant
            i <= q@.len(),
            first_colon_from(q@, 0) == first_colon_from(q@, i as int),
        decreases q@.len() - i,
    {
        if q[i] == 58u8 {
            let local = bytes_range(q, i + 1, q.len());
            let prefix = bytes_range(q, 0, i);
            assert(q@.subrange(i + 1, q@.len() as int) =~= q@.skip(i + 1));
            assert(q@.subrange(0, i as int) =~= q@.take(i as int));
            return (local, Some(prefix));
        }
        i += 1;
    }
    (bytes_range(q, 0, q.len()), None)
}

/// The bytes of `v` from `start` up to `end`.
fn bytes_range(v: &Vec<u8>, start: usize, end: usize) -> (r: Vec<u8>)
    requires
        start <= end <= v@.len(),
    ensures
        r@ == v@.subrange(start as int, end as int),
{
    let mut r: Vec<u8> = Vec::new();
    let mut i = start;
    while i < end
        invariant
            start <= i <= end <= v@.len(),
            r@ == v@.subrange(start as int, i as int),
        decreases end - i,
    {
        r.push(v[i]);
        i += 1;
        assert(r@ =~= v@.subrange(start as int, i as int));
    }
    r
}

/// Whether an attribute name declares a namespace binding: `xmlns` or
/// `xmlns:` followed by a prefix (`quick_xml::name::QName::as_namespace_binding`).
pub open spec fn is_xmlns_binding(key: Seq<u8>) -> bool {
    &&& key.len() >= 5
    &&& key[0] == 120u8 && key[1] == 109u8 && key[2] == 108u8 && key[3] == 110u8 && key[4] == 115u8
    &&& (key.len() == 5 || key[5] == 58u8)
}

pub fn is_namespace_binding(key: &Vec<u8>) -> (b: bool)
    ensures
        b == is_xmlns_binding(key@),
{
    key.len() >= 5 && key[0] == 120u8 && key[1] == 109u8 && key[2] == 108u8 && key[3] == 110u8
        && key[4] == 115u8 && (key.len() == 5 || key[5] == 58u8)
}

/// What a `QuickResolve` denotes.
pub enum ResolveView {
    Bound(Seq<u8>),
    Unbound,
    Unknown(Seq<u8>),
}

impl View for QuickResolve {
    type V = ResolveView;

    open spec fn view(&self) -> ResolveView {
        match self {
            QuickResolve::Bound(ns) => ResolveView::Bound(ns@),
            QuickResolve::Unbound => ResolveView::Unbound,
            QuickResolve::Unknown(p) => ResolveView::Unknown(p@),
        }
    }
}

/// The message for a prefix that no binding in scope declares.
pub open spec fn unknown_prefix_message(prefix: Seq<u8>) -> Seq<char> {
    "unknown namespace prefix "@ + lossy_utf8(prefix)
}

/// The name that a qualified name and its resolution denote.
pub open spec fn name_of_qname(q: Seq<u8>, resolve: ResolveView) -> Result<XmlNameView, Seq<char>> {
    let prefix = match qname_prefix(q) {
        Some(p) => Some(lossy_utf8(p)),
        None => None,
    };
    match resolve {
        ResolveView::Unknown(p) => Err(unknown_prefix_message(p)),
        ResolveView::Bound(ns) => Ok(XmlNameView {
            local_name: lossy_utf8(qname_local(q)),
            namespace: Some(lossy_utf8(ns)),
            prefix,
        }),
        ResolveView::Unbound => Ok(XmlNameView {
            local_name: lossy_utf8(qname_local(q)),
            namespace: None,
            prefix,
        }),
    }
}

/// Builds the name of an element or attribute from its qualified name and the
/// namespace it resolved to.
pub fn name_from_qname_with_resolve(q: &Vec<u8>, resolve: QuickResolve) -> (r: Result<XmlName, String>)
    ensures
        match (r, name_of_qname(q@, resolve@)) {
            (Ok(n), Ok(v)) => n@ == v,
            (Err(m), Err(v)) => m@ == v,
            _ => false,
        },
{
    let (local, prefix) = decompose_qname(q);
    let namespace = match resolve {
        QuickResolve::Bound(ns) => Some(lossy_string(ns.as_slice())),
        QuickResolve::Unbound => None,
        QuickResolve::Unknown(p) => {
            let mut msg = "unknown namespace prefix ".to_owned();
            let lossy = lossy_string(p.as_slice());
            msg.append(lossy.as_str());
            return Err(msg);
        },
    };
    let prefix = match prefix {
        Some(p) => Some(lossy_string(p.as_slice())),
        None => None,
    };
    Ok(XmlName { local_name: lossy_string(local.as_slice()), namespace, prefix })
}

/// The start of the `quick-xml` message for a closing tag that does not match.
pub open spec fn ill_formed_prefix() -> Seq<char> {
    "ill-formed document: expected `</"@
}

/// The message that the reader reports for a `quick-xml` error whose text is
/// `msg`: a mismatched closing tag is reported as
/// `Unexpected closing tag: <found> != <expected>`, anything else as it is.
pub open spec fn closing_tag_message(msg: Seq<char>) -> Seq<char> {
    match strip_prefix_spec(msg, ill_formed_prefix()) {
        Some(rest) => match split_once_spec(rest, "`, but `</"@) {
            Some((expected, tail)) => match split_once_spec(tail, ">` was found"@) {
                Some((found, _)) => "Unexpected closing tag: "@ + trim_end_char(found, '>') + " != "@
                    + trim_end_char(expected, '>'),
                None => msg,
            },
            None => msg,
        },
        None => msg,
    }
}

/// Rewrites the text of a `quick-xml` error as `closing_tag_message` says.
pub fn map_quick_error_text(msg: String) -> (r: String)
    ensures
        r@ == closing_tag_message(msg@),
{
    if let Some(rest) = strip_prefix_text(msg.as_str(), "ill-formed document: expected `</") {
        let rest_chars = chars_of(rest.as_str());
        let sep = chars_of("`, but `</");
        if let Some((expected, tail)) = split_once_chars(&rest_chars, &sep) {
            let tail_chars = chars_of(tail.as_str());
            let end = chars_of(">` was found");
            if let Some((found, _)) = split_once_chars(&tail_chars, &end) {
                let mut out = "Unexpected closing tag: ".to_owned();
                let found_trimmed = trim_end_char_text(found.as_str(), '>');
                let expected_trimmed = trim_end_char_text(expected.as_str(), '>');
                out.append(found_trimmed.as_str());
                out.append(" != ");
                out.append(expected_trimmed.as_str());
                return out;
            }
        }
    }
    msg
}

/// The message the reader reports for a `quick-xml` error: the error's text,
/// rewritten as `closing_tag_message` says.
fn map_quick_error(error: QuickError) -> (r: String)
    ensures
        exists|text: Seq<char>| r@ == closing_tag_message(text),
{
    let text = quick_error_text(error);
    let ghost raw = text@;
    let r = map_quick_error_text(text);
    assert(r@ == closing_tag_message(raw));
    r
}

/// A `quick-xml` event as plain values: names resolved, attributes parsed,
/// text decoded and unescaped (not yet trimmed).
pub enum QuickEvent {
    Start { name: XmlName, attributes: Vec<XmlAttribute> },
    Empty { name: XmlName, attributes: Vec<XmlAttribute> },
    End { name: XmlName },
    Text(String),
    CData(String),
    Eof,
    Skipped,
}

/// The events the reader produces before they are given their namespace map.
pub enum InternalEvent {
    StartElement { name: XmlName, attributes: Vec<XmlAttribute> },
    EndElement { name: XmlName },
    Characters(String),
    EndDocument,
}

/// What an internal event denotes.
pub enum InternalEventView {
    StartElement { name: XmlNameView, attributes: Seq<crate::xml::name::XmlAttributeView> },
    EndElement { name: XmlNameView },
    Characters(Seq<char>),
    EndDocument,
}

impl View for InternalEvent {
    type V = InternalEventView;

    open spec fn view(&self) -> InternalEventView {
        match self {
            InternalEvent::StartElement { name, attributes } => InternalEventView::StartElement {
                name: name@,
                attributes: attributes_view(attributes@),
            },
            InternalEvent::EndElement { name } => InternalEventView::EndElement { name: name@ },
            InternalEvent::Characters(text) => InternalEventView::Characters(text@),
            InternalEvent::EndDocument => InternalEventView::EndDocument,
        }
    }
}

/// The light form of an internal event.
pub open spec fn internal_light(e: InternalEventView) -> LightEventView {
    match e {
        InternalEventView::StartElement { name, .. } => LightEventView::StartElement {
            local_name: name.local_name,
            namespace: name.namespace,
        },
        InternalEventView::EndElement { name } => LightEventView::EndElement { local_name: name.local_name },
        InternalEventView::Characters(text) => LightEventView::Characters(text),
        InternalEventView::EndDocument => LightEventView::EndDocument,
    }
}

/// The message for a document that ends before any element.
pub open spec fn no_root_message() -> Seq<char> {
    "Unexpected end of stream: no root element found"@
}

/// Whether `name` is the name of an attribute that is no namespace
/// declaration, resolved from its qualified name.
#[verifier::opaque]
pub open spec fn resolved_attribute_name(name: XmlNameView) -> bool {
    exists|q: Seq<u8>, resolve: ResolveView|
        !is_xmlns_binding(q) && #[trigger] name_of_qname(q, resolve) == Ok::<XmlNameView, Seq<char>>(name)
}

/// How many attributes the attribute iterator gave in `s`.
pub open spec fn listed_count(s: Seq<TraceEntry>) -> nat
    decreases s.len(),
{
    if s.len() == 0 {
        0
    } else {
        listed_count(s.drop_last()) + if s.last() is AttributeListed { 1nat } else { 0nat }
    }
}

/// How many attribute names were taken in `s`.
pub open spec fn key_count(s: Seq<TraceEntry>) -> nat
    decreases s.len(),
{
    if s.len() == 0 {
        0
    } else {
        key_count(s.drop_last()) + if s.last() is AttributeKey { 1nat } else { 0nat }
    }
}

/// The attribute names taken in `s` that are no namespace declaration, in order.
pub open spec fn kept_keys(s: Seq<TraceEntry>) -> Seq<Seq<u8>>
    decreases s.len(),
{
    if s.len() == 0 {
        Seq::empty()
    } else {
        match s.last() {
            TraceEntry::AttributeKey(k) => if is_xmlns_binding(k) {
                kept_keys(s.drop_last())
            } else {
                kept_keys(s.drop_last()).push(k)
            },
            _ => kept_keys(s.drop_last()),
        }
    }
}

/// The attribute names resolved in `s`, with what each resolved to, in order.
pub open spec fn attribute_resolutions(s: Seq<TraceEntry>) -> Seq<(Seq<u8>, ResolveView)>
    decreases s.len(),
{
    if s.len() == 0 {
        Seq::empty()
    } else {
        match s.last() {
            TraceEntry::ResolvedAttribute(q, r) => attribute_resolutions(s.drop_last()).push((q, r)),
            _ => attribute_resolutions(s.drop_last()),
        }
    }
}

/// The attribute values unescaped in `s`, in order.
pub open spec fn attribute_values(s: Seq<TraceEntry>) -> Seq<Seq<char>>
    decreases s.len(),
{
    if s.len() == 0 {
        Seq::empty()
    } else {
        match s.last() {
            TraceEntry::AttributeValue(v) => attribute_values(s.drop_last()).push(v),
            _ => attribute_values(s.drop_last()),
        }
    }
}

/// Whether `found` are the attributes read in `seg`: each attribute given
/// had its name taken, and the names that are no namespace declaration are,
/// in order, those of `found`, each resolved in scope, with its unescaped value.
pub open spec fn attributes_read(seg: Seq<TraceEntry>, found: Seq<XmlAttributeView>) -> bool {
    &&& listed_count(seg) == key_count(seg)
    &&& kept_keys(seg).len() == found.len()
    &&& attribute_resolutions(seg).len() == found.len()
    &&& attribute_values(seg).len() == found.len()
    &&& attribute_resolutions_ok(attribute_resolutions(seg))
    &&& forall|i: int|
        0 <= i < found.len() ==> {
            &&& #[trigger] attribute_resolutions(seg)[i].0 == kept_keys(seg)[i]
            &&& name_of_qname(attribute_resolutions(seg)[i].0, attribute_resolutions(seg)[i].1)
                == Ok::<XmlNameView, Seq<char>>(found[i].name)
            &&& found[i].value == attribute_values(seg)[i]
        }
}

/// The trace functions over `s` extended by one entry.
proof fn lemma_trace_push(s: Seq<TraceEntry>, e: TraceEntry)
    ensures
        listed_count(s.push(e)) == listed_count(s) + if e is AttributeListed { 1nat } else { 0nat },
        key_count(s.push(e)) == key_count(s) + if e is AttributeKey { 1nat } else { 0nat },
        kept_keys(s.push(e)) == match e {
            TraceEntry::AttributeKey(k) => if is_xmlns_binding(k) {
                kept_keys(s)
            } else {
                kept_keys(s).push(k)
            },
            _ => kept_keys(s),
        },
        attribute_resolutions(s.push(e)) == match e {
            TraceEntry::ResolvedAttribute(q, r) => attribute_resolutions(s).push((q, r)),
            _ => attribute_resolutions(s),
        },
        attribute_values(s.push(e)) == match e {
            TraceEntry::AttributeValue(v) => attribute_values(s).push(v),
            _ => attribute_values(s),
        },
        pieces(s.push(e)) == pieces(s) + piece(e),
{
    assert(s.push(e).drop_last() =~= s);
}

/// Parses the attributes of a start tag, leaving out namespace declarations,
/// resolving each name in the current scope and unescaping each value: every
/// attribute the start tag lists, in order, until the list ends.
#[verifier::rlimit(40)]
fn attributes_from_start<R>(input: &mut QuickInput<R>, start: &QuickStart<'_>) -> (r: Result<
    Vec<XmlAttribute>,
    String,
>)
    ensures
        r matches Ok(found) ==> forall|i: int|
            0 <= i < found@.len() ==> resolved_attribute_name(#[trigger] found@[i].name@),
        extends(old(input).trace(), final(input).trace()),
        pieces(final(input).trace().skip(old(input).trace().len() as int)) == Seq::<char>::empty(),
        r matches Ok(found) ==> {
            let seg = final(input).trace().skip(old(input).trace().len() as int);
            &&& seg.len() > 0
            &&& seg.last() == TraceEntry::AttributesEnd
            &&& attributes_read(seg, attributes_view(found@))
        },
{
    let ghost t0 = input.trace();
    let mut attributes: Vec<XmlAttribute> = Vec::new();
    let mut iter = start_attributes(start);
    let mut count: u64 = 0;
    proof {
        assert(input.trace().skip(t0.len() as int) =~= Seq::<TraceEntry>::empty());
        assert(input.trace().take(t0.len() as int) =~= t0);
        assert(attributes_view(attributes@) =~= Seq::<XmlAttributeView>::empty());
    }
    loop
        invariant
            t0 == old(input).trace(),
            extends(t0, input.trace()),
            forall|i: int|
                0 <= i < attributes@.len() ==> resolved_attribute_name(#[trigger] attributes@[i].name@),
            pieces(input.trace().skip(t0.len() as int)) == Seq::<char>::empty(),
            attributes_read(input.trace().skip(t0.len() as int), attributes_view(attributes@)),
        decreases u64::MAX - count,
    {
        let ghost seg0 = input.trace().skip(t0.len() as int);
        let ghost t1 = input.trace();
        let listed = next_attribute(input, &mut iter);
        proof {
            let t2 = input.trace();
            assert(t2.take(t0.len() as int) =~= t0);
            if t2.len() > t1.len() {
                assert(t2.skip(t0.len() as int) =~= seg0.push(t2.last()));
                lemma_trace_push(seg0, t2.last());
                assert(pieces(seg0) + Seq::<char>::empty() =~= pieces(seg0));
            }
        }
        match listed {
            None => {
                let res: Result<Vec<XmlAttribute>, String> = Ok(attributes);
                assert(res->Ok_0@ == attributes@);
                assert(forall|i: int|
                    0 <= i < res->Ok_0@.len() ==> resolved_attribute_name(#[trigger] res->Ok_0@[i].name@));
                return res;
            },
            Some(Err(msg)) => {
                return Err(msg);
            },
            Some(Ok(attribute)) => {
                let ghost seg1 = input.trace().skip(t0.len() as int);
                let key = attribute_key(input, &attribute);
                proof {
                    let t3 = input.trace();
                    assert(t3.take(t0.len() as int) =~= t0);
                    assert(t3.skip(t0.len() as int) =~= seg1.push(TraceEntry::AttributeKey(key@)));
                    lemma_trace_push(seg1, TraceEntry::AttributeKey(key@));
                    assert(pieces(seg1) + Seq::<char>::empty() =~= pieces(seg1));
                }
                if !is_namespace_binding(&key) {
                    let ghost seg2 = input.trace().skip(t0.len() as int);
                    let resolve = resolve_attribute_name(input, key.as_slice());
                    let ghost resolved = resolve@;
                    proof {
                        let t4 = input.trace();
                        assert(t4.take(t0.len() as int) =~= t0);
                        assert(t4.skip(t0.len() as int) =~= seg2.push(TraceEntry::ResolvedAttribute(key@, resolved)));
                        lemma_trace_push(seg2, TraceEntry::ResolvedAttribute(key@, resolved));
                        assert(pieces(seg2) + Seq::<char>::empty() =~= pieces(seg2));
                    }
                    let name = name_from_qname_with_resolve(&key, resolve)?;
                    assert(name_of_qname(key@, resolved) == Ok::<XmlNameView, Seq<char>>(name@));
                    assert(resolved_attribute_name(name@)) by {
                        reveal(resolved_attribute_name);
                    }
                    let ghost name_view = name@;
                    let ghost seg3 = input.trace().skip(t0.len() as int);
                    let value = attribute_value(input, &attribute)?;
                    proof {
                        let t5 = input.trace();
                        assert(t5.take(t0.len() as int) =~= t0);
                        assert(t5.skip(t0.len() as int) =~= seg3.push(TraceEntry::AttributeValue(value@)));
                        lemma_trace_push(seg3, TraceEntry::AttributeValue(value@));
                        assert(pieces(seg3) + Seq::<char>::empty() =~= pieces(seg3));
                    }
                    let ghost before = attributes@;
                    let ghost value_view = value@;
                    attributes.push(XmlAttribute { name, value });
                    assert forall|i: int| 0 <= i < attributes@.len() implies resolved_attribute_name(
                        #[trigger] attributes@[i].name@,
                    ) by {
                        if i < before.len() {
                            assert(attributes@[i] == before[i]);
                        } else {
                            assert(attributes@[i].name@ == name_view);
                        }
                    }
                    proof {
                        let seg = input.trace().skip(t0.len() as int);
                        assert(attributes_view(attributes@) =~= attributes_view(before).push(
                            XmlAttributeView { name: name_view, value: value_view },
                        ));
                        assert(attributes_read(seg, attributes_view(attributes@)));
                    }
                }
            },
        }
        if count == u64::MAX {
            return Err("Too many attributes in one start tag".to_owned());
        }
        count = count + 1;
    }
}

/// The characters a trace entry contributes to text: decoded text unescaped
/// (nothing where it does not unescape), decoded CDATA as it is, reads nothing.
pub open spec fn piece(e: TraceEntry) -> Seq<char> {
    match e {
        TraceEntry::DecodedText(d) => match xml_unescape(d) {
            Ok(u) => u,
            Err(_) => Seq::empty(),
        },
        TraceEntry::DecodedCData(d) => d,
        _ => Seq::empty(),
    }
}

/// The characters a stretch of the trace contributes to text, in order.
pub open spec fn pieces(s: Seq<TraceEntry>) -> Seq<char>
    decreases s.len(),
{
    if s.len() == 0 {
        Seq::empty()
    } else {
        pieces(s.drop_last()) + piece(s.last())
    }
}

/// The stretches of the trace add up.
pub proof fn lemma_pieces_concat(a: Seq<TraceEntry>, b: Seq<TraceEntry>)
    ensures
        pieces(a + b) == pieces(a) + pieces(b),
    decreases b.len(),
{
    if b.len() == 0 {
        assert(a + b =~= a);
        assert(pieces(a) + pieces(b) =~= pieces(a));
    } else {
        lemma_pieces_concat(a, b.drop_last());
        assert((a + b).drop_last() =~= a + b.drop_last());
        assert(pieces(a) + pieces(b) =~= pieces(a) + pieces(b.drop_last()) + piece(b.last()));
    }
}

/// A single entry contributes its own piece.
pub proof fn lemma_pieces_single(e: TraceEntry)
    ensures
        pieces(seq![e]) == piece(e),
{
    assert(seq![e].drop_last() =~= Seq::<TraceEntry>::empty());
    assert(pieces(Seq::<TraceEntry>::empty()) == Seq::<char>::empty());
    assert(seq![e].last() == e);
    assert(Seq::<char>::empty() + piece(e) =~= piece(e));
}

/// The kind of read a plain event comes from.
pub open spec fn plain_kind(e: QuickEvent) -> RawKind {
    match e {
        QuickEvent::Start { .. } => RawKind::Start,
        QuickEvent::Empty { .. } => RawKind::Empty,
        QuickEvent::End { .. } => RawKind::End,
        QuickEvent::Text(_) => RawKind::Text,
        QuickEvent::CData(_) => RawKind::CData,
        QuickEvent::Eof => RawKind::Eof,
        QuickEvent::Skipped => RawKind::Skipped,
    }
}

/// The characters of a text or CDATA event; nothing for another event.
pub open spec fn event_text(e: QuickEvent) -> Seq<char> {
    match e {
        QuickEvent::Text(t) => t@,
        QuickEvent::CData(t) => t@,
        _ => Seq::empty(),
    }
}

/// Whether `after` extends `before`.
pub open spec fn extends(before: Seq<TraceEntry>, after: Seq<TraceEntry>) -> bool {
    after.len() >= before.len() && after.take(before.len() as int) == before
}

/// A tag's stretch of the trace: its name resolution, then what reading its
/// attributes added.
proof fn lemma_tag_segment(t0: Seq<TraceEntry>, t1: Seq<TraceEntry>, t2: Seq<TraceEntry>)
    requires
        t1.len() == t0.len() + 1,
        t1.drop_last() == t0,
        t1.last() is ResolvedElement,
        extends(t1, t2),
        pieces(t2.skip(t1.len() as int)) == Seq::<char>::empty(),
    ensures
        extends(t0, t2),
        t2.skip(t0.len() as int)[0] == t1.last(),
        t2.skip(t0.len() as int).skip(1) == t2.skip(t1.len() as int),
        t2.skip(t0.len() as int).len() == t2.skip(t1.len() as int).len() + 1,
        t2.skip(t0.len() as int).last() == t2.last() || t2.len() == t1.len(),
        pieces(t2.skip(t0.len() as int)) == Seq::<char>::empty(),
{
    assert(t2.take(t0.len() as int) =~= t2.take(t1.len() as int).take(t0.len() as int));
    assert(t1.take(t0.len() as int) =~= t0);
    assert(t2.skip(t0.len() as int).skip(1) =~= t2.skip(t1.len() as int));
    assert(t2.skip(t0.len() as int) =~= seq![t1.last()] + t2.skip(t1.len() as int));
    lemma_pieces_concat(seq![t1.last()], t2.skip(t1.len() as int));
    lemma_pieces_single(t1.last());
    assert(Seq::<char>::empty() + Seq::<char>::empty() =~= Seq::<char>::empty());
}

/// Whether `seg` begins with the resolution, as an element name, of a
/// qualified name that denotes `name`.
pub open spec fn tag_named(seg: Seq<TraceEntry>, name: XmlNameView) -> bool {
    &&& seg.len() > 0
    &&& seg[0] matches TraceEntry::ResolvedElement(q, rv) && name_of_qname(q, rv) == Ok::<
        XmlNameView,
        Seq<char>,
    >(name) && resolution_follows_prefix(q, rv)
}

/// What `quick-xml` resolves a qualified name `q` to, whatever the scope: a
/// name with a prefix to the namespace bound to it, or to that prefix as
/// unknown.
pub open spec fn resolution_follows_prefix(q: Seq<u8>, rv: ResolveView) -> bool {
    qname_prefix(q) matches Some(p) ==> (rv is Bound || rv == ResolveView::Unknown(p))
}

/// Attribute names resolve as `resolution_follows_prefix` says, and a name
/// without a prefix to no namespace at all.
pub open spec fn attribute_resolutions_ok(res: Seq<(Seq<u8>, ResolveView)>) -> bool {
    forall|i: int|
        0 <= i < res.len() ==> {
            &&& resolution_follows_prefix(#[trigger] res[i].0, res[i].1)
            &&& qname_prefix(res[i].0) is None ==> res[i].1 == ResolveView::Unbound
        }
}

/// Whether `seg` records a start tag named `name` with the attributes `found`:
/// its name resolved as an element name, then its attributes read to the end
/// of their list.
pub open spec fn start_tag_read(seg: Seq<TraceEntry>, name: XmlNameView, found: Seq<XmlAttributeView>) -> bool {
    &&& tag_named(seg, name)
    &&& seg.len() > 1
    &&& seg.last() == TraceEntry::AttributesEnd
    &&& attributes_read(seg.skip(1), found)
}

/// Whether `trace` records the reading of a tag named `name`.
pub open spec fn tag_traced(trace: Seq<TraceEntry>, name: XmlNameView) -> bool {
    exists|j: int| 0 <= j < trace.len() && #[trigger] tag_named(trace.skip(j), name)
}

/// Whether `trace` records the reading of a start tag named `name` with the
/// attributes `found`.
pub open spec fn start_traced(trace: Seq<TraceEntry>, name: XmlNameView, found: Seq<XmlAttributeView>) -> bool {
    exists|j: int, k: int| 0 <= j < k <= trace.len() && #[trigger] start_tag_read(trace.subrange(j, k), name, found)
}

/// Whether the names and attributes of a plain event are those `trace`
/// records the reading of.
pub open spec fn plain_traced(trace: Seq<TraceEntry>, e: QuickEvent) -> bool {
    match e {
        QuickEvent::Start { name, attributes } => start_traced(trace, name@, attributes_view(attributes@)),
        QuickEvent::Empty { name, attributes } => start_traced(trace, name@, attributes_view(attributes@)),
        QuickEvent::End { name } => tag_traced(trace, name@),
        _ => true,
    }
}

/// Whether the names and attributes of an event are those `trace` records
/// the reading of.
pub open spec fn event_traced(trace: Seq<TraceEntry>, e: InternalEventView) -> bool {
    match e {
        InternalEventView::StartElement { name, attributes } => start_traced(trace, name, attributes),
        InternalEventView::EndElement { name } => tag_traced(trace, name),
        _ => true,
    }
}

/// What a trace records stays recorded as the trace grows.
proof fn lemma_traced_extends(t: Seq<TraceEntry>, t2: Seq<TraceEntry>)
    requires
        extends(t, t2),
    ensures
        forall|name: XmlNameView| #[trigger] tag_traced(t, name) ==> tag_traced(t2, name),
        forall|name: XmlNameView, found: Seq<XmlAttributeView>|
            #[trigger] start_traced(t, name, found) ==> start_traced(t2, name, found),
        forall|e: QuickEvent| #[trigger] plain_traced(t, e) ==> plain_traced(t2, e),
        forall|e: InternalEventView| #[trigger] event_traced(t, e) ==> event_traced(t2, e),
{
    assert forall|name: XmlNameView| #[trigger] tag_traced(t, name) implies tag_traced(t2, name) by {
        let j = choose|j: int| 0 <= j < t.len() && #[trigger] tag_named(t.skip(j), name);
        assert(t2.skip(j)[0] == t2.take(t.len() as int)[j]);
        assert(tag_named(t2.skip(j), name));
    }
    assert forall|name: XmlNameView, found: Seq<XmlAttributeView>|
        #[trigger] start_traced(t, name, found) implies start_traced(t2, name, found) by {
        let (j, k) = choose|j: int, k: int|
            0 <= j < k <= t.len() && #[trigger] start_tag_read(t.subrange(j, k), name, found);
        assert(t2.subrange(j, k) =~= t2.take(t.len() as int).subrange(j, k));
        assert(t2.subrange(j, k) =~= t.subrange(j, k));
    }
}

/// A start tag read is also the reading of a tag of that name.
proof fn lemma_start_traced_tag(t: Seq<TraceEntry>, name: XmlNameView, found: Seq<XmlAttributeView>)
    requires
        start_traced(t, name, found),
    ensures
        tag_traced(t, name),
{
    let (j, k) = choose|j: int, k: int| 0 <= j < k <= t.len() && #[trigger] start_tag_read(t.subrange(j, k), name, found);
    assert(t.skip(j)[0] == t.subrange(j, k)[0]);
    assert(tag_named(t.skip(j), name));
}

/// The name of a tag with qualified name `q`, resolved as an element name in
/// the current scope.
fn element_name<R>(input: &mut QuickInput<R>, q: &Vec<u8>) -> (r: Result<XmlName, String>)
    ensures
        final(input).trace().len() == old(input).trace().len() + 1,
        final(input).trace().drop_last() == old(input).trace(),
        final(input).trace().last() matches TraceEntry::ResolvedElement(qn, rv) && qn == q@
            && resolution_follows_prefix(q@, rv) && match r {
            Ok(n) => name_of_qname(q@, rv) == Ok::<XmlNameView, Seq<char>>(n@),
            Err(m) => name_of_qname(q@, rv) == Err::<XmlNameView, Seq<char>>(m@),
        },
{
    let resolve = resolve_element_name(input, q.as_slice());
    proof {
        assert(input.trace().drop_last() =~= old(input).trace());
    }
    name_from_qname_with_resolve(q, resolve)
}

/// Turns a raw `quick-xml` event into plain values: the same kind of event,
/// with text decoded (and, for text, unescaped) as the trace records, and the
/// name of a tag resolved as an element name, with its attributes, as the
/// trace records.
fn plain_event<R>(input: &mut QuickInput<R>, raw: QuickRawEvent) -> (r: Result<QuickEvent, String>)
    ensures
        extends(old(input).trace(), final(input).trace()),
        raw is Eof ==> r matches Ok(QuickEvent::Eof),
        raw is Skipped ==> r matches Ok(QuickEvent::Skipped),
        r matches Ok(e) ==> plain_kind(e) == kind_of(Ok::<QuickRawEvent, quick_xml::Error>(raw)),
        r matches Ok(e) ==> pieces(final(input).trace().skip(old(input).trace().len() as int)) == event_text(e),
        r matches Ok(QuickEvent::Start { name, attributes }) ==> start_tag_read(
            final(input).trace().skip(old(input).trace().len() as int),
            name@,
            attributes_view(attributes@),
        ),
        r matches Ok(QuickEvent::Empty { name, attributes }) ==> start_tag_read(
            final(input).trace().skip(old(input).trace().len() as int),
            name@,
            attributes_view(attributes@),
        ),
        r matches Ok(QuickEvent::End { name }) ==> {
            let seg = final(input).trace().skip(old(input).trace().len() as int);
            tag_named(seg, name@) && seg.len() == 1
        },
{
    let ghost t0 = input.trace();
    proof {
        assert(input.trace().skip(t0.len() as int) =~= Seq::<TraceEntry>::empty());
        assert(input.trace().take(t0.len() as int) =~= t0);
    }
    match raw {
        QuickRawEvent::Start(start) => {
            let q = start_qname(&start);
            let named = element_name(input, &q);
            let ghost t1 = input.trace();
            proof {
                assert(t1.take(t0.len() as int) =~= t0);
            }
            let name = named?;
            let listed = attributes_from_start(input, &start);
            proof {
                lemma_tag_segment(t0, t1, input.trace());
            }
            let attributes = listed?;
            Ok(QuickEvent::Start { name, attributes })
        },
        QuickRawEvent::Empty(start) => {
            let q = start_qname(&start);
            let named = element_name(input, &q);
            let ghost t1 = input.trace();
            proof {
                assert(t1.take(t0.len() as int) =~= t0);
            }
            let name = named?;
            let listed = attributes_from_start(input, &start);
            proof {
                lemma_tag_segment(t0, t1, input.trace());
            }
            let attributes = listed?;
            Ok(QuickEvent::Empty { name, attributes })
        },
        QuickRawEvent::End(end) => {
            let q = end_qname(&end);
            let named = element_name(input, &q);
            proof {
                let t1 = input.trace();
                assert(t1.take(t0.len() as int) =~= t0);
                assert(t1.skip(t0.len() as int) =~= seq![t1.last()]);
                lemma_pieces_single(t1.last());
            }
            let name = named?;
            Ok(QuickEvent::End { name })
        },
        QuickRawEvent::Text(text) => {
            let decoded = text_decode(input, &text)?;
            proof {
                assert(input.trace().skip(t0.len() as int) =~= seq![TraceEntry::DecodedText(decoded@)]);
                assert(input.trace().take(t0.len() as int) =~= t0);
                lemma_pieces_single(TraceEntry::DecodedText(decoded@));
            }
            let unescaped = unescape_text(decoded.as_str())?;
            Ok(QuickEvent::Text(unescaped))
        },
        QuickRawEvent::CData(cdata) => {
            let decoded = cdata_decode(input, &cdata)?;
            proof {
                assert(input.trace().skip(t0.len() as int) =~= seq![TraceEntry::DecodedCData(decoded@)]);
                assert(input.trace().take(t0.len() as int) =~= t0);
                lemma_pieces_single(TraceEntry::DecodedCData(decoded@));
            }
            Ok(QuickEvent::CData(decoded))
        },
        QuickRawEvent::Eof => Ok(QuickEvent::Eof),
        QuickRawEvent::Skipped => Ok(QuickEvent::Skipped),
    }
}

/// The namespace bindings in scope, from the `(prefix, uri)` pairs the
/// resolver lists; the default namespace has the empty prefix.
pub open spec fn bindings_map(bindings: Seq<(Option<Vec<u8>>, Vec<u8>)>) -> Map<Seq<char>, Seq<char>>
    decreases bindings.len(),
{
    if bindings.len() == 0 {
        Map::empty()
    } else {
        let (prefix, uri) = bindings.last();
        let key = match prefix {
            Some(p) => lossy_utf8(p@),
            None => Seq::empty(),
        };
        bindings_map(bindings.drop_last()).insert(key, lossy_utf8(uri@))
    }
}

/// Builds the namespace map from the resolver's bindings, a later binding of a
/// prefix winning over an earlier one.
pub fn namespace_from_bindings(bindings: Vec<(Option<Vec<u8>>, Vec<u8>)>) -> (ns: XmlNamespace)
    ensures
        ns@ == bindings_map(bindings@),
{
    let mut ns = XmlNamespace::empty();
    let mut i: usize = 0;
    while i < bindings.len()
        invariant
            i <= bindings@.len(),
            ns@ == bindings_map(bindings@.take(i as int)),
        decreases bindings@.len() - i,
    {
        let prefix = match &bindings[i].0 {
            Some(p) => lossy_string(p.as_slice()),
            None => String::new(),
        };
        let uri = lossy_string(bindings[i].1.as_slice());
        ns.force_put(prefix, uri);
        assert(bindings@.take(i + 1).drop_last() =~= bindings@.take(i as int));
        i += 1;
    }
    assert(bindings@.take(bindings@.len() as int) =~= bindings@);
    ns
}

/// The light form of an internal event.
fn light_from_internal(event: &InternalEvent) -> (light: XmlLightEvent)
    ensures
        light@ == internal_light(event@),
{
    match event {
        InternalEvent::StartElement { name, .. } => XmlLightEvent::StartElement {
            local_name: name.local_name.clone(),
            namespace: crate::xml::copy_opt_string(&name.namespace),
        },
        InternalEvent::EndElement { name } => XmlLightEvent::EndElement {
            local_name: name.local_name.clone(),
        },
        InternalEvent::Characters(text) => XmlLightEvent::Characters(text.clone()),
        InternalEvent::EndDocument => XmlLightEvent::EndDocument,
    }
}

/// The names of a queue of elements whose end is still to be reported.
pub open spec fn names_view(names: Seq<XmlName>) -> Seq<XmlNameView> {
    names.map_values(|n: XmlName| n@)
}

/// The `quick-xml` reader backend.
#[verifier::reject_recursive_types(R)]
pub struct QuickXmlReader<R> {
    inner: QuickInput<R>,
    buf: Vec<u8>,
    cached: Option<InternalEvent>,
    materialized: Option<XmlReadEvent>,
    pending_ends: VecDeque<XmlName>,
    eof: bool,
    seen_any: bool,
    held: Option<QuickEvent>,
    log: Ghost<Seq<InternalEventView>>,
    settings: Ghost<QuickSettings>,
}

impl<R> QuickXmlReader<R> {
    /// The settings of the `quick-xml` parser.
    pub closed spec fn parser_settings(&self) -> QuickSettings {
        self.settings@
    }

    /// Every read from the `quick-xml` parser and every text decoding made by
    /// this reader, in order.
    pub closed spec fn trace(&self) -> Seq<TraceEntry> {
        self.inner.trace()
    }

    /// Every event the reader has produced so far, in order, look-ahead included.
    pub closed spec fn read_log(&self) -> Seq<InternalEventView> {
        self.log@
    }

    /// The event read ahead and not yet given a namespace map.
    pub closed spec fn cached_event(&self) -> Option<InternalEvent> {
        self.cached
    }

    /// The event read ahead with its namespace map.
    pub closed spec fn materialized_event(&self) -> Option<XmlReadEvent> {
        self.materialized
    }

    /// The end tags of self-closing elements not yet reported, oldest first.
    pub closed spec fn pending_end_names(&self) -> Seq<XmlNameView> {
        names_view(self.pending_ends@)
    }

    /// The event read from the parser to end a run of text, not yet processed.
    pub closed spec fn held_event(&self) -> Option<QuickEvent> {
        self.held
    }

    /// Whether the underlying reader has reached the end of its input.
    pub closed spec fn at_eof(&self) -> bool {
        self.eof
    }

    /// Whether an element has been read.
    pub closed spec fn seen_element(&self) -> bool {
        self.seen_any
    }

    /// The light form of the event that comes next, if it has been read ahead.
    pub open spec fn front_light(&self) -> Option<LightEventView> {
        match self.materialized_event() {
            Some(e) => Some(light_view(e@)),
            None => match self.cached_event() {
                Some(c) => Some(internal_light(c@)),
                None => None,
            },
        }
    }

    /// The reader position, and what has been read, are those of `other`.
    pub open spec fn same_position(&self, other: &Self) -> bool {
        &&& self.read_log() == other.read_log()
        &&& self.trace() == other.trace()
        &&& self.held_event() == other.held_event()
        &&& self.pending_end_names() == other.pending_end_names()
        &&& self.at_eof() == other.at_eof()
        &&& self.seen_element() == other.seen_element()
    }
}

/// An internal event result, by views.
pub open spec fn result_view(r: Result<InternalEvent, String>) -> Result<InternalEventView, Seq<char>> {
    match r {
        Ok(e) => Ok(e@),
        Err(m) => Err(m@),
    }
}

/// The internal event that a full event is, once its namespace map is dropped.
pub open spec fn dematerialize(e: ReadEventView) -> InternalEventView {
    match e {
        ReadEventView::StartElement { name, attributes, .. } => InternalEventView::StartElement {
            name,
            attributes,
        },
        ReadEventView::EndElement { name } => InternalEventView::EndElement { name },
        ReadEventView::Characters(t) => InternalEventView::Characters(t),
        ReadEventView::EndDocument => InternalEventView::EndDocument,
    }
}

/// How reading one event from the parser moves the reader, for a read that starts
/// in `before`, ends in `after` and gives `r`: an end tag owed to a
/// self-closing element comes first; at the end of the input the end of the
/// document is given again and again (or the error for a document without an
/// element); a self-closing start tag leaves exactly its own end tag owed.
pub open spec fn position_outcome<R>(
    before: QuickXmlReader<R>,
    after: QuickXmlReader<R>,
    r: Result<InternalEventView, Seq<char>>,
) -> bool {
    &&& (before.seen_element() ==> after.seen_element())
    &&& (before.at_eof() ==> after.at_eof())
    &&& (before.pending_end_names().len() > 0 ==> {
        &&& r matches Ok(InternalEventView::EndElement { name }) && name == before.pending_end_names()[0]
        &&& after.pending_end_names() == before.pending_end_names().drop_first()
        &&& after.at_eof() == before.at_eof()
        &&& after.seen_element() == before.seen_element()
        &&& after.held_event() == before.held_event()
    })
    &&& (before.pending_end_names().len() == 0 && before.at_eof() ==> {
        &&& after.pending_end_names() == before.pending_end_names()
        &&& after.at_eof() && after.seen_element() == before.seen_element()
        &&& after.held_event() == before.held_event()
        &&& if before.seen_element() {
            r matches Ok(InternalEventView::EndDocument)
        } else {
            r matches Err(m) && m == no_root_message()
        }
    })
    &&& (before.pending_end_names().len() == 0 ==> after.pending_end_names().len() <= 1)
    &&& (after.pending_end_names().len() > before.pending_end_names().len() ==> {
        &&& r matches Ok(InternalEventView::StartElement { name, .. })
        &&& after.pending_end_names() == seq![name]
    })
    &&& (r matches Ok(InternalEventView::StartElement { .. }) ==> after.seen_element())
    &&& (r matches Ok(InternalEventView::Characters(t)) ==> {
        &&& t.len() > 0
        &&& after.markup_held()
        &&& after.pending_end_names().len() == 0
        &&& !after.at_eof()
    })
    &&& ((before.pending_end_names().len() == 0 && !before.at_eof() && before.markup_held()) ==> !(r matches Ok(
        InternalEventView::Characters(_),
    )))
    &&& extends(before.trace(), after.trace())
    &&& (before.held_ok() ==> after.held_ok())
    &&& (before.held_ok() ==> (r matches Ok(InternalEventView::Characters(t)) ==> t == trim_ws(
        pieces(after.trace().skip(before.trace().len() as int)),
    )))
    &&& ((before.held_ok() && r is Err) ==> (after.trace().len() > before.trace().len()
        || !before.seen_element()))
    &&& (before.held_pending_traced() ==> {
        &&& after.held_pending_traced()
        &&& (r matches Ok(e) ==> event_traced(after.trace(), e))
    })
}

/// Whether an event is markup: neither text, CDATA nor a skipped event.
pub open spec fn is_markup(e: QuickEvent) -> bool {
    !(e is Text) && !(e is CData) && !(e is Skipped)
}

impl<R> QuickXmlReader<R> {
    /// Whether the event that ended the last run of text is held, unprocessed.
    pub open spec fn markup_held(&self) -> bool {
        match self.held_event() {
            Some(h) => is_markup(h),
            None => false,
        }
    }

    /// No event is held, or the one held is markup: what every reader keeps.
    pub open spec fn held_ok(&self) -> bool {
        self.held_event() is None || self.markup_held()
    }

    /// The event held and the end tags owed are ones the trace records the
    /// reading of.
    pub open spec fn held_pending_traced(&self) -> bool {
        &&& (self.held_event() matches Some(h) ==> plain_traced(self.trace(), h))
        &&& forall|i: int|
            0 <= i < self.pending_end_names().len() ==> tag_traced(
                self.trace(),
                #[trigger] self.pending_end_names()[i],
            )
    }

    /// Every event the reader holds, read ahead or owed, has the names and
    /// attributes that the trace records the reading of.
    pub open spec fn traced_state(&self) -> bool {
        &&& self.held_pending_traced()
        &&& (self.cached_event() matches Some(c) ==> event_traced(self.trace(), c@))
        &&& (self.materialized_event() matches Some(m) ==> event_traced(self.trace(), dematerialize(m@)))
    }
}

/// What reading one event guarantees: it moves the reader as
/// `position_outcome` says, and an event read is added to the log.
pub open spec fn read_outcome<R>(
    before: QuickXmlReader<R>,
    after: QuickXmlReader<R>,
    r: Result<InternalEventView, Seq<char>>,
) -> bool {
    &&& position_outcome(before, after, r)
    &&& match r {
        Ok(e) => after.read_log() == before.read_log().push(e),
        Err(_) => after.read_log() == before.read_log(),
    }
}

impl<R> QuickXmlReader<R> {
    /// No event is read ahead.
    pub open spec fn lookahead_empty(&self) -> bool {
        self.cached_event() is None && self.materialized_event() is None
    }

    /// The name of the start tag read ahead, if the event read ahead is one.
    pub open spec fn front_start_name(&self) -> Option<XmlNameView> {
        match self.materialized_event() {
            Some(XmlReadEvent::StartElement { name, .. }) => Some(name@),
            Some(_) => None,
            None => match self.cached_event() {
                Some(InternalEvent::StartElement { name, .. }) => Some(name@),
                _ => None,
            },
        }
    }
}

/// Whether `a` are the attributes of the start tag read ahead by `reader`.
pub open spec fn peeked_attributes<R>(reader: QuickXmlReader<R>, a: Seq<XmlAttributeView>) -> bool {
    match reader.materialized_event() {
        Some(XmlReadEvent::StartElement { attributes, .. }) => a == attributes_view(attributes@),
        Some(_) => false,
        None => reader.cached_event() matches Some(InternalEvent::StartElement { attributes, .. }) && a
            == attributes_view(attributes@),
    }
}

/// What `QuickXmlReader::next_event` guarantees: the event read ahead is
/// returned (with its namespace map) if there is one; otherwise one event is
/// read as `read_outcome` says; either way nothing stays read ahead.
pub open spec fn quick_next_outcome<R>(
    before: QuickXmlReader<R>,
    after: QuickXmlReader<R>,
    r: Result<XmlReadEvent, String>,
) -> bool {
    &&& (r is Ok ==> after.materialized_event() is None)
    &&& (before.materialized_event() matches Some(m) ==> {
        &&& r == Ok::<XmlReadEvent, String>(m)
        &&& after.cached_event() == before.cached_event()
        &&& after.same_position(&before)
    })
    &&& (before.materialized_event() is None && before.cached_event() is Some ==> {
        &&& r matches Ok(e) && dematerialize(e@) == before.cached_event()->0@
        &&& after.lookahead_empty()
        &&& after.same_position(&before)
    })
    &&& (before.lookahead_empty() ==> {
        &&& after.cached_event() is None
        &&& match r {
            Ok(e) => read_outcome(before, after, Ok(dematerialize(e@))),
            Err(m) => after.materialized_event() is None && read_outcome(before, after, Err(m@)),
        }
    })
}

/// What `QuickXmlReader::peek_light_event` guarantees: the light form of the
/// event read ahead, which stays read ahead; if none was, one event is read
/// ahead first.
pub open spec fn quick_peek_outcome<R>(
    before: QuickXmlReader<R>,
    after: QuickXmlReader<R>,
    r: Result<XmlLightEvent, String>,
) -> bool {
    &&& (before.front_light() matches Some(f) ==> {
        &&& r matches Ok(l) && l@ == f
        &&& after.cached_event() == before.cached_event()
        &&& after.materialized_event() == before.materialized_event()
        &&& after.same_position(&before)
    })
    &&& (r matches Ok(l) ==> after.front_light() == Some(l@))
    &&& (before.lookahead_empty() ==> {
        &&& after.materialized_event() is None
        &&& match r {
            Ok(_) => after.cached_event() matches Some(e) && read_outcome(before, after, Ok(e@)),
            Err(m) => after.cached_event() is None && read_outcome(before, after, Err(m@)),
        }
    })
}

/// What `QuickXmlReader::next_light_event` guarantees: the light form of the
/// event read ahead, which is consumed; if none was, of the next event read.
pub open spec fn quick_next_light_outcome<R>(
    before: QuickXmlReader<R>,
    after: QuickXmlReader<R>,
    r: Result<XmlLightEvent, String>,
) -> bool {
    &&& (before.front_light() matches Some(f) ==> {
        &&& r matches Ok(l) && l@ == f
        &&& after.materialized_event() is None
        &&& after.same_position(&before)
    })
    &&& (before.materialized_event() is Some ==> after.cached_event() == before.cached_event())
    &&& (before.materialized_event() is None ==> after.cached_event() is None)
    &&& (before.lookahead_empty() ==> {
        &&& after.materialized_event() is None
        &&& match r {
            Ok(l) => exists|e: InternalEventView| read_outcome(before, after, Ok(e)) && internal_light(e) == l@,
            Err(m) => read_outcome(before, after, Err(m@)),
        }
    })
}

impl<R: BufRead> QuickXmlReader<R> {
    /// A reader that keeps text untrimmed at the parser level, reports
    /// self-closing tags as such and checks that end tags match.
    pub fn from_reader(reader: R) -> (r: Self)
        ensures
            r.cached_event() is None,
            r.materialized_event() is None,
            r.pending_end_names() == Seq::<XmlNameView>::empty(),
            !r.at_eof(),
            !r.seen_element(),
            r.held_event() is None,
            r.read_log() == Seq::<InternalEventView>::empty(),
            r.parser_settings() == quick_reader_settings(),
    {
        let mut setup = ns_reader_from_reader(reader);
        set_trim_text(&mut setup, false);
        set_expand_empty_elements(&mut setup, false);
        set_check_end_names(&mut setup, true);
        let ghost settings = setup.settings();
        let r = QuickXmlReader {
            inner: input_of(quick_source(setup)),
            buf: Vec::new(),
            cached: None,
            materialized: None,
            pending_ends: VecDeque::new(),
            eof: false,
            seen_any: false,
            held: None,
            log: Ghost(Seq::empty()),
            settings: Ghost(settings),
        };
        assert(names_view(r.pending_ends@) =~= Seq::<XmlNameView>::empty());
        r
    }
}

/// The parser settings of `QuickXmlReader::from_reader`: text untrimmed,
/// self-closing tags reported as such, end tags checked.
pub open spec fn quick_reader_settings() -> QuickSettings {
    QuickSettings {
        trim_text_start: false,
        trim_text_end: false,
        expand_empty_elements: false,
        check_end_names: true,
    }
}

impl<R> QuickXmlReader<R> {
    /// The namespace bindings in scope at the last event read, a later binding
    /// of a prefix winning over an earlier one.
    fn namespace_map(&self) -> (ns: XmlNamespace)
        ensures
            exists|bindings: Seq<(Option<Vec<u8>>, Vec<u8>)>| ns@ == bindings_map(bindings),
    {
        let bindings = namespace_bindings(self.inner.source());
        let ghost listed = bindings@;
        let ns = namespace_from_bindings(bindings);
        assert(ns@ == bindings_map(listed));
        ns
    }

    /// Applies one plain event other than text to the reader's position: what
    /// it yields, if anything (`None` for skipped events).
    fn step(&mut self, event: QuickEvent) -> (r: Option<Result<InternalEvent, String>>)
        requires
            old(self).pending_end_names().len() == 0,
            !old(self).at_eof(),
            !(event is Text),
            !(event is CData),
        ensures
            final(self).cached_event() == old(self).cached_event(),
            final(self).materialized_event() == old(self).materialized_event(),
            final(self).read_log() == old(self).read_log(),
            final(self).held_event() == old(self).held_event(),
            final(self).trace() == old(self).trace(),
            old(self).seen_element() ==> final(self).seen_element(),
            match event {
                QuickEvent::Start { name, attributes } => {
                    &&& r matches Some(Ok(InternalEvent::StartElement { name: n, attributes: a }))
                    &&& n@ == name@ && attributes_view(a@) == attributes_view(attributes@)
                    &&& final(self).seen_element() && !final(self).at_eof()
                    &&& final(self).pending_end_names().len() == 0
                },
                QuickEvent::Empty { name, attributes } => {
                    &&& r matches Some(Ok(InternalEvent::StartElement { name: n, attributes: a }))
                    &&& n@ == name@ && attributes_view(a@) == attributes_view(attributes@)
                    &&& final(self).seen_element() && !final(self).at_eof()
                    &&& final(self).pending_end_names() == seq![name@]
                },
                QuickEvent::End { name } => {
                    &&& r matches Some(Ok(InternalEvent::EndElement { name: n }))
                    &&& n@ == name@
                    &&& final(self).same_position(old(self))
                },
                QuickEvent::Eof => {
                    &&& final(self).at_eof()
                    &&& final(self).pending_end_names().len() == 0
                    &&& final(self).seen_element() == old(self).seen_element()
                    &&& if old(self).seen_element() {
                        r matches Some(Ok(InternalEvent::EndDocument))
                    } else {
                        r matches Some(Err(m)) && m@ == no_root_message()
                    }
                },
                _ => r is None && final(self).same_position(old(self)),
            },
    {
        match event {
            QuickEvent::Start { name, attributes } => {
                self.seen_any = true;
                Some(Ok(InternalEvent::StartElement { name, attributes }))
            },
            QuickEvent::Empty { name, attributes } => {
                self.seen_any = true;
                self.pending_ends.push_back(name.clone());
                assert(names_view(self.pending_ends@) =~= seq![name@]);
                Some(Ok(InternalEvent::StartElement { name, attributes }))
            },
            QuickEvent::End { name } => Some(Ok(InternalEvent::EndElement { name })),
            QuickEvent::Eof => {
                self.eof = true;
                if self.seen_any {
                    Some(Ok(InternalEvent::EndDocument))
                } else {
                    Some(Err("Unexpected end of stream: no root element found".to_owned()))
                }
            },
            _ => None,
        }
    }

    /// Reads one event from the parser, as plain values.
    fn read_plain(&mut self) -> (r: Result<QuickEvent, String>)
        ensures
            final(self).cached_event() == old(self).cached_event(),
            final(self).materialized_event() == old(self).materialized_event(),
            final(self).read_log() == old(self).read_log(),
            final(self).held_event() == old(self).held_event(),
            final(self).pending_end_names() == old(self).pending_end_names(),
            final(self).at_eof() == old(self).at_eof(),
            old(self).seen_element() ==> final(self).seen_element(),
            r matches Ok(QuickEvent::Start { .. }) ==> final(self).seen_element(),
            r matches Ok(QuickEvent::Empty { .. }) ==> final(self).seen_element(),
            extends(old(self).trace(), final(self).trace()),
            final(self).trace().len() > old(self).trace().len(),
            r matches Ok(e) ==> {
                &&& final(self).trace()[old(self).trace().len() as int] == TraceEntry::Read(plain_kind(e))
                &&& pieces(final(self).trace().skip(old(self).trace().len() as int)) == event_text(e)
                &&& plain_traced(final(self).trace(), e)
            },
    {
        let ghost t0 = self.inner.trace();
        self.buf.clear();
        let raw = match quick_read(&mut self.inner, &mut self.buf) {
            Ok(raw) => raw,
            Err(e) => {
                proof {
                    assert(self.inner.trace().take(t0.len() as int) =~= t0);
                }
                return Err(map_quick_error(e));
            },
        };
        let ghost t1 = self.inner.trace();
        match raw {
            QuickRawEvent::Start(_) | QuickRawEvent::Empty(_) => {
                self.seen_any = true;
            },
            _ => {},
        }
        let r = plain_event(&mut self.inner, raw);
        proof {
            let t2 = self.inner.trace();
            assert(t1.take(t0.len() as int) =~= t0);
            assert(t2.take(t0.len() as int) =~= t2.take(t1.len() as int).take(t0.len() as int));
            assert(t2[t0.len() as int] == t2.take(t1.len() as int)[t0.len() as int]);
            if r is Ok {
                let read = seq![t1[t0.len() as int]];
                assert(t2.skip(t0.len() as int) =~= read + t2.skip(t1.len() as int));
                lemma_pieces_concat(read, t2.skip(t1.len() as int));
                lemma_pieces_single(t1[t0.len() as int]);
                assert(Seq::<char>::empty() + event_text(r->Ok_0) =~= event_text(r->Ok_0));
                let seg = t2.skip(t1.len() as int);
                assert(t2.subrange(t1.len() as int, t2.len() as int) =~= seg);
                if seg.len() > 0 {
                    assert(t2.skip(t1.len() as int) =~= seg);
                }
            }
        }
        r
    }

    /// Joins `first` with the text and CDATA sections that follow it
    /// (declarations, comments and the like in between are passed over) and
    /// trims the result; the event that ends the run is held for the next read.
    /// White-space text gives `None`.
    fn text_run(&mut self, first: String) -> (r: Result<Option<InternalEvent>, String>)
        requires
            old(self).held_event() is None,
        ensures
            final(self).cached_event() == old(self).cached_event(),
            final(self).materialized_event() == old(self).materialized_event(),
            final(self).read_log() == old(self).read_log(),
            final(self).pending_end_names() == old(self).pending_end_names(),
            final(self).at_eof() == old(self).at_eof(),
            old(self).seen_element() ==> final(self).seen_element(),
            r is Ok ==> final(self).markup_held(),
            r is Err ==> final(self).held_event() is None,
            r matches Ok(Some(e)) ==> (e matches InternalEvent::Characters(t) && t@.len() > 0),
            extends(old(self).trace(), final(self).trace()),
            final(self).trace().len() > old(self).trace().len(),
            r matches Ok(Some(InternalEvent::Characters(t))) ==> t@ == trim_ws(
                first@ + pieces(final(self).trace().skip(old(self).trace().len() as int)),
            ),
            r matches Ok(None) ==> trim_ws(
                first@ + pieces(final(self).trace().skip(old(self).trace().len() as int)),
            ).len() == 0,
            final(self).held_event() matches Some(h) ==> plain_traced(final(self).trace(), h),
    {
        let ghost t0 = self.inner.trace();
        let mut run = first;
        let mut steps: u64 = 0;
        proof {
            assert(self.inner.trace().skip(t0.len() as int) =~= Seq::<TraceEntry>::empty());
            assert(first@ + Seq::<char>::empty() =~= first@);
            assert(self.inner.trace().take(t0.len() as int) =~= t0);
        }
        loop
            invariant_except_break
                self.held is None,
            invariant
                self.cached == old(self).cached,
                self.materialized == old(self).materialized,
                self.log == old(self).log,
                self.pending_end_names() == old(self).pending_end_names(),
                self.eof == old(self).eof,
                old(self).seen_any ==> self.seen_any,
                t0 == old(self).trace(),
                extends(t0, self.inner.trace()),
                steps > 0 ==> self.inner.trace().len() > t0.len(),
                run@ == first@ + pieces(self.inner.trace().skip(t0.len() as int)),
            ensures
                self.markup_held(),
                self.inner.trace().len() > t0.len(),
                self.held matches Some(h) ==> plain_traced(self.inner.trace(), h),
            decreases u64::MAX - steps,
        {
            let ghost t1 = self.inner.trace();
            let ghost run1 = run@;
            let read = self.read_plain();
            proof {
                let t2 = self.inner.trace();
                assert(t2.take(t0.len() as int) =~= t2.take(t1.len() as int).take(t0.len() as int));
            }
            let event = read?;
            proof {
                let t2 = self.inner.trace();
                assert(t2.take(t0.len() as int) =~= t2.take(t1.len() as int).take(t0.len() as int));
                assert(t2.skip(t0.len() as int) =~= t1.skip(t0.len() as int) + t2.skip(t1.len() as int));
                lemma_pieces_concat(t1.skip(t0.len() as int), t2.skip(t1.len() as int));
                assert(run1 + event_text(event) =~= first@ + pieces(t2.skip(t0.len() as int)));
            }
            match event {
                QuickEvent::Text(text) => {
                    run.append(text.as_str());
                },
                QuickEvent::CData(text) => {
                    run.append(text.as_str());
                },
                QuickEvent::Skipped => {
                    assert(run1 + Seq::<char>::empty() =~= run1);
                },
                other => {
                    assert(run1 + Seq::<char>::empty() =~= run1);
                    self.held = Some(other);
                    break;
                },
            }
            if steps == u64::MAX {
                return Err("Text too long to read".to_owned());
            }
            steps = steps + 1;
        }
        let trimmed = trim_text(run.as_str());
        if trimmed.as_str().is_empty() {
            Ok(None)
        } else {
            Ok(Some(InternalEvent::Characters(trimmed)))
        }
    }

    /// The next event, added to the log.
    fn read_internal(&mut self) -> (r: Result<InternalEvent, String>)
        ensures
            final(self).cached_event() == old(self).cached_event(),
            final(self).materialized_event() == old(self).materialized_event(),
            read_outcome(*old(self), *final(self), result_view(r)),
    {
        let r = self.read_unlogged();
        if let Ok(e) = &r {
            self.log = Ghost(self.log@.push(e@));
        }
        r
    }

    /// The next event: the end of a self-closing element first, then the event
    /// held from the last text run, then what the parser reads; adjacent text
    /// and CDATA come as one trimmed `Characters` event, and white-space text,
    /// declarations, processing instructions, doctypes, comments and entity
    /// references are skipped.
    fn read_unlogged(&mut self) -> (r: Result<InternalEvent, String>)
        ensures
            final(self).cached_event() == old(self).cached_event(),
            final(self).materialized_event() == old(self).materialized_event(),
            final(self).read_log() == old(self).read_log(),
            position_outcome(*old(self), *final(self), result_view(r)),
    {
        let ghost t0 = self.inner.trace();
        let mut skipped: u64 = 0;
        proof {
            assert(t0.take(t0.len() as int) =~= t0);
            assert(t0.skip(t0.len() as int) =~= Seq::<TraceEntry>::empty());
        }
        loop
            invariant
                self.cached == old(self).cached,
                self.materialized == old(self).materialized,
                self.log == old(self).log,
                old(self).seen_any ==> self.seen_any,
                old(self).eof ==> self.eof,
                skipped > 0 ==> self.pending_ends@.len() == 0 && !self.eof,
                skipped > 0 ==> old(self).pending_ends@.len() == 0,
                skipped > 0 ==> !old(self).markup_held(),
                skipped == 0 ==> self.pending_ends@ == old(self).pending_ends@ && self.eof
                    == old(self).eof && self.seen_any == old(self).seen_any && self.held == old(self).held,
                t0 == old(self).trace(),
                extends(t0, self.inner.trace()),
                skipped == 0 ==> self.inner.trace() == t0,
                old(self).held_ok() ==> self.held_ok(),
                (old(self).held_ok() && self.held is None) ==> pieces(self.inner.trace().skip(t0.len() as int))
                    == Seq::<char>::empty(),
                (old(self).held_ok() && skipped > 0) ==> self.inner.trace().len() > t0.len(),
                old(self).held_pending_traced() ==> self.held_pending_traced(),
            decreases u64::MAX - skipped,
        {
            let ghost pending_before = self.pending_end_names();
            if let Some(name) = self.pending_ends.pop_front() {
                proof {
                    assert(names_view(self.pending_ends@) =~= names_view(old(self).pending_ends@).drop_first());
                    assert(pending_before[0] == name@);
                    assert(self.pending_end_names() =~= pending_before.drop_first());
                    if old(self).held_pending_traced() {
                        assert forall|i: int| 0 <= i < self.pending_end_names().len() implies tag_traced(
                            self.trace(),
                            #[trigger] self.pending_end_names()[i],
                        ) by {
                            assert(self.pending_end_names()[i] == pending_before[i + 1]);
                        }
                    }
                }
                return Ok(InternalEvent::EndElement { name });
            }
            if self.eof {
                if self.seen_any {
                    return Ok(InternalEvent::EndDocument);
                }
                return Err("Unexpected end of stream: no root element found".to_owned());
            }
            let ghost t1 = self.inner.trace();
            let ghost held_at_top = self.held;
            let event = match self.held.take() {
                Some(event) => event,
                None => {
                    let read = self.read_plain();
                    proof {
                        let t2 = self.inner.trace();
                        assert(t2.take(t0.len() as int) =~= t2.take(t1.len() as int).take(t0.len() as int));
                    }
                    read?
                },
            };
            let ghost t2 = self.inner.trace();
            proof {
                if old(self).held_pending_traced() {
                    assert(plain_traced(t2, event));
                }
                if held_at_top is None {
                    assert(t2.skip(t0.len() as int) =~= t1.skip(t0.len() as int) + t2.skip(t1.len() as int));
                    lemma_pieces_concat(t1.skip(t0.len() as int), t2.skip(t1.len() as int));
                }
            }
            assert(names_view(self.pending_ends@).len() == 0);
            let out = match event {
                QuickEvent::Text(text) | QuickEvent::CData(text) => {
                    let ghost first = text@;
                    let run = self.text_run(text);
                    proof {
                        let t3 = self.inner.trace();
                        assert(t3.take(t0.len() as int) =~= t3.take(t2.len() as int).take(t0.len() as int));
                        assert(t3.skip(t0.len() as int) =~= t2.skip(t0.len() as int) + t3.skip(t2.len() as int));
                        lemma_pieces_concat(t2.skip(t0.len() as int), t3.skip(t2.len() as int));
                        if old(self).held_ok() {
                            assert(Seq::<char>::empty() + first =~= first);
                        }
                    }
                    match run {
                        Ok(Some(e)) => Some(Ok(e)),
                        Ok(None) => None,
                        Err(m) => Some(Err(m)),
                    }
                },
                other => {
                    let ghost plain = other;
                    let stepped = self.step(other);
                    proof {
                        if old(self).held_pending_traced() {
                            match plain {
                                QuickEvent::Empty { name, attributes } => {
                                    lemma_start_traced_tag(t2, name@, attributes_view(attributes@));
                                    assert(self.pending_end_names()[0] == name@);
                                },
                                _ => {},
                            }
                        }
                    }
                    stepped
                },
            };
            if let Some(out) = out {
                return out;
            }
            if skipped == u64::MAX {
                return Err("Too many consecutive events without content".to_owned());
            }
            skipped = skipped + 1;
        }
    }
}

impl<R> QuickXmlReader<R> {
    /// Reads the next event ahead unless one is already held.
    fn ensure_cached(&mut self) -> (r: Result<(), String>)
        ensures
            !old(self).lookahead_empty() ==> {
                &&& r is Ok
                &&& final(self).cached_event() == old(self).cached_event()
                &&& final(self).materialized_event() == old(self).materialized_event()
                &&& final(self).same_position(old(self))
            },
            old(self).lookahead_empty() ==> match r {
                Ok(_) => final(self).cached_event() matches Some(e) && read_outcome(
                    *old(self),
                    *final(self),
                    Ok(e@),
                ),
                Err(m) => final(self).cached_event() is None && read_outcome(*old(self), *final(self), Err(m@)),
            },
            r is Ok ==> final(self).front_light() is Some,
            final(self).materialized_event() == old(self).materialized_event(),
    {
        if self.cached.is_none() && self.materialized.is_none() {
            let event = self.read_internal()?;
            self.cached = Some(event);
        }
        Ok(())
    }

    /// Gives the event read ahead its namespace map, reading it first if needed.
    fn materialize_cached(&mut self) -> (r: Result<(), String>)
        ensures
            old(self).materialized_event() is Some ==> {
                &&& r is Ok
                &&& final(self).materialized_event() == old(self).materialized_event()
                &&& final(self).cached_event() == old(self).cached_event()
                &&& final(self).same_position(old(self))
            },
            (old(self).materialized_event() is None && old(self).cached_event() is Some) ==> {
                &&& r is Ok
                &&& final(self).cached_event() is None
                &&& final(self).materialized_event() matches Some(e) && dematerialize(e@) == old(self).cached_event()->0@
                &&& final(self).same_position(old(self))
            },
            old(self).lookahead_empty() ==> {
                &&& final(self).cached_event() is None
                &&& match r {
                    Ok(_) => final(self).materialized_event() matches Some(e) && read_outcome(
                        *old(self),
                        *final(self),
                        Ok(dematerialize(e@)),
                    ),
                    Err(m) => final(self).materialized_event() is None && read_outcome(
                        *old(self),
                        *final(self),
                        Err(m@),
                    ),
                }
            },
            r is Ok ==> final(self).materialized_event() is Some,
    {
        if self.materialized.is_some() {
            return Ok(());
        }
        self.ensure_cached()?;
        if let Some(cached) = self.cached.take() {
            let event = match cached {
                InternalEvent::StartElement { name, attributes } => XmlReadEvent::StartElement {
                    name,
                    attributes,
                    namespace: self.namespace_map(),
                },
                InternalEvent::EndElement { name } => XmlReadEvent::EndElement { name },
                InternalEvent::Characters(text) => XmlReadEvent::Characters(text),
                InternalEvent::EndDocument => XmlReadEvent::EndDocument,
            };
            self.materialized = Some(event);
        }
        Ok(())
    }
}

/// The message `read_inner_text` returns when the next event is no start tag.
pub open spec fn expected_start_message() -> Seq<char> {
    "Internal error: expected StartElement"@
}

/// The message for an end tag that does not close the element being read.
pub open spec fn mismatched_end_tag_message(found: Seq<char>, expected: Seq<char>) -> Seq<char> {
    "End tag </"@ + found + "> didn't match the start tag <"@ + expected + ">"@
}

/// The message for a child element inside an element read as text.
pub open spec fn expected_text_message(expected: Seq<char>) -> Seq<char> {
    "Expected text content in <"@ + expected + ">"@
}

/// The message for a document that ends inside an element read as text.
pub open spec fn unexpected_end_message(expected: Seq<char>) -> Seq<char> {
    "Unexpected end of document in <"@ + expected + ">"@
}

/// The text of `<tag>` followed by the three parts `a`, `b` and `c`.
fn message3(a: &str, b: &str, c: &str) -> (m: String)
    ensures
        m@ == a@ + b@ + c@,
{
    let mut m = a.to_owned();
    m.append(b);
    m.append(c);
    m
}

/// Whether every event of `events` is a character event.
pub open spec fn all_characters(events: Seq<InternalEventView>) -> bool {
    forall|i: int| 0 <= i < events.len() ==> #[trigger] events[i] is Characters
}

/// The text of the character events of `events`, in order.
pub open spec fn characters_text(events: Seq<InternalEventView>) -> Seq<char>
    decreases events.len(),
{
    if events.len() == 0 {
        Seq::empty()
    } else {
        characters_text(events.drop_last()) + match events.last() {
            InternalEventView::Characters(t) => t,
            _ => Seq::empty(),
        }
    }
}

proof fn lemma_characters_text_push(events: Seq<InternalEventView>, e: InternalEventView)
    ensures
        characters_text(events.push(e)) == characters_text(events) + match e {
            InternalEventView::Characters(t) => t,
            _ => Seq::empty(),
        },
{
    assert(events.push(e).drop_last() =~= events);
}

/// The name of the start tag that `read_inner_text` consumes, going from
/// `before` to `after`: the one read ahead, or else the first event read.
pub open spec fn inner_text_start<R>(before: QuickXmlReader<R>, after: QuickXmlReader<R>) -> Option<
    XmlNameView,
> {
    if before.lookahead_empty() {
        if after.read_log().len() > before.read_log().len() {
            match after.read_log()[before.read_log().len() as int] {
                InternalEventView::StartElement { name, .. } => Some(name),
                _ => None,
            }
        } else {
            None
        }
    } else {
        before.front_start_name()
    }
}

/// What `QuickXmlReader::read_inner_text` guarantees.  A next event that is
/// no start tag is refused and left in place.  Otherwise, with `n` the start
/// tag consumed and `body` the events read after it up to the last one:
/// `body` is all text; on success the last event is the end tag of `n`,
/// which stays read ahead, and the result is the text of `body`, `None` where
/// it is empty; a failure after the start tag is decided by the last event
/// read: a child start tag (left read ahead), another end tag, or the end of
/// the document, each with its message.
pub open spec fn inner_text_outcome<R>(
    before: QuickXmlReader<R>,
    after: QuickXmlReader<R>,
    r: Result<Option<String>, String>,
) -> bool {
    let b = before.read_log().len() + if before.lookahead_empty() { 1int } else { 0int };
    let log = after.read_log();
    let body = log.subrange(b, log.len() - 1);
    &&& (before.front_light() matches Some(f) && !(f is StartElement)) ==> {
        &&& r matches Err(m) && m@ == expected_start_message()
        &&& after.cached_event() == before.cached_event()
        &&& after.materialized_event() == before.materialized_event()
        &&& after.same_position(&before)
    }
    &&& log.len() >= before.read_log().len()
    &&& log.take(before.read_log().len() as int) == before.read_log()
    &&& r is Ok ==> {
        &&& inner_text_start(before, after) matches Some(n)
        &&& log.len() > b
        &&& all_characters(body)
        &&& log.last() == InternalEventView::EndElement { name: n }
        &&& after.materialized_event() is None
        &&& after.cached_event() matches Some(c) && c@ == log.last()
        &&& match r {
            Ok(Some(t)) => t@ == characters_text(body) && t@.len() > 0,
            _ => characters_text(body).len() == 0,
        }
    }
    &&& match (r, inner_text_start(before, after)) {
        (Err(m), Some(n)) => log.len() > b ==> {
            &&& all_characters(body)
            &&& match log.last() {
                InternalEventView::StartElement { .. } => {
                    &&& m@ == expected_text_message(n.local_name)
                    &&& after.cached_event() matches Some(c) && c@ == log.last()
                },
                InternalEventView::EndElement { name } => name != n && m@ == mismatched_end_tag_message(
                    name.local_name,
                    n.local_name,
                ),
                InternalEventView::EndDocument => m@ == unexpected_end_message(n.local_name),
                InternalEventView::Characters(_) => true,
            }
        },
        _ => true,
    }
    &&& (inner_text_start(before, after) matches Some(n) && log.len() > b && all_characters(body)
        && log.last() == InternalEventView::EndElement { name: n }) ==> r is Ok
    &&& (before.held_ok() && r is Err && inner_text_start(before, after) is Some) ==> (log.len() > b
        || after.trace().len() > before.trace().len() || !before.seen_element())
}

impl<R> XmlEventReader for QuickXmlReader<R> {
    /// The event read ahead, or else the next one, with its namespace map.
    fn next_event(&mut self) -> (r: Result<XmlReadEvent, String>)
        ensures
            quick_next_outcome(*old(self), *final(self), r),
            old(self).traced_state() ==> final(self).traced_state(),
    {
        if let Some(event) = self.materialized.take() {
            proof {
                assert(self.trace() == old(self).trace());
                assert(self.pending_end_names() == old(self).pending_end_names());
                assert(self.held_event() == old(self).held_event());
                assert(self.cached_event() == old(self).cached_event());
            }
            return Ok(event);
        }
        self.materialize_cached()?;
        match self.materialized.take() {
            Some(event) => Ok(event),
            None => Err("no event available".to_owned()),
        }
    }

    fn supports_light_events(&self) -> (r: bool)
        ensures
            r,
    {
        true
    }

    /// The light form of the next event, which stays unconsumed.
    fn peek_light_event(&mut self) -> (r: Result<XmlLightEvent, String>)
        ensures
            quick_peek_outcome(*old(self), *final(self), r),
            old(self).traced_state() ==> final(self).traced_state(),
    {
        self.ensure_cached()?;
        if let Some(event) = &self.materialized {
            return Ok(crate::xml::light_event_of(event));
        }
        match &self.cached {
            Some(event) => Ok(light_from_internal(event)),
            None => Err("unable to peek next item".to_owned()),
        }
    }

    /// Consumes the next event and returns its light form.
    fn next_light_event(&mut self) -> (r: Result<XmlLightEvent, String>)
        ensures
            quick_next_light_outcome(*old(self), *final(self), r),
            old(self).traced_state() ==> final(self).traced_state(),
    {
        if let Some(event) = self.materialized.take() {
            proof {
                assert(self.trace() == old(self).trace());
                assert(self.pending_end_names() == old(self).pending_end_names());
                assert(self.held_event() == old(self).held_event());
                assert(self.cached_event() == old(self).cached_event());
            }
            return Ok(crate::xml::light_event_of(&event));
        }
        self.ensure_cached()?;
        match self.cached.take() {
            Some(event) => Ok(light_from_internal(&event)),
            None => Err("no event available".to_owned()),
        }
    }

    /// The attributes of the next event if it is a start tag; the event stays
    /// unconsumed.
    fn peek_attributes(&mut self) -> (r: Result<Option<Vec<XmlAttribute>>, String>)
        ensures
            r is Ok ==> final(self).front_light() is Some,
            final(self).materialized_event() == old(self).materialized_event(),
            old(self).lookahead_empty() ==> match r {
                Ok(_) => final(self).cached_event() matches Some(e) && read_outcome(
                    *old(self),
                    *final(self),
                    Ok(e@),
                ),
                Err(m) => final(self).cached_event() is None && read_outcome(*old(self), *final(self), Err(m@)),
            },
            old(self).front_light() is Some ==> r is Ok && final(self).cached_event() == old(self).cached_event() && final(self).materialized_event() == old(self).materialized_event()
                && final(self).same_position(old(self)),
            r matches Ok(Some(a)) ==> match final(self).materialized_event() {
                Some(XmlReadEvent::StartElement { attributes, .. }) => attributes_view(a@)
                    == attributes_view(attributes@),
                Some(_) => false,
                None => final(self).cached_event() matches Some(
                    InternalEvent::StartElement { attributes, .. },
                ) && attributes_view(a@) == attributes_view(attributes@),
            },
            r matches Ok(None) ==> !(final(self).front_light() matches Some(
                LightEventView::StartElement { .. },
            )),
            r matches Ok(Some(a)) ==> peeked_attributes(*final(self), attributes_view(a@)),
            old(self).traced_state() ==> final(self).traced_state(),
    {
        self.ensure_cached()?;
        if let Some(XmlReadEvent::StartElement { attributes, .. }) = &self.materialized {
            return Ok(Some(crate::xml::name::clone_attributes(attributes)));
        }
        if self.materialized.is_some() {
            return Ok(None);
        }
        match &self.cached {
            Some(InternalEvent::StartElement { attributes, .. }) => Ok(
                Some(crate::xml::name::clone_attributes(attributes)),
            ),
            _ => Ok(None),
        }
    }

    /// Consumes the start tag read ahead (reading it first if none is) and
    /// the text up to its end tag, which stays read ahead; an element
    /// without text gives `None`.
    fn read_inner_text(&mut self) -> (r: Result<Option<String>, String>)
        ensures
            inner_text_outcome(*old(self), *final(self), r),
    {
        let ready = self.ensure_cached();
        proof {
            assert(self.log@.take(old(self).log@.len() as int) =~= old(self).log@);
            assert(self.trace().take(old(self).trace().len() as int) =~= old(self).trace());
        }
        if let Err(m) = ready {
            return Err(m);
        }
        let ghost log0 = self.log@;
        let ghost empty_before = old(self).lookahead_empty();
        let start_name = match self.materialized.take() {
            Some(event) => match event {
                XmlReadEvent::StartElement { name, .. } => name,
                other => {
                    self.materialized = Some(other);
                    return Err("Internal error: expected StartElement".to_owned());
                },
            },
            None => match self.cached.take() {
                Some(InternalEvent::StartElement { name, .. }) => name,
                Some(other) => {
                    self.cached = Some(other);
                    return Err("Internal error: expected StartElement".to_owned());
                },
                None => {
                    return Err("no event available".to_owned());
                },
            },
        };
        let ghost n = start_name@;
        proof {
            if empty_before {
                assert(log0[old(self).log@.len() as int] == InternalEventView::StartElement {
                    name: n,
                    attributes: log0.last()->StartElement_attributes,
                });
            }
        }
        assert(log0.subrange(log0.len() as int, log0.len() as int) =~= Seq::<InternalEventView>::empty());
        let mut text = String::new();
        let mut steps: u64 = 0;
        loop
            invariant
                start_name@ == n,
                empty_before == old(self).lookahead_empty(),
                log0.len() == old(self).log@.len() + if empty_before { 1int } else { 0int },
                log0.take(old(self).log@.len() as int) == old(self).log@,
                empty_before ==> (log0[old(self).log@.len() as int] matches InternalEventView::StartElement { name, .. } && name == n),
                !empty_before ==> old(self).front_start_name() == Some(n),
                self.log@.len() >= log0.len(),
                self.log@.take(log0.len() as int) == log0,
                self.log@.take(old(self).log@.len() as int) == old(self).log@,
                all_characters(self.log@.subrange(log0.len() as int, self.log@.len() as int)),
                text@ == characters_text(self.log@.subrange(log0.len() as int, self.log@.len() as int)),
                self.materialized is None,
                extends(old(self).trace(), self.trace()),
                old(self).held_ok() ==> self.held_ok(),
                old(self).seen_any ==> self.seen_any,
            decreases u64::MAX - steps,
        {
            let ghost before = self.log@;
            let ghost t1 = self.trace();
            let read = self.read_internal();
            proof {
                let t2 = self.trace();
                let t0 = old(self).trace();
                assert(t2.take(t0.len() as int) =~= t2.take(t1.len() as int).take(t0.len() as int));
            }
            let event = read?;
            proof {
                assert(self.log@.take(log0.len() as int) =~= log0);
                assert(self.log@.take(old(self).log@.len() as int) =~= old(self).log@);
                if empty_before {
                    assert(self.log@.take(log0.len() as int)[old(self).log@.len() as int] == self.log@[old(self).log@.len() as int]);
                }
                assert(self.log@.subrange(log0.len() as int, self.log@.len() - 1) =~= before.subrange(
                    log0.len() as int,
                    before.len() as int,
                ));
                assert(self.log@.subrange(log0.len() as int, self.log@.len() as int) =~= before.subrange(
                    log0.len() as int,
                    before.len() as int,
                ).push(event@));
            }
            match event {
                InternalEvent::Characters(chunk) => {
                    text.append(chunk.as_str());
                    proof {
                        lemma_characters_text_push(
                            before.subrange(log0.len() as int, before.len() as int),
                            event@,
                        );
                    }
                },
                InternalEvent::EndElement { name } => {
                    if name == start_name {
                        self.cached = Some(InternalEvent::EndElement { name });
                        if text.as_str().is_empty() {
                            return Ok(None);
                        }
                        return Ok(Some(text));
                    }
                    let tail = message3("> didn't match the start tag <", start_name.local_name.as_str(), ">");
                    let m = message3("End tag </", name.local_name.as_str(), tail.as_str());
                    assert(m@ =~= mismatched_end_tag_message(name@.local_name, n.local_name));
                    return Err(m);
                },
                InternalEvent::StartElement { .. } => {
                    self.cached = Some(event);
                    return Err(message3("Expected text content in <", start_name.local_name.as_str(), ">"));
                },
                InternalEvent::EndDocument => {
                    return Err(message3("Unexpected end of document in <", start_name.local_name.as_str(), ">"));
                },
            }
            if steps == u64::MAX {
                return Err("Element text too long to read".to_owned());
            }
            steps = steps + 1;
        }
    }
}

} // verus!
