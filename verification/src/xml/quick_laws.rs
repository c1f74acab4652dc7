//! Properties of the `quick-xml` reader that span several calls.
use vstd::prelude::*;
use crate::xml::quick::{
    attributes_read, dematerialize, inner_text_outcome, inner_text_start, internal_light, kept_keys,
    event_traced, lossy_utf8, no_root_message, peeked_attributes, start_traced, pieces, qname_local, qname_prefix,
    quick_next_light_outcome, quick_next_outcome, quick_peek_outcome, tag_named, QuickXmlReader,
};
use crate::xml::quick_input::TraceEntry;
use crate::xml::name::{attributes_view, XmlAttributeView, XmlNameView};
use crate::text::trim_ws;
use crate::xml::{light_view, LightEventView, ReadEventView, XmlLightEvent, XmlReadEvent};

verus! {

/// The light form of a full event is that of the event without its
/// namespace map.
pub proof fn lemma_light_of_dematerialized(e: ReadEventView)
    ensures
        light_view(e) == internal_light(dematerialize(e)),
{
}

/// Peeking twice in a row gives the same event, and the second peek reads
/// nothing from the parser.
pub proof fn lemma_peek_twice<R>(
    s0: QuickXmlReader<R>,
    s1: QuickXmlReader<R>,
    s2: QuickXmlReader<R>,
    first: XmlLightEvent,
    second: Result<XmlLightEvent, String>,
)
    requires
        quick_peek_outcome(s0, s1, Ok(first)),
        quick_peek_outcome(s1, s2, second),
    ensures
        second matches Ok(l) && l@ == first@,
        s2.read_log() == s1.read_log(),
        s2.cached_event() == s1.cached_event(),
        s2.materialized_event() == s1.materialized_event(),
{
}

/// A peeked event is the one that `next_light_event` then consumes, without
/// reading anything more from the parser.
pub proof fn lemma_peek_then_next_light<R>(
    s0: QuickXmlReader<R>,
    s1: QuickXmlReader<R>,
    s2: QuickXmlReader<R>,
    peeked: XmlLightEvent,
    next: Result<XmlLightEvent, String>,
)
    requires
        quick_peek_outcome(s0, s1, Ok(peeked)),
        quick_next_light_outcome(s1, s2, next),
    ensures
        next matches Ok(l) && l@ == peeked@,
        s2.read_log() == s1.read_log(),
        s2.materialized_event() is None,
{
}

/// A peeked event is the one that `next_event` then returns in full,
/// without reading anything more from the parser.
pub proof fn lemma_peek_then_next<R>(
    s0: QuickXmlReader<R>,
    s1: QuickXmlReader<R>,
    s2: QuickXmlReader<R>,
    peeked: XmlLightEvent,
    next: Result<XmlReadEvent, String>,
)
    requires
        quick_peek_outcome(s0, s1, Ok(peeked)),
        quick_next_outcome(s1, s2, next),
    ensures
        next matches Ok(e) && light_view(e@) == peeked@,
        s2.read_log() == s1.read_log(),
{
    if s1.materialized_event() is None {
        let e = next->Ok_0;
        lemma_light_of_dematerialized(e@);
    }
}

/// A self-closing element is reported as its start tag followed at once by
/// its end tag: once `next_event` has given the start tag of an element that
/// leaves its end tag owed, the next call gives that end tag.
pub proof fn lemma_self_closing_then_end<R>(
    s0: QuickXmlReader<R>,
    s1: QuickXmlReader<R>,
    s2: QuickXmlReader<R>,
    start: XmlReadEvent,
    next: Result<XmlReadEvent, String>,
)
    requires
        s0.lookahead_empty(),
        s0.pending_end_names().len() == 0,
        quick_next_outcome(s0, s1, Ok(start)),
        s1.pending_end_names().len() > 0,
        quick_next_outcome(s1, s2, next),
    ensures
        start@ matches ReadEventView::StartElement { name, .. } && next matches Ok(e) && e@
            == (ReadEventView::EndElement { name }),
        s2.pending_end_names().len() == 0,
{
}

/// At the end of the input, after an element has been read, every call of
/// `next_event` gives the end of the document and stays at the end.
pub proof fn lemma_end_document_repeats<R>(
    s0: QuickXmlReader<R>,
    s1: QuickXmlReader<R>,
    next: Result<XmlReadEvent, String>,
)
    requires
        s0.lookahead_empty(),
        s0.pending_end_names().len() == 0,
        s0.at_eof(),
        s0.seen_element(),
        quick_next_outcome(s0, s1, next),
    ensures
        next matches Ok(e) && e@ == ReadEventView::EndDocument,
        s1.lookahead_empty(),
        s1.pending_end_names().len() == 0,
        s1.at_eof(),
        s1.seen_element(),
{
}

/// A document that ends before any element is refused with the message
/// "Unexpected end of stream: no root element found", and is refused again
/// on every later call.
pub proof fn lemma_no_root_refused<R>(
    s0: QuickXmlReader<R>,
    s1: QuickXmlReader<R>,
    next: Result<XmlReadEvent, String>,
)
    requires
        s0.lookahead_empty(),
        s0.pending_end_names().len() == 0,
        s0.at_eof(),
        !s0.seen_element(),
        quick_next_outcome(s0, s1, next),
    ensures
        next matches Err(m) && m@ == no_root_message(),
        s1.lookahead_empty(),
        s1.pending_end_names().len() == 0,
        s1.at_eof(),
        !s1.seen_element(),
{
}

/// After `read_inner_text` succeeds, the end tag of the element it read is
/// what `peek_light_event` gives next, without reading from the parser.
pub proof fn lemma_inner_text_leaves_end_tag<R>(
    s0: QuickXmlReader<R>,
    s1: QuickXmlReader<R>,
    s2: QuickXmlReader<R>,
    text: Option<String>,
    peeked: Result<XmlLightEvent, String>,
)
    requires
        inner_text_outcome(s0, s1, Ok(text)),
        quick_peek_outcome(s1, s2, peeked),
    ensures
        inner_text_start(s0, s1) matches Some(n) && peeked matches Ok(l) && l@
            == (LightEventView::EndElement { local_name: n.local_name }),
        s2.read_log() == s1.read_log(),
{
}

/// Adjacent text and CDATA come as one event: `next_event` never gives two
/// `Characters` events in a row, and the text it gives is never empty.
pub proof fn lemma_text_is_coalesced<R>(
    s0: QuickXmlReader<R>,
    s1: QuickXmlReader<R>,
    s2: QuickXmlReader<R>,
    text: XmlReadEvent,
    next: Result<XmlReadEvent, String>,
)
    requires
        s0.lookahead_empty(),
        quick_next_outcome(s0, s1, Ok(text)),
        text is Characters,
        quick_next_outcome(s1, s2, next),
    ensures
        text matches XmlReadEvent::Characters(t) && t@.len() > 0,
        !(next matches Ok(XmlReadEvent::Characters(_))),
{
}

/// The text of a `Characters` event is the text read for it from the parser,
/// unescaped, with its CDATA sections as they are, joined in order and
/// trimmed; text that is white space alone gives no event.
pub proof fn lemma_text_is_trimmed_run<R>(
    s0: QuickXmlReader<R>,
    s1: QuickXmlReader<R>,
    text: XmlReadEvent,
)
    requires
        s0.lookahead_empty(),
        s0.held_ok(),
        quick_next_outcome(s0, s1, Ok(text)),
        text is Characters,
    ensures
        text matches XmlReadEvent::Characters(t) && t@ == trim_ws(
            pieces(s1.trace().skip(s0.trace().len() as int)),
        ) && t@.len() > 0,
        s1.held_ok(),
{
}

/// The attributes `peek_attributes` gives are those of the start tag that
/// `next_event` then returns, in the same order.
pub proof fn lemma_peek_attributes_then_next<R>(
    s1: QuickXmlReader<R>,
    peeked: Seq<XmlAttributeView>,
    s2: QuickXmlReader<R>,
    next: Result<XmlReadEvent, String>,
)
    requires
        peeked_attributes(s1, peeked),
        quick_next_outcome(s1, s2, next),
    ensures
        next matches Ok(XmlReadEvent::StartElement { attributes, .. }) && attributes_view(attributes@)
            == peeked,
{
}

/// The attributes read from a start tag are the attributes it lists, in
/// order, less the namespace declarations: as many as those, each named after
/// the corresponding qualified name (its local part and its prefix).  An
/// attribute without a prefix is in no namespace, the default namespace
/// notwithstanding, and one with a prefix is in the namespace bound to it.
pub proof fn lemma_attributes_are_the_listed_ones(seg: Seq<TraceEntry>, found: Seq<XmlAttributeView>)
    requires
        attributes_read(seg, found),
    ensures
        found.len() == kept_keys(seg).len(),
        forall|i: int|
            0 <= i < found.len() ==> {
                &&& (#[trigger] found[i]).name.local_name == lossy_utf8(qname_local(kept_keys(seg)[i]))
                &&& (qname_prefix(kept_keys(seg)[i]) is None <==> found[i].name.prefix is None)
                &&& (found[i].name.prefix is None ==> found[i].name.namespace is None)
                &&& (found[i].name.prefix is Some ==> found[i].name.namespace is Some)
            },
{
    assert forall|i: int| 0 <= i < found.len() implies {
        &&& (#[trigger] found[i]).name.local_name == lossy_utf8(qname_local(kept_keys(seg)[i]))
        &&& (qname_prefix(kept_keys(seg)[i]) is None <==> found[i].name.prefix is None)
        &&& (found[i].name.prefix is None ==> found[i].name.namespace is None)
        &&& (found[i].name.prefix is Some ==> found[i].name.namespace is Some)
    } by {
        let res = crate::xml::quick::attribute_resolutions(seg);
        assert(res[i].0 == kept_keys(seg)[i]);
        assert(crate::xml::quick::resolution_follows_prefix(res[i].0, res[i].1));
    }
}

/// The name of a tag is made of the qualified name it was read with: its
/// local part and its prefix; a tag with a prefix is always in the namespace
/// bound to that prefix (an unknown prefix is refused).
pub proof fn lemma_tag_name_parts(seg: Seq<TraceEntry>, name: XmlNameView)
    requires
        tag_named(seg, name),
    ensures
        seg[0] matches TraceEntry::ResolvedElement(q, _) && name.local_name == lossy_utf8(qname_local(q))
            && (qname_prefix(q) is None <==> name.prefix is None),
        name.prefix is Some ==> name.namespace is Some,
{
}

/// Every element event `next_event` gives carries the name, and a start tag
/// the attributes, that the trace records reading from the parser: the name
/// resolved as an element name, the attributes all those listed, less the
/// namespace declarations, in order.
pub proof fn lemma_next_event_is_traced<R>(
    s0: QuickXmlReader<R>,
    s1: QuickXmlReader<R>,
    e: XmlReadEvent,
)
    requires
        s0.traced_state(),
        quick_next_outcome(s0, s1, Ok(e)),
    ensures
        event_traced(s1.trace(), dematerialize(e@)),
{
}

/// The attributes `peek_attributes` gives are those the trace records
/// reading for a start tag.
pub proof fn lemma_peeked_attributes_are_traced<R>(s1: QuickXmlReader<R>, a: Seq<XmlAttributeView>)
    requires
        s1.traced_state(),
        peeked_attributes(s1, a),
    ensures
        exists|name: XmlNameView| start_traced(s1.trace(), name, a),
{
    match s1.materialized_event() {
        Some(XmlReadEvent::StartElement { name, .. }) => {
            assert(start_traced(s1.trace(), name@, a));
        },
        Some(_) => {},
        None => {
            match s1.cached_event() {
                Some(crate::xml::quick::InternalEvent::StartElement { name, .. }) => {
                    assert(start_traced(s1.trace(), name@, a));
                },
                _ => {},
            }
        },
    }
}

} // verus!
