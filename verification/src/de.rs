//! Generic data structure deserialization framework.
use vstd::prelude::*;
use std::io::Read;
use crate::xml::{ReadEventView, XmlEventReader, XmlName, XmlNameView, XmlReadEvent, XmlRsReader};
use crate::YaDeserialize;

verus! {

/// How the element depth changes when `event` is consumed at depth `depth`.
pub open spec fn depth_after(depth: int, event: ReadEventView) -> int {
    match event {
        ReadEventView::StartElement { .. } => depth + 1,
        ReadEventView::EndElement { .. } => depth - 1,
        _ => depth,
    }
}

/// Whether consuming `event` at `depth` keeps the depth within `0..=usize::MAX`.
pub open spec fn depth_step_fits(depth: int, event: ReadEventView) -> bool {
    0 <= depth_after(depth, event) <= usize::MAX
}

/// The message returned when an end tag would close more elements than are open.
pub open spec fn unbalanced_end_message(name: Seq<char>) -> Seq<char> {
    "End tag </"@ + name + "> closes no open element"@
}

/// The message returned when start tags nest deeper than a `usize` can count.
pub open spec fn too_deep_message() -> Seq<char> {
    "Elements nest deeper than the depth counter can hold"@
}

/// The message `read_inner_value` returns when the next event is no start tag.
pub open spec fn bad_event_message() -> Seq<char> {
    "Internal error: Bad Event"@
}

/// The message `expect_end_element` returns for an end tag with another name.
pub open spec fn mismatched_end_message(found: Seq<char>, expected: Seq<char>) -> Seq<char> {
    "End tag </"@ + found + "> didn't match the start tag <"@ + expected + ">"@
}

/// The message `expect_end_element` returns when the next event is no end tag.
pub open spec fn unexpected_token_message(expected: Seq<char>) -> Seq<char> {
    "Unexpected token </"@ + expected + ">"@
}

/// What `Deserializer::next_event` guarantees of a call that starts in
/// `before`, ends in `after` and returns `r`: the look-ahead is emptied, the
/// event returned is the look-ahead one if there was one, and the depth moves
/// by the event unless that would take it below zero or past `usize::MAX`, in
/// which case the call fails.
pub open spec fn next_event_outcome<P: XmlEventReader>(
    before: Deserializer<P>,
    after: Deserializer<P>,
    r: Result<XmlReadEvent, String>,
) -> bool {
    &&& after.pending() is None
    &&& after.reads() == before.reads() + if before.pending() is None { 1nat } else { 0nat }
    &&& (r matches Ok(e) ==> after.consumed() == before.consumed().push(e@))
    &&& (r is Err ==> after.consumed() == before.consumed())
    &&& (r matches Ok(e) ==> depth_step_fits(before.current_depth(), e@) && after.current_depth()
        == depth_after(before.current_depth(), e@) && (before.pending() matches Some(p) ==> e == p))
    &&& (r is Err ==> after.current_depth() == before.current_depth())
    &&& (before.pending() matches Some(p) ==> {
        &&& after.source() == before.source()
        &&& (r is Ok <==> depth_step_fits(before.current_depth(), p@))
        &&& (r matches Err(m) ==> match p@ {
            ReadEventView::EndElement { name } => m@ == unbalanced_end_message(name.local_name),
            _ => m@ == too_deep_message(),
        })
    })
}

/// The decision `expect_end_element` makes on the event it consumes, for the
/// start tag `start`: an end tag of that name is accepted, an end tag of
/// another name is a mismatch, anything else is an unexpected token.
pub open spec fn end_tag_decision(event: ReadEventView, start: XmlNameView, r: Result<(), String>) -> bool {
    match event {
        ReadEventView::EndElement { name } => if name == start {
            r is Ok
        } else {
            r matches Err(m) && m@ == mismatched_end_message(name.local_name, start.local_name)
        },
        _ => r matches Err(m) && m@ == unexpected_token_message(start.local_name),
    }
}

/// What `Deserializer::expect_end_element` guarantees for the start tag
/// `start`, going from `before` to `after` with result `r`: nothing stays read
/// ahead; the reader is asked for an event when none was read ahead; if no
/// event was consumed the call failed and the depth is unchanged; otherwise
/// the one event consumed moves the depth and decides the result.
pub open spec fn end_element_outcome<P: XmlEventReader>(
    before: Deserializer<P>,
    after: Deserializer<P>,
    start: XmlNameView,
    r: Result<(), String>,
) -> bool {
    &&& (before.pending() matches Some(p) && depth_step_fits(before.current_depth(), p@))
        ==> end_tag_decision(before.pending()->0@, start, r)
    &&& r is Ok ==> after.current_depth() + 1 == before.current_depth()
    &&& after.pending() is None
    &&& after.reads() == before.reads() + if before.pending() is None { 1nat } else { 0nat }
    &&& after.consumed().len() == before.consumed().len() ==> {
        &&& r is Err
        &&& after.current_depth() == before.current_depth()
    }
    &&& after.consumed().len() != before.consumed().len() ==> {
        &&& after.consumed() == before.consumed().push(after.consumed().last())
        &&& after.current_depth() == depth_after(before.current_depth(), after.consumed().last())
        &&& end_tag_decision(after.consumed().last(), start, r)
    }
}

/// What `next_event` makes of the answer `raw` of the reader, at depth
/// `depth`: the reader's error as it is; the reader's event as it is, unless
/// consuming it would take the depth out of range, when an end tag is refused
/// as closing no open element and a start tag as nesting too deep.
pub open spec fn reader_answer(depth: int, raw: Result<XmlReadEvent, String>, r: Result<XmlReadEvent, String>) -> bool {
    match raw {
        Err(m) => r == Err::<XmlReadEvent, String>(m),
        Ok(e) => if depth_step_fits(depth, e@) {
            r == Ok::<XmlReadEvent, String>(e)
        } else {
            r matches Err(msg) && match e@ {
                ReadEventView::EndElement { name } => msg@ == unbalanced_end_message(name.local_name),
                _ => msg@ == too_deep_message(),
            }
        },
    }
}

/// The event a `peek` returned, taken by value.
pub open spec fn peeked_value(r: Result<&XmlReadEvent, String>) -> Result<XmlReadEvent, String> {
    match r {
        Ok(e) => Ok(*e),
        Err(m) => Err(m),
    }
}

/// What `Deserializer::peek` guarantees, with the event it returns taken by
/// value: nothing is consumed and the depth stays; the reader is asked for an
/// event only when none was read ahead; an event read ahead is returned and
/// stays; a returned event is the one read ahead afterwards; a failed read
/// leaves nothing read ahead.
pub open spec fn peek_outcome<P: XmlEventReader>(
    before: Deserializer<P>,
    after: Deserializer<P>,
    r: Result<XmlReadEvent, String>,
) -> bool {
    &&& after.current_depth() == before.current_depth()
    &&& after.consumed() == before.consumed()
    &&& after.reads() == before.reads() + if before.pending() is None { 1nat } else { 0nat }
    &&& (before.pending() matches Some(p) ==> {
        &&& r == Ok::<XmlReadEvent, String>(p)
        &&& after.pending() == before.pending()
        &&& after.source() == before.source()
    })
    &&& (r matches Ok(e) ==> after.pending() == Some(e))
    &&& (r is Err ==> before.pending() is None && after.pending() is None)
}

/// Pull-based deserializer: an event reader with a one-event look-ahead and a
/// count of the elements opened and not yet closed.
pub struct Deserializer<P: XmlEventReader> {
    depth: usize,
    reader: P,
    peeked: Option<XmlReadEvent>,
    consumed: Ghost<Seq<ReadEventView>>,
    reads: Ghost<nat>,
}

impl<P: XmlEventReader> Deserializer<P> {
    /// Number of start tags consumed and not yet closed.
    pub closed spec fn current_depth(&self) -> int {
        self.depth as int
    }

    /// The event read ahead by `peek` and not yet consumed.
    pub closed spec fn pending(&self) -> Option<XmlReadEvent> {
        self.peeked
    }

    /// The events consumed so far through `next_event`, in order.
    pub closed spec fn consumed(&self) -> Seq<ReadEventView> {
        self.consumed@
    }

    /// How many events have been asked of the underlying reader, failed
    /// reads included.
    pub closed spec fn reads(&self) -> nat {
        self.reads@
    }

    /// The underlying event reader.
    pub closed spec fn source(&self) -> P {
        self.reader
    }

    pub fn new(reader: P) -> (d: Self)
        ensures
            d.current_depth() == 0,
            d.pending() is None,
            d.source() == reader,
            d.consumed() == Seq::<ReadEventView>::empty(),
            d.reads() == 0,
    {
        Deserializer { depth: 0, reader, peeked: None, consumed: Ghost(Seq::empty()), reads: Ghost(0) }
    }

    /// The next event, without consuming it.
    pub fn peek(&mut self) -> (r: Result<&XmlReadEvent, String>)
        ensures
            final(self).current_depth() == old(self).current_depth(),
            final(self).consumed() == old(self).consumed(),
            final(self).reads() == old(self).reads() + if old(self).pending() is None { 1nat } else { 0nat },
            old(self).pending() matches Some(p) ==> r == Ok::<&XmlReadEvent, String>(&p)
                && final(self).pending() == old(self).pending()
                && final(self).source() == old(self).source(),
            r matches Ok(e) ==> final(self).pending() == Some(*e),
            r is Err ==> old(self).pending() is None && final(self).pending() is None,
            peek_outcome(*old(self), *final(self), peeked_value(r)),
            old(self).pending() is None ==> exists|m: &mut P, raw: Result<XmlReadEvent, String>|
                {
                    &&& #[trigger] call_ensures(P::next_event, (m,), raw)
                    &&& mut_ref_current(m) == old(self).source()
                    &&& mut_ref_future(m) == final(self).source()
                    &&& peeked_value(r) == raw
                },
    {
        if self.peeked.is_none() {
            let event = self.inner_next()?;
            self.peeked = Some(event);
        }
        match &self.peeked {
            Some(next) => Ok(next),
            None => Err("unable to peek next item".to_owned()),
        }
    }

    /// The next event straight from the reader, bypassing the look-ahead and the
    /// depth count.
    pub fn inner_next(&mut self) -> (r: Result<XmlReadEvent, String>)
        ensures
            final(self).current_depth() == old(self).current_depth(),
            final(self).pending() == old(self).pending(),
            final(self).consumed() == old(self).consumed(),
            final(self).reads() == old(self).reads() + 1,
            exists|m: &mut P|
                {
                    &&& #[trigger] call_ensures(P::next_event, (m,), r)
                    &&& mut_ref_current(m) == old(self).source()
                    &&& mut_ref_future(m) == final(self).source()
                },
    {
        self.reads = Ghost(self.reads@ + 1);
        self.reader.next_event()
    }

    /// Consumes the next event (the look-ahead one first) and updates the depth.
    pub fn next_event(&mut self) -> (r: Result<XmlReadEvent, String>)
        ensures
            next_event_outcome(*old(self), *final(self), r),
            old(self).pending() is None ==> exists|m: &mut P, raw: Result<XmlReadEvent, String>|
                {
                    &&& #[trigger] call_ensures(P::next_event, (m,), raw)
                    &&& mut_ref_current(m) == old(self).source()
                    &&& mut_ref_future(m) == final(self).source()
                    &&& reader_answer(old(self).current_depth(), raw, r)
                },
    {
        let next_event = match self.peeked.take() {
            Some(peeked) => peeked,
            None => self.inner_next()?,
        };
        match &next_event {
            XmlReadEvent::StartElement { .. } => {
                if self.depth == usize::MAX {
                    return Err("Elements nest deeper than the depth counter can hold".to_owned());
                }
                self.depth = self.depth + 1;
            },
            XmlReadEvent::EndElement { name } => {
                if self.depth == 0 {
                    let mut msg = "End tag </".to_owned();
                    msg.append(name.local_name.as_str());
                    msg.append("> closes no open element");
                    return Err(msg);
                }
                self.depth = self.depth - 1;
            },
            _ => {},
        }
        self.consumed = Ghost(self.consumed@.push(next_event@));
        Ok(next_event)
    }

    /// Consumes events up to and including the end tag that closes the element
    /// in which the call is made, handing each consumed event to `cb`.
    pub fn skip_element(&mut self, mut cb: impl FnMut(&XmlReadEvent)) -> (r: Result<(), String>)
        requires
            forall|e: &XmlReadEvent| call_requires(cb, (e,)),
        ensures
            final(self).consumed().len() >= old(self).consumed().len(),
            final(self).consumed().take(old(self).consumed().len() as int) == old(self).consumed(),
            r is Ok ==> {
                &&& closes_element(
                    old(self).current_depth(),
                    final(self).consumed().skip(old(self).consumed().len() as int),
                )
                &&& final(self).current_depth() + 1 == old(self).current_depth()
                &&& final(self).pending() is None
            },
            r is Err ==> stays_open(
                old(self).current_depth(),
                final(self).consumed().skip(old(self).consumed().len() as int),
            ),
            (old(self).pending() matches Some(p) && p is EndElement && old(self).current_depth() > 0)
                ==> r is Ok,
            old(self).pending() is None ==> final(self).reads() > old(self).reads(),
    {
        let depth = self.depth;
        let ghost start = self.consumed@;
        let mut steps: u64 = 0;
        proof {
            assert(self.consumed@.skip(start.len() as int) =~= Seq::<ReadEventView>::empty());
            assert(self.consumed@.take(start.len() as int) =~= start);
            lemma_stays_open_empty(depth as int);
        }
        while self.depth >= depth
            invariant
                forall|e: &XmlReadEvent| call_requires(cb, (e,)),
                depth == old(self).depth,
                start == old(self).consumed@,
                self.consumed@.len() >= start.len(),
                self.consumed@.take(start.len() as int) == start,
                self.depth == depth + depth_change(self.consumed@.skip(start.len() as int)),
                self.depth >= depth ==> stays_open(depth as int, self.consumed@.skip(start.len() as int)),
                self.depth < depth ==> closes_element(depth as int, self.consumed@.skip(start.len() as int)),
                self.depth < depth ==> self.peeked is None,
                steps == 0 ==> self.depth == old(self).depth && self.peeked == old(self).peeked,
                (old(self).peeked matches Some(p) && p is EndElement && depth > 0) ==> (steps == 0
                    || self.depth < depth),
                self.reads@ >= old(self).reads@,
                (old(self).peeked is None && steps > 0) ==> self.reads@ > old(self).reads@,
            decreases u64::MAX - steps,
        {
            if steps == u64::MAX {
                return Err("Element too long to skip".to_owned());
            }
            let ghost before = self.consumed@;
            let event = self.next_event()?;
            proof {
                let evs = before.skip(start.len() as int);
                assert(self.consumed@.skip(start.len() as int) =~= evs.push(event@));
                assert(self.consumed@.take(start.len() as int) =~= start);
                lemma_depth_change_push(evs, event@);
                lemma_stays_open_push(depth as int, evs, event@);
            }
            cb(&event);
            steps = steps + 1;
        }
        Ok(())
    }

    pub fn depth(&self) -> (d: usize)
        ensures
            d == self.current_depth(),
    {
        self.depth
    }

    /// Consumes a start tag, runs `f` on the element's content, then consumes
    /// the matching end tag.  One event is consumed first: anything but a start
    /// tag, a failed read included, is refused with the bad-event message and
    /// `f` is not called.  After a start tag, `f` runs on the deserializer as
    /// it then is, and an error of `f` is the result; after a value of `f`,
    /// the end tag is checked as `expect_end_element` checks it, and the value
    /// is the result unless that check fails.
    pub fn read_inner_value<T, F: FnOnce(&mut Self) -> Result<T, String>>(&mut self, f: F) -> (r:
        Result<T, String>)
        requires
            forall|d: &mut Self| call_requires(f, (d,)),
        ensures
            (old(self).pending() matches Some(p) && !(p is StartElement)) ==> (r matches Err(m) && m@
                == bad_event_message()),
            r is Ok ==> final(self).pending() is None,
            r is Ok ==> final(self).consumed().len() > 0 && final(self).consumed().last() is EndElement,
            match old(self).pending() {
                Some(XmlReadEvent::StartElement { name, .. }) => r is Ok ==> final(self).consumed().last()
                    == (ReadEventView::EndElement { name: name@ }),
                _ => true,
            },
            exists|d1: Self, first: Result<XmlReadEvent, String>|
                {
                    &&& #[trigger] next_event_outcome(*old(self), d1, first)
                    &&& match first {
                        Ok(XmlReadEvent::StartElement { name, .. }) => exists|m: &mut Self, v: Result<T, String>|
                            {
                                &&& #[trigger] call_ensures(f, (m,), v)
                                &&& mut_ref_current(m) == d1
                                &&& match v {
                                    Err(e) => r == Err::<T, String>(e) && *final(self) == mut_ref_future(m),
                                    Ok(x) => exists|end: Result<(), String>|
                                        {
                                            &&& #[trigger] end_element_outcome(
                                                mut_ref_future(m),
                                                *final(self),
                                                name@,
                                                end,
                                            )
                                            &&& match end {
                                                Ok(_) => r == Ok::<T, String>(x),
                                                Err(e) => r == Err::<T, String>(e),
                                            }
                                        },
                                }
                            },
                        _ => r matches Err(msg) && msg@ == bad_event_message() && *final(self) == d1,
                    }
                },
    {
        let first = self.next_event();
        let ghost d1 = *self;
        let ghost read = first;
        assert(next_event_outcome(*old(self), d1, read));
        let name = inner_value_start(first)?;
        let result = f(self);
        let value = result?;
        let ghost d2 = *self;
        let end = self.expect_end_element(&name);
        assert(end_element_outcome(d2, *self, name@, end));
        end?;
        Ok(value)
    }

    /// Consumes the next event and checks that it closes `start_name`.
    pub fn expect_end_element(&mut self, start_name: &XmlName) -> (r: Result<(), String>)
        ensures
            end_element_outcome(*old(self), *final(self), start_name@, r),
    {
        match self.next_event()? {
            XmlReadEvent::EndElement { name } => {
                if name == *start_name {
                    Ok(())
                } else {
                    let mut msg = "End tag </".to_owned();
                    msg.append(name.local_name.as_str());
                    msg.append("> didn't match the start tag <");
                    msg.append(start_name.local_name.as_str());
                    msg.append(">");
                    Err(msg)
                }
            },
            _ => {
                let mut msg = "Unexpected token </".to_owned();
                msg.append(start_name.local_name.as_str());
                msg.append(">");
                Err(msg)
            },
        }
    }
}

/// What `Deserializer::read_inner_value` makes of the event it consumes
/// first: the name of a start tag, whose content is then read; anything else,
/// a failed read included, is refused with the bad-event message.
pub fn inner_value_start(event: Result<XmlReadEvent, String>) -> (r: Result<XmlName, String>)
    ensures
        match event {
            Ok(XmlReadEvent::StartElement { name, .. }) => r matches Ok(n) && n@ == name@,
            _ => r matches Err(m) && m@ == bad_event_message(),
        },
{
    match event {
        Ok(XmlReadEvent::StartElement { name, .. }) => Ok(name),
        _ => Err("Internal error: Bad Event".to_owned()),
    }
}

/// Reads a value of type `T` from XML text.
pub fn from_str<T: YaDeserialize>(s: &str) -> (r: Result<T, String>)
    ensures
        exists|m: &mut Deserializer<XmlRsReader<'_>>|
            {
                &&& #[trigger] call_ensures(deserialize_model::<XmlRsReader<'_>, T>, (m,), r)
                &&& mut_ref_current(m).current_depth() == 0
                &&& mut_ref_current(m).pending() is None
                &&& mut_ref_current(m).consumed() == Seq::<ReadEventView>::empty()
                &&& mut_ref_current(m).reads() == 0
                &&& fresh_xml_rs_reader(mut_ref_current(m).source())
            },
{
    from_reader(s.as_bytes())
}

/// Reads a value of type `T` from the XML bytes of `reader`, with the `xml-rs`
/// backend.
pub fn from_reader<'a, R: Read + 'a, T: YaDeserialize>(reader: R) -> (r: Result<T, String>)
    ensures
        exists|m: &mut Deserializer<XmlRsReader<'a>>|
            {
                &&& #[trigger] call_ensures(deserialize_model::<XmlRsReader<'a>, T>, (m,), r)
                &&& mut_ref_current(m).current_depth() == 0
                &&& mut_ref_current(m).pending() is None
                &&& mut_ref_current(m).consumed() == Seq::<ReadEventView>::empty()
                &&& mut_ref_current(m).reads() == 0
                &&& fresh_xml_rs_reader(mut_ref_current(m).source())
            },
{
    from_reader_with_parser(XmlRsReader::from_reader(reader))
}

/// Reads a value of type `T` from the events of `parser`.
pub fn from_reader_with_parser<P: XmlEventReader, T: YaDeserialize>(parser: P) -> (r: Result<T, String>)
    ensures
        exists|m: &mut Deserializer<P>|
            {
                &&& #[trigger] call_ensures(deserialize_model::<P, T>, (m,), r)
                &&& mut_ref_current(m).current_depth() == 0
                &&& mut_ref_current(m).pending() is None
                &&& mut_ref_current(m).consumed() == Seq::<ReadEventView>::empty()
                &&& mut_ref_current(m).reads() == 0
                &&& mut_ref_current(m).source() == parser
            },
{
    let mut deserializer = Deserializer::new(parser);
    deserialize_model(&mut deserializer)
}

/// Reads a value of type `T` with `deserializer`: what the type's
/// `deserialize` does.
pub fn deserialize_model<P: XmlEventReader, T: YaDeserialize>(deserializer: &mut Deserializer<P>) -> (r: Result<T, String>) {
    T::deserialize(deserializer)
}

/// Whether `reader` is an `xml-rs` reader as `XmlRsReader::from_reader` makes
/// it: nothing pulled yet, with the reader's own settings.
pub open spec fn fresh_xml_rs_reader(reader: XmlRsReader<'_>) -> bool {
    &&& reader.pulled() == Seq::<Option<ReadEventView>>::empty()
    &&& reader.pulls() == 0
    &&& reader.parser_settings() == Some(crate::xml::xml_rs::reader_settings())
}

/// Reads a value of type `T` from the events of a backend chosen at run time.
pub fn from_reader_dyn<T: YaDeserialize>(parser: Box<dyn XmlEventReader>) -> (r: Result<T, String>)
    ensures
        exists|m: &mut Deserializer<Box<dyn XmlEventReader>>|
            {
                &&& #[trigger] call_ensures(deserialize_model::<Box<dyn XmlEventReader>, T>, (m,), r)
                &&& mut_ref_current(m).current_depth() == 0
                &&& mut_ref_current(m).pending() is None
                &&& mut_ref_current(m).consumed() == Seq::<ReadEventView>::empty()
                &&& mut_ref_current(m).reads() == 0
                &&& mut_ref_current(m).source() == parser
            },
{
    from_reader_with_parser(parser)
}

/// Peeking does not consume: after a successful `peek` that saw `peeked`, the
/// next `next_event` returns `peeked`, and fails only where the depth would
/// leave its range.
pub proof fn lemma_peek_then_next<P: XmlEventReader>(
    after_peek: Deserializer<P>,
    peeked: XmlReadEvent,
    after_next: Deserializer<P>,
    r: Result<XmlReadEvent, String>,
)
    requires
        after_peek.pending() == Some(peeked),
        next_event_outcome(after_peek, after_next, r),
    ensures
        r is Ok <==> depth_step_fits(after_peek.current_depth(), peeked@),
        r matches Ok(e) ==> e == peeked,
{
}

/// Reading ahead changes nothing: for the same event given by the reader,
/// `peek` followed by `next_event` gives what `next_event` alone gives, the
/// same event or the same refusal.
pub proof fn lemma_peek_then_next_is_next<P: XmlEventReader>(
    d0: Deserializer<P>,
    event: XmlReadEvent,
    direct: Result<XmlReadEvent, String>,
    d1: Deserializer<P>,
    d2: Deserializer<P>,
    via_peek: Result<XmlReadEvent, String>,
)
    requires
        d0.pending() is None,
        reader_answer(d0.current_depth(), Ok(event), direct),
        peek_outcome(d0, d1, Ok(event)),
        next_event_outcome(d1, d2, via_peek),
    ensures
        direct is Ok <==> via_peek is Ok,
        direct matches Ok(e) ==> via_peek == Ok::<XmlReadEvent, String>(e) && e == event,
        direct matches Err(m) ==> via_peek matches Err(n) && n@ == m@,
{
}

/// A start tag followed by an end tag brings the depth back where it was.
pub proof fn lemma_start_end_restores_depth<P: XmlEventReader>(
    d0: Deserializer<P>,
    start: XmlReadEvent,
    d1: Deserializer<P>,
    end: XmlReadEvent,
    d2: Deserializer<P>,
)
    requires
        start is StartElement,
        end is EndElement,
        next_event_outcome(d0, d1, Ok(start)),
        next_event_outcome(d1, d2, Ok(end)),
    ensures
        d2.current_depth() == d0.current_depth(),
        d1.current_depth() == d0.current_depth() + 1,
{
}

/// How much a run of consumed events moves the depth: one up for each start
/// tag, one down for each end tag.
pub open spec fn depth_change(events: Seq<ReadEventView>) -> int
    decreases events.len(),
{
    if events.len() == 0 {
        0
    } else {
        depth_change(events.drop_last()) + depth_after(0, events.last())
    }
}

/// Over any run of successful `next_event` calls, the depth moves by the
/// number of start tags consumed minus the number of end tags consumed.
pub proof fn lemma_depth_counts_open_elements<P: XmlEventReader>(
    states: Seq<Deserializer<P>>,
    events: Seq<XmlReadEvent>,
)
    requires
        states.len() == events.len() + 1,
        forall|i: int| 0 <= i < events.len() ==> #[trigger] next_event_outcome(
            states[i],
            states[i + 1],
            Ok::<XmlReadEvent, String>(events[i]),
        ),
    ensures
        states.last().current_depth() == states[0].current_depth() + depth_change(
            events.map_values(|e: XmlReadEvent| e@),
        ),
    decreases events.len(),
{
    if events.len() > 0 {
        let n = events.len() - 1;
        assert(next_event_outcome(states[n], states[n + 1], Ok::<XmlReadEvent, String>(events[n])));
        lemma_depth_counts_open_elements(states.drop_last(), events.drop_last());
        assert(events.drop_last().map_values(|e: XmlReadEvent| e@) =~= events.map_values(
            |e: XmlReadEvent| e@,
        ).drop_last());
    }
}

/// Whether consuming `events` from depth `depth` never closes the element
/// open at that depth: every prefix leaves the depth at least `depth`.
pub open spec fn stays_open(depth: int, events: Seq<ReadEventView>) -> bool {
    forall|j: int| 0 <= j <= events.len() ==> depth + depth_change(#[trigger] events.take(j)) >= depth
}

/// Whether `events` are exactly the rest of the element open at `depth`: no
/// proper prefix closes it, and the last event does.
pub open spec fn closes_element(depth: int, events: Seq<ReadEventView>) -> bool {
    &&& events.len() > 0
    &&& stays_open(depth, events.drop_last())
    &&& depth + depth_change(events) == depth - 1
}

proof fn lemma_depth_change_push(events: Seq<ReadEventView>, e: ReadEventView)
    ensures
        depth_change(events.push(e)) == depth_change(events) + depth_after(0, e),
{
    assert(events.push(e).drop_last() =~= events);
}

proof fn lemma_stays_open_empty(depth: int)
    ensures
        stays_open(depth, Seq::<ReadEventView>::empty()),
{
    assert forall|j: int| 0 <= j <= 0 implies depth + depth_change(
        #[trigger] Seq::<ReadEventView>::empty().take(j),
    ) >= depth by {
        assert(Seq::<ReadEventView>::empty().take(j) =~= Seq::<ReadEventView>::empty());
    }
}

/// Extending a run that stays open: the longer run's proper prefixes are
/// those of the shorter one.
proof fn lemma_stays_open_push(depth: int, events: Seq<ReadEventView>, e: ReadEventView)
    requires
        stays_open(depth, events),
    ensures
        events.push(e).drop_last() == events,
        depth + depth_change(events.push(e)) >= depth ==> stays_open(depth, events.push(e)),
{
    let s = events.push(e);
    assert(s.drop_last() =~= events);
    if depth + depth_change(s) >= depth {
        assert forall|j: int| 0 <= j <= s.len() implies depth + depth_change(#[trigger] s.take(j)) >= depth by {
            if j < s.len() {
                assert(s.take(j) =~= events.take(j));
            } else {
                assert(s.take(j) =~= s);
            }
        }
    }
}

} // verus!
