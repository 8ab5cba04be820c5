//! The event source: quick-xml's reader, turned into `FeedEvent`s, driving the builder.

use crate::builder::{feed_of, run, FeedBuilder};
use crate::model::{attrs_view, EventView, FeedEvent, FeedView, PodcastFeed};
use quick_xml::events::Event;
use quick_xml::Reader;
use vstd::prelude::*;

verus! {

/// Why a document could not be parsed; no document comes with it.
#[derive(Debug)]
pub enum ParseError {
    /// The markup could not be tokenized; the reader stood at byte offset `position`.
    Lexical { position: u64, message: String },
    /// A text run could not be decoded; the reader stood at byte offset `position`.
    Decode { position: u64 },
}

/// The well-formed attributes, in order.
pub open spec fn present(v: Seq<Option<(String, String)>>) -> Seq<(String, String)>
    decreases v.len(),
{
    if v.len() == 0 {
        Seq::empty()
    } else {
        match v.last() {
            Some(a) => present(v.drop_last()).push(a),
            None => present(v.drop_last()),
        }
    }
}

fn keep_present(v: Vec<Option<(String, String)>>) -> (r: Vec<(String, String)>)
    ensures
        r@ == present(v@),
{
    let mut r: Vec<(String, String)> = Vec::new();
    let mut i: usize = 0;
    while i < v.len()
        invariant
            i <= v.len(),
            r@ == present(v@.take(i as int)),
        decreases v.len() - i,
    {
        assert(v@.take(i + 1).drop_last() =~= v@.take(i as int));
        match &v[i] {
            Some(a) => {
                let pair = (a.0.clone(), a.1.clone());
                r.push(pair);
            },
            None => {},
        }
        i = i + 1;
    }
    assert(v@.take(v.len() as int) =~= v@);
    r
}

/// The events that quick-xml's reader, with text trimming on, reports on the
/// document `xml`, as the builder sees them: up to and including the first
/// end-of-input, or, where an error comes first, every event before it.
pub uninterp spec fn reader_events(xml: Seq<char>) -> Seq<EventView>;

/// The reader's byte offset (`buffer_position`) when it reports an error on
/// the document `xml`, where an error comes before end-of-input.
pub uninterp spec fn reader_error(xml: Seq<char>) -> Option<nat>;

/// The document that a lexer reads.
pub uninterp spec fn lexer_source(l: XmlLexer) -> Seq<char>;

/// How many events a lexer has reported so far.
pub uninterp spec fn lexer_count(l: XmlLexer) -> nat;

/// quick-xml's reader over one document, with text trimming on. Only the
/// trusted `new` and `read_event` below touch it.
#[verifier::external_body]
pub struct XmlLexer<'a> {
    reader: Reader<&'a [u8]>,
}

impl<'a> XmlLexer<'a> {
    /// Relies on `Reader::from_str` and `Config::trim_text`: a reader at the
    /// start of `xml` that drops whitespace around text runs and skips runs left
    /// empty. The reader stops at its first end-of-input or error, and its
    /// offsets lie within the document.
    #[verifier::external_body]
    fn new(xml: &'a str) -> (l: XmlLexer<'a>)
        ensures
            lexer_source(l) == xml@,
            lexer_count(l) == 0,
            reader_error(lexer_source(l)) is None ==> reader_events(lexer_source(l)).len() > 0
                && reader_events(lexer_source(l)).last() is Eof,
            reader_error(lexer_source(l)) is Some ==> reader_events(lexer_source(l)).len() == 0
                || !(reader_events(lexer_source(l)).last() is Eof),
            forall|k: int|
                0 <= k < reader_events(lexer_source(l)).len() - 1 ==> !(
                #[trigger] reader_events(lexer_source(l))[k] is Eof),
            reader_error(lexer_source(l)) matches Some(p) ==> p <= xml.len(),
    {
        let mut reader = Reader::from_str(xml);
        reader.config_mut().trim_text(true);
        XmlLexer { reader }
    }

    /// Relies on `Reader::read_event` and `Reader::buffer_position`: the next
    /// event of the document; or, after the last event before an error, that
    /// error at the reader's offset, with quick-xml's message for it.
    #[verifier::external_body]
    fn read_event(&mut self) -> (r: Result<RawEvent<'a>, ParseError>)
        requires
            lexer_count(*old(self)) < reader_events(lexer_source(*old(self))).len()
                || reader_error(lexer_source(*old(self))) is Some,
        ensures
            lexer_source(*final(self)) == lexer_source(*old(self)),
            lexer_count(*final(self)) == lexer_count(*old(self)) + 1,
            lexer_count(*old(self)) < reader_events(lexer_source(*old(self))).len() ==> (r matches Ok(
                e,
            ) && reported(e) == reader_events(lexer_source(*old(self)))[lexer_count(*old(self)) as int]),
            lexer_count(*old(self)) == reader_events(lexer_source(*old(self))).len() ==> (r matches Err(
                e,
            ) && Some(error_offset(e)) == reader_error(lexer_source(*old(self)))),
    {
        let ev = self.reader.read_event();
        let at = self.reader.buffer_position();
        match ev {
            Ok(event) => Ok(RawEvent { event }),
            Err(quick_xml::Error::Encoding(_)) => Err(ParseError::Decode { position: at }),
            Err(e) => Err(ParseError::Lexical { position: at, message: e.to_string() }),
        }
    }
}

/// Which kind an event is.
pub enum EventKind {
    Start,
    Empty,
    Text,
    End,
    Eof,
    Other,
}

pub open spec fn kind_of(e: EventView) -> EventKind {
    match e {
        EventView::Start { .. } => EventKind::Start,
        EventView::Empty { .. } => EventKind::Empty,
        EventView::Text(_) => EventKind::Text,
        EventView::End(_) => EventKind::End,
        EventView::Eof => EventKind::Eof,
        EventView::Other => EventKind::Other,
    }
}

/// One event as quick-xml's reader reported it, its payload in quick-xml's types.
#[verifier::external_body]
pub struct RawEvent<'a> {
    event: Event<'a>,
}

/// The event, as the builder sees it, that a reported event stands for.
pub uninterp spec fn reported(e: RawEvent) -> EventView;

impl<'a> RawEvent<'a> {
    /// Relies on quick-xml's `Event` variants: start, empty-element, text, end
    /// and end-of-input events; all others are of no interest.
    #[verifier::external_body]
    fn kind(&self) -> (k: EventKind)
        ensures
            k == kind_of(reported(*self)),
    {
        match &self.event {
            Event::Start(_) => EventKind::Start,
            Event::Empty(_) => EventKind::Empty,
            Event::Text(_) => EventKind::Text,
            Event::End(_) => EventKind::End,
            Event::Eof => EventKind::Eof,
            _ => EventKind::Other,
        }
    }

    /// Relies on `BytesStart::name` and `BytesEnd::name`: the tag's name as written.
    #[verifier::external_body]
    fn tag_name(&self) -> (r: String)
        requires
            reported(*self) is Start || reported(*self) is Empty || reported(*self) is End,
        ensures
            reported(*self) matches EventView::Start { name, .. } ==> r@ == name,
            reported(*self) matches EventView::Empty { name, .. } ==> r@ == name,
            reported(*self) matches EventView::End(name) ==> r@ == name,
    {
        match &self.event {
            Event::Start(t) | Event::Empty(t) => t.name().as_ref().to_string(),
            Event::End(t) => t.name().as_ref().to_string(),
            _ => String::new(),
        }
    }

    /// Relies on `BytesStart::attributes`: each attribute as (key, raw value),
    /// in order, `None` for one that is malformed.
    #[verifier::external_body]
    fn attributes(&self) -> (r: Vec<Option<(String, String)>>)
        requires
            reported(*self) is Start || reported(*self) is Empty,
        ensures
            reported(*self) matches EventView::Start { attributes, .. } ==> attrs_view(present(r@))
                == attributes,
            reported(*self) matches EventView::Empty { attributes, .. } ==> attrs_view(present(r@))
                == attributes,
    {
        match &self.event {
            Event::Start(t) | Event::Empty(t) => t.attributes().map(
                |a| a.ok().map(|a| (a.key.as_ref().to_string(), a.value.into_owned())),
            ).collect(),
            _ => Vec::new(),
        }
    }

    /// Relies on `BytesText::into_inner`: the text run as it stands in the document.
    #[verifier::external_body]
    fn text(self) -> (r: String)
        requires
            reported(self) is Text,
        ensures
            reported(self) matches EventView::Text(t) ==> r@ == t,
    {
        match self.event {
            Event::Text(t) => t.into_inner().into_owned(),
            _ => String::new(),
        }
    }
}

/// The byte offset an error carries.
pub open spec fn error_offset(e: ParseError) -> nat {
    match e {
        ParseError::Lexical { position, .. } => position as nat,
        ParseError::Decode { position } => position as nat,
    }
}

fn to_feed_event(raw: RawEvent) -> (r: FeedEvent)
    ensures
        r@ == reported(raw),
{
    match raw.kind() {
        EventKind::Start => FeedEvent::Start {
            name: raw.tag_name(),
            attributes: keep_present(raw.attributes()),
        },
        EventKind::Empty => FeedEvent::Empty {
            name: raw.tag_name(),
            attributes: keep_present(raw.attributes()),
        },
        EventKind::Text => FeedEvent::Text(raw.text()),
        EventKind::End => FeedEvent::End(raw.tag_name()),
        EventKind::Eof => FeedEvent::Eof,
        EventKind::Other => FeedEvent::Other,
    }
}

/// What parsing the document `xml` comes to: the fold of the builder over the
/// reader's events, or the offset of the reader's first error.
pub open spec fn parse_result(xml: Seq<char>) -> Result<FeedView, nat> {
    match reader_error(xml) {
        Some(p) => Err(p),
        None => Ok(feed_of(reader_events(xml))),
    }
}

/// What a result of `parse_feed` comes to: the document's view, or the error's offset.
pub open spec fn outcome(r: Result<PodcastFeed, ParseError>) -> Result<FeedView, nat> {
    match r {
        Ok(f) => Ok(f@),
        Err(e) => Err(error_offset(e)),
    }
}

/// Parses an RSS document into a feed.
///
/// The result is `Ok` exactly when quick-xml's reader reports no error before
/// end-of-input; the document is then the fold of the builder over the events
/// it reported. Otherwise the error carries the reader's offset, which lies
/// within the document.
pub fn parse_feed(xml: &str) -> (r: Result<PodcastFeed, ParseError>)
    ensures
        outcome(r) == parse_result(xml@),
        r is Ok <==> reader_error(xml@) is None,
        r matches Ok(f) ==> f@ == feed_of(reader_events(xml@)),
        r matches Err(ParseError::Lexical { position, .. }) ==> reader_error(xml@) == Some(
            position as nat,
        ) && position <= xml.len(),
        r matches Err(ParseError::Decode { position }) ==> reader_error(xml@) == Some(
            position as nat,
        ) && position <= xml.len(),
{
    let mut lexer = XmlLexer::new(xml);
    let mut builder = FeedBuilder::new();
    let ghost evs = reader_events(xml@);
    assert(evs.take(0) =~= Seq::<EventView>::empty());
    loop
        invariant
            lexer_source(lexer) == xml@,
            evs == reader_events(xml@),
            lexer_count(lexer) <= evs.len(),
            builder@ == run(evs.take(lexer_count(lexer) as int)),
            !builder@.finished,
            forall|k: int| 0 <= k < lexer_count(lexer) ==> !(#[trigger] evs[k] is Eof),
            reader_error(xml@) is None ==> evs.len() > 0 && evs.last() is Eof,
            reader_error(xml@) is Some ==> evs.len() == 0 || !(evs.last() is Eof),
            forall|k: int| 0 <= k < evs.len() - 1 ==> !(#[trigger] evs[k] is Eof),
            reader_error(xml@) matches Some(p) ==> p <= xml.len(),
        decreases evs.len() - lexer_count(lexer),
    {
        let ghost n = lexer_count(lexer) as int;
        proof {
            if reader_error(xml@) is None && n == evs.len() {
                assert(evs[evs.len() - 1] is Eof);
            }
        }
        match lexer.read_event() {
            Ok(raw) => {
                let ev = to_feed_event(raw);
                let is_eof = matches!(ev, FeedEvent::Eof);
                builder.process(ev);
                assert(evs.take(n + 1).drop_last() =~= evs.take(n));
                if is_eof {
                    assert(n == evs.len() - 1);
                    assert(evs.take(n + 1) =~= evs);
                    return Ok(builder.finish());
                }
            },
            Err(e) => {
                return Err(e);
            },
        }
    }
}

} // verus!
