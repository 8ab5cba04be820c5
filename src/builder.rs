//! The feed model builder: a flat state machine folded over XML events.
//!
//! The state is the document so far, at most one open episode, and the name
//! of the most recently opened tag, which routes the next text run.

use crate::model::{
    attrs_view, enclosure_view, events_view, items_view, text_view, AttrsView, Enclosure,
    EnclosureView, EventView, FeedEvent, FeedView, ItemView, PodcastFeed, PodcastItem,
};
use vstd::prelude::*;

verus! {

/// The builder's state, as a mathematical value.
pub struct BuilderView {
    pub feed: FeedView,
    pub item: Option<ItemView>,
    pub tag: Seq<char>,
    pub finished: bool,
}

pub open spec fn empty_feed() -> FeedView {
    FeedView { title: None, description: None, link: None, items: Seq::empty() }
}

pub open spec fn empty_item() -> ItemView {
    ItemView { title: None, description: None, enclosure: None, pub_date: None, guid: None }
}

pub open spec fn initial() -> BuilderView {
    BuilderView { feed: empty_feed(), item: None, tag: Seq::empty(), finished: false }
}

/// The value of the last attribute whose key is `key`.
pub open spec fn attr_value(attrs: AttrsView, key: Seq<char>) -> Option<Seq<char>>
    decreases attrs.len(),
{
    if attrs.len() == 0 {
        None
    } else if attrs.last().0 == key {
        Some(attrs.last().1)
    } else {
        attr_value(attrs.drop_last(), key)
    }
}

/// The enclosure an `<enclosure>` tag with these attributes describes: none without a `url`.
pub open spec fn enclosure_of(attrs: AttrsView) -> Option<EnclosureView> {
    match attr_value(attrs, "url"@) {
        Some(u) => Some(
            EnclosureView { url: u, length: attr_value(attrs, "length"@), mime: attr_value(attrs, "type"@) },
        ),
        None => None,
    }
}

pub open spec fn start_tag(s: BuilderView, name: Seq<char>, attrs: AttrsView) -> BuilderView {
    if name == "item"@ {
        BuilderView { item: Some(empty_item()), tag: name, ..s }
    } else if name == "enclosure"@ && s.item is Some && enclosure_of(attrs) is Some {
        BuilderView { item: Some(ItemView { enclosure: enclosure_of(attrs), ..s.item->0 }), tag: name, ..s }
    } else {
        BuilderView { tag: name, ..s }
    }
}

pub open spec fn item_text(it: ItemView, tag: Seq<char>, t: Seq<char>) -> ItemView {
    if tag == "title"@ {
        ItemView { title: Some(t), ..it }
    } else if tag == "description"@ {
        ItemView { description: Some(t), ..it }
    } else if tag == "pubDate"@ {
        ItemView { pub_date: Some(t), ..it }
    } else if tag == "guid"@ {
        ItemView { guid: Some(t), ..it }
    } else {
        it
    }
}

pub open spec fn feed_text(f: FeedView, tag: Seq<char>, t: Seq<char>) -> FeedView {
    if tag == "title"@ {
        FeedView { title: Some(t), ..f }
    } else if tag == "description"@ {
        FeedView { description: Some(t), ..f }
    } else if tag == "link"@ {
        FeedView { link: Some(t), ..f }
    } else {
        f
    }
}

pub open spec fn text(s: BuilderView, t: Seq<char>) -> BuilderView {
    match s.item {
        Some(it) => BuilderView { item: Some(item_text(it, s.tag, t)), ..s },
        None => BuilderView { feed: feed_text(s.feed, s.tag, t), ..s },
    }
}

pub open spec fn end_tag(s: BuilderView, name: Seq<char>) -> BuilderView {
    if name == "item"@ && s.item is Some {
        BuilderView {
            feed: FeedView { items: s.feed.items.push(s.item->0), ..s.feed },
            item: None,
            ..s
        }
    } else {
        s
    }
}

/// One event applied to the state; nothing changes once end-of-input was seen.
pub open spec fn step(s: BuilderView, e: EventView) -> BuilderView {
    if s.finished {
        s
    } else {
        match e {
            EventView::Start { name, attributes } => start_tag(s, name, attributes),
            EventView::Empty { name, attributes } => end_tag(start_tag(s, name, attributes), name),
            EventView::Text(t) => text(s, t),
            EventView::End(name) => end_tag(s, name),
            EventView::Eof => BuilderView { finished: true, ..s },
            EventView::Other => s,
        }
    }
}

/// The state after the events `evs`, starting from `s`.
pub open spec fn run_from(s: BuilderView, evs: Seq<EventView>) -> BuilderView
    decreases evs.len(),
{
    if evs.len() == 0 {
        s
    } else {
        step(run_from(s, evs.drop_last()), evs.last())
    }
}

pub open spec fn run(evs: Seq<EventView>) -> BuilderView {
    run_from(initial(), evs)
}

/// The document that the events `evs` describe.
pub open spec fn feed_of(evs: Seq<EventView>) -> FeedView {
    run(evs).feed
}

/// An exact comparison of a tag name with a fixed name.
fn name_is(name: &String, fixed: &str) -> (r: bool)
    ensures
        r == (name@ == fixed@),
{
    let owned = fixed.to_owned();
    *name == owned
}

fn copy_text(s: &String) -> (r: String)
    ensures
        r@ == s@,
{
    s.clone()
}

/// Builds the enclosure that an `<enclosure>` tag with these attributes describes.
pub fn enclosure_from(attributes: &Vec<(String, String)>) -> (r: Option<Enclosure>)
    ensures
        enclosure_view(r) == enclosure_of(attrs_view(attributes@)),
{
    let mut url: Option<String> = None;
    let mut length: Option<String> = None;
    let mut mime: Option<String> = None;
    let mut i: usize = 0;
    while i < attributes.len()
        invariant
            i <= attributes.len(),
            text_view(url) == attr_value(attrs_view(attributes@.take(i as int)), "url"@),
            text_view(length) == attr_value(attrs_view(attributes@.take(i as int)), "length"@),
            text_view(mime) == attr_value(attrs_view(attributes@.take(i as int)), "type"@),
        decreases attributes.len() - i,
    {
        let key = &attributes[i].0;
        let value = &attributes[i].1;
        proof {
            let pre = attrs_view(attributes@.take(i as int));
            let now = attrs_view(attributes@.take(i + 1));
            assert(now.drop_last() =~= pre);
            assert(now.last() == (key@, value@));
            reveal_strlit("url");
            reveal_strlit("length");
            reveal_strlit("type");
            assert("url"@.len() != "length"@.len());
            assert("url"@.len() != "type"@.len());
            assert("length"@.len() != "type"@.len());
        }
        if name_is(key, "url") {
            url = Some(copy_text(value));
        } else if name_is(key, "length") {
            length = Some(copy_text(value));
        } else if name_is(key, "type") {
            mime = Some(copy_text(value));
        }
        i = i + 1;
    }
    assert(attributes@.take(attributes.len() as int) =~= attributes@);
    match url {
        Some(u) => Some(Enclosure { url: u, length, mime }),
        None => None,
    }
}

pub open spec fn item_view(o: Option<PodcastItem>) -> Option<ItemView> {
    match o {
        Some(i) => Some(i@),
        None => None,
    }
}

/// The builder of one feed document, fed one event at a time.
pub struct FeedBuilder {
    feed: PodcastFeed,
    item: Option<PodcastItem>,
    tag: String,
    finished: bool,
}

impl View for FeedBuilder {
    type V = BuilderView;

    closed spec fn view(&self) -> BuilderView {
        BuilderView {
            feed: self.feed@,
            item: item_view(self.item),
            tag: self.tag@,
            finished: self.finished,
        }
    }
}

impl FeedBuilder {
    /// A builder with an empty document, no open episode and no open tag.
    pub fn new() -> (b: FeedBuilder)
        ensures
            b@ == initial(),
    {
        let b = FeedBuilder {
            feed: PodcastFeed { title: None, description: None, link: None, items: Vec::new() },
            item: None,
            tag: String::new(),
            finished: false,
        };
        assert(b@.feed.items =~= Seq::<ItemView>::empty());
        b
    }

    /// Whether end-of-input has been seen.
    pub fn is_finished(&self) -> (r: bool)
        ensures
            r == self@.finished,
    {
        self.finished
    }

    /// The document built so far; an episode still open is dropped.
    pub fn finish(self) -> (f: PodcastFeed)
        ensures
            f@ == self@.feed,
    {
        self.feed
    }

    fn open_tag(&mut self, name: String, attributes: &Vec<(String, String)>)
        ensures
            final(self)@ == start_tag(old(self)@, name@, attrs_view(attributes@)),
    {
        if name_is(&name, "item") {
            self.item = Some(
                PodcastItem { title: None, description: None, enclosure: None, pub_date: None, guid: None },
            );
        } else if name_is(&name, "enclosure") && self.item.is_some() {
            let found = enclosure_from(attributes);
            if found.is_some() {
                let cur = self.item.take();
                if let Some(mut it) = cur {
                    it.enclosure = found;
                    self.item = Some(it);
                }
            }
        }
        self.tag = name;
    }

    fn add_text(&mut self, t: String)
        ensures
            final(self)@ == text(old(self)@, t@),
    {
        let cur = self.item.take();
        match cur {
            Some(mut it) => {
                if name_is(&self.tag, "title") {
                    it.title = Some(t);
                } else if name_is(&self.tag, "description") {
                    it.description = Some(t);
                } else if name_is(&self.tag, "pubDate") {
                    it.pub_date = Some(t);
                } else if name_is(&self.tag, "guid") {
                    it.guid = Some(t);
                }
                self.item = Some(it);
            },
            None => {
                if name_is(&self.tag, "title") {
                    self.feed.title = Some(t);
                } else if name_is(&self.tag, "description") {
                    self.feed.description = Some(t);
                } else if name_is(&self.tag, "link") {
                    self.feed.link = Some(t);
                }
            },
        }
    }

    fn close_tag(&mut self, name: &String)
        ensures
            final(self)@ == end_tag(old(self)@, name@),
    {
        if name_is(name, "item") && self.item.is_some() {
            let cur = self.item.take();
            if let Some(it) = cur {
                let ghost before = self.feed.items@;
                self.feed.items.push(it);
                assert(items_view(self.feed.items@) =~= items_view(before).push(it@));
            }
        }
    }

    /// Applies one event: the state afterwards is `step` of the state before.
    pub fn process(&mut self, event: FeedEvent)
        ensures
            final(self)@ == step(old(self)@, event@),
    {
        if self.finished {
            return;
        }
        match event {
            FeedEvent::Start { name, attributes } => {
                self.open_tag(name, &attributes);
            },
            FeedEvent::Empty { name, attributes } => {
                let closing = name.clone();
                self.open_tag(name, &attributes);
                self.close_tag(&closing);
            },
            FeedEvent::Text(t) => {
                self.add_text(t);
            },
            FeedEvent::End(name) => {
                self.close_tag(&name);
            },
            FeedEvent::Eof => {
                self.finished = true;
            },
            FeedEvent::Other => {},
        }
    }
}

/// Builds the document that a sequence of events describes, up to the first end-of-input.
pub fn build_feed(events: Vec<FeedEvent>) -> (f: PodcastFeed)
    ensures
        f@ == feed_of(events_view(events@)),
{
    let ghost evs = events_view(events@);
    let mut events = events;
    let mut rest: Vec<FeedEvent> = Vec::new();
    while events.len() > 0
        invariant
            events@.len() + rest@.len() == evs.len(),
            forall|k: int| 0 <= k < events@.len() ==> #[trigger] events@[k]@ == evs[k],
            forall|k: int|
                0 <= k < rest@.len() ==> #[trigger] rest@[k]@ == evs[evs.len() - 1 - k],
        decreases events@.len(),
    {
        let e = events.pop().unwrap();
        rest.push(e);
    }
    let mut builder = FeedBuilder::new();
    let ghost total = rest@.len();
    while rest.len() > 0
        invariant
            rest@.len() <= total,
            total == evs.len(),
            forall|k: int| 0 <= k < rest@.len() ==> #[trigger] rest@[k]@ == evs[total - 1 - k],
            builder@ == run(evs.take(total - rest@.len())),
        decreases rest@.len(),
    {
        let ghost done = total - rest@.len();
        let e = rest.pop().unwrap();
        assert(e@ == evs[done]);
        builder.process(e);
        assert(evs.take(done + 1).drop_last() =~= evs.take(done));
    }
    assert(evs.take(total as int) =~= evs);
    builder.finish()
}

} // verus!
