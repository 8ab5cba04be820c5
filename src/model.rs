//! The feed document, the events it is built from, and their mathematical views.

use vstd::prelude::*;

verus! {

/// One episode's audio reference.
#[derive(Debug, Clone, PartialEq, Eq)]
pub struct Enclosure {
    pub url: String,
    pub length: Option<String>,
    pub mime: Option<String>,
}

/// One podcast episode.
#[derive(Debug, Clone, PartialEq, Eq)]
pub struct PodcastItem {
    pub title: Option<String>,
    pub description: Option<String>,
    pub enclosure: Option<Enclosure>,
    pub pub_date: Option<String>,
    pub guid: Option<String>,
}

/// A parsed podcast feed; `items` are in the order their `</item>` tags closed.
#[derive(Debug, Clone, PartialEq, Eq)]
pub struct PodcastFeed {
    pub title: Option<String>,
    pub description: Option<String>,
    pub link: Option<String>,
    pub items: Vec<PodcastItem>,
}

/// One low-level XML event, as the builder consumes it.
#[derive(Debug, Clone, PartialEq, Eq)]
pub enum FeedEvent {
    /// `<name attr="value" ...>`
    Start { name: String, attributes: Vec<(String, String)> },
    /// `<name attr="value" .../>`: an opening tag immediately closed.
    Empty { name: String, attributes: Vec<(String, String)> },
    /// A run of character data.
    Text(String),
    /// `</name>`
    End(String),
    /// End of the document.
    Eof,
    /// Anything the builder ignores (comments, declarations, CDATA, references).
    Other,
}

pub struct EnclosureView {
    pub url: Seq<char>,
    pub length: Option<Seq<char>>,
    pub mime: Option<Seq<char>>,
}

pub struct ItemView {
    pub title: Option<Seq<char>>,
    pub description: Option<Seq<char>>,
    pub enclosure: Option<EnclosureView>,
    pub pub_date: Option<Seq<char>>,
    pub guid: Option<Seq<char>>,
}

pub struct FeedView {
    pub title: Option<Seq<char>>,
    pub description: Option<Seq<char>>,
    pub link: Option<Seq<char>>,
    pub items: Seq<ItemView>,
}

pub type AttrsView = Seq<(Seq<char>, Seq<char>)>;

pub enum EventView {
    Start { name: Seq<char>, attributes: AttrsView },
    Empty { name: Seq<char>, attributes: AttrsView },
    Text(Seq<char>),
    End(Seq<char>),
    Eof,
    Other,
}

pub open spec fn text_view(o: Option<String>) -> Option<Seq<char>> {
    match o {
        Some(s) => Some(s@),
        None => None,
    }
}

pub open spec fn attrs_view(a: Seq<(String, String)>) -> AttrsView {
    a.map_values(|p: (String, String)| (p.0@, p.1@))
}

impl View for Enclosure {
    type V = EnclosureView;

    open spec fn view(&self) -> EnclosureView {
        EnclosureView { url: self.url@, length: text_view(self.length), mime: text_view(self.mime) }
    }
}

pub open spec fn enclosure_view(o: Option<Enclosure>) -> Option<EnclosureView> {
    match o {
        Some(e) => Some(e@),
        None => None,
    }
}

impl View for PodcastItem {
    type V = ItemView;

    open spec fn view(&self) -> ItemView {
        ItemView {
            title: text_view(self.title),
            description: text_view(self.description),
            enclosure: enclosure_view(self.enclosure),
            pub_date: text_view(self.pub_date),
            guid: text_view(self.guid),
        }
    }
}

pub open spec fn items_view(items: Seq<PodcastItem>) -> Seq<ItemView> {
    items.map_values(|i: PodcastItem| i@)
}

impl View for PodcastFeed {
    type V = FeedView;

    open spec fn view(&self) -> FeedView {
        FeedView {
            title: text_view(self.title),
            description: text_view(self.description),
            link: text_view(self.link),
            items: items_view(self.items@),
        }
    }
}

impl View for FeedEvent {
    type V = EventView;

    open spec fn view(&self) -> EventView {
        match self {
            FeedEvent::Start { name, attributes } => EventView::Start {
                name: name@,
                attributes: attrs_view(attributes@),
            },
            FeedEvent::Empty { name, attributes } => EventView::Empty {
                name: name@,
                attributes: attrs_view(attributes@),
            },
            FeedEvent::Text(t) => EventView::Text(t@),
            FeedEvent::End(n) => EventView::End(n@),
            FeedEvent::Eof => EventView::Eof,
            FeedEvent::Other => EventView::Other,
        }
    }
}

pub open spec fn events_view(evs: Seq<FeedEvent>) -> Seq<EventView> {
    evs.map_values(|e: FeedEvent| e@)
}

} // verus!
