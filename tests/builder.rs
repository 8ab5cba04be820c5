use unreel::{build_feed, FeedBuilder, FeedEvent};

fn start(name: &str) -> FeedEvent {
    FeedEvent::Start { name: name.to_string(), attributes: Vec::new() }
}

fn start_with(name: &str, attrs: &[(&str, &str)]) -> FeedEvent {
    FeedEvent::Start {
        name: name.to_string(),
        attributes: attrs.iter().map(|(k, v)| (k.to_string(), v.to_string())).collect(),
    }
}

fn empty_with(name: &str, attrs: &[(&str, &str)]) -> FeedEvent {
    FeedEvent::Empty {
        name: name.to_string(),
        attributes: attrs.iter().map(|(k, v)| (k.to_string(), v.to_string())).collect(),
    }
}

fn text(t: &str) -> FeedEvent {
    FeedEvent::Text(t.to_string())
}

fn end(name: &str) -> FeedEvent {
    FeedEvent::End(name.to_string())
}

fn element(name: &str, t: &str) -> Vec<FeedEvent> {
    vec![start(name), text(t), end(name)]
}

fn item_titled(t: &str) -> Vec<FeedEvent> {
    let mut v = vec![start("item")];
    v.extend(element("title", t));
    v.push(end("item"));
    v
}

#[test]
fn items_follow_closing_order() {
    let mut evs = vec![start("rss"), start("channel")];
    evs.extend(element("title", "Show"));
    for t in ["one", "two", "three"] {
        evs.extend(item_titled(t));
    }
    evs.extend(vec![end("channel"), end("rss"), FeedEvent::Eof]);
    let feed = build_feed(evs);
    assert_eq!(feed.items.len(), 3);
    let titles: Vec<_> = feed.items.iter().map(|i| i.title.clone().unwrap()).collect();
    assert_eq!(titles, vec!["one", "two", "three"]);
    assert_eq!(feed.title.as_deref(), Some("Show"));
}

#[test]
fn enclosure_with_all_attributes() {
    let mut evs = vec![start("item")];
    evs.push(empty_with("enclosure", &[("url", "X"), ("length", "L"), ("type", "T")]));
    evs.push(end("item"));
    let feed = build_feed(evs);
    let enc = feed.items[0].enclosure.clone().unwrap();
    assert_eq!(enc.url, "X");
    assert_eq!(enc.length.as_deref(), Some("L"));
    assert_eq!(enc.mime.as_deref(), Some("T"));
}

#[test]
fn enclosure_without_url_is_dropped() {
    let evs = vec![start("item"), start_with("enclosure", &[("length", "L")]), end("enclosure"), end("item")];
    let feed = build_feed(evs);
    assert_eq!(feed.items.len(), 1);
    assert!(feed.items[0].enclosure.is_none());
}

#[test]
fn last_enclosure_wins() {
    let evs = vec![
        start("item"),
        empty_with("enclosure", &[("url", "a")]),
        empty_with("enclosure", &[("url", "b"), ("bitrate", "9")]),
        empty_with("enclosure", &[("type", "audio/ogg")]),
        end("item"),
    ];
    let feed = build_feed(evs);
    let enc = feed.items[0].enclosure.clone().unwrap();
    assert_eq!(enc.url, "b");
    assert_eq!(enc.length, None);
    assert_eq!(enc.mime, None);
}

#[test]
fn enclosure_outside_item_is_ignored() {
    let evs = vec![empty_with("enclosure", &[("url", "a")]), start("item"), end("item")];
    let feed = build_feed(evs);
    assert!(feed.items[0].enclosure.is_none());
}

#[test]
fn second_feed_title_wins() {
    let mut evs = element("title", "first");
    evs.extend(element("title", "second"));
    let feed = build_feed(evs);
    assert_eq!(feed.title.as_deref(), Some("second"));
}

#[test]
fn unclosed_item_is_dropped() {
    let mut evs = element("title", "Show");
    evs.extend(item_titled("kept"));
    evs.push(start("item"));
    evs.extend(element("title", "lost"));
    evs.extend(element("link", "http://x"));
    evs.push(FeedEvent::Eof);
    let feed = build_feed(evs);
    assert_eq!(feed.items.len(), 1);
    assert_eq!(feed.items[0].title.as_deref(), Some("kept"));
    assert_eq!(feed.title.as_deref(), Some("Show"));
    assert_eq!(feed.link, None);
}

#[test]
fn same_events_same_document() {
    let mut evs = element("description", "d");
    evs.extend(item_titled("x"));
    let a = build_feed(evs.clone());
    let b = build_feed(evs);
    assert_eq!(a, b);
}

#[test]
fn item_fields_are_routed() {
    let mut evs = vec![start("item")];
    evs.extend(element("description", "about"));
    evs.extend(element("pubDate", "Mon, 01 Jan 2024"));
    evs.extend(element("guid", "g-1"));
    evs.extend(element("link", "ignored"));
    evs.push(end("item"));
    let feed = build_feed(evs);
    let it = &feed.items[0];
    assert_eq!(it.description.as_deref(), Some("about"));
    assert_eq!(it.pub_date.as_deref(), Some("Mon, 01 Jan 2024"));
    assert_eq!(it.guid.as_deref(), Some("g-1"));
    assert_eq!(it.title, None);
    assert_eq!(feed.link, None);
}

#[test]
fn feed_fields_and_unknown_tags() {
    let mut evs = element("link", "http://show");
    evs.extend(element("description", "desc"));
    evs.extend(element("language", "en"));
    evs.push(FeedEvent::Other);
    let feed = build_feed(evs);
    assert_eq!(feed.link.as_deref(), Some("http://show"));
    assert_eq!(feed.description.as_deref(), Some("desc"));
    assert_eq!(feed.title, None);
    assert!(feed.items.is_empty());
}

#[test]
fn stray_item_end_is_ignored() {
    let evs = vec![end("item"), end("item")];
    let feed = build_feed(evs);
    assert!(feed.items.is_empty());
}

#[test]
fn events_after_eof_are_ignored() {
    let mut evs = element("title", "before");
    evs.push(FeedEvent::Eof);
    evs.extend(element("title", "after"));
    evs.extend(item_titled("late"));
    let feed = build_feed(evs);
    assert_eq!(feed.title.as_deref(), Some("before"));
    assert!(feed.items.is_empty());
}

#[test]
fn builder_step_by_step() {
    let mut b = FeedBuilder::new();
    assert!(!b.is_finished());
    for e in item_titled("solo") {
        b.process(e);
    }
    b.process(FeedEvent::Eof);
    assert!(b.is_finished());
    let feed = b.finish();
    assert_eq!(feed.items.len(), 1);
}

#[test]
fn empty_input_gives_empty_document() {
    let feed = build_feed(Vec::new());
    assert_eq!(feed.title, None);
    assert!(feed.items.is_empty());
}
