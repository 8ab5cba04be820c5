use unreel::{parse_feed, ParseError};

#[test]
fn scenario_two_items_with_enclosure() {
    let xml = "<rss><channel><title>My Show</title><item><title>Ep1</title><enclosure url=\"http://a/1.mp3\" type=\"audio/mpeg\"/></item><item><title>Ep2</title></item></channel></rss>";
    let feed = parse_feed(xml).unwrap();
    assert_eq!(feed.title.as_deref(), Some("My Show"));
    assert_eq!(feed.items.len(), 2);
    assert_eq!(feed.items[0].title.as_deref(), Some("Ep1"));
    let enc = feed.items[0].enclosure.as_ref().unwrap();
    assert_eq!(enc.url, "http://a/1.mp3");
    assert_eq!(enc.length, None);
    assert_eq!(enc.mime.as_deref(), Some("audio/mpeg"));
    assert_eq!(feed.items[1].title.as_deref(), Some("Ep2"));
    assert!(feed.items[1].enclosure.is_none());
}

#[test]
fn mismatched_end_tag_is_lexical_error() {
    let xml = "<rss><channel></rss>";
    match parse_feed(xml) {
        Err(ParseError::Lexical { position, message }) => {
            assert!(position as usize <= xml.len());
            assert!(!message.is_empty());
        }
        Err(other) => panic!("unexpected error {:?}", other),
        Ok(_) => panic!("a malformed document parsed"),
    }
}

#[test]
fn text_enclosure_with_length() {
    let xml = r#"<rss><channel><item><enclosure url="X" length="L" type="T"/></item></channel></rss>"#;
    let feed = parse_feed(xml).unwrap();
    let enc = feed.items[0].enclosure.as_ref().unwrap();
    assert_eq!(enc.url, "X");
    assert_eq!(enc.length.as_deref(), Some("L"));
    assert_eq!(enc.mime.as_deref(), Some("T"));
}

#[test]
fn text_enclosure_without_url() {
    let xml = r#"<rss><channel><item><enclosure length="L"/></item></channel></rss>"#;
    let feed = parse_feed(xml).unwrap();
    assert_eq!(feed.items.len(), 1);
    assert!(feed.items[0].enclosure.is_none());
}

#[test]
fn text_second_title_wins() {
    let xml = "<rss><channel><title>A</title><title>B</title></channel></rss>";
    let feed = parse_feed(xml).unwrap();
    assert_eq!(feed.title.as_deref(), Some("B"));
}

#[test]
fn text_unclosed_item_at_end() {
    let xml = "<channel><title>Show</title><item><title>Done</title></item><item><title>Cut";
    let feed = parse_feed(xml).unwrap();
    assert_eq!(feed.items.len(), 1);
    assert_eq!(feed.items[0].title.as_deref(), Some("Done"));
    assert_eq!(feed.title.as_deref(), Some("Show"));
}

#[test]
fn text_parses_are_equal() {
    let xml = "<rss><channel><title> T </title><link>http://l</link><item><guid>1</guid><pubDate>d</pubDate></item></channel></rss>";
    let a = parse_feed(xml).unwrap();
    let b = parse_feed(xml).unwrap();
    assert_eq!(a, b);
    assert_eq!(a.title.as_deref(), Some("T"));
    assert_eq!(a.link.as_deref(), Some("http://l"));
    assert_eq!(a.items[0].guid.as_deref(), Some("1"));
    assert_eq!(a.items[0].pub_date.as_deref(), Some("d"));
}

#[test]
fn text_self_closing_item_is_kept() {
    let xml = "<rss><channel><item/><item><title>x</title></item></channel></rss>";
    let feed = parse_feed(xml).unwrap();
    assert_eq!(feed.items.len(), 2);
    assert_eq!(feed.items[0].title, None);
    assert_eq!(feed.items[1].title.as_deref(), Some("x"));
}

#[test]
fn text_unterminated_tag_is_lexical_error() {
    let xml = "<rss><channel><title";
    assert!(matches!(parse_feed(xml), Err(ParseError::Lexical { .. })));
}

#[test]
fn text_empty_document() {
    let feed = parse_feed("").unwrap();
    assert!(feed.items.is_empty());
    assert_eq!(feed.title, None);
}

#[test]
fn text_second_item_never_closed() {
    let xml = "<rss><channel><item><title>A</title></item><item><title>B</title>";
    let feed = parse_feed(xml).unwrap();
    assert_eq!(feed.items.len(), 1);
    assert_eq!(feed.items[0].title, Some("A".to_string()));
    assert_eq!(feed.title, None);
}

#[test]
fn text_enclosure_attributes_in_any_order() {
    let xml = r#"<item><enclosure type="T" bitrate="1" url="X" length="L"/></item>"#;
    let feed = parse_feed(xml).unwrap();
    let enc = feed.items[0].enclosure.as_ref().unwrap();
    assert_eq!(enc.url, "X");
    assert_eq!(enc.length.as_deref(), Some("L"));
    assert_eq!(enc.mime.as_deref(), Some("T"));
}
