//! Laws of the builder, stated over its spec fold and proved.

use crate::builder::{
    attr_value, empty_item, enclosure_of, initial, run, run_from, step, BuilderView,
};
use crate::lexer::{outcome, parse_result, reader_error, reader_events, ParseError};
use crate::model::{EnclosureView, EventView, FeedView, ItemView, PodcastFeed};
use vstd::prelude::*;

verus! {

/// Whether an event opens or closes an episode, or ends the input.
pub open spec fn touches_item(e: EventView) -> bool {
    match e {
        EventView::Start { name, .. } => name == "item"@,
        EventView::Empty { name, .. } => name == "item"@,
        EventView::End(name) => name == "item"@,
        EventView::Eof => true,
        EventView::Other => false,
        EventView::Text(_) => false,
    }
}

/// Events that neither open nor close an episode nor end the input.
pub open spec fn plain(evs: Seq<EventView>) -> bool {
    forall|k: int| 0 <= k < evs.len() ==> !#[trigger] touches_item(evs[k])
}

/// `<item ...>`, then plain events, then `</item>`.
pub open spec fn closed_item(seg: Seq<EventView>) -> bool {
    &&& seg.len() >= 2
    &&& seg[0] is Start
    &&& seg[0]->Start_name == "item"@
    &&& seg.last() == EventView::End("item"@)
    &&& plain(seg.subrange(1, seg.len() - 1))
}

/// The episode that a closed item segment describes.
pub open spec fn item_of(seg: Seq<EventView>) -> ItemView {
    run(seg.drop_last()).item->0
}

/// A document made of parts, each some plain events followed by one closed item.
pub open spec fn document(parts: Seq<(Seq<EventView>, Seq<EventView>)>) -> Seq<EventView>
    decreases parts.len(),
{
    if parts.len() == 0 {
        Seq::empty()
    } else {
        document(parts.drop_last()) + parts.last().0 + parts.last().1
    }
}

/// Folding over two sequences one after the other is folding over their concatenation.
pub proof fn lemma_run_append(s: BuilderView, a: Seq<EventView>, b: Seq<EventView>)
    ensures
        run_from(s, a + b) == run_from(run_from(s, a), b),
    decreases b.len(),
{
    if b.len() == 0 {
        assert(a + b =~= a);
    } else {
        lemma_run_append(s, a, b.drop_last());
        assert((a + b).drop_last() =~= a + b.drop_last());
        assert((a + b).last() == b.last());
    }
}

/// Folding over one more event is one more step.
pub proof fn lemma_run_push(s: BuilderView, evs: Seq<EventView>, e: EventView)
    ensures
        run_from(s, evs.push(e)) == step(run_from(s, evs), e),
{
    assert(evs.push(e).drop_last() =~= evs);
}

proof fn lemma_run_single(s: BuilderView, e: EventView)
    ensures
        run_from(s, seq![e]) == step(s, e),
{
    lemma_run_push(s, Seq::empty(), e);
    assert(Seq::<EventView>::empty().push(e) =~= seq![e]);
}

proof fn lemma_item_names_differ()
    ensures
        "item"@ != "enclosure"@,
        "item"@ != "title"@,
        "enclosure"@ != "title"@,
{
    reveal_strlit("item");
    reveal_strlit("enclosure");
    reveal_strlit("title");
    assert("item"@.len() != "enclosure"@.len());
    assert("item"@.len() != "title"@.len());
    assert("enclosure"@.len() != "title"@.len());
}

/// Outside any episode, plain events leave the episodes alone.
proof fn lemma_plain_outside_item(t: BuilderView, gap: Seq<EventView>)
    requires
        !t.finished,
        t.item is None,
        plain(gap),
    ensures
        !run_from(t, gap).finished,
        run_from(t, gap).item is None,
        run_from(t, gap).feed.items == t.feed.items,
    decreases gap.len(),
{
    if gap.len() > 0 {
        assert(plain(gap.drop_last())) by {
            assert forall|k: int| 0 <= k < gap.drop_last().len() implies !#[trigger] touches_item(
                gap.drop_last()[k],
            ) by {
                assert(gap.drop_last()[k] == gap[k]);
            }
        }
        lemma_plain_outside_item(t, gap.drop_last());
        assert(!touches_item(gap[gap.len() - 1]));
    }
}

/// Inside an episode, plain events change only the episode and the open tag,
/// and how they change them depends on the episode and the tag alone.
proof fn lemma_plain_inside_item(t1: BuilderView, t2: BuilderView, body: Seq<EventView>)
    requires
        !t1.finished,
        !t2.finished,
        t1.item is Some,
        t1.item == t2.item,
        t1.tag == t2.tag,
        plain(body),
    ensures
        !run_from(t1, body).finished,
        !run_from(t2, body).finished,
        run_from(t1, body).item is Some,
        run_from(t1, body).item == run_from(t2, body).item,
        run_from(t1, body).tag == run_from(t2, body).tag,
        run_from(t1, body).feed == t1.feed,
    decreases body.len(),
{
    if body.len() > 0 {
        assert(plain(body.drop_last())) by {
            assert forall|k: int| 0 <= k < body.drop_last().len() implies !#[trigger] touches_item(
                body.drop_last()[k],
            ) by {
                assert(body.drop_last()[k] == body[k]);
            }
        }
        lemma_plain_inside_item(t1, t2, body.drop_last());
        assert(!touches_item(body[body.len() - 1]));
    }
}

/// A closed item segment appends `item_of` it to the episodes, whatever came before.
proof fn lemma_closed_item(t: BuilderView, seg: Seq<EventView>)
    requires
        !t.finished,
        closed_item(seg),
    ensures
        !run_from(t, seg).finished,
        run_from(t, seg).item is None,
        run_from(t, seg).feed.items == t.feed.items.push(item_of(seg)),
        run_from(t, seg).feed.title == t.feed.title,
        run_from(t, seg).feed.description == t.feed.description,
        run_from(t, seg).feed.link == t.feed.link,
{
    let first = seg.subrange(0, 1);
    let mid = seg.subrange(1, seg.len() - 1);
    assert(seg.drop_last() =~= first + mid);
    lemma_run_append(t, first, mid);
    lemma_run_append(initial(), first, mid);
    assert(first =~= seq![seg[0]]);
    lemma_run_single(t, seg[0]);
    lemma_run_single(initial(), seg[0]);
    let a = run_from(t, first);
    let b = run_from(initial(), first);
    assert(a.item == Some(empty_item()));
    assert(b.item == Some(empty_item()));
    lemma_plain_inside_item(a, b, mid);
    lemma_run_push(t, seg.drop_last(), seg.last());
    assert(seg.drop_last().push(seg.last()) =~= seg);
}

/// Episodes appear in the order their items close, one for each closed item,
/// and nothing else is left open.
#[verifier::spinoff_prover]
pub proof fn lemma_items_in_closing_order(s: BuilderView, parts: Seq<(Seq<EventView>, Seq<EventView>)>)
    requires
        !s.finished,
        s.item is None,
        forall|k: int| 0 <= k < parts.len() ==> plain(#[trigger] parts[k].0) && closed_item(parts[k].1),
    ensures
        !run_from(s, document(parts)).finished,
        run_from(s, document(parts)).item is None,
        run_from(s, document(parts)).feed.items.len() == s.feed.items.len() + parts.len(),
        run_from(s, document(parts)).feed.items == s.feed.items + parts.map_values(
            |p: (Seq<EventView>, Seq<EventView>)| item_of(p.1),
        ),
    decreases parts.len(),
{
    let order = parts.map_values(|p: (Seq<EventView>, Seq<EventView>)| item_of(p.1));
    if parts.len() == 0 {
        assert(document(parts) =~= Seq::<EventView>::empty());
        assert(s.feed.items + order =~= s.feed.items);
    } else {
        let init = parts.drop_last();
        let (gap, seg) = parts.last();
        assert(plain(parts[parts.len() - 1].0) && closed_item(parts[parts.len() - 1].1));
        assert forall|k: int| 0 <= k < init.len() implies plain(#[trigger] init[k].0) && closed_item(
            init[k].1,
        ) by {
            assert(init[k] == parts[k]);
        }
        lemma_items_in_closing_order(s, init);
        let before = document(init);
        lemma_run_append(s, before, gap);
        lemma_run_append(s, before + gap, seg);
        let t0 = run_from(s, before);
        lemma_plain_outside_item(t0, gap);
        lemma_closed_item(run_from(t0, gap), seg);
        let pre = init.map_values(|p: (Seq<EventView>, Seq<EventView>)| item_of(p.1));
        assert(order =~= pre.push(item_of(seg)));
        assert(s.feed.items + order =~= (s.feed.items + pre).push(item_of(seg)));
    }
}

/// An `<enclosure>` inside an episode whose attributes give `url` X, `length`
/// L and `type` T (in any order, among any others; the last of each counts)
/// gives the episode exactly that enclosure, as an opening or a self-closing
/// tag. One without a `url` leaves the episode as it was: no enclosure is made.
pub proof fn lemma_enclosure_from_attributes(s: BuilderView, attrs: Seq<(Seq<char>, Seq<char>)>)
    requires
        !s.finished,
        s.item is Some,
    ensures
        ({
            let want = match attr_value(attrs, "url"@) {
                Some(x) => Some(
                    EnclosureView {
                        url: x,
                        length: attr_value(attrs, "length"@),
                        mime: attr_value(attrs, "type"@),
                    },
                ),
                None => s.item->0.enclosure,
            };
            &&& step(s, EventView::Start { name: "enclosure"@, attributes: attrs }).item->0.enclosure
                == want
            &&& step(s, EventView::Empty { name: "enclosure"@, attributes: attrs }).item->0.enclosure
                == want
            &&& step(s, EventView::Start { name: "enclosure"@, attributes: attrs }).item is Some
        }),
{
    lemma_item_names_differ();
}

/// The attributes `url="X" length="L" type="T"` give the enclosure {X, L, T};
/// the single attribute `length="L"` gives none.
pub proof fn lemma_enclosure_examples(x: Seq<char>, l: Seq<char>, t: Seq<char>)
    ensures
        enclosure_of(seq![("url"@, x), ("length"@, l), ("type"@, t)]) == Some(
            EnclosureView { url: x, length: Some(l), mime: Some(t) },
        ),
        enclosure_of(seq![("length"@, l)]) is None,
{
    reveal_strlit("url");
    reveal_strlit("length");
    reveal_strlit("type");
    assert("url"@.len() != "length"@.len());
    assert("url"@.len() != "type"@.len());
    assert("length"@.len() != "type"@.len());
    let attrs = seq![("url"@, x), ("length"@, l), ("type"@, t)];
    assert(attrs.drop_last() =~= seq![("url"@, x), ("length"@, l)]);
    assert(attrs.drop_last().drop_last() =~= seq![("url"@, x)]);
    assert(attrs.drop_last().drop_last().drop_last() =~= Seq::<(Seq<char>, Seq<char>)>::empty());
    assert(seq![("length"@, l)].drop_last() =~= Seq::<(Seq<char>, Seq<char>)>::empty());
    reveal_with_fuel(attr_value, 4);
}

/// At feed level, of two `<title>` elements the second one's text is kept.
pub proof fn lemma_second_feed_title_wins(s: BuilderView, a: Seq<char>, b: Seq<char>)
    requires
        !s.finished,
        s.item is None,
    ensures
        run_from(
            s,
            seq![
                EventView::Start { name: "title"@, attributes: Seq::empty() },
                EventView::Text(a),
                EventView::End("title"@),
                EventView::Start { name: "title"@, attributes: Seq::empty() },
                EventView::Text(b),
                EventView::End("title"@),
            ],
        ).feed.title == Some(b),
{
    lemma_item_names_differ();
    let evs = seq![
        EventView::Start { name: "title"@, attributes: Seq::empty() },
        EventView::Text(a),
        EventView::End("title"@),
        EventView::Start { name: "title"@, attributes: Seq::empty() },
        EventView::Text(b),
        EventView::End("title"@),
    ];
    assert(evs.take(0) =~= Seq::<EventView>::empty());
    assert forall|k: int| 0 <= k < 6 implies #[trigger] evs.take(k + 1) == evs.take(k).push(evs[k]) by {
        assert(evs.take(k + 1) =~= evs.take(k).push(evs[k]));
    }
    lemma_run_push(s, evs.take(0), evs[0]);
    lemma_run_push(s, evs.take(1), evs[1]);
    lemma_run_push(s, evs.take(2), evs[2]);
    lemma_run_push(s, evs.take(3), evs[3]);
    lemma_run_push(s, evs.take(4), evs[4]);
    lemma_run_push(s, evs.take(5), evs[5]);
    let s1 = run_from(s, evs.take(1));
    assert(s1.item is None && !s1.finished && s1.tag == "title"@);
    let s2 = run_from(s, evs.take(2));
    assert(s2.item is None && !s2.finished && s2.tag == "title"@);
    let s3 = run_from(s, evs.take(3));
    assert(s3.item is None && !s3.finished && s3.tag == "title"@);
    let s4 = run_from(s, evs.take(4));
    assert(s4.item is None && !s4.finished && s4.tag == "title"@);
    let s5 = run_from(s, evs.take(5));
    assert(s5.feed.title == Some(b) && s5.item is None && !s5.finished);
    assert(evs.take(6) =~= evs);
}

/// Once an episode is open, events that do not close it leave the document as it was.
proof fn lemma_open_item_keeps_feed(t: BuilderView, rest: Seq<EventView>)
    requires
        t.item is Some || t.finished,
        forall|k: int| 0 <= k < rest.len() ==> !closes_item(#[trigger] rest[k]),
    ensures
        run_from(t, rest).feed == t.feed,
        run_from(t, rest).item is Some || run_from(t, rest).finished,
    decreases rest.len(),
{
    if rest.len() > 0 {
        assert forall|k: int| 0 <= k < rest.drop_last().len() implies !closes_item(
            #[trigger] rest.drop_last()[k],
        ) by {
            assert(rest.drop_last()[k] == rest[k]);
        }
        lemma_open_item_keeps_feed(t, rest.drop_last());
        assert(!closes_item(rest[rest.len() - 1]));
    }
}

/// Whether an event closes an episode.
pub open spec fn closes_item(e: EventView) -> bool {
    match e {
        EventView::End(name) => name == "item"@,
        EventView::Empty { name, .. } => name == "item"@,
        _ => false,
    }
}

/// An `<item>` that is never closed adds no episode and changes no feed-level
/// field, whatever follows it, end-of-input included.
pub proof fn lemma_unclosed_item_dropped(
    s: BuilderView,
    attrs: Seq<(Seq<char>, Seq<char>)>,
    rest: Seq<EventView>,
)
    requires
        !s.finished,
        forall|k: int| 0 <= k < rest.len() ==> !closes_item(#[trigger] rest[k]),
    ensures
        run_from(s, seq![EventView::Start { name: "item"@, attributes: attrs }] + rest).feed == s.feed,
{
    let first = seq![EventView::Start { name: "item"@, attributes: attrs }];
    lemma_run_append(s, first, rest);
    lemma_run_single(s, first[0]);
    lemma_item_names_differ();
    lemma_open_item_keeps_feed(run_from(s, first), rest);
}

/// Parsing depends on the text alone: two parses of one text come to the same
/// document, or fail at the same offset.
pub proof fn lemma_parse_deterministic(
    xml: Seq<char>,
    r1: Result<PodcastFeed, ParseError>,
    r2: Result<PodcastFeed, ParseError>,
)
    requires
        outcome(r1) == parse_result(xml),
        outcome(r2) == parse_result(xml),
    ensures
        outcome(r1) == outcome(r2),
        r1 is Ok <==> r2 is Ok,
        (r1 is Ok && r2 is Ok) ==> r1->Ok_0@ == r2->Ok_0@,
{
}

/// A text whose events are plain events and closed items, then plain events
/// and end-of-input, parses to one episode per item, in closing order.
pub proof fn lemma_parse_items_in_closing_order(
    xml: Seq<char>,
    parts: Seq<(Seq<EventView>, Seq<EventView>)>,
    tail: Seq<EventView>,
)
    requires
        reader_error(xml) is None,
        reader_events(xml) == document(parts) + tail + seq![EventView::Eof],
        forall|k: int| 0 <= k < parts.len() ==> plain(#[trigger] parts[k].0) && closed_item(parts[k].1),
        plain(tail),
    ensures
        parse_result(xml) is Ok,
        parse_result(xml)->Ok_0.items.len() == parts.len(),
        parse_result(xml)->Ok_0.items == parts.map_values(
            |p: (Seq<EventView>, Seq<EventView>)| item_of(p.1),
        ),
{
    let doc = document(parts);
    lemma_items_in_closing_order(initial(), parts);
    lemma_run_append(initial(), doc, tail);
    lemma_run_append(initial(), doc + tail, seq![EventView::Eof]);
    lemma_plain_outside_item(run(doc), tail);
    lemma_run_single(run(doc + tail), EventView::Eof);
    assert(Seq::<ItemView>::empty() + parts.map_values(
        |p: (Seq<EventView>, Seq<EventView>)| item_of(p.1),
    ) =~= parts.map_values(|p: (Seq<EventView>, Seq<EventView>)| item_of(p.1)));
}

/// A text whose events open an `<item>` that is never closed parses to the
/// document that the events before that `<item>` had built.
pub proof fn lemma_parse_unclosed_item(
    xml: Seq<char>,
    before: Seq<EventView>,
    attrs: Seq<(Seq<char>, Seq<char>)>,
    rest: Seq<EventView>,
)
    requires
        reader_error(xml) is None,
        reader_events(xml) == before + seq![EventView::Start { name: "item"@, attributes: attrs }]
            + rest,
        !run(before).finished,
        forall|k: int| 0 <= k < rest.len() ==> !closes_item(#[trigger] rest[k]),
    ensures
        parse_result(xml) == Ok::<FeedView, nat>(run(before).feed),
{
    let first = seq![EventView::Start { name: "item"@, attributes: attrs }];
    lemma_run_append(initial(), before, first + rest);
    assert(before + first + rest =~= before + (first + rest));
    lemma_unclosed_item_dropped(run(before), attrs, rest);
}

} // verus!
