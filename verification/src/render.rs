//! Events as text for people to read.

use crate::number;
use crate::number::{decimal_text, signed_decimal_text};
use crate::proto::{Event, EventView};
use crate::string_map::Metadata;
use crate::text;
use vstd::prelude::*;
use vstd::string::*;

verus! {

/// A text in quotes, with its special characters escaped, as the `Debug` format of
/// `str` writes it.
pub uninterp spec fn quoted_text(s: Seq<char>) -> Seq<char>;

/// Formats a text with `Debug`, which `core` implements for `str`. What comes out,
/// named [`quoted_text`], rests on the text alone.
#[verifier::external_body]
pub(crate) fn quote(s: &str) -> (r: String)
    ensures
        r@ == quoted_text(s@),
{
    format!("{:?}", s)
}

/// Texts in a row, with commas between them.
pub open spec fn comma_separated(items: Seq<Seq<char>>) -> Seq<char>
    decreases items.len(),
{
    if items.len() == 0 {
        Seq::empty()
    } else if items.len() == 1 {
        items[0]
    } else {
        comma_separated(items.drop_last()) + ", "@ + items.last()
    }
}

/// The form of a list.
pub open spec fn list_form(items: Seq<Seq<char>>) -> Seq<char> {
    "["@ + comma_separated(items) + "]"@
}

/// The form of a map.
pub open spec fn map_form(items: Seq<Seq<char>>) -> Seq<char> {
    "{"@ + comma_separated(items) + "}"@
}

/// The form of an event on one line.
pub open spec fn compact_form(event: EventView) -> Seq<char> {
    "["@ + event.source + "] "@ + event.event_type + ":"@ + event.id + " ("@ + number::decimal(
        event.payload.len(),
    ) + " bytes)\n"@
}

/// The form of an event in a box, given the texts of its metadata and its routes.
pub open spec fn boxed_form(
    event: EventView,
    metadata: Seq<char>,
    routes: Seq<char>,
) -> Seq<char> {
    let head = "┌─ Event ─────────────────────────────────────────────\n"@ + "│ ID:        "@
        + event.id + "\n"@ + "│ Source:    "@ + event.source + "\n"@ + "│ Type:      "@
        + event.event_type + "\n"@ + "│ Timestamp: "@ + number::signed_decimal(
        event.timestamp_unix_ns as int,
    ) + " ns\n"@;
    let with_metadata = if event.metadata.len() > 0 {
        head + "│ Metadata:  "@ + metadata + "\n"@
    } else {
        head
    };
    let with_payload = with_metadata + "│ Payload:   "@ + number::decimal(event.payload.len())
        + " bytes\n"@;
    let with_routes = if event.route_to.len() > 0 {
        with_payload + "│ Route to:  "@ + routes + "\n"@
    } else {
        with_payload
    };
    with_routes + "└─────────────────────────────────────────────────────\n"@
}

/// The quoted texts of a list.
pub open spec fn quoted_items(items: Seq<Seq<char>>) -> Seq<Seq<char>> {
    Seq::new(items.len(), |i: int| quoted_text(items[i]))
}

/// The quoted entries of metadata, in the order in which they are held.
pub open spec fn quoted_entries(entries: Seq<(Seq<char>, String)>) -> Seq<Seq<char>> {
    Seq::new(
        entries.len(),
        |i: int| quoted_text(entries[i].0) + ": "@ + quoted_text(entries[i].1@),
    )
}

/// The text of an event.
pub open spec fn event_text(event: Event, pretty: bool) -> Seq<char> {
    if pretty {
        boxed_form(
            event@,
            map_form(quoted_entries(event.metadata.entries())),
            list_form(quoted_items(event@.route_to)),
        )
    } else {
        compact_form(event@)
    }
}

/// The texts of events in a row.
pub open spec fn events_text(events: Seq<Event>, pretty: bool) -> Seq<char>
    decreases events.len(),
{
    if events.len() == 0 {
        Seq::empty()
    } else {
        events_text(events.drop_last(), pretty) + event_text(events.last(), pretty)
    }
}

/// Joins texts with commas between them.
fn join_with_commas(items: &Vec<String>) -> (r: String)
    ensures
        r@ == comma_separated(text::texts(items@)),
{
    let ghost all = text::texts(items@);
    let mut r = String::new();
    let mut i: usize = 0;
    while i < items.len()
        invariant
            i <= items@.len(),
            all == text::texts(items@),
            r@ == comma_separated(all.take(i as int)),
        decreases items@.len() - i,
    {
        proof {
            let head = all.take(i + 1);
            assert(head.drop_last() =~= all.take(i as int));
            assert(head.last() == items@[i as int]@);
            assert(i == 0 ==> r@ + head.last() =~= head[0]);
        }
        if i > 0 {
            r.append(", ");
        }
        r.append(items[i].as_str());
        i += 1;
    }
    assert(all.take(i as int) =~= all);
    r
}

/// The form of a list, given its items.
pub fn list_text(items: &Vec<String>) -> (r: String)
    ensures
        r@ == list_form(text::texts(items@)),
{
    let mut r = "[".to_string();
    r.append(join_with_commas(items).as_str());
    r.append("]");
    r
}

/// The form of a map, given its entries.
pub fn map_text(items: &Vec<String>) -> (r: String)
    ensures
        r@ == map_form(text::texts(items@)),
{
    let mut r = "{".to_string();
    r.append(join_with_commas(items).as_str());
    r.append("}");
    r
}

/// The form of an event in a box, given the texts of its metadata and its routes.
pub fn boxed_text(event: &Event, metadata: &str, routes: &str) -> (r: String)
    ensures
        r@ == boxed_form(event@, metadata@, routes@),
{
    let mut r = "┌─ Event ─────────────────────────────────────────────\n".to_string();
    r.append("│ ID:        ");
    r.append(event.id.as_str());
    r.append("\n");
    r.append("│ Source:    ");
    r.append(event.source.as_str());
    r.append("\n");
    r.append("│ Type:      ");
    r.append(event.event_type.as_str());
    r.append("\n");
    r.append("│ Timestamp: ");
    r.append(signed_decimal_text(event.timestamp_unix_ns).as_str());
    r.append(" ns\n");
    assert(event@.metadata.dom() =~= event.metadata@.dom());
    if !event.metadata.is_empty() {
        r.append("│ Metadata:  ");
        r.append(metadata);
        r.append("\n");
    }
    r.append("│ Payload:   ");
    r.append(decimal_text(event.payload.len() as u64).as_str());
    r.append(" bytes\n");
    if event.route_to.len() > 0 {
        r.append("│ Route to:  ");
        r.append(routes);
        r.append("\n");
    }
    r.append("└─────────────────────────────────────────────────────\n");
    r
}

/// The form of an event on one line.
pub fn compact_text(event: &Event) -> (r: String)
    ensures
        r@ == compact_form(event@),
{
    let mut r = "[".to_string();
    r.append(event.source.as_str());
    r.append("] ");
    r.append(event.event_type.as_str());
    r.append(":");
    r.append(event.id.as_str());
    r.append(" (");
    r.append(decimal_text(event.payload.len() as u64).as_str());
    r.append(" bytes)\n");
    r
}

/// Quotes the texts of a list.
fn quote_items(items: &Vec<String>) -> (r: Vec<String>)
    ensures
        text::texts(r@) == quoted_items(text::texts(items@)),
{
    let ghost all = quoted_items(text::texts(items@));
    let mut r: Vec<String> = Vec::new();
    let mut i: usize = 0;
    while i < items.len()
        invariant
            i <= items@.len(),
            all == quoted_items(text::texts(items@)),
            text::texts(r@) == all.take(i as int),
        decreases items@.len() - i,
    {
        let item = quote(items[i].as_str());
        let ghost before = r@;
        r.push(item);
        assert(text::texts(r@) =~= text::texts(before).push(item@));
        i += 1;
        assert(text::texts(r@) =~= all.take(i as int));
    }
    assert(all.take(i as int) =~= all);
    r
}

/// Quotes the entries of metadata.
fn quote_entries(metadata: &Metadata) -> (r: Vec<String>)
    ensures
        text::texts(r@) == quoted_entries(metadata.entries()),
{
    let n: usize = metadata.len();
    let ghost all = quoted_entries(metadata.entries());
    let mut r: Vec<String> = Vec::new();
    let mut i: usize = 0;
    while i < n
        invariant
            i <= n == metadata.entries().len(),
            all == quoted_entries(metadata.entries()),
            text::texts(r@) == all.take(i as int),
        decreases n - i,
    {
        let mut item = quote(metadata.key_at(i).as_str());
        item.append(": ");
        item.append(quote(metadata.value_at(i).as_str()).as_str());
        let ghost before = r@;
        r.push(item);
        assert(text::texts(r@) =~= text::texts(before).push(item@));
        i += 1;
        assert(text::texts(r@) =~= all.take(i as int));
    }
    assert(all.take(i as int) =~= all);
    r
}

/// Writes an event as text.
pub fn render_event(event: &Event, pretty: bool) -> (r: String)
    ensures
        r@ == event_text(*event, pretty),
{
    if pretty {
        let metadata = map_text(&quote_entries(&event.metadata));
        let routes = list_text(&quote_items(&event.route_to));
        boxed_text(event, metadata.as_str(), routes.as_str())
    } else {
        compact_text(event)
    }
}

/// Writes events as text.
pub fn render_events(events: &[Event], pretty: bool) -> (r: String)
    ensures
        r@ == events_text(events@, pretty),
{
    let mut r = String::new();
    let mut i: usize = 0;
    while i < events.len()
        invariant
            i <= events@.len(),
            r@ == events_text(events@.take(i as int), pretty),
        decreases events@.len() - i,
    {
        r.append(render_event(&events[i], pretty).as_str());
        assert(events@.take(i + 1).drop_last() =~= events@.take(i as int));
        i += 1;
    }
    assert(events@.take(i as int) =~= events@);
    r
}

/// Events rendered in two rounds give the text of all of them.
pub proof fn rounds_of_events(a: Seq<Event>, b: Seq<Event>, pretty: bool)
    ensures
        events_text(a + b, pretty) == events_text(a, pretty) + events_text(b, pretty),
    decreases b.len(),
{
    if b.len() == 0 {
        assert(a + b =~= a);
        assert(events_text(a, pretty) + events_text(b, pretty) =~= events_text(a, pretty));
    } else {
        assert((a + b).drop_last() =~= a + b.drop_last());
        rounds_of_events(a, b.drop_last(), pretty);
        assert(events_text(a + b, pretty) =~= events_text(a, pretty) + events_text(b, pretty));
    }
}

} // verus!
