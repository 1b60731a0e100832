//! Laws of the aggregator.

use crate::json;
use crate::message;
use crate::message::{Message, MessageView};
use crate::middleware::aggregator;
use crate::middleware::aggregator::{AggregateStrategy, Aggregator};
use crate::middleware::Middleware;
use crate::number;
use crate::order;
use crate::payload;
use crate::stamp;
use crate::text;
use serde_json::Value;
use vstd::prelude::*;
use vstd::utf8::*;

verus! {

/// A batch is emitted by the message that completes it and by no other. Until then
/// messages are held in the order in which they came, and afterwards none is.
pub proof fn batches_are_emitted_when_complete(
    aggregator: &mut Aggregator,
    msg: Message,
    out: Option<Message>,
)
    requires
        call_ensures(<Aggregator as Middleware>::process, (aggregator, msg), out),
    ensures
        out is Some <==> old(aggregator)@.pending.len() + 1 >= old(aggregator)@.batch_size,
        out is None ==> final(aggregator)@.pending == old(aggregator)@.pending.push(msg),
        out is Some ==> final(aggregator)@.pending.len() == 0,
        final(aggregator)@.batch_size == old(aggregator)@.batch_size,
        final(aggregator)@.strategy == old(aggregator)@.strategy,
{
}

/// An aggregator is made with what it is given and holds nothing at first; it tells how
/// many messages it holds.
pub proof fn aggregators_are_made_as_asked(
    batch_size: usize,
    fresh: Aggregator,
    strategy: AggregateStrategy,
    set: Aggregator,
    pending: usize,
)
    requires
        batch_size > 0,
        call_ensures(Aggregator::new, (batch_size,), fresh),
        call_ensures(Aggregator::strategy, (fresh, strategy), set),
        call_ensures(Aggregator::pending, (&set,), pending),
    ensures
        fresh@.batch_size == batch_size,
        fresh@.strategy == AggregateStrategy::JsonArray,
        set@.batch_size == batch_size,
        set@.strategy == strategy,
        set@.pending.len() == 0,
        pending == 0,
{
}

/// What stands for a message in a JSON array: the value of its payload, if that is JSON,
/// and otherwise its text, which is empty where the payload is no text.
pub open spec fn is_item(value: Value, data: Seq<u8>) -> bool {
    match json::json_value(data) {
        Ok(parsed) => value == parsed,
        Err(_) => if valid_utf8(data) {
            value == json::json_text(decode_utf8(data))
        } else {
            value == json::json_text(Seq::empty())
        },
    }
}

/// The bytes are what is written for a JSON array with one item for each message, in order.
pub open spec fn is_array_of(data: Seq<u8>, messages: Seq<Message>, values: Seq<Value>) -> bool {
    &&& values.len() == messages.len()
    &&& forall|i: int|
        0 <= i < messages.len() ==> is_item(
            #[trigger] values[i],
            payload::contents(messages[i].payload),
        )
    &&& match json::json_array(values) {
        Some(written) => data == written,
        None => data.len() == 0,
    }
}

/// The bytes are the payloads in a row, each followed by a newline; `starts` tells where
/// each of them begins, and at its end how many bytes there are.
pub open spec fn is_lines_of(data: Seq<u8>, messages: Seq<MessageView>, starts: Seq<int>) -> bool {
    &&& starts.len() == messages.len() + 1
    &&& starts[0] == 0
    &&& starts.last() == data.len()
    &&& forall|i: int|
        0 <= i < messages.len() ==> {
            let from = #[trigger] starts[i];
            let to = from + messages[i].payload.len();
            &&& 0 <= from
            &&& to < data.len()
            &&& starts[i + 1] == to + 1
            &&& data.subrange(from, to) == messages[i].payload
            &&& data[to] == 10
        }
}

proof fn lines_have_starts(messages: Seq<MessageView>) -> (starts: Seq<int>)
    ensures
        is_lines_of(aggregator::lines(messages), messages, starts),
    decreases messages.len(),
{
    let data = aggregator::lines(messages);
    if messages.len() == 0 {
        seq![0int]
    } else {
        let rest = messages.drop_last();
        let before = aggregator::lines(rest);
        let known = lines_have_starts(rest);
        let last = messages.last().payload;
        let starts = known.push(data.len() as int);
        assert(data == before + last.push(10u8));
        assert forall|i: int| 0 <= i < messages.len() implies {
            let from = #[trigger] starts[i];
            let to = from + messages[i].payload.len();
            &&& 0 <= from
            &&& to < data.len()
            &&& starts[i + 1] == to + 1
            &&& data.subrange(from, to) == messages[i].payload
            &&& data[to] == 10
        } by {
            let from = starts[i];
            let to = from + messages[i].payload.len();
            if i < rest.len() {
                assert(known[i] == from);
                assert(rest[i] == messages[i]);
                assert(starts[i + 1] == known[i + 1]);
                assert(before.subrange(from, to) =~= data.subrange(from, to));
                assert(before[to] == data[to]);
            } else {
                assert(data.subrange(from, to) =~= last);
            }
        }
        starts
    }
}

/// The payload of a batch is made of the payloads of all its messages as the strategy
/// says: a JSON array with one item for each, lines with one for each, the last or the first.
pub open spec fn is_payload_of(
    data: Seq<u8>,
    strategy: AggregateStrategy,
    messages: Seq<Message>,
) -> bool {
    match strategy {
        AggregateStrategy::JsonArray => exists|values: Seq<Value>| #[trigger]
            is_array_of(data, messages, values),
        AggregateStrategy::Concat => exists|starts: Seq<int>| #[trigger]
            is_lines_of(data, message::message_views(messages), starts),
        AggregateStrategy::Last => data == payload::contents(messages[messages.len() - 1].payload),
        AggregateStrategy::First => data == payload::contents(messages[0].payload),
    }
}

proof fn combined_payloads(batch: Message, strategy: AggregateStrategy, messages: Seq<Message>)
    requires
        messages.len() > 0,
        aggregator::combines(batch@, strategy, message::message_views(messages)),
    ensures
        is_payload_of(payload::contents(batch.payload), strategy, messages),
{
    let views = message::message_views(messages);
    let data = payload::contents(batch.payload);
    let values = aggregator::array_items(views);
    assert forall|i: int| 0 <= i < messages.len() implies is_item(
        #[trigger] values[i],
        payload::contents(messages[i].payload),
    ) by {
        assert(views[i] == messages[i]@);
    }
    let starts = lines_have_starts(views);
    if strategy == AggregateStrategy::JsonArray {
        assert(is_array_of(data, messages, values));
    }
    if strategy == AggregateStrategy::Concat {
        assert(is_lines_of(data, views, starts));
    }
    assert(views[messages.len() - 1] == messages[messages.len() - 1]@);
    assert(views[0] == messages[0]@);
}

/// The payload of a batch that is emitted speaks of every message in it.
pub proof fn no_payload_is_lost(
    aggregator: &mut Aggregator,
    msg: Message,
    batch: Message,
)
    requires
        call_ensures(<Aggregator as Middleware>::process, (aggregator, msg), Some(batch)),
    ensures
        is_payload_of(
            payload::contents(batch.payload),
            old(aggregator)@.strategy,
            old(aggregator)@.pending.push(msg),
        ),
{
    let messages = old(aggregator)@.pending.push(msg);
    combined_payloads(batch, old(aggregator)@.strategy, messages);
}

/// The JSON array of a batch has exactly one item for each message, in order: the value
/// of its payload where that is JSON, and its text otherwise.
pub proof fn json_batches_have_an_item_for_each_message(
    aggregator: &mut Aggregator,
    msg: Message,
    batch: Message,
)
    requires
        call_ensures(<Aggregator as Middleware>::process, (aggregator, msg), Some(batch)),
        old(aggregator)@.strategy == AggregateStrategy::JsonArray,
    ensures
        exists|items: Seq<Value>|
            {
                let messages = old(aggregator)@.pending.push(msg);
                &&& items.len() == messages.len()
                &&& forall|i: int|
                    0 <= i < messages.len() ==> {
                        let data = payload::contents((#[trigger] messages[i]).payload);
                        match json::json_value(data) {
                            Ok(value) => items[i] == value,
                            Err(_) => items[i] == json::json_text(
                                if valid_utf8(data) {
                                    decode_utf8(data)
                                } else {
                                    Seq::empty()
                                },
                            ),
                        }
                    }
                &&& payload::contents(batch.payload) == match #[trigger] json::json_array(items) {
                    Some(written) => written,
                    None => Seq::empty(),
                }
            },
{
    let messages = old(aggregator)@.pending.push(msg);
    let views = message::message_views(messages);
    let items = aggregator::array_items(views);
    assert forall|i: int| 0 <= i < messages.len() implies {
        let data = payload::contents((#[trigger] messages[i]).payload);
        match json::json_value(data) {
            Ok(value) => items[i] == value,
            Err(_) => items[i] == json::json_text(
                if valid_utf8(data) {
                    decode_utf8(data)
                } else {
                    Seq::empty()
                },
            ),
        }
    } by {
        assert(views[i] == messages[i]@);
    }
    let written = json::json_array(items);
}

/// An item of a JSON array is what parsing gave, and otherwise the text of the message; the
/// array is what was written, and otherwise nothing.
pub proof fn items_are_values_or_texts(
    parsed: Result<Value, String>,
    msg: Message,
    item: Value,
    written: Option<Vec<u8>>,
    array: bytes::Bytes,
)
    requires
        call_ensures(aggregator::json_or_text, (parsed, &msg), item),
        call_ensures(aggregator::array_payload, (written,), array),
    ensures
        parsed matches Ok(value) ==> item == value,
        parsed is Err && valid_utf8(payload::contents(msg.payload)) ==> item == json::json_text(
            decode_utf8(payload::contents(msg.payload)),
        ),
        parsed is Err && !valid_utf8(payload::contents(msg.payload)) ==> item == json::json_text(
            Seq::empty(),
        ),
        written matches Some(data) ==> payload::contents(array) == data@,
        written is None ==> payload::contents(array).len() == 0,
{
}

/// A batch says where its messages come from, of what type the first is and how many
/// there are. It has the metadata of all, where the last one that has a key decides, and
/// is routed to wherever one of them is, in order and once each.
pub open spec fn speaks_for(batch: Message, messages: Seq<Message>) -> bool {
    let metadata = batch.metadata.texts();
    let routes = text::texts(batch.route_to@);
    let count = "polku.aggregator.count"@;
    &&& (forall|i: int|
        0 <= i < messages.len() ==> (#[trigger] messages[i]).source@ == messages[0].source@)
        ==> batch.source@ == messages[0].source@
    &&& (exists|i: int|
        0 <= i < messages.len() && (#[trigger] messages[i]).source@ != messages[0].source@)
        ==> batch.source@ == "aggregated"@
    &&& batch.message_type@ == messages[0].message_type@ + ".aggregate"@
    &&& metadata.contains_key(count)
    &&& number::number_value(metadata[count], messages.len()) == Ok::<nat, number::NumberError>(
        messages.len(),
    )
    &&& forall|key: Seq<char>|
        key != count ==> (#[trigger] metadata.contains_key(key) <==> exists|i: int|
            0 <= i < messages.len() && (#[trigger] messages[i]).metadata.texts().contains_key(key))
    &&& forall|key: Seq<char>, i: int|
        #![trigger metadata[key], messages[i]]
        {
            &&& key != count
            &&& 0 <= i < messages.len()
            &&& messages[i].metadata.texts().contains_key(key)
            &&& forall|j: int|
                i < j < messages.len() ==> !(#[trigger] messages[j]).metadata.texts().contains_key(
                    key,
                )
        } ==> metadata[key] == messages[i].metadata.texts()[key]
    &&& order::ascending(routes)
    &&& forall|name: Seq<char>| #[trigger]
        routes.contains(name) <==> exists|i: int|
            0 <= i < messages.len() && text::texts((#[trigger] messages[i]).route_to@).contains(
                name,
            )
}

proof fn combined_messages(batch: Message, messages: Seq<Message>)
    requires
        messages.len() > 0,
        aggregator::stands_for(batch@, message::message_views(messages)),
    ensures
        speaks_for(batch, messages),
{
    let views = message::message_views(messages);
    let metadata = batch.metadata.texts();
    let count = "polku.aggregator.count"@;
    assert forall|i: int| 0 <= i < messages.len() implies #[trigger] views[i] == messages[i]@ by {}
    assert(views[0] == messages[0]@);
    if forall|i: int|
        0 <= i < messages.len() ==> (#[trigger] messages[i]).source@ == messages[0].source@ {
        assert forall|i: int| 0 <= i < views.len() implies (#[trigger] views[i]).source
            == views[0].source by {
            assert(messages[i].source@ == messages[0].source@);
        }
        assert(aggregator::one_source(views));
    } else {
        let i = choose|i: int|
            0 <= i < messages.len() && (#[trigger] messages[i]).source@ != messages[0].source@;
        assert(views[i].source != views[0].source);
        assert(!aggregator::one_source(views));
    }
    number::decimal_reads_back(messages.len(), messages.len());
    assert forall|key: Seq<char>|
        key != count implies (#[trigger] metadata.contains_key(key) <==> exists|i: int|
        0 <= i < messages.len() && (#[trigger] messages[i]).metadata.texts().contains_key(key)) by {
        if metadata.contains_key(key) {
            aggregator::metadata_comes_from_messages(views, key);
            let i = choose|i: int|
                0 <= i < views.len() && (#[trigger] views[i]).metadata.contains_key(key);
            assert(messages[i].metadata.texts().contains_key(key));
        }
        if exists|i: int|
            0 <= i < messages.len() && (#[trigger] messages[i]).metadata.texts().contains_key(
                key,
            ) {
            let i = choose|i: int|
                0 <= i < messages.len() && (#[trigger] messages[i]).metadata.texts().contains_key(
                    key,
                );
            assert(views[i].metadata.contains_key(key));
            some_metadata_stays(views, i, key);
        }
    }
    assert forall|key: Seq<char>, i: int|
        #![trigger metadata[key], messages[i]]
        {
            &&& key != count
            &&& 0 <= i < messages.len()
            &&& messages[i].metadata.texts().contains_key(key)
            &&& forall|j: int|
                i < j < messages.len() ==> !(#[trigger] messages[j]).metadata.texts().contains_key(
                    key,
                )
        } implies metadata[key] == messages[i].metadata.texts()[key] by {
        assert forall|j: int| i < j < views.len() implies !(
        #[trigger] views[j]).metadata.contains_key(key) by {
            assert(!messages[j].metadata.texts().contains_key(key));
        }
        assert(views[i] == messages[i]@);
        aggregator::later_metadata_wins(views, i, key);
    }
    let routes = text::texts(batch.route_to@);
    assert forall|name: Seq<char>| #[trigger]
        routes.contains(name) <==> exists|i: int|
            0 <= i < messages.len() && text::texts((#[trigger] messages[i]).route_to@).contains(
                name,
            ) by {
        if aggregator::some_route(views, name) {
            let i = choose|i: int|
                0 <= i < views.len() && (#[trigger] views[i]).route_to.contains(name);
            assert(text::texts(messages[i].route_to@).contains(name));
        }
        if exists|i: int|
            0 <= i < messages.len() && text::texts((#[trigger] messages[i]).route_to@).contains(
                name,
            ) {
            let i = choose|i: int|
                0 <= i < messages.len() && text::texts((#[trigger] messages[i]).route_to@).contains(
                    name,
                );
            assert(views[i].route_to.contains(name));
        }
    }
}

proof fn some_metadata_stays(messages: Seq<MessageView>, i: int, key: Seq<char>)
    requires
        0 <= i < messages.len(),
        messages[i].metadata.contains_key(key),
    ensures
        aggregator::joined_metadata(messages).contains_key(key),
    decreases messages.len(),
{
    if i < messages.len() - 1 {
        some_metadata_stays(messages.drop_last(), i, key);
    }
}

/// A batch that is emitted speaks for all its messages, with an identifier and a time of
/// its own.
pub proof fn batches_speak_for_their_messages(
    aggregator: &mut Aggregator,
    msg: Message,
    batch: Message,
)
    requires
        call_ensures(<Aggregator as Middleware>::process, (aggregator, msg), Some(batch)),
    ensures
        speaks_for(batch, old(aggregator)@.pending.push(msg)),
        stamp::is_ulid(batch.id@),
        batch.timestamp >= 0,
{
    combined_messages(batch, old(aggregator)@.pending.push(msg));
}

/// What is held is handed out by a flush, combined as a complete batch would be.
pub proof fn flushing_hands_out_what_is_held(
    aggregator: &mut Aggregator,
    out: Option<Message>,
)
    requires
        call_ensures(Aggregator::flush, (aggregator,), out),
    ensures
        final(aggregator)@.pending.len() == 0,
        final(aggregator)@.batch_size == old(aggregator)@.batch_size,
        final(aggregator)@.strategy == old(aggregator)@.strategy,
        out is None <==> old(aggregator)@.pending.len() == 0,
        out matches Some(batch) ==> {
            &&& speaks_for(batch, old(aggregator)@.pending)
            &&& is_payload_of(
                payload::contents(batch.payload),
                old(aggregator)@.strategy,
                old(aggregator)@.pending,
            )
            &&& stamp::is_ulid(batch.id@)
        },
{
    if let Some(batch) = out {
        combined_payloads(batch, old(aggregator)@.strategy, old(aggregator)@.pending);
        combined_messages(batch, old(aggregator)@.pending);
    }
}

/// Messages are combined under the identifier, time and payload that are given.
pub proof fn combining_takes_what_is_given(
    messages: &Vec<Message>,
    data: bytes::Bytes,
    id: String,
    timestamp: i64,
    batch: Message,
)
    requires
        messages@.len() > 0,
        call_ensures(aggregator::combine_with, (messages, data, id, timestamp), batch),
    ensures
        batch.id@ == id@,
        batch.timestamp == timestamp,
        payload::contents(batch.payload) == payload::contents(data),
        speaks_for(batch, messages@),
{
    combined_messages(batch, messages@);
}

} // verus!
