//! Aggregator: collects messages and emits a combined one when a batch is complete.
//!
//! Messages are held until the batch size is reached. What is still held at
//! shutdown is handed out by [`Aggregator::flush`].

use crate::json;
use crate::json::{parse_json, text_value, write_array};
use crate::message;
use crate::message::{Message, MessageView};
use crate::middleware::{Middleware, StageState};
use crate::number;
use crate::number::decimal_text;
use crate::order;
use crate::order::insert_ascending;
use crate::payload;
use crate::payload::{as_slice, from_vec};
use crate::stamp;
use crate::stamp::{new_id, new_timestamp};
use crate::string_map;
use crate::string_map::{Metadata, StringMap};
use crate::text;
use crate::text::join2;
use bytes::Bytes;
use serde_json::Value;
use vstd::prelude::*;
use vstd::utf8::*;

verus! {

/// How the payloads of a batch are combined.
#[derive(Debug, Clone, Copy, PartialEq, Eq, Structural)]
pub enum AggregateStrategy {
    /// A JSON array of the payloads.
    JsonArray,
    /// The payloads in a row, each followed by a newline.
    Concat,
    /// Only the last payload.
    Last,
    /// Only the first payload.
    First,
}

impl Default for AggregateStrategy {
    fn default() -> (r: Self)
        ensures
            r == AggregateStrategy::JsonArray,
    {
        AggregateStrategy::JsonArray
    }
}

/// The metadata of all messages; where keys conflict, the later message wins.
pub open spec fn joined_metadata(messages: Seq<MessageView>) -> Map<Seq<char>, Seq<char>>
    decreases messages.len(),
{
    if messages.len() == 0 {
        Map::empty()
    } else {
        joined_metadata(messages.drop_last()).union_prefer_right(messages.last().metadata)
    }
}

/// All messages come from one source.
pub open spec fn one_source(messages: Seq<MessageView>) -> bool {
    forall|i: int| 0 <= i < messages.len() ==> (#[trigger] messages[i]).source == messages[0].source
}

/// Some message is routed to `name`.
pub open spec fn some_route(messages: Seq<MessageView>, name: Seq<char>) -> bool {
    exists|i: int| 0 <= i < messages.len() && (#[trigger] messages[i]).route_to.contains(name)
}

/// The payloads in a row, each followed by a newline.
pub open spec fn lines(messages: Seq<MessageView>) -> Seq<u8>
    decreases messages.len(),
{
    if messages.len() == 0 {
        Seq::empty()
    } else {
        lines(messages.drop_last()) + messages.last().payload.push(10u8)
    }
}

/// The text of a payload, empty where it is not well-formed UTF-8.
pub open spec fn payload_text(data: Seq<u8>) -> Seq<char> {
    if valid_utf8(data) {
        decode_utf8(data)
    } else {
        Seq::empty()
    }
}

/// What stands for a payload in a JSON array: its JSON value, or else its text.
pub open spec fn array_item(parsed: Result<Value, Seq<char>>, data: Seq<u8>) -> Value {
    match parsed {
        Ok(value) => value,
        Err(_) => json::json_text(payload_text(data)),
    }
}

/// What stands for the payloads in a JSON array.
pub open spec fn array_items(messages: Seq<MessageView>) -> Seq<Value> {
    Seq::new(
        messages.len(),
        |i: int| array_item(json::json_value(messages[i].payload), messages[i].payload),
    )
}

/// The bytes that were written, none where writing failed.
pub open spec fn written_or_empty(written: Option<Seq<u8>>) -> Seq<u8> {
    match written {
        Some(data) => data,
        None => Seq::empty(),
    }
}

/// The payload of a batch.
pub open spec fn batch_payload(strategy: AggregateStrategy, messages: Seq<MessageView>) -> Seq<u8> {
    match strategy {
        AggregateStrategy::JsonArray => written_or_empty(json::json_array(array_items(messages))),
        AggregateStrategy::Concat => lines(messages),
        AggregateStrategy::Last => messages.last().payload,
        AggregateStrategy::First => messages[0].payload,
    }
}

/// `out` stands for the batch: the metadata of all messages and their number, their
/// source, the type of the first one, and their routes in ascending order.
pub open spec fn stands_for(out: MessageView, messages: Seq<MessageView>) -> bool {
    &&& out.source == if one_source(messages) {
        messages[0].source
    } else {
        "aggregated"@
    }
    &&& out.message_type == messages[0].message_type + ".aggregate"@
    &&& out.metadata == joined_metadata(messages).insert(
        "polku.aggregator.count"@,
        number::decimal(messages.len()),
    )
    &&& order::ascending(out.route_to)
    &&& forall|name: Seq<char>| #[trigger]
        out.route_to.contains(name) <==> some_route(messages, name)
}

/// `out` is a message that combines the batch, with an identifier and a time of its own.
pub open spec fn combines(
    out: MessageView,
    strategy: AggregateStrategy,
    messages: Seq<MessageView>,
) -> bool {
    &&& stamp::is_fresh(out.id, out.timestamp)
    &&& out.payload == batch_payload(strategy, messages)
    &&& stands_for(out, messages)
}

/// What stands for the payload of a message in a JSON array, given what parsing it gave.
pub fn json_or_text(parsed: Result<Value, String>, msg: &Message) -> (r: Value)
    ensures
        r == match parsed {
            Ok(value) => array_item(Ok(value), msg@.payload),
            Err(e) => array_item(Err(e@), msg@.payload),
        },
{
    match parsed {
        Ok(value) => value,
        Err(_) => {
            let s: &str = match msg.payload_str() {
                Some(s) => s,
                None => "",
            };
            assert(""@ =~= Seq::<char>::empty()) by {
                reveal_strlit("");
            }
            text_value(s.to_string())
        },
    }
}

/// The payload of a JSON array, given what writing it gave.
pub fn array_payload(written: Option<Vec<u8>>) -> (r: Bytes)
    ensures
        payload::contents(r) == match written {
            Some(data) => written_or_empty(Some(data@)),
            None => written_or_empty(None),
        },
{
    match written {
        Some(data) => from_vec(data),
        None => Bytes::new(),
    }
}

/// The payloads as a JSON array.
fn join_json(messages: &Vec<Message>) -> (r: Bytes)
    ensures
        payload::contents(r) == written_or_empty(
            json::json_array(array_items(message::message_views(messages@))),
        ),
{
    let ghost views = message::message_views(messages@);
    let mut values: Vec<Value> = Vec::new();
    let mut i: usize = 0;
    while i < messages.len()
        invariant
            i <= messages@.len(),
            views == message::message_views(messages@),
            values@ == array_items(views).take(i as int),
        decreases messages@.len() - i,
    {
        let msg = &messages[i];
        values.push(json_or_text(parse_json(as_slice(&msg.payload)), msg));
        assert(views[i as int] == msg@);
        i += 1;
        assert(values@ =~= array_items(views).take(i as int));
    }
    assert(array_items(views).take(i as int) =~= array_items(views));
    array_payload(write_array(&values))
}

/// The payloads in a row, each followed by a newline.
fn join_lines(messages: &Vec<Message>) -> (r: Bytes)
    ensures
        payload::contents(r) == lines(message::message_views(messages@)),
{
    let ghost views = message::message_views(messages@);
    let mut data: Vec<u8> = Vec::new();
    let mut i: usize = 0;
    while i < messages.len()
        invariant
            i <= messages@.len(),
            views == message::message_views(messages@),
            data@ == lines(views.take(i as int)),
        decreases messages@.len() - i,
    {
        let ghost before = data@;
        data.extend_from_slice(as_slice(&messages[i].payload));
        data.push(10u8);
        proof {
            let head = views.take(i + 1);
            assert(head.drop_last() =~= views.take(i as int));
            assert(head.last() == messages@[i as int]@);
            assert(data@ =~= before + head.last().payload.push(10u8));
        }
        i += 1;
    }
    assert(views.take(i as int) =~= views);
    from_vec(data)
}

/// The metadata of all messages; where keys conflict, the later message wins.
fn join_metadata(messages: &Vec<Message>) -> (r: Metadata)
    ensures
        r.texts() == joined_metadata(message::message_views(messages@)),
{
    broadcast use string_map::group_texts;

    let ghost views = message::message_views(messages@);
    let mut r: Metadata = StringMap::new();
    let mut i: usize = 0;
    assert(views.take(0) =~= Seq::<MessageView>::empty());
    while i < messages.len()
        invariant
            i <= messages@.len(),
            views == message::message_views(messages@),
            r.texts() == joined_metadata(views.take(i as int)),
        decreases messages@.len() - i,
    {
        r.extend(messages[i].metadata.clone());
        proof {
            let head = views.take(i + 1);
            assert(head.drop_last() =~= views.take(i as int));
            assert(head.last() == messages@[i as int]@);
        }
        i += 1;
    }
    assert(views.take(i as int) =~= views);
    r
}

/// Whether all messages come from the source of the first one.
fn same_source(messages: &Vec<Message>) -> (r: bool)
    requires
        messages@.len() > 0,
    ensures
        r == one_source(message::message_views(messages@)),
{
    let ghost views = message::message_views(messages@);
    assert(views[0] == messages@[0]@);
    let mut i: usize = 0;
    while i < messages.len()
        invariant
            0 < messages@.len(),
            i <= messages@.len(),
            views == message::message_views(messages@),
            views[0] == messages@[0]@,
            forall|j: int| 0 <= j < i ==> (#[trigger] views[j]).source == views[0].source,
        decreases messages@.len() - i,
    {
        assert(views[i as int] == messages@[i as int]@);
        if messages[i].source != messages[0].source {
            return false;
        }
        i += 1;
    }
    true
}

/// The routes of all messages, in ascending order.
fn join_routes(messages: &Vec<Message>) -> (r: Vec<String>)
    ensures
        order::ascending(text::texts(r@)),
        forall|name: Seq<char>| #[trigger]
            text::texts(r@).contains(name) <==> some_route(
                message::message_views(messages@),
                name,
            ),
{
    let ghost views = message::message_views(messages@);
    let mut r: Vec<String> = Vec::new();
    let mut i: usize = 0;
    while i < messages.len()
        invariant
            i <= messages@.len(),
            views == message::message_views(messages@),
            order::ascending(text::texts(r@)),
            forall|name: Seq<char>| #[trigger]
                text::texts(r@).contains(name) <==> some_route(views.take(i as int), name),
        decreases messages@.len() - i,
    {
        let routes: &Vec<String> = &messages[i].route_to;
        let ghost known = text::texts(r@);
        let ghost here = text::texts(routes@);
        let mut k: usize = 0;
        while k < routes.len()
            invariant
                k <= routes@.len(),
                here == text::texts(routes@),
                order::ascending(text::texts(r@)),
                forall|name: Seq<char>| #[trigger]
                    text::texts(r@).contains(name) <==> known.contains(name) || here.take(
                        k as int,
                    ).contains(name),
            decreases routes@.len() - k,
        {
            let ghost before = text::texts(r@);
            insert_ascending(&mut r, routes[k].clone());
            proof {
                let added = here[k as int];
                assert(added == routes@[k as int]@);
                let now = here.take(k as int);
                let next = here.take(k + 1);
                assert(next =~= now.push(added));
                assert forall|name: Seq<char>| #[trigger]
                    text::texts(r@).contains(name) <==> known.contains(name) || next.contains(
                        name,
                    ) by {
                    assert(text::texts(r@).to_set().contains(name) == before.to_set().insert(
                        added,
                    ).contains(name));
                    if now.contains(name) {
                        let j = choose|j: int| 0 <= j < now.len() && now[j] == name;
                        assert(next[j] == name);
                    }
                    if name == added {
                        assert(next[k as int] == name);
                    }
                    if next.contains(name) && name != added {
                        let j = choose|j: int| 0 <= j < next.len() && next[j] == name;
                        assert(now[j] == name);
                    }
                }
            }
            k += 1;
        }
        proof {
            assert(here.take(k as int) =~= here);
            let head = views.take(i + 1);
            assert(head[i as int].route_to == here);
            assert forall|name: Seq<char>| #[trigger]
                text::texts(r@).contains(name) <==> some_route(head, name) by {
                let rest = views.take(i as int);
                if some_route(rest, name) {
                    let j = choose|j: int|
                        0 <= j < rest.len() && (#[trigger] rest[j]).route_to.contains(name);
                    assert(head[j] == rest[j]);
                }
                if some_route(head, name) && !here.contains(name) {
                    let j = choose|j: int|
                        0 <= j < head.len() && (#[trigger] head[j]).route_to.contains(name);
                    assert(rest[j] == head[j]);
                }
            }
        }
        i += 1;
    }
    assert(views.take(i as int) =~= views);
    r
}

/// Combines messages into one that has the given payload, identifier and time.
pub fn combine_with(messages: &Vec<Message>, payload: Bytes, id: String, timestamp: i64) -> (r:
    Message)
    requires
        messages@.len() > 0,
    ensures
        r@.id == id@,
        r@.timestamp == timestamp,
        r@.payload == payload::contents(payload),
        stands_for(r@, message::message_views(messages@)),
{
    broadcast use string_map::group_texts;

    let ghost views = message::message_views(messages@);
    let first = &messages[0];
    assert(views[0] == first@);
    let mut metadata = join_metadata(messages);
    metadata.insert(
        "polku.aggregator.count".to_string(),
        decimal_text(messages.len() as u64),
    );
    let source = if same_source(messages) {
        first.source.clone()
    } else {
        "aggregated".to_string()
    };
    Message {
        id,
        timestamp,
        source,
        message_type: join2(first.message_type.as_str(), ".aggregate"),
        metadata,
        payload,
        route_to: join_routes(messages),
    }
}

/// Collects messages until the batch is complete, then emits a combined message.
pub struct Aggregator {
    batch_size: usize,
    strategy: AggregateStrategy,
    buffer: Vec<Message>,
}

/// The mathematical state of an [`Aggregator`].
#[verifier::ext_equal]
pub struct AggregatorState {
    /// How many messages make a batch.
    pub batch_size: nat,
    /// How payloads are combined.
    pub strategy: AggregateStrategy,
    /// The messages held.
    pub pending: Seq<Message>,
}

impl AggregatorState {
    /// The batch is not complete.
    pub open spec fn well_formed(self) -> bool {
        self.pending.len() < self.batch_size
    }

    /// The message makes the batch complete.
    pub open spec fn completed_by(self, msg: Message) -> bool {
        self.pending.push(msg).len() >= self.batch_size
    }

    /// Taking in `msg` may end in `out`.
    pub open spec fn outcome(self, msg: Message, out: Option<Message>) -> bool {
        match out {
            Some(batch) => self.completed_by(msg) && combines(
                batch@,
                self.strategy,
                message::message_views(self.pending.push(msg)),
            ),
            None => !self.completed_by(msg),
        }
    }

    /// The state after taking in `msg`.
    pub open spec fn after(self, msg: Message) -> AggregatorState {
        let held = self.pending.push(msg);
        AggregatorState {
            pending: if held.len() >= self.batch_size {
                Seq::empty()
            } else {
                held
            },
            ..self
        }
    }
}

impl View for Aggregator {
    type V = AggregatorState;

    closed spec fn view(&self) -> AggregatorState {
        AggregatorState {
            batch_size: self.batch_size as nat,
            strategy: self.strategy,
            pending: self.buffer@,
        }
    }
}

impl Aggregator {
    #[verifier::type_invariant]
    spec fn well_formed(self) -> bool {
        self@.well_formed()
    }

    /// Creates an aggregator with the given batch size, which is not zero.
    pub fn new(batch_size: usize) -> (r: Self)
        requires
            batch_size > 0,
        ensures
            r@ == (AggregatorState {
                batch_size: batch_size as nat,
                strategy: AggregateStrategy::JsonArray,
                pending: Seq::empty(),
            }),
    {
        Aggregator { batch_size, strategy: AggregateStrategy::default(), buffer: Vec::new() }
    }

    /// Sets the aggregation strategy.
    pub fn strategy(self, strategy: AggregateStrategy) -> (r: Self)
        ensures
            r@ == (AggregatorState { strategy, ..self@ }),
    {
        proof {
            use_type_invariant(&self);
        }
        let mut aggregator = self;
        aggregator.strategy = strategy;
        aggregator
    }

    /// Combines messages into one.
    fn combine(&self, messages: Vec<Message>) -> (r: Message)
        requires
            messages@.len() > 0,
        ensures
            combines(r@, self@.strategy, message::message_views(messages@)),
    {
        let ghost views = message::message_views(messages@);
        assert(views[0] == messages@[0]@);
        assert(views.last() == messages@.last()@);
        let payload = match self.strategy {
            AggregateStrategy::JsonArray => join_json(&messages),
            AggregateStrategy::Concat => join_lines(&messages),
            AggregateStrategy::Last => messages[messages.len() - 1].payload.clone(),
            AggregateStrategy::First => messages[0].payload.clone(),
        };
        let id = new_id();
        let timestamp: i64 = new_timestamp();
        assert(call_ensures(new_id, (), id));
        combine_with(&messages, payload, id, timestamp)
    }

    /// How many messages are held.
    pub fn pending(&self) -> (r: usize)
        ensures
            r == self@.pending.len(),
            self@.well_formed(),
    {
        proof {
            use_type_invariant(self);
        }
        self.buffer.len()
    }

    /// Takes the messages held.
    fn take_pending(&mut self) -> (r: Vec<Message>)
        ensures
            r@ == old(self)@.pending,
            final(self)@ == (AggregatorState { pending: Seq::empty(), ..old(self)@ }),
    {
        proof {
            use_type_invariant(&*self);
        }
        let mut messages: Vec<Message> = Vec::new();
        std::mem::swap(&mut messages, &mut self.buffer);
        messages
    }

    /// Hands out the messages held, combined, if there are any.
    pub fn flush(&mut self) -> (r: Option<Message>)
        ensures
            final(self)@ == (AggregatorState { pending: Seq::empty(), ..old(self)@ }),
            match r {
                Some(batch) => old(self)@.pending.len() > 0 && combines(
                    batch@,
                    old(self)@.strategy,
                    message::message_views(old(self)@.pending),
                ),
                None => old(self)@.pending.len() == 0,
            },
    {
        let messages = self.take_pending();
        if messages.len() == 0 {
            return None;
        }
        Some(self.combine(messages))
    }
}

impl Middleware for Aggregator {
    open spec fn outcome(&self, msg: Message, out: Option<Message>) -> bool {
        self@.outcome(msg, out)
    }

    open spec fn stage_state(&self) -> StageState {
        StageState::Aggregator(self@)
    }

    open spec fn moves_to(&self, msg: Message, out: Option<Message>, next: StageState) -> bool {
        self@.outcome(msg, out) && next == StageState::Aggregator(self@.after(msg))
    }

    open spec fn spec_name(&self) -> Seq<char> {
        "aggregator"@
    }

    fn name(&self) -> (r: &'static str)
        ensures
            r@ == "aggregator"@,
    {
        "aggregator"
    }

    fn process(&mut self, msg: Message) -> (r: Option<Message>)
        ensures
            old(self)@.outcome(msg, r),
            final(self)@ == old(self)@.after(msg),
            final(self)@.well_formed(),
    {
        proof {
            use_type_invariant(&*self);
        }
        let mut messages = self.take_pending();
        messages.push(msg);
        if messages.len() >= self.batch_size {
            Some(self.combine(messages))
        } else {
            self.buffer = messages;
            None
        }
    }
}

/// Every batch that is emitted by itself holds exactly as many messages as make a
/// batch, and says so in its metadata.
pub proof fn batches_are_full(state: AggregatorState, msg: Message, batch: Message)
    requires
        state.well_formed(),
        state.outcome(msg, Some(batch)),
    ensures
        state.pending.push(msg).len() == state.batch_size,
        batch@.metadata["polku.aggregator.count"@] == number::decimal(state.batch_size),
{
}

/// The batch stays incomplete between messages.
pub proof fn incomplete_batches_stay(state: AggregatorState, msg: Message)
    requires
        state.well_formed(),
    ensures
        state.after(msg).well_formed(),
{
}

/// Of the messages that have a metadata key, the last one decides its value.
pub proof fn later_metadata_wins(messages: Seq<MessageView>, i: int, key: Seq<char>)
    requires
        0 <= i < messages.len(),
        messages[i].metadata.contains_key(key),
        forall|j: int|
            i < j < messages.len() ==> !(#[trigger] messages[j]).metadata.contains_key(key),
    ensures
        joined_metadata(messages).contains_key(key),
        joined_metadata(messages)[key] == messages[i].metadata[key],
    decreases messages.len(),
{
    if i < messages.len() - 1 {
        let rest = messages.drop_last();
        assert(messages.last() == messages[messages.len() - 1]);
        assert forall|j: int| i < j < rest.len() implies !(#[trigger] rest[j]).metadata.contains_key(
            key,
        ) by {
            assert(rest[j] == messages[j]);
        }
        later_metadata_wins(rest, i, key);
    }
}

/// A key of the combined metadata comes from one of the messages, apart from the count.
pub proof fn metadata_comes_from_messages(messages: Seq<MessageView>, key: Seq<char>)
    requires
        joined_metadata(messages).contains_key(key),
    ensures
        exists|i: int|
            0 <= i < messages.len() && (#[trigger] messages[i]).metadata.contains_key(key),
    decreases messages.len(),
{
    if messages.len() > 0 {
        if messages.last().metadata.contains_key(key) {
            assert(messages[messages.len() - 1].metadata.contains_key(key));
        } else {
            let rest = messages.drop_last();
            metadata_comes_from_messages(rest, key);
            let i = choose|i: int|
                0 <= i < rest.len() && (#[trigger] rest[i]).metadata.contains_key(key);
            assert(messages[i].metadata.contains_key(key));
        }
    }
}

/// The routes of a batch are fixed: two messages that stand for it have the same ones.
pub proof fn batch_routes_are_unique(a: MessageView, b: MessageView, messages: Seq<MessageView>)
    requires
        stands_for(a, messages),
        stands_for(b, messages),
    ensures
        a.route_to == b.route_to,
{
    assert forall|name: Seq<char>| a.route_to.to_set().contains(name) == b.route_to.to_set().contains(
        name,
    ) by {
        assert(a.route_to.contains(name) <==> b.route_to.contains(name));
    }
    assert(a.route_to.to_set() =~= b.route_to.to_set());
    order::ascending_list_is_unique(a.route_to, b.route_to);
}

} // verus!
