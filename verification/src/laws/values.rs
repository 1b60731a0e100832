//! Laws of the values that travel: messages, events, numbers, texts, maps and errors.

use crate::error::{Code, PluginError, PolkuError, Status};
use crate::laws::service;
use crate::message;
use crate::message::Message;
use crate::number;
use crate::number::NumberError;
use crate::order;
use crate::payload;
use crate::proto;
use crate::proto::Event;
use crate::stamp;
use crate::string_map::{Metadata, StringMap};
use crate::text;
use bytes::Bytes;
use vstd::prelude::*;
use vstd::utf8::*;

verus! {

/// A new message says what it is given, has an identifier and a time, and neither metadata
/// nor routes.
pub proof fn new_messages_say_what_they_are_given(
    source: &str,
    message_type: &str,
    data: Bytes,
    r: Message,
)
    requires
        call_ensures(Message::new, (source, message_type, data), r),
    ensures
        r.source@ == source@,
        r.message_type@ == message_type@,
        payload::contents(r.payload) == payload::contents(data),
        r.metadata.texts() == Map::<Seq<char>, Seq<char>>::empty(),
        r.route_to@.len() == 0,
        r.id@.len() == 26,
        r.timestamp >= 0,
        call_ensures(stamp::new_timestamp, (), r.timestamp),
{
    assert(text::texts(r.route_to@).len() == r.route_to@.len());
}

/// A message made of parts has these parts.
pub proof fn messages_have_the_parts_they_are_given(
    id: &str,
    timestamp: i64,
    source: &str,
    message_type: &str,
    data: Bytes,
    r: Message,
)
    requires
        call_ensures(Message::with_id, (id, timestamp, source, message_type, data), r),
    ensures
        r.id@ == id@,
        r.timestamp == timestamp,
        r.source@ == source@,
        r.message_type@ == message_type@,
        payload::contents(r.payload) == payload::contents(data),
        r.metadata.texts() == Map::<Seq<char>, Seq<char>>::empty(),
        r.route_to@.len() == 0,
{
    assert(text::texts(r.route_to@).len() == r.route_to@.len());
}

/// Metadata is added under its key and changes nothing else; routes are set and change
/// nothing else.
pub proof fn parts_are_set_one_at_a_time(
    msg: Message,
    key: &str,
    value: &str,
    tagged: Message,
    routes: Vec<String>,
    routed: Message,
    other: Seq<char>,
)
    requires
        call_ensures(Message::with_metadata, (msg, key, value), tagged),
        call_ensures(Message::with_routes, (msg, routes), routed),
    ensures
        tagged.metadata.texts().contains_key(key@),
        tagged.metadata.texts()[key@] == value@,
        other != key@ ==> tagged.metadata.texts().contains_key(other)
            == msg.metadata.texts().contains_key(other),
        other != key@ && msg.metadata.texts().contains_key(other)
            ==> tagged.metadata.texts()[other] == msg.metadata.texts()[other],
        tagged.id@ == msg.id@,
        tagged.timestamp == msg.timestamp,
        tagged.source@ == msg.source@,
        tagged.message_type@ == msg.message_type@,
        payload::contents(tagged.payload) == payload::contents(msg.payload),
        text::texts(tagged.route_to@) == text::texts(msg.route_to@),
        text::texts(routed.route_to@) == text::texts(routes@),
        routed.id@ == msg.id@,
        routed.timestamp == msg.timestamp,
        routed.source@ == msg.source@,
        routed.message_type@ == msg.message_type@,
        routed.metadata.texts() == msg.metadata.texts(),
        payload::contents(routed.payload) == payload::contents(msg.payload),
{
}

/// The payload of a message is told as text exactly when it is some, and by its length; a
/// list of routes means a destination when it is empty or names it.
pub proof fn payloads_and_routes_are_told(
    msg: Message,
    s: Option<&str>,
    n: usize,
    routes: &Vec<String>,
    name: &str,
    routed: bool,
)
    requires
        call_ensures(Message::payload_str, (&msg,), s),
        call_ensures(Message::payload_len, (&msg,), n),
        call_ensures(message::is_routed_to, (routes, name), routed),
    ensures
        s is Some <==> valid_utf8(payload::contents(msg.payload)),
        s matches Some(t) ==> encode_utf8(t@) == payload::contents(msg.payload),
        n == payload::contents(msg.payload).len(),
        routed <==> routes@.len() == 0 || exists|i: int|
            0 <= i < routes@.len() && (#[trigger] routes@[i])@ == name@,
{
    broadcast use {encode_utf8_decode_utf8, decode_utf8_encode_utf8};

    let names = text::texts(routes@);
    if names.contains(name@) {
        let i = choose|i: int| 0 <= i < names.len() && names[i] == name@;
        assert(routes@[i]@ == name@);
    }
    if exists|i: int| 0 <= i < routes@.len() && (#[trigger] routes@[i])@ == name@ {
        let i = choose|i: int| 0 <= i < routes@.len() && (#[trigger] routes@[i])@ == name@;
        assert(names[i] == name@);
    }
}

/// An event becomes a message that says the same, and back again.
pub proof fn events_and_messages_say_the_same(event: Event, msg: Message, back: Event)
    requires
        call_ensures(<Message as From<Event>>::from, (event,), msg),
        call_ensures(<Event as From<Message>>::from, (msg,), back),
    ensures
        service::carries(msg, event),
        service::same_event(back, event),
{
}

/// A copy of a message says the same in every part.
pub proof fn copied_messages_say_the_same(msg: Message, other: Message)
    requires
        call_ensures(<Message as Clone>::clone, (&msg,), other),
    ensures
        other.id@ == msg.id@,
        other.timestamp == msg.timestamp,
        other.source@ == msg.source@,
        other.message_type@ == msg.message_type@,
        other.metadata.texts() == msg.metadata.texts(),
        payload::contents(other.payload) == payload::contents(msg.payload),
        text::texts(other.route_to@) == text::texts(msg.route_to@),
{
}

/// A map has as many places as keys, and at each of them a key with its value.
pub proof fn maps_hold_their_entries_in_places<T>(
    map: StringMap<T>,
    n: usize,
    empty: bool,
    i: usize,
    key: &String,
    value: &T,
)
    requires
        call_ensures(StringMap::<T>::len, (&map,), n),
        call_ensures(StringMap::<T>::is_empty, (&map,), empty),
        i < n,
        call_ensures(StringMap::<T>::key_at, (&map, i), key),
        call_ensures(StringMap::<T>::value_at, (&map, i), value),
    ensures
        n == map@.dom().len(),
        !empty,
        map@.contains_key(key@),
        map@[key@] == *value,
{
}

/// Copies say the same.
pub proof fn copies_say_the_same(
    event: Event,
    other: Event,
    events: &[Event],
    list: Vec<Event>,
    i: int,
)
    requires
        call_ensures(<Event as Clone>::clone, (&event,), other),
        call_ensures(proto::clone_events, (events,), list),
        0 <= i < events@.len(),
    ensures
        service::same_event(other, event),
        list@.len() == events@.len(),
        service::same_event(list@[i], events@[i]),
{
    assert(proto::event_views(list@).len() == list@.len());
    assert(proto::event_views(list@)[i] == list@[i]@);
    assert(proto::event_views(events@)[i] == events@[i]@);
}

/// A number is written in decimal: one digit for each number below ten, and for a larger
/// one the digits of its tenth part followed by the last digit.
pub proof fn numbers_are_written_in_decimal(
    n: u64,
    tens: String,
    d: u64,
    m: u64,
    all: String,
    one: String,
)
    requires
        d < 10,
        m == n * 10 + d,
        n > 0,
        call_ensures(number::decimal_text, (n,), tens),
        call_ensures(number::decimal_text, (m,), all),
        call_ensures(number::decimal_text, (d,), one),
    ensures
        one@.len() == 1,
        one@[0] as u32 == 48 + d,
        all@ == tens@ + one@,
{
    assert(all@ =~= tens@ + one@);
}

/// A negative number is written as its opposite, with a minus sign before it.
pub proof fn signs_are_written_first(n: i64, r: String, opposite: u64, digits: String)
    requires
        call_ensures(number::signed_decimal_text, (n,), r),
        call_ensures(number::decimal_text, (opposite,), digits),
        n < 0 ==> opposite == -n,
        n >= 0 ==> opposite == n,
    ensures
        n < 0 ==> r@ == seq!['-'] + digits@,
        n >= 0 ==> r@ == digits@,
{
}

/// A text is read as a number digit by digit: one digit more makes ten times the number
/// and the digit, unless that is too large; anything but a digit is refused. A text of
/// nothing is refused too, and a plus sign before digits changes nothing.
pub proof fn numbers_are_read_in_decimal(
    head: &str,
    all: &str,
    c: char,
    max: u64,
    before: Result<u64, NumberError>,
    r: Result<u64, NumberError>,
)
    requires
        call_ensures(number::parse_number, (head, max), before),
        call_ensures(number::parse_number, (all, max), r),
        all@ == head@.push(c),
        head@.len() > 0,
        head@ != seq!['+'],
    ensures
        match before {
            Err(e) => r == Err::<u64, NumberError>(e),
            Ok(n) => if !('0' <= c <= '9') {
                r == Err::<u64, NumberError>(NumberError::InvalidDigit)
            } else {
                let value = n * 10 + (c as int - 48);
                if value > max {
                    r == Err::<u64, NumberError>(NumberError::TooLarge)
                } else {
                    r matches Ok(v) && v == value
                }
            },
        },
{
    assert(all@.drop_last() =~= head@);
    if head@[0] == '+' {
        assert(all@.drop_first().drop_last() =~= head@.drop_first());
        if head@.len() == 1 {
            assert(head@ =~= seq!['+']);
        }
    }
}

/// A text of one digit is that digit, one of nothing is refused as empty, and a plus sign
/// alone as no number.
pub proof fn short_numbers_are_read(
    s: &str,
    max: u64,
    r: Result<u64, NumberError>,
    signed: &str,
    with_sign: Result<u64, NumberError>,
)
    requires
        max >= 9,
        call_ensures(number::parse_number, (s, max), r),
        call_ensures(number::parse_number, (signed, max), with_sign),
        signed@ == seq!['+'] + s@,
    ensures
        s@.len() == 0 ==> r == Err::<u64, NumberError>(NumberError::Empty),
        s@.len() == 0 ==> with_sign == Err::<u64, NumberError>(NumberError::InvalidDigit),
        s@.len() == 1 && '0' <= s@[0] <= '9' ==> (r matches Ok(v) && v == s@[0] as int - 48),
        s@.len() == 1 && !('0' <= s@[0] <= '9') ==> r == Err::<u64, NumberError>(
            NumberError::InvalidDigit,
        ),
        s@.len() > 0 && s@[0] != '+' ==> with_sign == r,
{
    assert(signed@.drop_first() =~= s@);
    if s@.len() == 1 {
        assert(s@.drop_last() =~= Seq::<char>::empty());
        assert(number::digits_value(s@.drop_last(), max as nat) == Ok::<nat, NumberError>(0));
        assert(number::digits_value(Seq::<char>::empty(), max as nat) == Ok::<nat, NumberError>(0));
        if s@[0] == '+' {
            assert(!('0' <= s@[0] <= '9'));
        }
    }
}

/// The message of an error about a number says what is wrong.
pub proof fn number_errors_say_what_is_wrong(e: NumberError, r: String)
    requires
        call_ensures(NumberError::to_text, (&e,), r),
    ensures
        match e {
            NumberError::Empty => r@ == "cannot parse integer from empty string"@,
            NumberError::InvalidDigit => r@ == "invalid digit found in string"@,
            NumberError::TooLarge => r@ == "number too large to fit in target type"@,
        },
{
}

/// One text comes before another exactly when it is a beginning of it, or has the smaller
/// character where they first differ.
pub proof fn texts_are_ordered_by_their_first_difference(a: &str, b: &str, r: bool, k: int)
    requires
        call_ensures(order::comes_before, (a, b), r),
        0 <= k <= a@.len(),
        k <= b@.len(),
        forall|i: int| 0 <= i < k ==> a@[i] == #[trigger] b@[i],
        k < a@.len() && k < b@.len() ==> a@[k] != b@[k],
    ensures
        k < a@.len() && k < b@.len() ==> (r <==> a@[k] < b@[k]),
        k == a@.len() ==> (r <==> a@.len() < b@.len()),
        k == b@.len() ==> !r,
{
    first_difference(a@, b@, k);
}

proof fn first_difference(a: Seq<char>, b: Seq<char>, k: int)
    requires
        0 <= k <= a.len(),
        k <= b.len(),
        forall|i: int| 0 <= i < k ==> a[i] == #[trigger] b[i],
        k < a.len() && k < b.len() ==> a[k] != b[k],
    ensures
        k < a.len() && k < b.len() ==> (order::before(a, b) <==> a[k] < b[k]),
        k == a.len() ==> (order::before(a, b) <==> a.len() < b.len()),
        k == b.len() ==> !order::before(a, b),
    decreases k,
{
    if k > 0 {
        let x = a.drop_first();
        let y = b.drop_first();
        assert(a[0] == b[0]);
        assert forall|i: int| 0 <= i < k - 1 implies x[i] == #[trigger] y[i] by {
            assert(a[i + 1] == b[i + 1]);
        }
        first_difference(x, y, k - 1);
    }
}

/// A list stays in order, without repetition, when a text is put into it, and holds that
/// text and what it held.
pub proof fn texts_are_put_in_their_place(v: &mut Vec<String>, s: String, t: Seq<char>)
    requires
        forall|i: int, j: int|
            0 <= i < j < old(v)@.len() ==> order::before(
                (#[trigger] old(v)@[i])@,
                (#[trigger] old(v)@[j])@,
            ),
        call_ensures(order::insert_ascending, (v, s), ()),
    ensures
        forall|i: int, j: int|
            0 <= i < j < final(v)@.len() ==> order::before(
                (#[trigger] final(v)@[i])@,
                (#[trigger] final(v)@[j])@,
            ),
        (exists|i: int| 0 <= i < final(v)@.len() && (#[trigger] final(v)@[i])@ == t) <==> t == s@
            || exists|i: int| 0 <= i < old(v)@.len() && (#[trigger] old(v)@[i])@ == t,
{
    let a = text::texts(old(v)@);
    let b = text::texts(final(v)@);
    assert forall|i: int, j: int| 0 <= i < j < final(v)@.len() implies order::before(
        (#[trigger] final(v)@[i])@,
        (#[trigger] final(v)@[j])@,
    ) by {
        assert(order::before(b[i], b[j]));
    }
    assert(b.to_set().contains(t) == a.to_set().insert(s@).contains(t));
    if exists|i: int| 0 <= i < final(v)@.len() && (#[trigger] final(v)@[i])@ == t {
        let i = choose|i: int| 0 <= i < final(v)@.len() && (#[trigger] final(v)@[i])@ == t;
        assert(b[i] == t);
        assert(b.contains(t));
        if t != s@ {
            let j = choose|j: int| 0 <= j < a.len() && a[j] == t;
            assert(old(v)@[j]@ == t);
        }
    }
    if exists|i: int| 0 <= i < old(v)@.len() && (#[trigger] old(v)@[i])@ == t {
        let i = choose|i: int| 0 <= i < old(v)@.len() && (#[trigger] old(v)@[i])@ == t;
        assert(a[i] == t);
        assert(a.contains(t));
    }
    if b.to_set().contains(t) {
        let j = choose|j: int| 0 <= j < b.len() && b[j] == t;
        assert(final(v)@[j]@ == t);
    }
}

/// Two texts are the same exactly when a comparison says so, one begins with another exactly
/// when the characters agree, and a list names a text exactly when it holds it.
pub proof fn texts_are_compared_by_their_characters(
    a: &str,
    b: &str,
    same: bool,
    begins: bool,
    v: &Vec<String>,
    listed: bool,
)
    requires
        call_ensures(text::same_text, (a, b), same),
        call_ensures(text::begins_with, (a, b), begins),
        call_ensures(text::lists, (v, b), listed),
    ensures
        same <==> a@ == b@,
        begins <==> b@.len() <= a@.len() && a@.take(b@.len() as int) == b@,
        listed <==> exists|i: int| 0 <= i < v@.len() && (#[trigger] v@[i])@ == b@,
{
    if b@.len() <= a@.len() {
        assert(a@.take(b@.len() as int) =~= a@.subrange(0, b@.len() as int));
    }
    let names = text::texts(v@);
    if names.contains(b@) {
        let i = choose|i: int| 0 <= i < names.len() && names[i] == b@;
        assert(v@[i]@ == b@);
    }
    if exists|i: int| 0 <= i < v@.len() && (#[trigger] v@[i])@ == b@ {
        let i = choose|i: int| 0 <= i < v@.len() && (#[trigger] v@[i])@ == b@;
        assert(names[i] == b@);
    }
}

/// What is put into a map under a key is found under it, until it is replaced or removed;
/// what is under other keys stays. A new map has nothing.
pub proof fn maps_give_back_what_is_put_in<T>(
    fresh: StringMap<T>,
    map: &mut StringMap<T>,
    key: String,
    value: T,
    asked: &str,
    before: Option<&T>,
    found: Option<&T>,
    nothing: Option<&T>,
    less: &mut StringMap<T>,
    gone: &str,
    taken: Option<T>,
    left: Option<&T>,
)
    requires
        call_ensures(StringMap::<T>::new, (), fresh),
        call_ensures(StringMap::<T>::get, (&fresh, asked), nothing),
        call_ensures(StringMap::<T>::get, (old(map), asked), before),
        call_ensures(StringMap::<T>::insert, (map, key, value), ()),
        call_ensures(StringMap::<T>::get, (final(map), asked), found),
        *old(less) == *final(map),
        call_ensures(StringMap::<T>::remove, (less, gone), taken),
        call_ensures(StringMap::<T>::get, (final(less), asked), left),
    ensures
        nothing is None,
        asked@ == key@ ==> found == Some(&value),
        asked@ != key@ ==> found == before,
        gone@ == key@ ==> taken == Some(value),
        asked@ == gone@ ==> left is None,
        asked@ != gone@ ==> left == found,
{
}

/// A map knows a key exactly when it has a value for it, and takes over all entries of
/// another, whose values win.
pub proof fn maps_are_joined_by_key<T>(
    map: &mut StringMap<T>,
    other: StringMap<T>,
    asked: &str,
    here: Option<&T>,
    there: Option<&T>,
    found: Option<&T>,
    known: bool,
)
    requires
        call_ensures(StringMap::<T>::get, (old(map), asked), here),
        call_ensures(StringMap::<T>::get, (&other, asked), there),
        call_ensures(StringMap::<T>::extend, (map, other), ()),
        call_ensures(StringMap::<T>::get, (final(map), asked), found),
        call_ensures(StringMap::<T>::contains_key, (final(map), asked), known),
    ensures
        there is Some ==> found == there,
        there is None ==> found == here,
        known <==> found is Some,
{
}

/// The texts of a map are those of its values, under the same keys.
pub proof fn texts_stand_under_their_keys(map: Metadata, key: Seq<char>)
    ensures
        map.texts().contains_key(key) <==> map@.contains_key(key),
        map@.contains_key(key) ==> map.texts()[key] == map@[key]@,
{
}

/// The message of a plugin error says what failed and why.
pub proof fn plugin_errors_say_what_failed(e: PluginError, r: String)
    requires
        call_ensures(PluginError::to_text, (&e,), r),
    ensures
        match e {
            PluginError::Init(m) => r@ == "initialization failed: "@ + m@,
            PluginError::Transform(m) => r@ == "transform failed: "@ + m@,
            PluginError::Send(m) => r@ == "send failed: "@ + m@,
            PluginError::Connection(m) => r@ == "connection error: "@ + m@,
            PluginError::NotReady => r@ == "plugin not ready"@,
            PluginError::Shutdown(m) => r@ == "shutdown error: "@ + m@,
        },
{
}

/// The status of an error tells who is to blame: the caller for what it sent, the gateway for
/// what it lacks, what is unavailable, or what went wrong inside.
pub proof fn statuses_tell_who_is_to_blame(e: PolkuError, r: Status)
    requires
        call_ensures(<Status as From<PolkuError>>::from, (e,), r),
    ensures
        (e is Config || e is Serialization) ==> r.code == Code::InvalidArgument,
        (e is Transport || e is Shutdown) ==> r.code == Code::Unavailable,
        e is BufferFull ==> r.code == Code::ResourceExhausted,
        (e is Plugin || e is Io || e is Metrics) ==> r.code == Code::Internal,
        match e {
            PolkuError::Config(m) => r.message@ == m@,
            PolkuError::Transport(m) => r.message@ == m@,
            PolkuError::Grpc(status) => r.code == status.code && r.message@ == status.message@,
            PolkuError::Plugin { plugin, message } => r.message@ == "plugin '"@ + plugin@ + "': "@
                + message@,
            PolkuError::BufferFull { count } => r.message@ == "buffer full, dropped "@
                + number::decimal(count as nat) + " events"@,
            PolkuError::Io(m) => r.message@ == m@,
            PolkuError::Serialization(m) => r.message@ == m@,
            PolkuError::Metrics(m) => r.message@ == "metrics: "@ + m@,
            PolkuError::Shutdown => r.message@ == "shutting down"@,
        },
{
}

/// An error of a plugin is told as one of a plugin that is not known, with its message.
pub proof fn plugin_errors_become_gateway_errors(e: PluginError, text: String, r: PolkuError)
    requires
        call_ensures(PluginError::to_text, (&e,), text),
        call_ensures(<PolkuError as From<PluginError>>::from, (e,), r),
    ensures
        r matches PolkuError::Plugin { plugin, message } && plugin@ == "unknown"@ && message@
            == text@,
{
}

/// The timestamp of a message is what the clock told, or zero where that does not fit; spans
/// of time are told in nanoseconds and in whole seconds.
pub proof fn times_are_told_in_their_units(
    reading: Option<i64>,
    r: i64,
    nanos: u128,
    low: u64,
    seconds: i64,
)
    requires
        call_ensures(stamp::timestamp_of, (reading,), r),
        call_ensures(stamp::nanos_to_u64, (nanos,), low),
        call_ensures(stamp::nanos_to_seconds, (nanos,), seconds),
    ensures
        reading matches Some(t) ==> r == t,
        reading is None ==> r == 0,
        nanos <= u64::MAX ==> low == nanos,
        nanos <= u64::MAX ==> seconds * 1_000_000_000 <= nanos < (seconds + 1) * 1_000_000_000,
{
}

} // verus!
