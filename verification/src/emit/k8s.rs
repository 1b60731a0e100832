//! Kubernetes emitter: events as resources of a cluster.

use crate::emit::Emitter;
use crate::error::{PluginError, PluginErrorView};
use crate::json;
use crate::json::{encode_base64, write_object};
use crate::number;
use crate::number::signed_decimal_text;
use crate::proto::{Event, EventView};
use crate::string_map;
use crate::string_map::StringMap;
use crate::text::{chars_of, join2, join3, join5, string_of};
use vstd::prelude::*;
use vstd::string::*;

verus! {

/// The longest name of a resource.
pub const MAX_NAME_LEN: usize = 253;

/// What kind of resource stands for an event.
#[derive(Debug, Clone, Copy, PartialEq, Eq, Structural)]
pub enum ResourceKind {
    /// A ConfigMap that holds the event as data.
    ConfigMap,
}

impl Default for ResourceKind {
    fn default() -> (r: Self)
        ensures
            r == ResourceKind::ConfigMap,
    {
        ResourceKind::ConfigMap
    }
}

/// Configuration of a Kubernetes emitter.
#[derive(Debug)]
pub struct K8sEmitterConfig {
    /// The namespace of the resources.
    pub namespace: String,
    /// What the names of the resources begin with.
    pub name_prefix: String,
    /// The kind of resource.
    pub resource_kind: ResourceKind,
    /// The labels of the resources.
    pub labels: StringMap<String>,
}

impl Default for K8sEmitterConfig {
    fn default() -> (r: Self)
        ensures
            r.namespace@ == "default"@,
            r.name_prefix@ == "polku-event"@,
            r.resource_kind == ResourceKind::ConfigMap,
            r.labels.texts() == Map::<Seq<char>, Seq<char>>::empty().insert(
                "app.kubernetes.io/managed-by"@,
                "polku"@,
            ),
    {
        broadcast use string_map::group_texts;

        let mut labels: StringMap<String> = StringMap::new();
        labels.insert("app.kubernetes.io/managed-by".to_string(), "polku".to_string());
        K8sEmitterConfig {
            namespace: "default".to_string(),
            name_prefix: "polku-event".to_string(),
            resource_kind: ResourceKind::ConfigMap,
            labels,
        }
    }
}

impl Clone for K8sEmitterConfig {
    fn clone(&self) -> (r: Self)
        ensures
            r.namespace@ == self.namespace@,
            r.name_prefix@ == self.name_prefix@,
            r.resource_kind == self.resource_kind,
            r.labels.texts() == self.labels.texts(),
    {
        K8sEmitterConfig {
            namespace: self.namespace.clone(),
            name_prefix: self.name_prefix.clone(),
            resource_kind: self.resource_kind,
            labels: self.labels.clone(),
        }
    }
}

impl K8sEmitterConfig {
    /// Sets the namespace.
    pub fn namespace(self, ns: &str) -> (r: Self)
        ensures
            r.namespace@ == ns@,
            r.name_prefix == self.name_prefix,
            r.resource_kind == self.resource_kind,
            r.labels == self.labels,
    {
        let mut config = self;
        config.namespace = ns.to_string();
        config
    }

    /// Sets what names begin with.
    pub fn prefix(self, prefix: &str) -> (r: Self)
        ensures
            r.namespace == self.namespace,
            r.name_prefix@ == prefix@,
            r.resource_kind == self.resource_kind,
            r.labels == self.labels,
    {
        let mut config = self;
        config.name_prefix = prefix.to_string();
        config
    }

    /// Adds a label, in place of one with the same key.
    pub fn label(self, key: &str, value: &str) -> (r: Self)
        ensures
            r.namespace == self.namespace,
            r.name_prefix == self.name_prefix,
            r.resource_kind == self.resource_kind,
            r.labels.texts() == self.labels.texts().insert(key@, value@),
    {
        broadcast use string_map::group_texts;

        let mut config = self;
        config.labels.insert(key.to_string(), value.to_string());
        config
    }
}

/// A character of a resource name.
pub open spec fn name_char(c: char) -> bool {
    'a' <= c <= 'z' || '0' <= c <= '9' || c == '-'
}

/// A character in lower case, if it is an ASCII letter.
pub open spec fn ascii_lower(c: char) -> char {
    if 'A' <= c <= 'Z' {
        (c as u8 + 32) as char
    } else {
        c
    }
}

/// A character made fit for a name: in lower case, or a dash in its place.
pub open spec fn cleaned(c: char) -> char {
    if name_char(ascii_lower(c)) {
        ascii_lower(c)
    } else {
        '-'
    }
}

/// A text with every character made fit for a name.
pub open spec fn cleaned_text(s: Seq<char>) -> Seq<char> {
    Seq::new(s.len(), |i: int| cleaned(s[i]))
}

/// A text without the dashes at its start.
pub open spec fn without_leading_dashes(s: Seq<char>) -> Seq<char>
    decreases s.len(),
{
    if s.len() > 0 && s[0] == '-' {
        without_leading_dashes(s.drop_first())
    } else {
        s
    }
}

/// A text without the dashes at its end.
pub open spec fn without_trailing_dashes(s: Seq<char>) -> Seq<char>
    decreases s.len(),
{
    if s.len() > 0 && s.last() == '-' {
        without_trailing_dashes(s.drop_last())
    } else {
        s
    }
}

/// A text without the dashes at its ends.
pub open spec fn trimmed(s: Seq<char>) -> Seq<char> {
    without_trailing_dashes(without_leading_dashes(s))
}

/// The resource name made of a text.
pub open spec fn sanitized(raw: Seq<char>) -> Seq<char> {
    let name = trimmed(cleaned_text(raw));
    if name.len() == 0 {
        "event"@
    } else if name.len() > MAX_NAME_LEN {
        without_trailing_dashes(name.take(MAX_NAME_LEN as int))
    } else {
        name
    }
}

/// A name that a resource can have: lower case letters, digits and dashes, a letter or
/// digit at both ends, and not too long.
pub open spec fn is_resource_name(s: Seq<char>) -> bool {
    &&& 1 <= s.len() <= MAX_NAME_LEN
    &&& forall|i: int| 0 <= i < s.len() ==> name_char(#[trigger] s[i])
    &&& s[0] != '-'
    &&& s.last() != '-'
}

proof fn leading_dashes_go(s: Seq<char>)
    ensures
        ({
            let t = without_leading_dashes(s);
            &&& t.len() <= s.len()
            &&& t == s.skip(s.len() - t.len())
            &&& t.len() > 0 ==> t[0] != '-'
        }),
    decreases s.len(),
{
    if s.len() > 0 && s[0] == '-' {
        leading_dashes_go(s.drop_first());
        let t = without_leading_dashes(s.drop_first());
        assert(s.drop_first().skip(s.len() - 1 - t.len()) =~= s.skip(s.len() - t.len()));
    } else {
        assert(s.skip(0) =~= s);
    }
}

proof fn trailing_dashes_go(s: Seq<char>)
    ensures
        ({
            let t = without_trailing_dashes(s);
            &&& t.len() <= s.len()
            &&& t == s.take(t.len() as int)
            &&& t.len() > 0 ==> t.last() != '-'
            &&& s.len() > 0 && s[0] != '-' ==> t.len() > 0
        }),
    decreases s.len(),
{
    if s.len() > 0 && s.last() == '-' {
        let r = s.drop_last();
        trailing_dashes_go(r);
        let t = without_trailing_dashes(r);
        assert(r.take(t.len() as int) =~= s.take(t.len() as int));
        if s[0] != '-' {
            assert(r.len() > 0);
            assert(r[0] == s[0]);
        }
    } else {
        assert(s.take(s.len() as int) =~= s);
    }
}

/// Whatever text it is made of, a sanitized name is one that a resource can have.
pub proof fn sanitized_names_are_valid(raw: Seq<char>)
    ensures
        is_resource_name(sanitized(raw)),
{
    let c = cleaned_text(raw);
    assert forall|i: int| 0 <= i < c.len() implies name_char(#[trigger] c[i]) by {}
    let l = without_leading_dashes(c);
    leading_dashes_go(c);
    assert forall|i: int| 0 <= i < l.len() implies name_char(#[trigger] l[i]) by {
        assert(l[i] == c[c.len() - l.len() + i]);
    }
    let name = without_trailing_dashes(l);
    trailing_dashes_go(l);
    assert forall|i: int| 0 <= i < name.len() implies name_char(#[trigger] name[i]) by {
        assert(name[i] == l[i]);
    }
    if name.len() == 0 {
        reveal_strlit("event");
        assert(is_resource_name("event"@));
    } else if name.len() > MAX_NAME_LEN {
        let head = name.take(MAX_NAME_LEN as int);
        let cut = without_trailing_dashes(head);
        trailing_dashes_go(head);
        assert(head[0] == l[0]);
        assert forall|i: int| 0 <= i < cut.len() implies name_char(#[trigger] cut[i]) by {
            assert(cut[i] == name[i]);
        }
        assert(cut[0] == name[0]);
    } else {
        assert(name[0] == l[0]);
    }
}

/// A name that a resource can have is left as it is.
pub proof fn valid_names_stay(s: Seq<char>)
    requires
        is_resource_name(s),
    ensures
        sanitized(s) == s,
{
    assert(cleaned_text(s) =~= s) by {
        assert forall|i: int| 0 <= i < s.len() implies cleaned(s[i]) == s[i] by {
            assert(name_char(s[i]));
        }
    }
    assert(without_leading_dashes(s) == s);
    assert(without_trailing_dashes(s) == s);
}

/// Sanitizing a name once more changes nothing.
pub proof fn sanitizing_is_idempotent(raw: Seq<char>)
    ensures
        sanitized(sanitized(raw)) == sanitized(raw),
{
    sanitized_names_are_valid(raw);
    valid_names_stay(sanitized(raw));
}

/// A character made fit for a name.
fn clean(c: char) -> (r: char)
    ensures
        r == cleaned(c),
{
    if c >= 'a' && c <= 'z' || c >= '0' && c <= '9' {
        c
    } else if c >= 'A' && c <= 'Z' {
        (c as u8 + 32) as char
    } else {
        '-'
    }
}

/// A resource in which an event is stored.
#[derive(Debug)]
pub struct ConfigMap {
    /// The name of the resource.
    pub name: String,
    /// Its namespace.
    pub namespace: String,
    /// Its labels.
    pub labels: StringMap<String>,
    /// What it holds.
    pub data: StringMap<String>,
}

/// The data that stands for an event, given its metadata as JSON and its payload in base64.
pub open spec fn event_data(
    event: EventView,
    metadata: Option<Seq<char>>,
    payload: Option<Seq<char>>,
) -> Map<Seq<char>, Seq<char>> {
    let fields = Map::<Seq<char>, Seq<char>>::empty().insert("event_id"@, event.id).insert(
        "source"@,
        event.source,
    ).insert("event_type"@, event.event_type).insert(
        "timestamp"@,
        number::signed_decimal(event.timestamp_unix_ns as int),
    );
    let with_metadata = match metadata {
        Some(json) => fields.insert("metadata"@, json),
        None => fields,
    };
    match payload {
        Some(encoded) => with_metadata.insert("payload"@, encoded),
        None => with_metadata,
    }
}

/// The metadata of an event as JSON: nothing where there is none or writing it fails.
pub open spec fn metadata_json(event: EventView) -> Option<Seq<char>> {
    if event.metadata.len() == 0 {
        None
    } else {
        json::json_object(event.metadata)
    }
}

/// The payload of an event in base64: nothing where it is empty.
pub open spec fn payload_base64(event: EventView) -> Option<Seq<char>> {
    if event.payload.len() == 0 {
        None
    } else {
        Some(json::base64_text(event.payload))
    }
}

/// Stores events as resources of a cluster.
pub struct K8sEmitter {
    config: K8sEmitterConfig,
}

impl K8sEmitter {
    /// The configuration.
    pub closed spec fn config(self) -> K8sEmitterConfig {
        self.config
    }

    /// An emitter with a configuration.
    pub fn with_config(config: K8sEmitterConfig) -> (r: Self)
        ensures
            r.config() == config,
    {
        K8sEmitter { config }
    }

    /// The namespace of the resources.
    pub fn namespace(&self) -> (r: &str)
        ensures
            r@ == self.config().namespace@,
    {
        self.config.namespace.as_str()
    }

    /// Makes a text into the name of a resource: lower case letters, digits and dashes,
    /// a letter or digit at both ends, at most 253 characters.
    pub fn sanitize_name(raw: &str) -> (r: String)
        ensures
            r@ == sanitized(raw@),
            is_resource_name(r@),
    {
        proof {
            sanitized_names_are_valid(raw@);
        }
        let chars = chars_of(raw);
        let mut name: Vec<char> = Vec::new();
        let mut i: usize = 0;
        while i < chars.len()
            invariant
                i <= chars@.len(),
                chars@ == raw@,
                name@ == cleaned_text(raw@).take(i as int),
            decreases chars@.len() - i,
        {
            name.push(clean(chars[i]));
            i += 1;
            assert(name@ =~= cleaned_text(raw@).take(i as int));
        }
        let ghost all = cleaned_text(raw@);
        assert(name@ =~= all);
        let mut from: usize = 0;
        assert(all.skip(0) =~= all);
        while from < name.len() && name[from] == '-'
            invariant
                from <= name@.len(),
                name@ == all,
                without_leading_dashes(all) == without_leading_dashes(all.skip(from as int)),
            decreases name@.len() - from,
        {
            assert(all.skip(from as int).drop_first() =~= all.skip(from + 1));
            from += 1;
        }
        let ghost kept = all.skip(from as int);
        assert(without_leading_dashes(all) == kept);
        let to: usize = end_without_dashes(&name, from, name.len());
        assert(all.subrange(from as int, name@.len() as int) =~= kept);
        if to == from {
            return "event".to_string();
        }
        if to - from > MAX_NAME_LEN {
            let cut: usize = end_without_dashes(&name, from, from + MAX_NAME_LEN);
            proof {
                assert(all.subrange(from as int, to as int).take(MAX_NAME_LEN as int)
                    =~= all.subrange(from as int, from + MAX_NAME_LEN));
            }
            return string_of(&name, from, cut);
        }
        string_of(&name, from, to)
    }

    /// The resource that stands for an event, given its metadata as JSON and its
    /// payload in base64.
    pub fn configmap_with(
        &self,
        event: &Event,
        metadata: Option<String>,
        payload: Option<String>,
    ) -> (r: ConfigMap)
        ensures
            r.name@ == sanitized(self.config().name_prefix@ + "-"@ + event@.id),
            is_resource_name(r.name@),
            r.namespace@ == self.config().namespace@,
            r.labels.texts() == self.config().labels.texts(),
            r.data.texts() == event_data(
                event@,
                match metadata {
                    Some(s) => Some(s@),
                    None => None,
                },
                match payload {
                    Some(s) => Some(s@),
                    None => None,
                },
            ),
    {
        broadcast use string_map::group_texts;

        let raw = join3(self.config.name_prefix.as_str(), "-", event.id.as_str());
        let mut data: StringMap<String> = StringMap::new();
        data.insert("event_id".to_string(), event.id.clone());
        data.insert("source".to_string(), event.source.clone());
        data.insert("event_type".to_string(), event.event_type.clone());
        data.insert("timestamp".to_string(), signed_decimal_text(event.timestamp_unix_ns));
        if let Some(json) = metadata {
            data.insert("metadata".to_string(), json);
        }
        if let Some(encoded) = payload {
            data.insert("payload".to_string(), encoded);
        }
        ConfigMap {
            name: Self::sanitize_name(raw.as_str()),
            namespace: self.config.namespace.clone(),
            labels: self.config.labels.clone(),
            data,
        }
    }

    /// The resource that stands for an event.
    pub fn event_to_configmap(&self, event: &Event) -> (r: ConfigMap)
        requires
            json::base64_fits(event.payload@.len()),
        ensures
            r.name@ == sanitized(self.config().name_prefix@ + "-"@ + event@.id),
            is_resource_name(r.name@),
            r.namespace@ == self.config().namespace@,
            r.labels.texts() == self.config().labels.texts(),
            r.data.texts() == event_data(event@, metadata_json(event@), payload_base64(event@)),
    {
        assert(event@.metadata.dom() =~= event.metadata@.dom());
        let metadata: Option<String> = if event.metadata.is_empty() {
            None
        } else {
            write_object(event.metadata.to_pairs())
        };
        let payload: Option<String> = if event.payload.len() == 0 {
            None
        } else {
            Some(encode_base64(event.payload.as_slice()))
        };
        self.configmap_with(event, metadata, payload)
    }

    /// The error of a resource that could not be created.
    pub fn create_failed(name: &str, event_id: &str, reason: &str) -> (r: PluginError)
        ensures
            r@ == PluginErrorView::Send(
                "K8s create "@ + name@ + " for event "@ + event_id@ + (": "@ + reason@),
            ),
    {
        PluginError::Send(
            join5("K8s create ", name, " for event ", event_id, join2(": ", reason).as_str()),
        )
    }

    /// The error of a client that could not be made.
    pub fn client_failed(reason: &str) -> (r: PluginError)
        ensures
            r@ == PluginErrorView::Connection("K8s client: "@ + reason@),
    {
        PluginError::Connection(join2("K8s client: ", reason))
    }
}

/// Where the text `from..to` ends without the dashes at its end.
fn end_without_dashes(name: &Vec<char>, from: usize, to: usize) -> (r: usize)
    requires
        from <= to <= name@.len(),
    ensures
        from <= r <= to,
        name@.subrange(from as int, r as int) == without_trailing_dashes(
            name@.subrange(from as int, to as int),
        ),
{
    let mut end: usize = to;
    while end > from && name[end - 1] == '-'
        invariant
            from <= end <= to <= name@.len(),
            without_trailing_dashes(name@.subrange(from as int, to as int))
                == without_trailing_dashes(name@.subrange(from as int, end as int)),
        decreases end,
    {
        assert(name@.subrange(from as int, end as int).drop_last() =~= name@.subrange(
            from as int,
            end - 1,
        ));
        end -= 1;
    }
    end
}

impl Emitter for K8sEmitter {
    open spec fn spec_name(&self) -> Seq<char> {
        "k8s"@
    }

    fn name(&self) -> (r: &'static str) {
        "k8s"
    }
}

} // verus!
