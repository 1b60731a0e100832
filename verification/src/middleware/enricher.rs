//! Enricher: adds metadata to messages.

use crate::message::{Message, MessageView};
use crate::middleware::{Middleware, StageState};
use crate::string_map;
use crate::string_map::Metadata;
use vstd::prelude::*;

verus! {

/// The message with more metadata, which replaces what has the same keys.
pub open spec fn enriched(
    msg: MessageView,
    additional: Map<Seq<char>, Seq<char>>,
) -> MessageView {
    MessageView { metadata: msg.metadata.union_prefer_right(additional), ..msg }
}

/// Adds metadata to a message.
pub fn enrich(msg: Message, additional: Metadata) -> (r: Message)
    ensures
        r@ == enriched(msg@, additional.texts()),
{
    broadcast use string_map::group_texts;

    let mut msg = msg;
    msg.metadata.extend(additional);
    msg
}

/// Where the metadata comes from.
pub enum Enrichment<F> where F: Fn(&Message) -> Metadata + Send + Sync {
    /// It is the same for all messages.
    Static(Metadata),
    /// A function makes it.
    Computed(F),
}

/// Adds metadata to messages.
pub struct Enricher<F> where F: Fn(&Message) -> Metadata + Send + Sync {
    enrichment: Enrichment<F>,
}

impl<F> Enrichment<F> where F: Fn(&Message) -> Metadata + Send + Sync {
    /// There is metadata for every message.
    pub open spec fn total(self) -> bool {
        self matches Enrichment::Computed(f) ==> forall|msg: &Message| call_requires(f, (msg,))
    }

    /// The metadata for `msg` may be `additional`.
    pub open spec fn yields(self, msg: Message, additional: Metadata) -> bool {
        match self {
            Enrichment::Static(metadata) => additional.texts() == metadata.texts(),
            Enrichment::Computed(f) => call_ensures(f, (&msg,), additional),
        }
    }
}

impl<F> Enricher<F> where F: Fn(&Message) -> Metadata + Send + Sync {
    #[verifier::type_invariant]
    spec fn total(self) -> bool {
        self.enrichment.total()
    }

    /// Where the metadata comes from.
    pub closed spec fn enrichment(self) -> Enrichment<F> {
        self.enrichment
    }

    /// An enricher that asks a function.
    pub fn new(f: F) -> (r: Self)
        requires
            forall|msg: &Message| call_requires(f, (msg,)),
        ensures
            r.enrichment() == Enrichment::Computed(f),
    {
        Enricher { enrichment: Enrichment::Computed(f) }
    }

    /// An enricher that adds the same metadata to all messages.
    pub fn with_static(metadata: Metadata) -> (r: Self)
        ensures
            r.enrichment() == Enrichment::<F>::Static(metadata),
    {
        Enricher { enrichment: Enrichment::Static(metadata) }
    }
}

/// Processing `msg` may end in `out`: the message passes with the metadata that is added.
pub open spec fn enriches<F>(
    enrichment: Enrichment<F>,
    msg: Message,
    out: Option<Message>,
) -> bool where F: Fn(&Message) -> Metadata + Send + Sync {
    exists|additional: Metadata|
        {
            &&& #[trigger] enrichment.yields(msg, additional)
            &&& out matches Some(passed) && passed@ == enriched(msg@, additional.texts())
        }
}

impl<F> Middleware for Enricher<F> where F: Fn(&Message) -> Metadata + Send + Sync {
    open spec fn outcome(&self, msg: Message, out: Option<Message>) -> bool {
        enriches(self.enrichment(), msg, out)
    }

    open spec fn stage_state(&self) -> StageState {
        StageState::Fixed(|msg: Message, out: Option<Message>| self.outcome(msg, out))
    }

    open spec fn moves_to(&self, msg: Message, out: Option<Message>, next: StageState) -> bool {
        self.outcome(msg, out) && next == self.stage_state()
    }

    open spec fn spec_name(&self) -> Seq<char> {
        "enricher"@
    }

    fn name(&self) -> (r: &'static str)
        ensures
            r@ == "enricher"@,
    {
        "enricher"
    }

    fn process(&mut self, msg: Message) -> (r: Option<Message>)
        ensures
            *final(self) == *old(self),
            enriches(old(self).enrichment(), msg, r),
    {
        proof {
            use_type_invariant(&*self);
        }
        let additional = match &self.enrichment {
            Enrichment::Static(metadata) => metadata.clone(),
            Enrichment::Computed(f) => f(&msg),
        };
        assert(self.enrichment.yields(msg, additional));
        Some(enrich(msg, additional))
    }
}

/// Metadata that is not replaced stays, and the rest of the message too.
pub proof fn enriching_keeps_the_message(
    msg: MessageView,
    additional: Map<Seq<char>, Seq<char>>,
    key: Seq<char>,
)
    ensures
        enriched(msg, additional).payload == msg.payload,
        additional.contains_key(key) ==> enriched(msg, additional).metadata[key]
            == additional[key],
        msg.metadata.contains_key(key) && !additional.contains_key(key) ==> enriched(
            msg,
            additional,
        ).metadata[key] == msg.metadata[key],
{
}

} // verus!
