//! gRPC emitter: forwards events to another gateway.

use crate::emit::Emitter;
use crate::error::{PluginError, PluginErrorView};
use crate::proto::ingest_event;
use crate::proto::{Event, EventView, IngestEvent};
use crate::text::{join2, join4};
use vstd::prelude::*;

verus! {

/// How long connecting may take, in seconds.
pub const DEFAULT_CONNECT_TIMEOUT_SECS: u64 = 10;

/// How long a request may take, in seconds.
pub const DEFAULT_REQUEST_TIMEOUT_SECS: u64 = 30;

/// What became of the request that forwards one event.
#[derive(Debug)]
pub enum Forwarded {
    /// The other gateway took the event.
    Acked,
    /// The request failed.
    Failed(String),
    /// The task that makes the request ended without a result.
    Lost(String),
}

/// Forwards events to another gateway.
pub struct GrpcEmitter {
    endpoint: String,
}

/// The request that forwards an event.
pub open spec fn forwards(request: IngestEvent, event: EventView) -> bool {
    &&& request.source@ == event.source
    &&& request.cluster@ == Seq::<char>::empty()
    &&& request.format@ == Seq::<char>::empty()
    &&& request.payload matches Some(ingest_event::Payload::Event(carried)) && carried@ == event
}

/// The error of a request, if it did not succeed.
pub open spec fn failure_of(event: EventView, forwarded: Forwarded) -> Option<PluginErrorView> {
    match forwarded {
        Forwarded::Acked => None,
        Forwarded::Failed(reason) => Some(
            PluginErrorView::Send("Failed to forward event "@ + event.id + ": "@ + reason@),
        ),
        Forwarded::Lost(reason) => Some(
            PluginErrorView::Send("Failed to join send_event task: "@ + reason@),
        ),
    }
}

/// Request `k` is the first that failed; none did where `k` is their number.
pub open spec fn first_failure(
    events: Seq<Event>,
    results: Seq<Forwarded>,
    k: int,
) -> bool {
    &&& 0 <= k <= results.len()
    &&& forall|j: int| 0 <= j < k ==> failure_of(events[j]@, #[trigger] results[j]) is None
    &&& k < results.len() ==> failure_of(events[k]@, results[k]) is Some
}

impl GrpcEmitter {
    /// The address of the other gateway.
    pub closed spec fn endpoint(self) -> Seq<char> {
        self.endpoint@
    }

    /// An emitter for the gateway at an address.
    pub fn new(endpoint: &str) -> (r: Self)
        ensures
            r.endpoint() == endpoint@,
    {
        GrpcEmitter { endpoint: endpoint.to_string() }
    }

    /// The error of an address that is not one.
    pub fn invalid_endpoint(reason: &str) -> (r: PluginError)
        ensures
            r@ == PluginErrorView::Init("Invalid endpoint URL: "@ + reason@),
    {
        PluginError::Init(join2("Invalid endpoint URL: ", reason))
    }

    /// The error of a connection that could not be made.
    pub fn connect_failed(&self, reason: &str) -> (r: PluginError)
        ensures
            r@ == PluginErrorView::Connection(
                "Failed to connect to "@ + self.endpoint() + ": "@ + reason@,
            ),
    {
        PluginError::Connection(
            join4("Failed to connect to ", self.endpoint.as_str(), ": ", reason),
        )
    }

    /// The requests that forward events, one for each.
    pub fn requests(&self, events: &[Event]) -> (r: Vec<IngestEvent>)
        ensures
            r@.len() == events@.len(),
            forall|i: int| 0 <= i < r@.len() ==> forwards(#[trigger] r@[i], events@[i]@),
    {
        let mut r: Vec<IngestEvent> = Vec::new();
        let mut i: usize = 0;
        while i < events.len()
            invariant
                i <= events@.len(),
                r@.len() == i,
                forall|j: int| 0 <= j < i ==> forwards(#[trigger] r@[j], events@[j]@),
            decreases events@.len() - i,
        {
            let event = &events[i];
            r.push(
                IngestEvent {
                    source: event.source.clone(),
                    cluster: String::new(),
                    format: String::new(),
                    payload: Some(ingest_event::Payload::Event(event.clone())),
                },
            );
            i += 1;
        }
        r
    }

    /// What emitting events ends in, given what became of the request for each: in the
    /// first failure, if there is any.
    pub fn outcome(&self, events: &[Event], results: Vec<Forwarded>) -> (r: Result<
        (),
        PluginError,
    >)
        requires
            results@.len() == events@.len(),
        ensures
            exists|k: int|
                {
                    &&& #[trigger] first_failure(events@, results@, k)
                    &&& match r {
                        Ok(()) => k == results@.len(),
                        Err(e) => k < results@.len() && failure_of(events@[k]@, results@[k])
                            == Some(e@),
                    }
                },
    {
        let mut i: usize = 0;
        while i < results.len()
            invariant
                i <= results@.len() == events@.len(),
                forall|j: int|
                    0 <= j < i ==> failure_of(events@[j]@, #[trigger] results@[j]) is None,
            decreases results@.len() - i,
        {
            match &results[i] {
                Forwarded::Acked => {},
                Forwarded::Failed(reason) => {
                    assert(first_failure(events@, results@, i as int));
                    return Err(
                        PluginError::Send(
                            join4(
                                "Failed to forward event ",
                                events[i].id.as_str(),
                                ": ",
                                reason.as_str(),
                            ),
                        ),
                    );
                },
                Forwarded::Lost(reason) => {
                    assert(first_failure(events@, results@, i as int));
                    return Err(
                        PluginError::Send(
                            join2("Failed to join send_event task: ", reason.as_str()),
                        ),
                    );
                },
            }
            i += 1;
        }
        assert(first_failure(events@, results@, i as int));
        Ok(())
    }
}

impl Emitter for GrpcEmitter {
    open spec fn spec_name(&self) -> Seq<char> {
        "grpc"@
    }

    fn name(&self) -> (r: &'static str) {
        "grpc"
    }
}

/// There is only one first failure.
pub proof fn first_failure_is_unique(
    events: Seq<Event>,
    results: Seq<Forwarded>,
    k: int,
    m: int,
)
    requires
        first_failure(events, results, k),
        first_failure(events, results, m),
    ensures
        k == m,
{
    if k < m {
        assert(failure_of(events[k]@, results[k]) is None);
    } else if m < k {
        assert(failure_of(events[m]@, results[m]) is None);
    }
}

} // verus!
