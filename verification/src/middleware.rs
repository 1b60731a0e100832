//! Middleware: stages that transform, filter or route messages before they are buffered.

pub mod aggregator;
pub mod enricher;
pub mod router;
pub mod sampler;
pub mod throttle;
pub mod validator;

use crate::message::Message;
use vstd::prelude::*;

pub use aggregator::{AggregateStrategy, Aggregator, AggregatorState};
pub use enricher::Enricher;
pub use router::Router;
pub use sampler::Sampler;
pub use throttle::{Throttle, ThrottleState};
pub use validator::{InvalidAction, ValidationResult, Validator};

verus! {

/// The mathematical state of a stage. It is one type for all stages, so that chains can
/// hold stages of different types behind `dyn`.
#[verifier::ext_equal]
pub enum StageState {
    /// A stage that never changes: what may become of a message.
    Fixed(spec_fn(Message, Option<Message>) -> bool),
    /// A sampler: the largest number that lets a message pass, and the generator.
    Sampler { threshold: u64, generator: u64 },
    /// A throttle.
    Throttle(ThrottleState),
    /// An aggregator.
    Aggregator(AggregatorState),
}

/// A stage of message processing.
///
/// A stage hands a message on, possibly changed, or drops it.
pub trait Middleware: Send + Sync {
    /// Processing `msg` in this state may end in `out`; unless an implementation says
    /// more, in anything.
    open spec fn outcome(&self, msg: Message, out: Option<Message>) -> bool {
        true
    }

    /// The state of the stage; an implementation that says how it moves says what it is.
    open spec fn stage_state(&self) -> StageState {
        arbitrary()
    }

    /// Processing `msg` in this state may end in `out` and leave the stage in the state
    /// `next`; unless an implementation says more, in any state.
    open spec fn moves_to(&self, msg: Message, out: Option<Message>, next: StageState) -> bool {
        true
    }

    /// The name of the stage; every implementation says what it is.
    open spec fn spec_name(&self) -> Seq<char> {
        arbitrary()
    }

    /// The name of the stage.
    fn name(&self) -> (r: &'static str)
        ensures
            r@ == self.spec_name(),
    ;

    /// Processes a message: the message to go on with, or `None` to drop it.
    fn process(&mut self, msg: Message) -> (r: Option<Message>)
        ensures
            old(self).outcome(msg, r),
            old(self).moves_to(msg, r, final(self).stage_state()),
    ;
}

impl<T: Middleware + ?Sized> Middleware for Box<T> {
    open spec fn outcome(&self, msg: Message, out: Option<Message>) -> bool {
        (**self).outcome(msg, out)
    }

    open spec fn stage_state(&self) -> StageState {
        (**self).stage_state()
    }

    open spec fn moves_to(&self, msg: Message, out: Option<Message>, next: StageState) -> bool {
        (**self).moves_to(msg, out, next)
    }

    open spec fn spec_name(&self) -> Seq<char> {
        (**self).spec_name()
    }

    fn name(&self) -> (r: &'static str) {
        (**self).name()
    }

    fn process(&mut self, msg: Message) -> (r: Option<Message>) {
        (**self).process(msg)
    }
}

/// A list of stages that messages pass through in order.
pub struct MiddlewareChain<M: Middleware> {
    middlewares: Vec<M>,
}

/// `path` is the way of a message through the stages: `path[0]` goes in, and each
/// stage but the last one reached hands `path[i + 1]` on for `path[i]`. The way ends
/// behind the last stage, with `out`, or at the stage that drops the message.
pub open spec fn is_way<M: Middleware>(
    stages: Seq<M>,
    path: Seq<Message>,
    out: Option<Message>,
) -> bool {
    &&& 1 <= path.len() <= stages.len() + 1
    &&& forall|i: int|
        0 <= i < path.len() - 1 ==> (#[trigger] stages[i]).outcome(path[i], Some(path[i + 1]))
    &&& match out {
        Some(msg) => path.len() == stages.len() + 1 && path.last() == msg,
        None => path.len() <= stages.len() && stages[path.len() - 1].outcome(path.last(), None),
    }
}

/// `after` are the stages after a message went its way: those that it reached have
/// moved on what they were given, and those behind them are as they were.
pub open spec fn stages_moved<M: Middleware>(
    stages: Seq<M>,
    path: Seq<Message>,
    after: Seq<M>,
) -> bool {
    &&& after.len() == stages.len()
    &&& forall|j: int|
        0 <= j < path.len() && j < stages.len() ==> stages[j].moves_to(
            path[j],
            handed_on(path, j),
            (#[trigger] after[j]).stage_state(),
        )
    &&& forall|j: int| path.len() <= j < stages.len() ==> #[trigger] after[j] == stages[j]
}

/// What the stage at a place of the way handed on.
pub open spec fn handed_on(path: Seq<Message>, j: int) -> Option<Message> {
    if j + 1 < path.len() {
        Some(path[j + 1])
    } else {
        None
    }
}

impl<M: Middleware> View for MiddlewareChain<M> {
    type V = Seq<M>;

    closed spec fn view(&self) -> Seq<M> {
        self.middlewares@
    }
}

impl<M: Middleware> MiddlewareChain<M> {
    /// A chain without stages.
    pub fn new() -> (r: Self)
        ensures
            r@ == Seq::<M>::empty(),
    {
        MiddlewareChain { middlewares: Vec::new() }
    }

    /// Adds a stage at the end.
    pub fn add(&mut self, middleware: M)
        ensures
            final(self)@ == old(self)@.push(middleware),
    {
        self.middlewares.push(middleware);
    }

    /// Processes a message through all stages in order.
    ///
    /// Once a stage drops the message, no later stage sees it.
    pub fn process(&mut self, msg: Message) -> (r: Option<Message>)
        ensures
            exists|path: Seq<Message>|
                {
                    &&& #[trigger] is_way(old(self)@, path, r)
                    &&& path[0] == msg
                    &&& stages_moved(old(self)@, path, final(self)@)
                },
    {
        let mut current = msg;
        let mut i: usize = 0;
        let ghost stages = self@;
        let ghost mut path: Seq<Message> = seq![msg];
        while i < self.middlewares.len()
            invariant
                i <= stages.len(),
                stages == old(self)@,
                self@.len() == stages.len(),
                forall|j: int| i <= j < stages.len() ==> #[trigger] self@[j] == stages[j],
                path.len() == i + 1,
                path[0] == msg,
                path.last() == current,
                forall|j: int|
                    0 <= j < i ==> (#[trigger] stages[j]).outcome(path[j], Some(path[j + 1])),
                forall|j: int|
                    0 <= j < i ==> stages[j].moves_to(
                        path[j],
                        Some(path[j + 1]),
                        (#[trigger] self@[j]).stage_state(),
                    ),
            decreases stages.len() - i,
        {
            let ghost before = self@;
            assert(self@[i as int] == stages[i as int]);
            match self.middlewares[i].process(current) {
                Some(next) => {
                    proof {
                        path = path.push(next);
                        assert forall|j: int| 0 <= j < i + 1 implies stages[j].moves_to(
                            path[j],
                            Some(path[j + 1]),
                            (#[trigger] self@[j]).stage_state(),
                        ) by {
                            if j < i {
                                assert(self@[j] == before[j]);
                            }
                        }
                    }
                    current = next;
                    i += 1;
                },
                None => {
                    proof {
                        assert forall|j: int| 0 <= j < path.len() && j < stages.len() implies
                            stages[j].moves_to(
                            path[j],
                            handed_on(path, j),
                            (#[trigger] self@[j]).stage_state(),
                        ) by {
                            if j < i {
                                assert(self@[j] == before[j]);
                            }
                        }
                        assert(stages_moved(stages, path, self@));
                        assert(is_way(stages, path, None::<Message>));
                    }
                    return None;
                },
            }
        }
        assert(stages_moved(stages, path, self@));
        assert(is_way(stages, path, Some(current)));
        Some(current)
    }

    /// Whether the chain has no stages.
    pub fn is_empty(&self) -> (r: bool)
        ensures
            r == (self@.len() == 0),
    {
        self.middlewares.len() == 0
    }

    /// The number of stages.
    pub fn len(&self) -> (r: usize)
        ensures
            r == self@.len(),
    {
        self.middlewares.len()
    }
}

impl<M: Middleware> Default for MiddlewareChain<M> {
    fn default() -> (r: Self)
        ensures
            r@ == Seq::<M>::empty(),
    {
        Self::new()
    }
}

/// A chain without stages hands every message on as it is.
pub proof fn empty_chain_passes_everything<M: Middleware>(path: Seq<Message>, out: Option<Message>)
    requires
        is_way(Seq::<M>::empty(), path, out),
    ensures
        out == Some(path[0]),
{
}

/// The way through two chains in a row, where the first hands the message on, is the
/// way through the chain of all their stages.
pub proof fn chains_compose<M: Middleware>(
    first: Seq<M>,
    second: Seq<M>,
    to: Seq<Message>,
    from: Seq<Message>,
    out: Option<Message>,
)
    requires
        from.len() > 0,
        is_way(first, to, Some(from[0])),
        is_way(second, from, out),
    ensures
        is_way(first + second, to + from.drop_first(), out),
{
    let stages = first + second;
    let path = to + from.drop_first();
    assert forall|i: int| 0 <= i < path.len() - 1 implies (#[trigger] stages[i]).outcome(
        path[i],
        Some(path[i + 1]),
    ) by {
        if i < first.len() {
            assert(stages[i] == first[i]);
        } else {
            let j = i - first.len();
            assert(stages[i] == second[j]);
            assert(path[i] == from[j]);
            assert(path[i + 1] == from[j + 1]);
        }
    }
    assert(path.last() == from.last());
    if out is None {
        assert(stages[path.len() - 1] == second[from.len() - 1]);
    }
}

/// A stage that does nothing.
pub struct PassThrough;

impl Middleware for PassThrough {
    open spec fn outcome(&self, msg: Message, out: Option<Message>) -> bool {
        out == Some(msg)
    }

    open spec fn stage_state(&self) -> StageState {
        StageState::Fixed(|msg: Message, out: Option<Message>| self.outcome(msg, out))
    }

    open spec fn moves_to(&self, msg: Message, out: Option<Message>, next: StageState) -> bool {
        self.outcome(msg, out) && next == self.stage_state()
    }

    open spec fn spec_name(&self) -> Seq<char> {
        "passthrough"@
    }

    fn name(&self) -> (r: &'static str)
        ensures
            r@ == "passthrough"@,
    {
        "passthrough"
    }

    fn process(&mut self, msg: Message) -> (r: Option<Message>)
        ensures
            *final(self) == *old(self),
            r == Some(msg),
    {
        Some(msg)
    }
}

/// A stage that drops the messages which do not satisfy a predicate.
pub struct Filter<F> where F: Fn(&Message) -> bool + Send + Sync {
    predicate: F,
}

impl<F> Filter<F> where F: Fn(&Message) -> bool + Send + Sync {
    #[verifier::type_invariant]
    spec fn total(self) -> bool {
        forall|msg: &Message| call_requires(self.predicate, (msg,))
    }

    /// The predicate.
    pub closed spec fn predicate(self) -> F {
        self.predicate
    }

    /// Creates a filter: messages for which the predicate is true are kept.
    pub fn new(predicate: F) -> (r: Self)
        requires
            forall|msg: &Message| call_requires(predicate, (msg,)),
        ensures
            r.predicate() == predicate,
    {
        Filter { predicate }
    }
}

impl<F> Middleware for Filter<F> where F: Fn(&Message) -> bool + Send + Sync {
    open spec fn outcome(&self, msg: Message, out: Option<Message>) -> bool {
        match out {
            Some(kept) => kept == msg && call_ensures(self.predicate(), (&msg,), true),
            None => call_ensures(self.predicate(), (&msg,), false),
        }
    }

    open spec fn stage_state(&self) -> StageState {
        StageState::Fixed(|msg: Message, out: Option<Message>| self.outcome(msg, out))
    }

    open spec fn moves_to(&self, msg: Message, out: Option<Message>, next: StageState) -> bool {
        self.outcome(msg, out) && next == self.stage_state()
    }

    open spec fn spec_name(&self) -> Seq<char> {
        "filter"@
    }

    fn name(&self) -> (r: &'static str)
        ensures
            r@ == "filter"@,
    {
        "filter"
    }

    fn process(&mut self, msg: Message) -> (r: Option<Message>)
        ensures
            *final(self) == *old(self),
            match r {
                Some(kept) => kept == msg && call_ensures(old(self).predicate(), (&msg,), true),
                None => call_ensures(old(self).predicate(), (&msg,), false),
            },
    {
        proof {
            use_type_invariant(&*self);
        }
        if (self.predicate)(&msg) {
            Some(msg)
        } else {
            None
        }
    }
}

/// A stage that changes messages.
pub struct Transform<F> where F: Fn(Message) -> Message + Send + Sync {
    transform_fn: F,
}

impl<F> Transform<F> where F: Fn(Message) -> Message + Send + Sync {
    #[verifier::type_invariant]
    spec fn total(self) -> bool {
        forall|msg: Message| call_requires(self.transform_fn, (msg,))
    }

    /// The function.
    pub closed spec fn transform_fn(self) -> F {
        self.transform_fn
    }

    /// Creates a stage that applies a function to every message.
    pub fn new(transform_fn: F) -> (r: Self)
        requires
            forall|msg: Message| call_requires(transform_fn, (msg,)),
        ensures
            r.transform_fn() == transform_fn,
    {
        Transform { transform_fn }
    }
}

impl<F> Middleware for Transform<F> where F: Fn(Message) -> Message + Send + Sync {
    open spec fn outcome(&self, msg: Message, out: Option<Message>) -> bool {
        out matches Some(made) && call_ensures(self.transform_fn(), (msg,), made)
    }

    open spec fn stage_state(&self) -> StageState {
        StageState::Fixed(|msg: Message, out: Option<Message>| self.outcome(msg, out))
    }

    open spec fn moves_to(&self, msg: Message, out: Option<Message>, next: StageState) -> bool {
        self.outcome(msg, out) && next == self.stage_state()
    }

    open spec fn spec_name(&self) -> Seq<char> {
        "transform"@
    }

    fn name(&self) -> (r: &'static str)
        ensures
            r@ == "transform"@,
    {
        "transform"
    }

    fn process(&mut self, msg: Message) -> (r: Option<Message>)
        ensures
            *final(self) == *old(self),
            r matches Some(made) && call_ensures(old(self).transform_fn(), (msg,), made),
    {
        proof {
            use_type_invariant(&*self);
        }
        Some((self.transform_fn)(msg))
    }
}

} // verus!
