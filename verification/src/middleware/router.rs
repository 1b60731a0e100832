//! Router: sets the routes of a message by its content.
//!
//! Rules are tried in order; the first one that matches decides.

use crate::message::{Message, MessageView};
use crate::middleware::{Middleware, StageState};
use crate::text;
use crate::text::{begins_with, clone_strings};
use vstd::prelude::*;

verus! {

/// What a routing rule asks of a message.
pub enum Matcher<F> where F: Fn(&Message) -> bool + Send + Sync {
    /// The type begins with a text.
    TypePrefix(String),
    /// The message comes from a source.
    Source(String),
    /// Nothing.
    Any,
    /// A function decides.
    Custom(F),
}

impl<F> Matcher<F> where F: Fn(&Message) -> bool + Send + Sync {
    /// The matcher can be asked about every message.
    pub open spec fn total(self) -> bool {
        self matches Matcher::Custom(f) ==> forall|msg: &Message| call_requires(f, (msg,))
    }

    /// Asked about `msg`, the matcher may answer `r`.
    pub open spec fn answers(self, msg: Message, r: bool) -> bool {
        match self {
            Matcher::TypePrefix(prefix) => r == prefix@.is_prefix_of(msg.message_type@),
            Matcher::Source(source) => r == (msg.source@ == source@),
            Matcher::Any => r,
            Matcher::Custom(f) => call_ensures(f, (&msg,), r),
        }
    }

    /// Whether the message matches.
    fn matches_message(&self, msg: &Message) -> (r: bool)
        requires
            self.total(),
        ensures
            self.answers(*msg, r),
    {
        match self {
            Matcher::TypePrefix(prefix) => begins_with(
                msg.message_type.as_str(),
                prefix.as_str(),
            ),
            Matcher::Source(source) => msg.source == *source,
            Matcher::Any => true,
            Matcher::Custom(f) => f(msg),
        }
    }
}

/// A routing rule: messages that match go to the targets.
pub struct Rule<F> where F: Fn(&Message) -> bool + Send + Sync {
    /// What the rule asks.
    pub matcher: Matcher<F>,
    /// Where matching messages go.
    pub targets: Vec<String>,
}

/// Rule `k` is the first that matches `msg`; none does where `k` is their number.
pub open spec fn first_match<F>(rules: Seq<Rule<F>>, msg: Message, k: int) -> bool where
    F: Fn(&Message) -> bool + Send + Sync,
 {
    &&& 0 <= k <= rules.len()
    &&& forall|j: int| 0 <= j < k ==> (#[trigger] rules[j]).matcher.answers(msg, false)
    &&& k < rules.len() ==> rules[k].matcher.answers(msg, true)
}

/// The message with the targets of rule `k` as its routes, or as it is where no rule matches.
pub open spec fn routed_by<F>(rules: Seq<Rule<F>>, msg: MessageView, k: int) -> MessageView where
    F: Fn(&Message) -> bool + Send + Sync,
 {
    if k < rules.len() {
        MessageView { route_to: text::texts(rules[k].targets@), ..msg }
    } else {
        msg
    }
}

/// Sets the routes of messages by rules.
pub struct Router<F> where F: Fn(&Message) -> bool + Send + Sync {
    rules: Vec<Rule<F>>,
}

impl<F> Router<F> where F: Fn(&Message) -> bool + Send + Sync {
    #[verifier::type_invariant]
    spec fn total(self) -> bool {
        forall|i: int| 0 <= i < self.rules@.len() ==> (#[trigger] self.rules@[i]).matcher.total()
    }

    /// The rules in the order in which they are tried.
    pub closed spec fn rules(self) -> Seq<Rule<F>> {
        self.rules@
    }

    /// A router without rules.
    pub fn new() -> (r: Self)
        ensures
            r.rules() == Seq::<Rule<F>>::empty(),
    {
        Router { rules: Vec::new() }
    }

    /// Adds a rule behind the others.
    fn with_rule(self, matcher: Matcher<F>, targets: Vec<String>) -> (r: Self)
        requires
            matcher.total(),
        ensures
            r.rules() == self.rules().push(Rule { matcher, targets }),
    {
        proof {
            use_type_invariant(&self);
        }
        let mut rules = self.rules;
        rules.push(Rule { matcher, targets });
        Router { rules }
    }

    /// Adds a rule: messages for which the function is true go to the targets.
    pub fn rule(self, matcher: F, targets: Vec<String>) -> (r: Self)
        requires
            forall|msg: &Message| call_requires(matcher, (msg,)),
        ensures
            r.rules() == self.rules().push(Rule { matcher: Matcher::Custom(matcher), targets }),
    {
        self.with_rule(Matcher::Custom(matcher), targets)
    }

    /// Adds a rule for messages whose type begins with a text.
    pub fn route_type_prefix(self, prefix: &str, targets: Vec<String>) -> (r: Self)
        ensures
            r.rules().drop_last() == self.rules(),
            r.rules().len() == self.rules().len() + 1,
            r.rules().last().matcher matches Matcher::TypePrefix(p) && p@ == prefix@,
            r.rules().last().targets == targets,
    {
        let router = self.with_rule(Matcher::TypePrefix(prefix.to_string()), targets);
        assert(router.rules().drop_last() =~= self.rules());
        router
    }

    /// Adds a rule for messages from a source.
    pub fn route_source(self, source: &str, targets: Vec<String>) -> (r: Self)
        ensures
            r.rules().drop_last() == self.rules(),
            r.rules().len() == self.rules().len() + 1,
            r.rules().last().matcher matches Matcher::Source(s) && s@ == source@,
            r.rules().last().targets == targets,
    {
        let router = self.with_rule(Matcher::Source(source.to_string()), targets);
        assert(router.rules().drop_last() =~= self.rules());
        router
    }

    /// Adds a rule that every message matches.
    pub fn default_route(self, targets: Vec<String>) -> (r: Self)
        ensures
            r.rules() == self.rules().push(Rule { matcher: Matcher::Any, targets }),
    {
        self.with_rule(Matcher::Any, targets)
    }
}

impl<F> Default for Router<F> where F: Fn(&Message) -> bool + Send + Sync {
    fn default() -> (r: Self)
        ensures
            r.rules() == Seq::<Rule<F>>::empty(),
    {
        Self::new()
    }
}

impl<F> Middleware for Router<F> where F: Fn(&Message) -> bool + Send + Sync {
    open spec fn outcome(&self, msg: Message, out: Option<Message>) -> bool {
        exists|k: int|
            {
                &&& #[trigger] first_match(self.rules(), msg, k)
                &&& out matches Some(routed) && routed@ == routed_by(self.rules(), msg@, k)
            }
    }

    open spec fn stage_state(&self) -> StageState {
        StageState::Fixed(|msg: Message, out: Option<Message>| self.outcome(msg, out))
    }

    open spec fn moves_to(&self, msg: Message, out: Option<Message>, next: StageState) -> bool {
        self.outcome(msg, out) && next == self.stage_state()
    }

    open spec fn spec_name(&self) -> Seq<char> {
        "router"@
    }

    fn name(&self) -> (r: &'static str)
        ensures
            r@ == "router"@,
    {
        "router"
    }

    fn process(&mut self, msg: Message) -> (r: Option<Message>)
        ensures
            *final(self) == *old(self),
            exists|k: int|
                {
                    &&& #[trigger] first_match(old(self).rules(), msg, k)
                    &&& r matches Some(routed) && routed@ == routed_by(
                        old(self).rules(),
                        msg@,
                        k,
                    )
                },
    {
        proof {
            use_type_invariant(&*self);
        }
        let mut i: usize = 0;
        while i < self.rules.len()
            invariant
                i <= self.rules().len(),
                self.total(),
                forall|j: int|
                    0 <= j < i ==> (#[trigger] self.rules()[j]).matcher.answers(msg, false),
            decreases self.rules().len() - i,
        {
            assert(self.rules@[i as int].matcher.total());
            let rule = &self.rules[i];
            if rule.matcher.matches_message(&msg) {
                assert(first_match(self.rules(), msg, i as int));
                let mut routed = msg;
                routed.route_to = clone_strings(&rule.targets);
                return Some(routed);
            }
            i += 1;
        }
        assert(first_match(self.rules(), msg, i as int));
        Some(msg)
    }
}

/// The first rule that matches is the one that decides: where the answers of the
/// rules are fixed, there is only one.
pub proof fn first_match_is_unique<F>(rules: Seq<Rule<F>>, msg: Message, k: int, m: int) where
    F: Fn(&Message) -> bool + Send + Sync,

    requires
        first_match(rules, msg, k),
        first_match(rules, msg, m),
        forall|j: int|
            0 <= j < rules.len() ==> !((#[trigger] rules[j]).matcher.answers(msg, true)
                && rules[j].matcher.answers(msg, false)),
    ensures
        k == m,
{
    if k < m {
        assert(rules[k].matcher.answers(msg, false));
    } else if m < k {
        assert(rules[m].matcher.answers(msg, false));
    }
}

} // verus!
