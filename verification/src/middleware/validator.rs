//! Validator: checks messages and drops or tags the invalid ones.

use crate::json;
use crate::json::parse_json;
use crate::message::{Message, MessageView};
use crate::middleware::{Middleware, StageState};
use crate::number;
use crate::number::decimal_text;
use crate::payload::as_slice;
use crate::text::{join2, join5};
use serde_json::Value;
use vstd::prelude::*;

verus! {

/// The verdict on a message.
#[derive(Debug)]
pub enum ValidationResult {
    /// The message is valid.
    Valid,
    /// The message is invalid, for a reason.
    Invalid(String),
}

/// The mathematical value of a [`ValidationResult`].
pub enum Verdict {
    Valid,
    Invalid(Seq<char>),
}

impl View for ValidationResult {
    type V = Verdict;

    open spec fn view(&self) -> Verdict {
        match self {
            ValidationResult::Valid => Verdict::Valid,
            ValidationResult::Invalid(reason) => Verdict::Invalid(reason@),
        }
    }
}

impl Clone for ValidationResult {
    fn clone(&self) -> (r: Self)
        ensures
            r@ == self@,
    {
        match self {
            ValidationResult::Valid => ValidationResult::Valid,
            ValidationResult::Invalid(reason) => ValidationResult::Invalid(reason.clone()),
        }
    }
}

/// What becomes of invalid messages.
#[derive(Debug, Clone, Copy, PartialEq, Eq, Structural)]
pub enum InvalidAction {
    /// They are dropped.
    Drop,
    /// They pass, with the reason in their metadata.
    Tag,
}

impl Default for InvalidAction {
    fn default() -> (r: Self)
        ensures
            r == InvalidAction::Drop,
    {
        InvalidAction::Drop
    }
}

/// The verdict on bytes that have to be JSON, given what parsing them gives.
pub open spec fn json_verdict(data: Seq<u8>, parsed: Result<Value, Seq<char>>) -> Verdict {
    if data.len() == 0 {
        Verdict::Invalid("empty payload"@)
    } else {
        match parsed {
            Ok(_) => Verdict::Valid,
            Err(e) => Verdict::Invalid("invalid JSON: "@ + e),
        }
    }
}

/// The verdict on bytes that must not be empty.
pub open spec fn presence_verdict(data: Seq<u8>) -> Verdict {
    if data.len() == 0 {
        Verdict::Invalid("empty payload"@)
    } else {
        Verdict::Valid
    }
}

/// The verdict on bytes of which there is a limit.
pub open spec fn size_verdict(data: Seq<u8>, max_bytes: nat) -> Verdict {
    if data.len() > max_bytes {
        Verdict::Invalid(
            "payload too large: "@ + number::decimal(data.len()) + " > "@ + number::decimal(
                max_bytes,
            ) + " bytes"@,
        )
    } else {
        Verdict::Valid
    }
}

/// What becomes of a message on which a verdict was given.
pub open spec fn judged(msg: MessageView, verdict: Verdict, action: InvalidAction) -> Option<
    MessageView,
> {
    match verdict {
        Verdict::Valid => Some(msg),
        Verdict::Invalid(reason) => match action {
            InvalidAction::Drop => None,
            InvalidAction::Tag => Some(
                msg.tagged("polku.validator.error"@, reason).tagged(
                    "polku.validator.valid"@,
                    "false"@,
                ),
            ),
        },
    }
}

/// The verdict on a message whose payload has to be JSON, given what parsing it gave.
pub fn judge_json(msg: &Message, parsed: Result<Value, String>) -> (r: ValidationResult)
    ensures
        r@ == match parsed {
            Ok(value) => json_verdict(msg@.payload, Ok(value)),
            Err(e) => json_verdict(msg@.payload, Err(e@)),
        },
{
    if msg.payload_len() == 0 {
        return ValidationResult::Invalid("empty payload".to_string());
    }
    match parsed {
        Ok(_) => ValidationResult::Valid,
        Err(e) => ValidationResult::Invalid(join2("invalid JSON: ", e.as_str())),
    }
}

/// Drops or tags a message that was found invalid.
pub fn act_on(msg: Message, verdict: ValidationResult, action: InvalidAction) -> (r: Option<
    Message,
>)
    ensures
        match r {
            Some(out) => judged(msg@, verdict@, action) == Some(out@),
            None => judged(msg@, verdict@, action) is None,
        },
        verdict is Valid ==> r == Some(msg),
{
    match verdict {
        ValidationResult::Valid => Some(msg),
        ValidationResult::Invalid(reason) => match action {
            InvalidAction::Drop => None,
            InvalidAction::Tag => {
                let mut tagged = msg;
                tagged.add_metadata("polku.validator.error", reason.as_str());
                tagged.add_metadata("polku.validator.valid", "false");
                Some(tagged)
            },
        },
    }
}

/// What is checked.
pub enum Check<F> where F: Fn(&Message) -> ValidationResult + Send + Sync {
    /// The payload is JSON.
    Json,
    /// The payload is not empty.
    NonEmpty,
    /// The payload has at most so many bytes.
    MaxSize(usize),
    /// A function decides.
    Custom(F),
}

impl<F> Check<F> where F: Fn(&Message) -> ValidationResult + Send + Sync {
    /// Every message can be checked.
    pub open spec fn total(self) -> bool {
        self matches Check::Custom(f) ==> forall|msg: &Message| call_requires(f, (msg,))
    }

    /// The check of `msg` may end in the verdict.
    pub open spec fn finds(self, msg: Message, verdict: ValidationResult) -> bool {
        match self {
            Check::Json => verdict@ == json_verdict(
                msg@.payload,
                json::json_value(msg@.payload),
            ),
            Check::NonEmpty => verdict@ == presence_verdict(msg@.payload),
            Check::MaxSize(max_bytes) => verdict@ == size_verdict(msg@.payload, max_bytes as nat),
            Check::Custom(f) => call_ensures(f, (&msg,), verdict),
        }
    }

    /// Checks a message.
    fn check(&self, msg: &Message) -> (r: ValidationResult)
        requires
            self.total(),
        ensures
            self.finds(*msg, r),
    {
        match self {
            Check::Json => judge_json(msg, parse_json(as_slice(&msg.payload))),
            Check::NonEmpty => {
                if msg.payload_len() == 0 {
                    ValidationResult::Invalid("empty payload".to_string())
                } else {
                    ValidationResult::Valid
                }
            },
            Check::MaxSize(max_bytes) => {
                let n: usize = msg.payload_len();
                if n > *max_bytes {
                    ValidationResult::Invalid(
                        join5(
                            "payload too large: ",
                            decimal_text(n as u64).as_str(),
                            " > ",
                            decimal_text(*max_bytes as u64).as_str(),
                            " bytes",
                        ),
                    )
                } else {
                    ValidationResult::Valid
                }
            },
            Check::Custom(f) => f(msg),
        }
    }
}

/// Checks messages.
pub struct Validator<F> where F: Fn(&Message) -> ValidationResult + Send + Sync {
    check: Check<F>,
    on_invalid: InvalidAction,
}

impl<F> Validator<F> where F: Fn(&Message) -> ValidationResult + Send + Sync {
    #[verifier::type_invariant]
    spec fn total(self) -> bool {
        self.check.total()
    }

    /// What is checked.
    pub closed spec fn check(self) -> Check<F> {
        self.check
    }

    /// What becomes of invalid messages.
    pub closed spec fn action(self) -> InvalidAction {
        self.on_invalid
    }

    /// A validator that asks a function. Invalid messages are dropped.
    pub fn new(f: F) -> (r: Self)
        requires
            forall|msg: &Message| call_requires(f, (msg,)),
        ensures
            r.check() == Check::Custom(f),
            r.action() == InvalidAction::Drop,
    {
        Validator { check: Check::Custom(f), on_invalid: InvalidAction::Drop }
    }

    /// Sets what becomes of invalid messages.
    pub fn on_invalid(self, action: InvalidAction) -> (r: Self)
        ensures
            r.check() == self.check(),
            r.action() == action,
    {
        proof {
            use_type_invariant(&self);
        }
        let mut validator = self;
        validator.on_invalid = action;
        validator
    }

    /// A validator that wants the payload to be JSON.
    pub fn json() -> (r: Self)
        ensures
            r.check() == Check::<F>::Json,
            r.action() == InvalidAction::Drop,
    {
        Validator { check: Check::Json, on_invalid: InvalidAction::Drop }
    }

    /// A validator that wants a payload.
    pub fn non_empty() -> (r: Self)
        ensures
            r.check() == Check::<F>::NonEmpty,
            r.action() == InvalidAction::Drop,
    {
        Validator { check: Check::NonEmpty, on_invalid: InvalidAction::Drop }
    }

    /// A validator that limits the size of the payload.
    pub fn max_size(max_bytes: usize) -> (r: Self)
        ensures
            r.check() == Check::<F>::MaxSize(max_bytes),
            r.action() == InvalidAction::Drop,
    {
        Validator { check: Check::MaxSize(max_bytes), on_invalid: InvalidAction::Drop }
    }
}

/// Processing `msg` may end in `out`: there is a verdict that the check may give, and
/// `out` is what becomes of the message on it.
pub open spec fn validated<F>(
    check: Check<F>,
    action: InvalidAction,
    msg: Message,
    out: Option<Message>,
) -> bool where F: Fn(&Message) -> ValidationResult + Send + Sync {
    exists|verdict: ValidationResult|
        {
            &&& #[trigger] check.finds(msg, verdict)
            &&& verdict is Valid ==> out == Some(msg)
            &&& match out {
                Some(passed) => judged(msg@, verdict@, action) == Some(passed@),
                None => judged(msg@, verdict@, action) is None,
            }
        }
}

impl<F> Middleware for Validator<F> where F: Fn(&Message) -> ValidationResult + Send + Sync {
    open spec fn outcome(&self, msg: Message, out: Option<Message>) -> bool {
        validated(self.check(), self.action(), msg, out)
    }

    open spec fn stage_state(&self) -> StageState {
        StageState::Fixed(|msg: Message, out: Option<Message>| self.outcome(msg, out))
    }

    open spec fn moves_to(&self, msg: Message, out: Option<Message>, next: StageState) -> bool {
        self.outcome(msg, out) && next == self.stage_state()
    }

    open spec fn spec_name(&self) -> Seq<char> {
        "validator"@
    }

    fn name(&self) -> (r: &'static str)
        ensures
            r@ == "validator"@,
    {
        "validator"
    }

    fn process(&mut self, msg: Message) -> (r: Option<Message>)
        ensures
            *final(self) == *old(self),
            validated(old(self).check(), old(self).action(), msg, r),
    {
        proof {
            use_type_invariant(&*self);
        }
        let verdict = self.check.check(&msg);
        act_on(msg, verdict, self.on_invalid)
    }
}

/// A message that is tagged says why it is invalid, and that it is.
pub proof fn tags_tell_the_reason(msg: MessageView, reason: Seq<char>)
    ensures
        judged(msg, Verdict::Invalid(reason), InvalidAction::Tag) matches Some(out)
            && out.metadata["polku.validator.error"@] == reason
            && out.metadata["polku.validator.valid"@] == "false"@ && out.payload == msg.payload
            && out.route_to == msg.route_to,
{
    reveal_strlit("polku.validator.error");
    reveal_strlit("polku.validator.valid");
    assert("polku.validator.error"@[16] != "polku.validator.valid"@[16]);
}

} // verus!
