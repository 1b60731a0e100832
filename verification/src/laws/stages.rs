//! Laws of the middleware: chains and stages.

use crate::json;
use crate::message::Message;
use crate::middleware::enricher;
use crate::middleware::enricher::{Enricher, Enrichment};
use crate::middleware::router::{Matcher, Router};
use crate::middleware::sampler::Sampler;
use crate::middleware::validator;
use crate::middleware::validator::{Check, InvalidAction, ValidationResult, Validator};
use crate::middleware::{Filter, Middleware, MiddlewareChain, PassThrough, Transform};
use crate::middleware;
use crate::number;
use crate::payload;
use crate::string_map::Metadata;
use crate::text;
use serde_json::Value;
use vstd::prelude::*;

verus! {

/// `passed` is what passes between the stages of a chain: what goes in, what each stage
/// hands on, and what comes out. A stage that gets a message answers it and moves on, and
/// a stage that gets none hands none on and stays as it was.
pub open spec fn passes_through<M: Middleware>(
    before: Seq<M>,
    after: Seq<M>,
    passed: Seq<Option<Message>>,
) -> bool {
    &&& passed.len() == before.len() + 1
    &&& after.len() == before.len()
    &&& forall|j: int|
        0 <= j < before.len() ==> match #[trigger] passed[j] {
            Some(m) => before[j].outcome(m, passed[j + 1]) && before[j].moves_to(
                m,
                passed[j + 1],
                after[j].stage_state(),
            ),
            None => passed[j + 1] is None && after[j] == before[j],
        }
}

/// A message passes through the stages of a chain one after another, each of them once.
pub proof fn messages_pass_through_every_stage<M: Middleware>(
    chain: &mut MiddlewareChain<M>,
    msg: Message,
    r: Option<Message>,
)
    requires
        call_ensures(MiddlewareChain::<M>::process, (chain, msg), r),
    ensures
        exists|passed: Seq<Option<Message>>| #[trigger]
            passes_through(old(chain)@, final(chain)@, passed) && passed[0] == Some(msg)
                && passed.last() == r,
{
    let before = old(chain)@;
    let after = final(chain)@;
    let path = choose|path: Seq<Message>|
        {
            &&& #[trigger] middleware::is_way(before, path, r)
            &&& path[0] == msg
            &&& middleware::stages_moved(before, path, after)
        };
    let passed = Seq::new(
        before.len() + 1,
        |j: int|
            if j < path.len() {
                Some(path[j])
            } else {
                None::<Message>
            },
    );
    assert forall|j: int| 0 <= j < before.len() implies match #[trigger] passed[j] {
        Some(m) => before[j].outcome(m, passed[j + 1]) && before[j].moves_to(
            m,
            passed[j + 1],
            after[j].stage_state(),
        ),
        None => passed[j + 1] is None && after[j] == before[j],
    } by {
        if j < path.len() {
            assert(before[j].moves_to(
                path[j],
                middleware::handed_on(path, j),
                after[j].stage_state(),
            ));
            assert(passed[j + 1] == middleware::handed_on(path, j));
            if j + 1 < path.len() {
                assert(before[j].outcome(path[j], Some(path[j + 1])));
            }
        } else {
            assert(after[j] == before[j]);
        }
    }
    assert(passes_through(before, after, passed));
}

/// A stage in a box is the stage that it is.
pub proof fn boxed_stages_are_the_same<T: Middleware + ?Sized>(
    stage: &mut Box<T>,
    msg: Message,
    r: Option<Message>,
    name: &'static str,
)
    requires
        call_ensures(<Box<T> as Middleware>::process, (stage, msg), r),
        call_ensures(<Box<T> as Middleware>::name, (old(stage),), name),
    ensures
        (**old(stage)).outcome(msg, r),
        (**old(stage)).moves_to(msg, r, (**final(stage)).stage_state()),
        name@ == (**old(stage)).spec_name(),
{
}

/// Stages are added at the end of a chain, which counts them.
pub proof fn stages_are_added_at_the_end<M: Middleware>(
    fresh: MiddlewareChain<M>,
    chain: &mut MiddlewareChain<M>,
    stage: M,
    n: usize,
    empty: bool,
)
    requires
        call_ensures(MiddlewareChain::<M>::new, (), fresh),
        call_ensures(MiddlewareChain::<M>::add, (chain, stage), ()),
        call_ensures(MiddlewareChain::<M>::len, (final(chain),), n),
        call_ensures(MiddlewareChain::<M>::is_empty, (final(chain),), empty),
    ensures
        fresh@.len() == 0,
        final(chain)@.len() == old(chain)@.len() + 1,
        final(chain)@.last() == stage,
        final(chain)@.drop_last() == old(chain)@,
        n == final(chain)@.len(),
        !empty,
{
    assert(final(chain)@.drop_last() =~= old(chain)@);
}

/// A stage that does nothing hands every message on as it is.
pub proof fn nothing_is_done_by_a_pass_through(
    stage: &mut PassThrough,
    msg: Message,
    r: Option<Message>,
)
    requires
        call_ensures(<PassThrough as Middleware>::process, (stage, msg), r),
    ensures
        r == Some(msg),
{
}

/// A filter hands on, as they are, the messages that its predicate accepts, and drops
/// the others.
pub proof fn filters_follow_their_predicate<F>(
    stage: Filter<F>,
    msg: Message,
    r: Option<Message>,
) where F: Fn(&Message) -> bool + Send + Sync
    requires
        stage.outcome(msg, r),
    ensures
        r matches Some(kept) ==> kept == msg,
        r is Some ==> call_ensures(stage.predicate(), (&msg,), true),
        r is None ==> call_ensures(stage.predicate(), (&msg,), false),
{
}

/// A transforming stage hands on what its function makes of a message, and drops none.
pub proof fn transforms_follow_their_function<F>(
    stage: Transform<F>,
    msg: Message,
    r: Option<Message>,
) where F: Fn(Message) -> Message + Send + Sync
    requires
        stage.outcome(msg, r),
    ensures
        r is Some,
        call_ensures(stage.transform_fn(), (msg,), r->0),
{
}

/// Stages that have no state stay as they are, whatever they process.
pub proof fn stateless_stages_stay<F, G, H, K>(
    filter: Filter<F>,
    transform: Transform<G>,
    router: Router<F>,
    validator: Validator<H>,
    enricher: Enricher<K>,
    msg: Message,
    out: Option<Message>,
    next: middleware::StageState,
) where
    F: Fn(&Message) -> bool + Send + Sync,
    G: Fn(Message) -> Message + Send + Sync,
    H: Fn(&Message) -> ValidationResult + Send + Sync,
    K: Fn(&Message) -> Metadata + Send + Sync,

    ensures
        filter.moves_to(msg, out, next) ==> next == filter.stage_state(),
        transform.moves_to(msg, out, next) ==> next == transform.stage_state(),
        router.moves_to(msg, out, next) ==> next == router.stage_state(),
        validator.moves_to(msg, out, next) ==> next == validator.stage_state(),
        enricher.moves_to(msg, out, next) ==> next == enricher.stage_state(),
        PassThrough.moves_to(msg, out, next) ==> next == PassThrough.stage_state(),
{
}

/// Two messages say the same, apart from their routes.
pub open spec fn same_but_routes(a: Message, b: Message) -> bool {
    &&& a.id@ == b.id@
    &&& a.timestamp == b.timestamp
    &&& a.source@ == b.source@
    &&& a.message_type@ == b.message_type@
    &&& a.metadata.texts() == b.metadata.texts()
    &&& payload::contents(a.payload) == payload::contents(b.payload)
}

/// Two messages say the same, apart from their metadata.
pub open spec fn same_but_metadata(a: Message, b: Message) -> bool {
    &&& a.id@ == b.id@
    &&& a.timestamp == b.timestamp
    &&& a.source@ == b.source@
    &&& a.message_type@ == b.message_type@
    &&& payload::contents(a.payload) == payload::contents(b.payload)
    &&& text::texts(a.route_to@) == text::texts(b.route_to@)
}

/// What a rule may say of a message: a prefix is the beginning of its type, a source is
/// where it comes from, a default matches all, and a function decides for itself.
pub open spec fn may_say<F>(matcher: Matcher<F>, msg: Message, answer: bool) -> bool where
    F: Fn(&Message) -> bool + Send + Sync,
 {
    match matcher {
        Matcher::TypePrefix(prefix) => answer == (prefix@.len() <= msg.message_type@.len()
            && forall|i: int|
            0 <= i < prefix@.len() ==> prefix@[i] == #[trigger] msg.message_type@[i]),
        Matcher::Source(source) => answer == (source@ == msg.source@),
        Matcher::Any => answer,
        Matcher::Custom(f) => call_ensures(f, (&msg,), answer),
    }
}

/// A router sends a message where the first rule that matches says, and leaves its routes
/// where none does. It changes nothing else and drops nothing.
pub proof fn the_first_matching_rule_routes<F>(
    router: Router<F>,
    msg: Message,
    r: Option<Message>,
) where F: Fn(&Message) -> bool + Send + Sync
    requires
        router.outcome(msg, r),
    ensures
        r is Some,
        same_but_routes(r->0, msg),
        exists|k: int|
            {
                &&& 0 <= k <= router.rules().len()
                &&& forall|j: int|
                    0 <= j < k ==> may_say((#[trigger] router.rules()[j]).matcher, msg, false)
                &&& k < router.rules().len() ==> {
                    &&& may_say(#[trigger] router.rules()[k].matcher, msg, true)
                    &&& text::texts(r->0.route_to@) == text::texts(router.rules()[k].targets@)
                }
                &&& k == router.rules().len() ==> text::texts(r->0.route_to@) == text::texts(
                    msg.route_to@,
                )
            },
{
    let rules = router.rules();
    let k = choose|k: int|
        {
            &&& #[trigger] middleware::router::first_match(rules, msg, k)
            &&& r matches Some(routed) && routed@ == middleware::router::routed_by(rules, msg@, k)
        };
    assert forall|j: int, answer: bool|
        0 <= j < rules.len() && #[trigger] rules[j].matcher.answers(msg, answer) implies may_say(
        rules[j].matcher,
        msg,
        answer,
    ) by {
        if let Matcher::TypePrefix(prefix) = rules[j].matcher {
            let t = msg.message_type@;
            let p = prefix@;
            if p.is_prefix_of(t) {
                assert forall|i: int| 0 <= i < p.len() implies p[i] == #[trigger] t[i] by {
                    assert(t.subrange(0, p.len() as int)[i] == t[i]);
                }
            } else if p.len() <= t.len() && forall|i: int|
                0 <= i < p.len() ==> p[i] == #[trigger] t[i] {
                assert(t.subrange(0, p.len() as int) =~= p);
            }
        }
    }
    if k < rules.len() {
        assert(rules[k].matcher.answers(msg, true));
    }
    assert forall|j: int| 0 <= j < k implies may_say((#[trigger] rules[j]).matcher, msg, false) by {
        assert(rules[j].matcher.answers(msg, false));
    }
}

/// Rules are added behind the others, each with what it asks and where it leads.
pub proof fn rules_are_added_in_order<F>(
    fresh: Router<F>,
    router: Router<F>,
    prefix: &str,
    source: &str,
    targets: Vec<String>,
    by_prefix: Router<F>,
    by_source: Router<F>,
    by_default: Router<F>,
) where F: Fn(&Message) -> bool + Send + Sync
    requires
        call_ensures(Router::<F>::new, (), fresh),
        call_ensures(Router::<F>::route_type_prefix, (router, prefix, targets), by_prefix),
        call_ensures(Router::<F>::route_source, (router, source, targets), by_source),
        call_ensures(Router::<F>::default_route, (router, targets), by_default),
    ensures
        fresh.rules().len() == 0,
        by_prefix.rules().len() == router.rules().len() + 1,
        by_prefix.rules().drop_last() == router.rules(),
        by_prefix.rules().last().targets@ == targets@,
        by_prefix.rules().last().matcher matches Matcher::TypePrefix(p) && p@ == prefix@,
        by_source.rules().len() == router.rules().len() + 1,
        by_source.rules().drop_last() == router.rules(),
        by_source.rules().last().targets@ == targets@,
        by_source.rules().last().matcher matches Matcher::Source(s) && s@ == source@,
        by_default.rules().len() == router.rules().len() + 1,
        by_default.rules().drop_last() == router.rules(),
        by_default.rules().last().targets@ == targets@,
        by_default.rules().last().matcher is Any,
{
    assert(by_default.rules().drop_last() =~= router.rules());
}

/// When a check finds a message valid: JSON is wanted and the payload is some, a payload is
/// wanted and there is one, it is not larger than allowed, or a function says so.
pub open spec fn may_pass<F>(check: Check<F>, msg: Message, valid: bool) -> bool where
    F: Fn(&Message) -> ValidationResult + Send + Sync,
 {
    let data = payload::contents(msg.payload);
    match check {
        Check::Json => valid == (data.len() > 0 && json::json_value(data) is Ok),
        Check::NonEmpty => valid == (data.len() > 0),
        Check::MaxSize(max_bytes) => valid == (data.len() <= max_bytes),
        Check::Custom(f) => exists|verdict: ValidationResult| #[trigger]
            call_ensures(f, (&msg,), verdict) && valid == verdict is Valid,
    }
}

/// A validator hands on valid messages as they are. Invalid ones are dropped, or handed on
/// with the reason in their metadata and nothing else changed, as it was made to do.
pub proof fn invalid_messages_are_dropped_or_tagged<F>(
    stage: Validator<F>,
    msg: Message,
    r: Option<Message>,
) where F: Fn(&Message) -> ValidationResult + Send + Sync
    requires
        stage.outcome(msg, r),
    ensures
        exists|valid: bool|
            {
                &&& #[trigger] may_pass(stage.check(), msg, valid)
                &&& valid ==> r == Some(msg)
                &&& !valid && stage.action() == InvalidAction::Drop ==> r is None
                &&& !valid && stage.action() == InvalidAction::Tag ==> (r matches Some(tagged) && {
                    let tags = tagged.metadata.texts();
                    &&& same_but_metadata(tagged, msg)
                    &&& tags.contains_key("polku.validator.error"@)
                    &&& tags.contains_key("polku.validator.valid"@)
                    &&& tags["polku.validator.valid"@] == "false"@
                    &&& forall|key: Seq<char>|
                        key != "polku.validator.error"@ && key != "polku.validator.valid"@ ==> (
                        #[trigger] tags.contains_key(key) == msg.metadata.texts().contains_key(key))
                            && (tags.contains_key(key) ==> tags[key] == msg.metadata.texts()[key])
                })
            },
{
    let verdict = choose|verdict: ValidationResult|
        {
            &&& #[trigger] stage.check().finds(msg, verdict)
            &&& verdict is Valid ==> r == Some(msg)
            &&& match r {
                Some(passed) => validator::judged(msg@, verdict@, stage.action()) == Some(
                    passed@,
                ),
                None => validator::judged(msg@, verdict@, stage.action()) is None,
            }
        };
    let valid = verdict is Valid;
    assert(may_pass(stage.check(), msg, valid)) by {
        if let Check::Custom(f) = stage.check() {
            assert(call_ensures(f, (&msg,), verdict));
        }
    }
}

/// The reason of a verdict is the one that the tag tells, and each kind of check gives its own.
pub proof fn reasons_are_told(
    msg: Message,
    verdict: ValidationResult,
    action: InvalidAction,
    r: Option<Message>,
)
    requires
        call_ensures(validator::act_on, (msg, verdict, action), r),
    ensures
        verdict is Valid ==> r == Some(msg),
        verdict matches ValidationResult::Invalid(_) ==> action == InvalidAction::Drop ==> r is None,
        verdict matches ValidationResult::Invalid(reason) ==> action == InvalidAction::Tag ==> (
        r matches Some(tagged) && same_but_metadata(tagged, msg)
            && tagged.metadata.texts()["polku.validator.error"@] == reason@
            && tagged.metadata.texts()["polku.validator.valid"@] == "false"@),
{
    reveal_strlit("polku.validator.error");
    reveal_strlit("polku.validator.valid");
    assert("polku.validator.error"@[16] != "polku.validator.valid"@[16]);
}

/// What the verdicts on payloads say: an empty one is called empty, one that is no JSON is
/// called so with the reason, and one that is too large with both sizes.
pub proof fn verdicts_say_why<F>(msg: Message, verdict: ValidationResult, max_bytes: usize) where
    F: Fn(&Message) -> ValidationResult + Send + Sync,

    ensures
        ({
            let data = payload::contents(msg.payload);
            &&& Check::<F>::NonEmpty.finds(msg, verdict) && data.len() == 0 ==> (
            verdict matches ValidationResult::Invalid(m) && m@ == "empty payload"@)
            &&& Check::<F>::Json.finds(msg, verdict) && data.len() == 0 ==> (
            verdict matches ValidationResult::Invalid(m) && m@ == "empty payload"@)
            &&& Check::<F>::Json.finds(msg, verdict) && data.len() > 0 ==> (json::json_value(
                data,
            ) matches Err(e) ==> (verdict matches ValidationResult::Invalid(m) && m@
                == "invalid JSON: "@ + e))
            &&& Check::<F>::MaxSize(max_bytes).finds(msg, verdict) && data.len() > max_bytes ==> (
            verdict matches ValidationResult::Invalid(m) && m@ == "payload too large: "@
                + number::decimal(data.len()) + " > "@ + number::decimal(max_bytes as nat)
                + " bytes"@)
        }),
{
}

/// A message has to be JSON: it is, exactly when it is not empty and parsing it succeeded.
pub proof fn json_is_judged_by_parsing(
    msg: Message,
    parsed: Result<Value, String>,
    r: ValidationResult,
)
    requires
        call_ensures(validator::judge_json, (&msg, parsed), r),
    ensures
        r is Valid <==> payload::contents(msg.payload).len() > 0 && parsed is Ok,
        payload::contents(msg.payload).len() == 0 ==> (r matches ValidationResult::Invalid(m)
            && m@ == "empty payload"@),
        payload::contents(msg.payload).len() > 0 ==> (parsed matches Err(e) ==> (
        r matches ValidationResult::Invalid(m) && m@ == "invalid JSON: "@ + e@)),
{
}

/// Validators are made as asked, and drop what is invalid unless told otherwise.
pub proof fn validators_are_made_as_asked<F>(
    a: Validator<F>,
    b: Validator<F>,
    max: usize,
    c: Validator<F>,
    action: InvalidAction,
    d: Validator<F>,
) where F: Fn(&Message) -> ValidationResult + Send + Sync
    requires
        call_ensures(Validator::<F>::json, (), a),
        call_ensures(Validator::<F>::non_empty, (), b),
        call_ensures(Validator::<F>::max_size, (max,), c),
        call_ensures(Validator::<F>::on_invalid, (c, action), d),
    ensures
        a.check() is Json,
        b.check() is NonEmpty,
        c.check() == Check::<F>::MaxSize(max),
        a.action() == InvalidAction::Drop,
        b.action() == InvalidAction::Drop,
        c.action() == InvalidAction::Drop,
        d.check() == c.check(),
        d.action() == action,
{
}

/// What is added to a message replaces what has the same key; the rest of its metadata
/// stays, and so does everything else.
pub proof fn added_metadata_wins(msg: Message, additional: Metadata, r: Message)
    requires
        call_ensures(enricher::enrich, (msg, additional), r),
    ensures
        same_but_metadata(r, msg),
        forall|key: Seq<char>| #[trigger]
            r.metadata.texts().contains_key(key) <==> additional.texts().contains_key(key)
                || msg.metadata.texts().contains_key(key),
        forall|key: Seq<char>| #[trigger]
            additional.texts().contains_key(key) ==> r.metadata.texts()[key]
                == additional.texts()[key],
        forall|key: Seq<char>| #[trigger]
            msg.metadata.texts().contains_key(key) ==> !additional.texts().contains_key(key)
                ==> r.metadata.texts()[key] == msg.metadata.texts()[key],
{
}

/// An enricher hands every message on with the metadata that it was made to add.
pub proof fn enrichers_add_their_metadata<F>(
    stage: Enricher<F>,
    msg: Message,
    r: Option<Message>,
) where F: Fn(&Message) -> Metadata + Send + Sync
    requires
        stage.outcome(msg, r),
    ensures
        r is Some,
        same_but_metadata(r->0, msg),
        exists|additional: Metadata|
            {
                &&& match stage.enrichment() {
                    Enrichment::Static(metadata) => additional.texts() == metadata.texts(),
                    Enrichment::Computed(f) => call_ensures(f, (&msg,), additional),
                }
                &&& forall|key: Seq<char>|
                    #![trigger additional.texts().contains_key(key)]
                    {
                        &&& r->0.metadata.texts().contains_key(key)
                            <==> additional.texts().contains_key(key)
                            || msg.metadata.texts().contains_key(key)
                        &&& additional.texts().contains_key(key) ==> r->0.metadata.texts()[key]
                            == additional.texts()[key]
                        &&& msg.metadata.texts().contains_key(key)
                            && !additional.texts().contains_key(key) ==> r->0.metadata.texts()[key]
                            == msg.metadata.texts()[key]
                    }
                &&& #[trigger] stage.enrichment().yields(msg, additional)
            },
{
    let additional = choose|additional: Metadata|
        {
            &&& #[trigger] stage.enrichment().yields(msg, additional)
            &&& r matches Some(passed) && passed@ == enricher::enriched(
                msg@,
                additional.texts(),
            )
        };
    assert(stage.enrichment().yields(msg, additional));
}

/// An enricher adds the metadata that it is made with.
pub proof fn enrichers_are_made_as_asked<F>(metadata: Metadata, r: Enricher<F>) where
    F: Fn(&Message) -> Metadata + Send + Sync,

    requires
        call_ensures(Enricher::<F>::with_static, (metadata,), r),
    ensures
        r.enrichment() == Enrichment::<F>::Static(metadata),
{
}

/// A sampler keeps a message exactly when its next number is not above the threshold. The
/// number is the state that the generator moves to, by three shifts; the threshold stays.
pub proof fn samplers_draw_a_number_for_each_message(
    sampler: &mut Sampler,
    r: bool,
    a: u64,
    b: u64,
)
    requires
        call_ensures(Sampler::should_sample, (sampler,), r),
        a == old(sampler).state() ^ (old(sampler).state() << 13u64),
        b == a ^ (a >> 7u64),
    ensures
        final(sampler).state() == b ^ (b << 17u64),
        r <==> final(sampler).state() <= old(sampler).threshold(),
        final(sampler).threshold() == old(sampler).threshold(),
{
}

/// A sampler hands on the messages that it keeps, as they are.
pub proof fn sampled_messages_are_not_changed(
    sampler: &mut Sampler,
    msg: Message,
    r: Option<Message>,
    same: &mut Sampler,
    kept: bool,
)
    requires
        call_ensures(<Sampler as Middleware>::process, (sampler, msg), r),
        *old(same) == *old(sampler),
        call_ensures(Sampler::should_sample, (same,), kept),
    ensures
        kept ==> r == Some(msg),
        !kept ==> r is None,
        final(sampler).stage_state() == final(same).stage_state(),
{
}

/// A sampler has the threshold that it is given, and a seed that is not zero.
pub proof fn samplers_are_made_as_asked(threshold: u64, seed: u64, r: Sampler)
    requires
        call_ensures(Sampler::with_threshold, (threshold, seed), r),
    ensures
        r.threshold() == threshold,
        r.state() != 0,
        r.state() == seed || r.state() == seed + 1,
        r.state() % 2 == 1,
{
    assert((seed | 1 == seed || seed | 1 == seed + 1) && (seed | 1) % 2 == 1) by (bit_vector);
}

/// Stages are known by their names.
pub proof fn stages_have_their_names<F, G, H, K>(
    filter: Filter<F>,
    transform: Transform<G>,
    router: Router<F>,
    validator: Validator<H>,
    enricher: Enricher<K>,
    sampler: Sampler,
) where
    F: Fn(&Message) -> bool + Send + Sync,
    G: Fn(Message) -> Message + Send + Sync,
    H: Fn(&Message) -> ValidationResult + Send + Sync,
    K: Fn(&Message) -> Metadata + Send + Sync,

    ensures
        filter.spec_name() == "filter"@,
        transform.spec_name() == "transform"@,
        router.spec_name() == "router"@,
        validator.spec_name() == "validator"@,
        enricher.spec_name() == "enricher"@,
        sampler.spec_name() == "sampler"@,
{
}

} // verus!
