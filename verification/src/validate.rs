//! Core validation of AAIS envelopes (sections 3 to 9 of the specification).
use vstd::prelude::*;
use crate::canonical::{action_digest, action_digest_text};
use crate::text::{is_digest, is_digest_text, is_text, owned, valid_id, valid_id_text};
use crate::time::{instant_before, parse_time, parse_time_outcome, Instant};
use crate::types::{
    Activity, ApprovalError, Choice, Decision, Envelope, JsonObject, Request, Resolution,
    SpecActivity, SpecChoice, SpecDecision, SpecEnvelope, SpecError, SpecPresentation,
    SpecRequest, SpecResolution, Text, unit_result_view,
};

verus! {

// ---------------------------------------------------------------------------
// Vocabularies
// ---------------------------------------------------------------------------

pub open spec fn is_decision_word(s: Text) -> bool {
    s == "approve"@ || s == "deny"@ || s == "cancel"@
}

pub open spec fn is_scope_word(s: Text) -> bool {
    s == "once"@ || s == "session"@ || s == "persistent"@
}

pub open spec fn is_risk_level(s: Text) -> bool {
    s == "low"@ || s == "medium"@ || s == "high"@ || s == "critical"@
}

pub open spec fn is_actor_type(s: Text) -> bool {
    s == "human"@ || s == "policy"@
}

pub open spec fn is_outcome_word(s: Text) -> bool {
    ||| s == "approved"@
    ||| s == "denied"@
    ||| s == "cancelled"@
    ||| s == "expired"@
    ||| s == "stale"@
    ||| s == "conflict"@
    ||| s == "invalid"@
}

/// An absent or empty JSON object (`{}` in canonical form).
pub open spec fn is_absent_or_empty(o: Option<Text>) -> bool {
    match o {
        None => true,
        Some(t) => t == "{}"@,
    }
}

fn decision_word(s: &String) -> (r: bool)
    ensures
        r == is_decision_word(s@),
{
    is_text(s, "approve") || is_text(s, "deny") || is_text(s, "cancel")
}

fn scope_word(s: &String) -> (r: bool)
    ensures
        r == is_scope_word(s@),
{
    is_text(s, "once") || is_text(s, "session") || is_text(s, "persistent")
}

fn risk_level(s: &String) -> (r: bool)
    ensures
        r == is_risk_level(s@),
{
    is_text(s, "low") || is_text(s, "medium") || is_text(s, "high") || is_text(s, "critical")
}

fn actor_type(s: &String) -> (r: bool)
    ensures
        r == is_actor_type(s@),
{
    is_text(s, "human") || is_text(s, "policy")
}

fn outcome_word(s: &String) -> (r: bool)
    ensures
        r == is_outcome_word(s@),
{
    is_text(s, "approved") || is_text(s, "denied") || is_text(s, "cancelled") || is_text(
        s,
        "expired",
    ) || is_text(s, "stale") || is_text(s, "conflict") || is_text(s, "invalid")
}

/// Whether a JSON object has no members.
pub fn json_object_is_empty(o: &JsonObject) -> (r: bool)
    ensures
        r == (o@ == "{}"@),
{
    is_text(&o.canonical_json, "{}")
}

fn absent_or_empty(o: &Option<JsonObject>) -> (r: bool)
    ensures
        r == is_absent_or_empty(o.deep_view()),
{
    match o {
        None => true,
        Some(j) => json_object_is_empty(j),
    }
}

// ---------------------------------------------------------------------------
// Choices
// ---------------------------------------------------------------------------

/// Why choice `i` of a request is unacceptable, if it is.
pub open spec fn choice_error(cs: Seq<SpecChoice>, i: int) -> Option<Text> {
    let c = cs[i];
    if !is_decision_word(c.decision) || !is_scope_word(c.scope) || c.label.len() == 0 {
        Some("invalid choice"@)
    } else if c.decision != "approve"@ && (c.scope != "once"@ || c.allow_edits) {
        Some("deny/cancel choice invalid"@)
    } else if c.scope != "once"@ && is_absent_or_empty(c.scope_constraints) {
        Some("broader scope requires constraints"@)
    } else if exists|j: int|
        0 <= j < i && (#[trigger] cs[j]).decision == c.decision && cs[j].scope == c.scope {
        Some("duplicate decision/scope choice"@)
    } else {
        None
    }
}

/// The first error among the first `n` choices.
pub open spec fn choices_outcome(cs: Seq<SpecChoice>, n: int) -> Result<(), Text>
    decreases n,
{
    if n <= 0 {
        Ok(())
    } else {
        match choices_outcome(cs, n - 1) {
            Err(m) => Err(m),
            Ok(()) => match choice_error(cs, n - 1) {
                Some(m) => Err(m),
                None => Ok(()),
            },
        }
    }
}

/// The request offers a deny or cancel choice.
pub open spec fn has_exit_choice(cs: Seq<SpecChoice>) -> bool {
    exists|i: int| 0 <= i < cs.len() && (#[trigger] cs[i]).decision != "approve"@
}

fn check_choice(cs: &Vec<Choice>, i: usize) -> (r: Option<String>)
    requires
        i < cs@.len(),
    ensures
        match r {
            Some(m) => choice_error(cs.deep_view(), i as int) == Some(m@),
            None => choice_error(cs.deep_view(), i as int) is None,
        },
{
    let ghost csv = cs.deep_view();
    let c = &cs[i];
    assert(csv[i as int] == c@);
    if !decision_word(&c.decision) || !scope_word(&c.scope) || c.label.as_str().is_empty() {
        return Some(owned("invalid choice"));
    }
    let approve = is_text(&c.decision, "approve");
    let once = is_text(&c.scope, "once");
    if !approve && (!once || c.allow_edits) {
        return Some(owned("deny/cancel choice invalid"));
    }
    if !once && absent_or_empty(&c.scope_constraints) {
        return Some(owned("broader scope requires constraints"));
    }
    let mut j: usize = 0;
    while j < i
        invariant
            j <= i < cs@.len(),
            csv == cs.deep_view(),
            c@ == csv[i as int],
            is_decision_word(c@.decision) && is_scope_word(c@.scope) && c@.label.len() != 0,
            !(c@.decision != "approve"@ && (c@.scope != "once"@ || c@.allow_edits)),
            !(c@.scope != "once"@ && is_absent_or_empty(c@.scope_constraints)),
            forall|k: int|
                0 <= k < j ==> !((#[trigger] csv[k]).decision == csv[i as int].decision
                    && csv[k].scope == csv[i as int].scope),
        decreases i - j,
    {
        assert(csv[j as int] == cs[j as int]@);
        if cs[j].decision == c.decision && cs[j].scope == c.scope {
            assert(0 <= j < i && csv[j as int].decision == csv[i as int].decision
                && csv[j as int].scope == csv[i as int].scope);
            return Some(owned("duplicate decision/scope choice"));
        }
        j = j + 1;
    }
    None
}

fn check_choices(cs: &Vec<Choice>) -> (r: Result<(), ApprovalError>)
    ensures
        unit_result_view(r) == match choices_outcome(cs.deep_view(), cs@.len() as int) {
            Ok(()) => Ok(()),
            Err(m) => Err(SpecError::Validation(m)),
        },
{
    let mut i: usize = 0;
    while i < cs.len()
        invariant
            i <= cs@.len(),
            choices_outcome(cs.deep_view(), i as int) == Ok::<(), Text>(()),
        decreases cs@.len() - i,
    {
        match check_choice(cs, i) {
            Some(m) => {
                proof {
                    lemma_choices_outcome_stays(cs.deep_view(), i as int + 1, cs@.len() as int);
                }
                return Err(ApprovalError::Validation(m));
            },
            None => {},
        }
        i = i + 1;
    }
    Ok(())
}

/// Once an error is found among the first `n` choices, it stays the first.
pub proof fn lemma_choices_outcome_stays(cs: Seq<SpecChoice>, n: int, m: int)
    requires
        n <= m,
    ensures
        choices_outcome(cs, n) is Err ==> choices_outcome(cs, m) == choices_outcome(cs, n),
    decreases m - n,
{
    if n < m {
        lemma_choices_outcome_stays(cs, n, m - 1);
    }
}

fn exit_choice(cs: &Vec<Choice>) -> (r: bool)
    ensures
        r == has_exit_choice(cs.deep_view()),
{
    let mut i: usize = 0;
    while i < cs.len()
        invariant
            i <= cs@.len(),
            forall|k: int| 0 <= k < i ==> (#[trigger] cs.deep_view()[k]).decision == "approve"@,
        decreases cs@.len() - i,
    {
        assert(cs.deep_view()[i as int] == cs[i as int]@);
        if !is_text(&cs[i].decision, "approve") {
            return true;
        }
        i = i + 1;
    }
    false
}

// ---------------------------------------------------------------------------
// Requests, decisions, resolutions
// ---------------------------------------------------------------------------

pub open spec fn expiry_outcome(expires_at: Option<Text>, created: Instant) -> Result<(), Text> {
    match expires_at {
        None => Ok(()),
        Some(t) => match parse_time_outcome(t) {
            Err(m) => Err(m),
            Ok(expires) => if !instant_before(created, expires) {
                Err("expires_at must be later than created_at"@)
            } else {
                Ok(())
            },
        },
    }
}

/// A redacted presentation must explain what the opaque reference binds.
pub open spec fn redacted_without_hint(p: Option<SpecPresentation>) -> bool {
    match p {
        Some(p) => p.redacted && match p.binding_hint {
            None => true,
            Some(h) => h.len() == 0,
        },
        None => false,
    }
}

/// The checks of a request after its identity and times.
pub open spec fn request_body_outcome(r: SpecRequest) -> Result<(), Text> {
    if !valid_id_text(r.action.kind) || !valid_id_text(r.action.name) || r.action.summary.len() == 0 {
        Err("invalid action"@)
    } else if redacted_without_hint(r.action.presentation) {
        Err("redacted action requires binding_hint"@)
    } else if action_digest_text(r.action) != r.action_digest {
        Err("action_digest does not match action"@)
    } else if !is_digest_text(r.action_digest) || !is_risk_level(r.risk.level)
        || r.risk.reasons.len() == 0 || r.choices.len() == 0 {
        Err("invalid digest, risk, or choices"@)
    } else {
        match choices_outcome(r.choices, r.choices.len() as int) {
            Err(m) => Err(m),
            Ok(()) => if !has_exit_choice(r.choices) {
                Err("at least one deny or cancel choice is required"@)
            } else {
                Ok(())
            },
        }
    }
}

/// Validation of an `approval.requested` payload: the first failed check.
pub open spec fn request_outcome(r: SpecRequest) -> Result<(), Text> {
    if !valid_id_text(r.id) || r.status != "pending"@ || !valid_id_text(r.origin.harness)
        || !valid_id_text(r.origin.session_id) {
        Err("invalid request identity or origin"@)
    } else {
        match parse_time_outcome(r.created_at) {
            Err(m) => Err(m),
            Ok(created) => match expiry_outcome(r.expires_at, created) {
                Err(m) => Err(m),
                Ok(()) => request_body_outcome(r),
            },
        }
    }
}

pub open spec fn as_validation(o: Result<(), Text>) -> Result<(), SpecError> {
    match o {
        Ok(()) => Ok(()),
        Err(m) => Err(SpecError::Validation(m)),
    }
}

fn validate_request(r: &Request) -> (res: Result<(), ApprovalError>)
    ensures
        unit_result_view(res) == as_validation(request_outcome(r@)),
{
    if !valid_id(r.id.as_str()) || !is_text(&r.status, "pending") || !valid_id(
        r.origin.harness.as_str(),
    ) || !valid_id(r.origin.session_id.as_str()) {
        return Err(ApprovalError::Validation(owned("invalid request identity or origin")));
    }
    let created = parse_time(r.created_at.as_str())?;
    match &r.expires_at {
        Some(expires) => {
            let e = parse_time(expires.as_str())?;
            if !(created.0 < e.0 || (created.0 == e.0 && created.1 < e.1)) {
                return Err(
                    ApprovalError::Validation(owned("expires_at must be later than created_at")),
                );
            }
        },
        None => {},
    }
    if !valid_id(r.action.kind.as_str()) || !valid_id(r.action.name.as_str())
        || r.action.summary.as_str().is_empty() {
        return Err(ApprovalError::Validation(owned("invalid action")));
    }
    let redacted_gap = match &r.action.presentation {
        Some(p) => p.redacted && match &p.binding_hint {
            None => true,
            Some(h) => h.as_str().is_empty(),
        },
        None => false,
    };
    if redacted_gap {
        return Err(ApprovalError::Validation(owned("redacted action requires binding_hint")));
    }
    let digest = match action_digest(&r.action) {
        Ok(d) => d,
        Err(e) => {
            return Err(e);
        },
    };
    if digest != r.action_digest {
        return Err(ApprovalError::Validation(owned("action_digest does not match action")));
    }
    if !is_digest(r.action_digest.as_str()) || !risk_level(&r.risk.level) || r.risk.reasons.len()
        == 0 || r.choices.len() == 0 {
        return Err(ApprovalError::Validation(owned("invalid digest, risk, or choices")));
    }
    check_choices(&r.choices)?;
    if !exit_choice(&r.choices) {
        return Err(
            ApprovalError::Validation(owned("at least one deny or cancel choice is required")),
        );
    }
    Ok(())
}

/// Validation of an `approval.decided` payload.
pub open spec fn decision_outcome(d: SpecDecision) -> Result<(), Text> {
    if !valid_id_text(d.id) || !valid_id_text(d.request_id) || !is_digest_text(d.action_digest)
        || !is_decision_word(d.decision) || !is_scope_word(d.scope) || !valid_id_text(d.actor.id)
        || !is_actor_type(d.actor.actor_type) {
        Err("invalid decision"@)
    } else {
        match parse_time_outcome(d.decided_at) {
            Err(m) => Err(m),
            Ok(_) => if d.decision != "approve"@ && (d.scope != "once"@
                || d.replacement_arguments is Some) {
                Err("deny/cancel decision invalid"@)
            } else {
                Ok(())
            },
        }
    }
}

fn validate_decision(d: &Decision) -> (res: Result<(), ApprovalError>)
    ensures
        unit_result_view(res) == as_validation(decision_outcome(d@)),
{
    if !valid_id(d.id.as_str()) || !valid_id(d.request_id.as_str()) || !is_digest(
        d.action_digest.as_str(),
    ) || !decision_word(&d.decision) || !scope_word(&d.scope) || !valid_id(d.actor.id.as_str())
        || !actor_type(&d.actor.actor_type) {
        return Err(ApprovalError::Validation(owned("invalid decision")));
    }
    parse_time(d.decided_at.as_str())?;
    if !is_text(&d.decision, "approve") && (!is_text(&d.scope, "once")
        || d.replacement_arguments.is_some()) {
        return Err(ApprovalError::Validation(owned("deny/cancel decision invalid")));
    }
    Ok(())
}

/// Validation of an `approval.resolved` payload.
pub open spec fn resolution_outcome(r: SpecResolution) -> Result<(), Text> {
    if !valid_id_text(r.id) || !valid_id_text(r.request_id) || !is_digest_text(r.action_digest)
        || !is_outcome_word(r.outcome) || r.message.len() == 0 {
        Err("invalid resolution"@)
    } else {
        match parse_time_outcome(r.resolved_at) {
            Err(m) => Err(m),
            Ok(_) => Ok(()),
        }
    }
}

fn validate_resolution(r: &Resolution) -> (res: Result<(), ApprovalError>)
    ensures
        unit_result_view(res) == as_validation(resolution_outcome(r@)),
{
    if !valid_id(r.id.as_str()) || !valid_id(r.request_id.as_str()) || !is_digest(
        r.action_digest.as_str(),
    ) || !outcome_word(&r.outcome) || r.message.as_str().is_empty() {
        return Err(ApprovalError::Validation(owned("invalid resolution")));
    }
    parse_time(r.resolved_at.as_str())?;
    Ok(())
}

/// The first error among the first `n` requests of a snapshot.
pub open spec fn requests_outcome(rs: Seq<SpecRequest>, n: int) -> Result<(), Text>
    decreases n,
{
    if n <= 0 {
        Ok(())
    } else {
        match requests_outcome(rs, n - 1) {
            Err(m) => Err(m),
            Ok(()) => request_outcome(rs[n - 1]),
        }
    }
}

pub proof fn lemma_requests_outcome_stays(rs: Seq<SpecRequest>, n: int, m: int)
    requires
        n <= m,
    ensures
        requests_outcome(rs, n) is Err ==> requests_outcome(rs, m) == requests_outcome(rs, n),
    decreases m - n,
{
    if n < m {
        lemma_requests_outcome_stays(rs, n, m - 1);
    }
}

/// When the first `n` requests pass, each of them passes on its own.
pub proof fn lemma_requests_outcome_each(rs: Seq<SpecRequest>, n: int)
    requires
        n <= rs.len(),
        requests_outcome(rs, n) is Ok,
    ensures
        forall|i: int| 0 <= i < n ==> request_outcome(#[trigger] rs[i]) is Ok,
    decreases n,
{
    if n > 0 {
        lemma_requests_outcome_each(rs, n - 1);
    }
}

fn validate_requests(rs: &Vec<Request>) -> (res: Result<(), ApprovalError>)
    ensures
        unit_result_view(res) == as_validation(requests_outcome(rs.deep_view(), rs@.len() as int)),
{
    let mut i: usize = 0;
    while i < rs.len()
        invariant
            i <= rs@.len(),
            requests_outcome(rs.deep_view(), i as int) == Ok::<(), Text>(()),
        decreases rs@.len() - i,
    {
        assert(rs.deep_view()[i as int] == rs[i as int]@);
        match validate_request(&rs[i]) {
            Err(e) => {
                proof {
                    lemma_requests_outcome_stays(rs.deep_view(), i as int + 1, rs@.len() as int);
                }
                return Err(e);
            },
            Ok(()) => {},
        }
        i = i + 1;
    }
    Ok(())
}

pub open spec fn activity_outcome(a: SpecActivity) -> Result<(), Text> {
    if !valid_id_text(a.request_id) || a.message.len() == 0 {
        Err("invalid activity"@)
    } else {
        Ok(())
    }
}

/// The number of payloads an envelope carries.
pub open spec fn payload_count(e: SpecEnvelope) -> int {
    (if e.request is Some { 1int } else { 0int }) + (if e.decision is Some { 1int } else { 0int })
        + (if e.resolution is Some { 1int } else { 0int }) + (if e.snapshot is Some {
        1int
    } else {
        0int
    }) + (if e.activity is Some { 1int } else { 0int })
}

/// The payload checks selected by the event type.
pub open spec fn payload_outcome(e: SpecEnvelope) -> Result<(), Text> {
    if e.event_type == "approval.requested"@ {
        match e.request {
            None => Err("request payload required"@),
            Some(r) => request_outcome(r),
        }
    } else if e.event_type == "approval.decided"@ {
        match e.decision {
            None => Err("decision payload required"@),
            Some(d) => decision_outcome(d),
        }
    } else if e.event_type == "approval.resolved"@ {
        match e.resolution {
            None => Err("resolution payload required"@),
            Some(r) => resolution_outcome(r),
        }
    } else if e.event_type == "approval.snapshot"@ {
        match e.snapshot {
            None => Err("snapshot payload required"@),
            Some(s) => requests_outcome(s.pending, s.pending.len() as int),
        }
    } else if e.event_type == "approval.activity"@ {
        match e.activity {
            None => Err("activity payload required"@),
            Some(a) => activity_outcome(a),
        }
    } else {
        Err("unknown event type"@)
    }
}

/// Core validation of an envelope: the first check that fails, or success.
#[verifier::opaque]
pub open spec fn validate_outcome(e: SpecEnvelope) -> Result<(), Text> {
    if e.aais != "1.0"@ || !valid_id_text(e.id) {
        Err("invalid envelope version or id"@)
    } else {
        match parse_time_outcome(e.occurred_at) {
            Err(m) => Err(m),
            Ok(_) => if payload_count(e) != 1 {
                Err("exactly one payload is required"@)
            } else {
                payload_outcome(e)
            },
        }
    }
}

/// A valid envelope carries the payload its event type names.
pub proof fn lemma_valid_payload(e: SpecEnvelope)
    requires
        validate_outcome(e) is Ok,
    ensures
        e.event_type == "approval.requested"@ ==> e.request is Some,
        e.event_type == "approval.requested"@ ==> request_outcome(e.request.unwrap()) is Ok,
        e.event_type == "approval.snapshot"@ ==> requests_outcome(
            e.snapshot.unwrap().pending,
            e.snapshot.unwrap().pending.len() as int,
        ) is Ok,
        e.event_type == "approval.decided"@ ==> e.decision is Some,
        e.event_type == "approval.resolved"@ ==> e.resolution is Some,
        e.event_type == "approval.snapshot"@ ==> e.snapshot is Some,
        e.event_type == "approval.activity"@ ==> e.activity is Some,
{
    reveal(validate_outcome);
    reveal_strlit("approval.requested");
    reveal_strlit("approval.decided");
    reveal_strlit("approval.resolved");
    reveal_strlit("approval.snapshot");
    reveal_strlit("approval.activity");
    assert("approval.requested"@[11] != "approval.resolved"@[11]);
    assert("approval.decided"@[9] != "approval.resolved"@[9]);
    assert("approval.requested"@[9] != "approval.snapshot"@[9]);
    assert("approval.decided"@[9] != "approval.snapshot"@[9]);
    assert("approval.resolved"@[9] != "approval.snapshot"@[9]);
}

/// The envelope passes Core validation.
pub open spec fn envelope_valid(e: SpecEnvelope) -> bool {
    validate_outcome(e) is Ok
}

/// Validate an AAIS envelope.
pub fn validate(e: &Envelope) -> (res: Result<(), ApprovalError>)
    ensures
        unit_result_view(res) == as_validation(validate_outcome(e@)),
{
    reveal(validate_outcome);
    if !is_text(&e.aais, "1.0") || !valid_id(e.id.as_str()) {
        return Err(ApprovalError::Validation(owned("invalid envelope version or id")));
    }
    parse_time(e.occurred_at.as_str())?;
    let mut payloads: usize = 0;
    if e.request.is_some() {
        payloads = payloads + 1;
    }
    if e.decision.is_some() {
        payloads = payloads + 1;
    }
    if e.resolution.is_some() {
        payloads = payloads + 1;
    }
    if e.snapshot.is_some() {
        payloads = payloads + 1;
    }
    if e.activity.is_some() {
        payloads = payloads + 1;
    }
    if payloads != 1 {
        return Err(ApprovalError::Validation(owned("exactly one payload is required")));
    }
    if is_text(&e.event_type, "approval.requested") {
        match &e.request {
            None => Err(ApprovalError::Validation(owned("request payload required"))),
            Some(r) => validate_request(r),
        }
    } else if is_text(&e.event_type, "approval.decided") {
        match &e.decision {
            None => Err(ApprovalError::Validation(owned("decision payload required"))),
            Some(d) => validate_decision(d),
        }
    } else if is_text(&e.event_type, "approval.resolved") {
        match &e.resolution {
            None => Err(ApprovalError::Validation(owned("resolution payload required"))),
            Some(r) => validate_resolution(r),
        }
    } else if is_text(&e.event_type, "approval.snapshot") {
        match &e.snapshot {
            None => Err(ApprovalError::Validation(owned("snapshot payload required"))),
            Some(s) => validate_requests(&s.pending),
        }
    } else if is_text(&e.event_type, "approval.activity") {
        match &e.activity {
            None => Err(ApprovalError::Validation(owned("activity payload required"))),
            Some(a) => validate_activity(a),
        }
    } else {
        Err(ApprovalError::Validation(owned("unknown event type")))
    }
}

fn validate_activity(a: &Activity) -> (res: Result<(), ApprovalError>)
    ensures
        unit_result_view(res) == as_validation(activity_outcome(a@)),
{
    if !valid_id(a.request_id.as_str()) || a.message.as_str().is_empty() {
        Err(ApprovalError::Validation(owned("invalid activity")))
    } else {
        Ok(())
    }
}

} // verus!
