//! Builders for `approval.requested` and `approval.decided` envelopes.
use vstd::prelude::*;
use crate::canonical::{action_digest, action_digest_text};
use crate::external::{
    format_utc_rfc3339, is_lower_hex_char, random_uuid_simple, utc_now, utc_rfc3339_text,
};
use crate::text::{concat, owned, is_text};
use crate::time::{SpecTimestamp, Timestamp};
use crate::types::{
    Action, ApprovalError, Actor, Choice, Decision, Envelope, JsonObject, Origin, Request, Risk,
    SpecAction, SpecActor, SpecChoice, SpecDecision, SpecEnvelope, SpecError, SpecOrigin,
    SpecRequest, SpecRisk, Text, envelope_result_view,
};
use crate::validate::{lemma_valid_payload, validate, validate_outcome};

verus! {

/// Options for constructing a requested envelope.
pub struct CreateRequestOptions {
    pub action: Action,
    pub origin: Origin,
    pub risk: Risk,
    pub choices: Vec<Choice>,
    pub sequence: u64,
    pub stream: Option<String>,
    pub request_id: Option<String>,
    pub event_id: Option<String>,
    pub created_at: Option<Timestamp>,
    pub expires_at: Option<Timestamp>,
}

pub struct SpecRequestOptions {
    pub action: SpecAction,
    pub origin: SpecOrigin,
    pub risk: SpecRisk,
    pub choices: Seq<SpecChoice>,
    pub sequence: u64,
    pub stream: Option<Text>,
    pub request_id: Option<Text>,
    pub event_id: Option<Text>,
    pub created_at: Option<SpecTimestamp>,
    pub expires_at: Option<SpecTimestamp>,
}

pub open spec fn timestamp_view(t: Option<Timestamp>) -> Option<SpecTimestamp> {
    match t {
        Some(t) => Some(t@),
        None => None,
    }
}

impl View for CreateRequestOptions {
    type V = SpecRequestOptions;

    open spec fn view(&self) -> SpecRequestOptions {
        SpecRequestOptions {
            action: self.action@,
            origin: self.origin@,
            risk: self.risk@,
            choices: self.choices.deep_view(),
            sequence: self.sequence,
            stream: self.stream.deep_view(),
            request_id: self.request_id.deep_view(),
            event_id: self.event_id.deep_view(),
            created_at: timestamp_view(self.created_at),
            expires_at: timestamp_view(self.expires_at),
        }
    }
}

/// Options for constructing a decision envelope.
pub struct CreateDecisionOptions {
    pub decision: String,
    pub scope: String,
    pub actor: Actor,
    pub sequence: u64,
    /// The presenter's own stream; a decision is never written into the
    /// authority's stream.
    pub stream: Option<String>,
    pub decision_id: Option<String>,
    pub event_id: Option<String>,
    pub decided_at: Option<Timestamp>,
    pub replacement_arguments: Option<JsonObject>,
}

pub struct SpecDecisionOptions {
    pub decision: Text,
    pub scope: Text,
    pub actor: SpecActor,
    pub sequence: u64,
    pub stream: Option<Text>,
    pub decision_id: Option<Text>,
    pub event_id: Option<Text>,
    pub decided_at: Option<SpecTimestamp>,
    pub replacement_arguments: Option<Text>,
}

impl View for CreateDecisionOptions {
    type V = SpecDecisionOptions;

    open spec fn view(&self) -> SpecDecisionOptions {
        SpecDecisionOptions {
            decision: self.decision@,
            scope: self.scope@,
            actor: self.actor@,
            sequence: self.sequence,
            stream: self.stream.deep_view(),
            decision_id: self.decision_id.deep_view(),
            event_id: self.event_id.deep_view(),
            decided_at: timestamp_view(self.decided_at),
            replacement_arguments: self.replacement_arguments.deep_view(),
        }
    }
}

/// An identifier made of `prefix` and a random simple UUID.
pub open spec fn generated_id(prefix: Text, id: Text) -> bool {
    &&& id.len() == prefix.len() + 32
    &&& id.subrange(0, prefix.len() as int) == prefix
    &&& forall|i: int| prefix.len() <= i < id.len() ==> is_lower_hex_char(#[trigger] id[i])
}

/// The identifier used: the given one, else a generated one.
pub open spec fn chosen_id(given: Option<Text>, prefix: Text, id: Text) -> bool {
    match given {
        Some(g) => id == g,
        None => generated_id(prefix, id),
    }
}

/// The instant used: the given one, else a reading of the clock written as
/// chrono's RFC 3339 UTC text (`Z` offset, automatic sub-second digits).
pub open spec fn chosen_time(given: Option<SpecTimestamp>, t: SpecTimestamp) -> bool {
    match given {
        Some(g) => t == g,
        None => utc_rfc3339_text(t.seconds, t.nanos) == Some(t.text),
    }
}

pub open spec fn timestamp_text(t: Option<SpecTimestamp>) -> Option<Text> {
    match t {
        Some(t) => Some(t.text),
        None => None,
    }
}

/// The envelope `create_request` builds from its options, identifiers and
/// creation instant.
pub open spec fn requested_envelope(
    o: SpecRequestOptions,
    request_id: Text,
    event_id: Text,
    created: SpecTimestamp,
) -> SpecEnvelope {
    SpecEnvelope {
        aais: "1.0"@,
        event_type: "approval.requested"@,
        id: event_id,
        occurred_at: created.text,
        sequence: o.sequence,
        stream: o.stream,
        extensions: None,
        request: Some(
            SpecRequest {
                id: request_id,
                created_at: created.text,
                expires_at: timestamp_text(o.expires_at),
                status: "pending"@,
                origin: o.origin,
                action: o.action,
                action_digest: action_digest_text(o.action),
                risk: o.risk,
                choices: o.choices,
                extensions: None,
            },
        ),
        decision: None,
        resolution: None,
        snapshot: None,
        activity: None,
    }
}

/// What `create_request` returns for a given choice of identifiers and instant.
pub open spec fn request_result(
    o: SpecRequestOptions,
    request_id: Text,
    event_id: Text,
    created: SpecTimestamp,
) -> Result<SpecEnvelope, SpecError> {
    let e = requested_envelope(o, request_id, event_id, created);
    match validate_outcome(e) {
        Ok(()) => Ok(e),
        Err(m) => Err(SpecError::Validation(m)),
    }
}

fn fresh_id(prefix: &str) -> (r: String)
    ensures
        generated_id(prefix@, r@),
{
    let u = random_uuid_simple();
    let r = concat(prefix, u.as_str());
    assert(r@.subrange(0, prefix@.len() as int) =~= prefix@);
    assert forall|i: int| prefix@.len() <= i < r@.len() implies is_lower_hex_char(#[trigger] r@[i]) by {
        assert(r@[i] == u@[i - prefix@.len()]);
    }
    r
}

fn id_or_fresh(given: Option<String>, prefix: &str) -> (r: String)
    ensures
        chosen_id(given.deep_view(), prefix@, r@),
{
    match given {
        Some(id) => id,
        None => fresh_id(prefix),
    }
}

/// The clock's reading with its RFC 3339 UTC text.
fn clock_reading() -> (r: (i64, u32, String))
    ensures
        utc_rfc3339_text(r.0, r.1) == Some(r.2@),
{
    let (seconds, nanos) = utc_now();
    match format_utc_rfc3339(seconds, nanos) {
        Some(text) => (seconds, nanos, text),
        None => {
            proof {
                assert(false);
            }
            (seconds, nanos, String::new())
        },
    }
}

/// The instant a builder uses: the given one, else the clock's reading.
fn given_or_clock(given: Option<Timestamp>) -> (r: (i64, u32, String))
    ensures
        chosen_time(
            timestamp_view(given),
            SpecTimestamp { seconds: r.0, nanos: r.1, text: r.2@ },
        ),
{
    match given {
        Some(t) => (t.seconds(), t.nanos(), t.text().clone()),
        None => clock_reading(),
    }
}

fn time_text(t: &Option<Timestamp>) -> (r: Option<String>)
    ensures
        r.deep_view() == timestamp_text(timestamp_view(*t)),
{
    match t {
        Some(t) => Some(t.text().clone()),
        None => None,
    }
}

/// Build and validate an `approval.requested` envelope.
pub fn create_request(options: CreateRequestOptions) -> (r: Result<Envelope, ApprovalError>)
    ensures
        ({
            exists|request_id: Text, event_id: Text, created: SpecTimestamp|
                {
                    &&& chosen_id(options@.request_id, "apr_"@, request_id)
                    &&& chosen_id(options@.event_id, "evt_"@, event_id)
                    &&& chosen_time(options@.created_at, created)
                    &&& envelope_result_view(r) == #[trigger] request_result(
                        options@,
                        request_id,
                        event_id,
                        created,
                    )
                }
        }),
{
    let ghost o = options@;
    let (created_seconds, created_nanos, created_text) = given_or_clock(options.created_at);
    let ghost created = SpecTimestamp {
        seconds: created_seconds,
        nanos: created_nanos,
        text: created_text@,
    };
    let request_id = id_or_fresh(options.request_id, "apr_");
    let digest = match action_digest(&options.action) {
        Ok(d) => d,
        Err(e) => {
            return Err(e);
        },
    };
    let expires_at = time_text(&options.expires_at);
    let request = Request {
        id: request_id,
        created_at: created_text.clone(),
        expires_at,
        status: owned("pending"),
        origin: options.origin,
        action: options.action,
        action_digest: digest,
        risk: options.risk,
        choices: options.choices,
        extensions: None,
    };
    let event_id = id_or_fresh(options.event_id, "evt_");
    let envelope = Envelope {
        aais: owned("1.0"),
        event_type: owned("approval.requested"),
        id: event_id,
        occurred_at: created_text,
        sequence: options.sequence,
        stream: options.stream,
        extensions: None,
        request: Some(request),
        decision: None,
        resolution: None,
        snapshot: None,
        activity: None,
    };
    let ghost rid = envelope.request.unwrap().id@;
    let ghost eid = envelope.id@;
    assert(envelope@ == requested_envelope(o, rid, eid, created));
    let v = validate(&envelope);
    let result = match v {
        Ok(()) => Ok(envelope),
        Err(e) => Err(e),
    };
    assert(envelope_result_view(result) == request_result(o, rid, eid, created));
    result
}

/// The envelope `create_decision` builds for a validated request.
pub open spec fn decided_envelope(
    request: SpecRequest,
    o: SpecDecisionOptions,
    decision_id: Text,
    event_id: Text,
    decided: SpecTimestamp,
) -> SpecEnvelope {
    SpecEnvelope {
        aais: "1.0"@,
        event_type: "approval.decided"@,
        id: event_id,
        occurred_at: decided.text,
        sequence: o.sequence,
        stream: o.stream,
        extensions: None,
        request: None,
        decision: Some(
            SpecDecision {
                id: decision_id,
                request_id: request.id,
                action_digest: request.action_digest,
                decided_at: decided.text,
                decision: o.decision,
                scope: o.scope,
                actor: o.actor,
                replacement_arguments: o.replacement_arguments,
                extensions: None,
            },
        ),
        resolution: None,
        snapshot: None,
        activity: None,
    }
}

/// What `create_decision` returns for a given choice of identifiers and
/// instant, once the requested envelope is known to be a valid request.
pub open spec fn decision_result(
    request: SpecRequest,
    o: SpecDecisionOptions,
    decision_id: Text,
    event_id: Text,
    decided: SpecTimestamp,
) -> Result<SpecEnvelope, SpecError> {
    let e = decided_envelope(request, o, decision_id, event_id, decided);
    match validate_outcome(e) {
        Ok(()) => Ok(e),
        Err(m) => Err(SpecError::Validation(m)),
    }
}

pub open spec fn msg_decision_needs_request() -> Text {
    "create_decision requires approval.requested"@
}

/// Build a decision bound to an `approval.requested` envelope.
pub fn create_decision(requested: &Envelope, options: CreateDecisionOptions) -> (r: Result<
    Envelope,
    ApprovalError,
>)
    ensures
        match validate_outcome(requested@) {
            Err(m) => envelope_result_view(r) == Err::<SpecEnvelope, SpecError>(
                SpecError::Validation(m),
            ),
            Ok(()) => if requested@.event_type != "approval.requested"@ {
                envelope_result_view(r) == Err::<SpecEnvelope, SpecError>(
                    SpecError::Validation(msg_decision_needs_request()),
                )
            } else {
                exists|decision_id: Text, event_id: Text, decided: SpecTimestamp|
                    {
                        &&& chosen_id(options@.decision_id, "dec_"@, decision_id)
                        &&& chosen_id(options@.event_id, "evt_"@, event_id)
                        &&& chosen_time(options@.decided_at, decided)
                        &&& envelope_result_view(r) == #[trigger] decision_result(
                            requested@.request.unwrap(),
                            options@,
                            decision_id,
                            event_id,
                            decided,
                        )
                    }
            },
        },
{
    let ghost o = options@;
    validate(requested)?;
    proof {
        lemma_valid_payload(requested@);
    }
    if !is_text(&requested.event_type, "approval.requested") {
        return Err(ApprovalError::Validation(owned("create_decision requires approval.requested")));
    }
    let request = match &requested.request {
        Some(r) => r,
        None => {
            proof {
                assert(false);
            }
            return Err(ApprovalError::Validation(owned("request payload required")));
        },
    };
    let (decided_seconds, decided_nanos, decided_text) = given_or_clock(options.decided_at);
    let ghost decided = SpecTimestamp {
        seconds: decided_seconds,
        nanos: decided_nanos,
        text: decided_text@,
    };
    let decision_id = id_or_fresh(options.decision_id, "dec_");
    let decision = Decision {
        id: decision_id,
        request_id: request.id.clone(),
        action_digest: request.action_digest.clone(),
        decided_at: decided_text.clone(),
        decision: options.decision,
        scope: options.scope,
        actor: options.actor,
        replacement_arguments: options.replacement_arguments,
        extensions: None,
    };
    let event_id = id_or_fresh(options.event_id, "evt_");
    let envelope = Envelope {
        aais: owned("1.0"),
        event_type: owned("approval.decided"),
        id: event_id,
        occurred_at: decided_text,
        sequence: options.sequence,
        stream: options.stream,
        extensions: None,
        request: None,
        decision: Some(decision),
        resolution: None,
        snapshot: None,
        activity: None,
    };
    let ghost did = envelope.decision.unwrap().id@;
    let ghost eid = envelope.id@;
    assert(envelope@ == decided_envelope(requested@.request.unwrap(), o, did, eid, decided));
    let v = validate(&envelope);
    let result = match v {
        Ok(()) => Ok(envelope),
        Err(e) => Err(e),
    };
    assert(envelope_result_view(result) == decision_result(requested@.request.unwrap(), o, did, eid, decided));
    result
}

} // verus!
