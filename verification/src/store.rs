//! The in-memory, replay-safe approval state machine (section 10 of the
//! specification).
use vstd::prelude::*;
use crate::canonical::{action_digest, action_digest_text, decision_fingerprint, decision_fingerprint_of};
use crate::copy::Duplicate;
use crate::external::random_uuid_simple;
use crate::builders::generated_id;
use crate::text::{concat, is_text, owned};
use crate::time::{instant_before, parse_time, parse_time_outcome, Instant, SpecTimestamp, Timestamp};
use crate::types::{
    Action, ApprovalError, Decision, Envelope, Request, Resolution, Snapshot, SpecAction,
    SpecDecision, SpecEnvelope, SpecError, SpecRequest, SpecResolution, SpecSnapshot, Text,
    envelope_result_view, unit_result_view,
};
use crate::validate::{
    lemma_requests_outcome_each, lemma_valid_payload, request_outcome, validate, validate_outcome,
};

verus! {

/// A resolved request: its resolution envelope and the fingerprint of the
/// decision that produced it.
struct Resolved {
    request_id: String,
    resolution: Envelope,
    fingerprint: String,
}

pub struct SpecResolved {
    pub request_id: Text,
    pub resolution: SpecEnvelope,
    pub fingerprint: Text,
}

impl View for Resolved {
    type V = SpecResolved;

    closed spec fn view(&self) -> SpecResolved {
        SpecResolved {
            request_id: self.request_id@,
            resolution: self.resolution@,
            fingerprint: self.fingerprint@,
        }
    }
}

impl DeepView for Resolved {
    type V = SpecResolved;

    closed spec fn deep_view(&self) -> SpecResolved {
        self.view()
    }
}

/// Reference in-memory, replay-safe approval state machine.
pub struct ApprovalStore {
    pending: Vec<Envelope>,
    resolved: Vec<Resolved>,
    pub last_sequence: u64,
}

/// The state of a store: pending requests in arrival order, resolved requests,
/// and the last sequence number the store has seen or issued.
pub struct SpecStore {
    pub pending: Seq<SpecEnvelope>,
    pub resolved: Seq<SpecResolved>,
    pub last_sequence: u64,
}

impl View for ApprovalStore {
    type V = SpecStore;

    closed spec fn view(&self) -> SpecStore {
        SpecStore {
            pending: self.pending.deep_view(),
            resolved: self.resolved.deep_view(),
            last_sequence: self.last_sequence,
        }
    }
}

/// The request identifier of a pending `approval.requested` envelope.
pub open spec fn request_key(e: SpecEnvelope) -> Text {
    e.request.unwrap().id
}

/// Position of the pending envelope for a request, or -1.
pub open spec fn find_pending(p: Seq<SpecEnvelope>, id: Text) -> int
    decreases p.len(),
{
    if p.len() == 0 {
        -1
    } else if request_key(p.last()) == id {
        p.len() - 1
    } else {
        find_pending(p.drop_last(), id)
    }
}

/// Position of the resolution of a request, or -1.
pub open spec fn find_resolved(r: Seq<SpecResolved>, id: Text) -> int
    decreases r.len(),
{
    if r.len() == 0 {
        -1
    } else if r.last().request_id == id {
        r.len() - 1
    } else {
        find_resolved(r.drop_last(), id)
    }
}

/// A pending entry: an `approval.requested` envelope whose request is valid.
#[verifier::opaque]
pub open spec fn is_pending_entry(e: SpecEnvelope) -> bool {
    &&& e.event_type == "approval.requested"@
    &&& e.request is Some
    &&& request_outcome(e.request.unwrap()) is Ok
}

/// The store's invariant: pending entries are valid requests, at most one per
/// request identifier, at most one resolution per request identifier, and no
/// resolved request is pending.
pub open spec fn store_wf(s: SpecStore) -> bool {
    &&& forall|i: int| 0 <= i < s.pending.len() ==> is_pending_entry(#[trigger] s.pending[i])
    &&& forall|i: int, j: int|
        0 <= i < j < s.pending.len() ==> request_key(#[trigger] s.pending[i]) != request_key(
            #[trigger] s.pending[j],
        )
    &&& forall|i: int, j: int|
        0 <= i < j < s.resolved.len() ==> (#[trigger] s.resolved[i]).request_id != (
        #[trigger] s.resolved[j]).request_id
    &&& forall|i: int, j: int|
        0 <= i < s.pending.len() && 0 <= j < s.resolved.len() ==> request_key(
            #[trigger] s.pending[i],
        ) != (#[trigger] s.resolved[j]).request_id
}

pub open spec fn empty_store(last_sequence: u64) -> SpecStore {
    SpecStore { pending: Seq::empty(), resolved: Seq::empty(), last_sequence }
}

pub open spec fn max_u64(a: u64, b: u64) -> u64 {
    if a >= b {
        a
    } else {
        b
    }
}

/// Keeping a request pending: an identical entry stays as it is, a different
/// one under the same identifier conflicts, and a new one joins the pending
/// requests (raising the last sequence number to its own where that is larger).
pub open spec fn insert_outcome(s: SpecStore, e: SpecEnvelope) -> (Result<(), SpecError>, SpecStore) {
    let id = request_key(e);
    let i = find_pending(s.pending, id);
    if i >= 0 {
        if s.pending[i] != e {
            (Err(SpecError::Conflict("request "@ + id + " already exists"@)), s)
        } else {
            (Ok(()), s)
        }
    } else {
        (
            Ok(()),
            SpecStore {
                pending: s.pending.push(e),
                resolved: s.resolved,
                last_sequence: max_u64(s.last_sequence, e.sequence),
            },
        )
    }
}

/// What `add` returns and leaves behind. A request that has already been
/// resolved is refused: a terminal request never becomes pending again.
pub open spec fn add_outcome(s: SpecStore, e: SpecEnvelope) -> (Result<(), SpecError>, SpecStore) {
    match validate_outcome(e) {
        Err(m) => (Err(SpecError::Validation(m)), s),
        Ok(()) => if e.event_type != "approval.requested"@ {
            (Err(SpecError::Validation("add requires approval.requested"@)), s)
        } else if find_resolved(s.resolved, request_key(e)) >= 0 {
            (Err(SpecError::Conflict("request "@ + request_key(e) + " already resolved"@)), s)
        } else {
            insert_outcome(s, e)
        },
    }
}

pub proof fn lemma_find_pending(p: Seq<SpecEnvelope>, id: Text)
    ensures
        -1 <= find_pending(p, id) < p.len(),
        find_pending(p, id) >= 0 ==> request_key(p[find_pending(p, id)]) == id,
        find_pending(p, id) == -1 ==> forall|i: int|
            0 <= i < p.len() ==> request_key(#[trigger] p[i]) != id,
    decreases p.len(),
{
    if p.len() > 0 {
        lemma_find_pending(p.drop_last(), id);
        if request_key(p.last()) != id {
            assert forall|i: int| 0 <= i < p.len() - 1 implies p[i] == p.drop_last()[i] by {}
        }
    }
}

pub proof fn lemma_find_resolved(r: Seq<SpecResolved>, id: Text)
    ensures
        -1 <= find_resolved(r, id) < r.len(),
        find_resolved(r, id) >= 0 ==> r[find_resolved(r, id)].request_id == id,
        find_resolved(r, id) == -1 ==> forall|i: int|
            0 <= i < r.len() ==> (#[trigger] r[i]).request_id != id,
    decreases r.len(),
{
    if r.len() > 0 {
        lemma_find_resolved(r.drop_last(), id);
        if r.last().request_id != id {
            assert forall|i: int| 0 <= i < r.len() - 1 implies r[i] == r.drop_last()[i] by {}
        }
    }
}

/// The view of the optional current action handed to `decide`.
pub open spec fn action_ref_view(a: Option<&Action>) -> Option<SpecAction> {
    match a {
        Some(a) => Some(a@),
        None => None,
    }
}

/// The request offers the `(decision, scope)` tuple.
pub open spec fn is_offered(cs: Seq<crate::types::SpecChoice>, decision: Text, scope: Text) -> bool {
    exists|i: int|
        0 <= i < cs.len() && (#[trigger] cs[i]).decision == decision && cs[i].scope == scope
}

/// Choice `i` offers the `(decision, scope)` tuple.
pub open spec fn offered_at(cs: Seq<crate::types::SpecChoice>, decision: Text, scope: Text, i: int) -> bool {
    0 <= i < cs.len() && cs[i].decision == decision && cs[i].scope == scope
}

/// Choice `i` is the first that offers the `(decision, scope)` tuple.
pub open spec fn first_offered_at(cs: Seq<crate::types::SpecChoice>, decision: Text, scope: Text, i: int) -> bool {
    &&& offered_at(cs, decision, scope, i)
    &&& forall|k: int| 0 <= k < i ==> !#[trigger] offered_at(cs, decision, scope, k)
}

/// The first choice offering the `(decision, scope)` tuple allows edits.
pub open spec fn edits_allowed(cs: Seq<crate::types::SpecChoice>, decision: Text, scope: Text) -> bool {
    cs[choose|i: int| first_offered_at(cs, decision, scope, i)].allow_edits
}

/// The request has expired at `now`: its expiry reads as an instant no later
/// than `now`.
pub open spec fn is_expired(expires_at: Option<Text>, now: Instant) -> bool {
    match expires_at {
        None => false,
        Some(x) => match parse_time_outcome(x) {
            Ok(t) => !instant_before(now, t),
            Err(_) => false,
        },
    }
}

/// The digest binding fails: the decision, or the action about to be executed,
/// does not carry the request's digest.
pub open spec fn is_stale(r: SpecRequest, d: SpecDecision, current: Option<SpecAction>) -> bool {
    d.action_digest != r.action_digest || (current matches Some(a) && action_digest_text(a)
        != r.action_digest)
}

/// The outcome and message of a decision on a pending request.
pub open spec fn verdict(
    r: SpecRequest,
    d: SpecDecision,
    now: Instant,
    current: Option<SpecAction>,
) -> (Text, Text) {
    if is_expired(r.expires_at, now) {
        ("expired"@, "Approval request expired."@)
    } else if is_stale(r, d, current) {
        ("stale"@, "The decision does not match the current action."@)
    } else if !is_offered(r.choices, d.decision, d.scope) {
        ("invalid"@, "The selected decision and scope were not offered."@)
    } else if d.replacement_arguments is Some {
        if edits_allowed(r.choices, d.decision, d.scope) {
            ("invalid"@, "Edited actions require a new request."@)
        } else {
            ("invalid"@, "This choice does not allow edits."@)
        }
    } else if d.decision == "approve"@ {
        ("approved"@, "Approval accepted."@)
    } else if d.decision == "deny"@ {
        ("denied"@, "Action denied."@)
    } else {
        ("cancelled"@, "Approval cancelled."@)
    }
}

/// The `approval.resolved` envelope issued for a decision.
pub open spec fn resolution_envelope(
    requested: SpecEnvelope,
    d: SpecDecision,
    verdict: (Text, Text),
    at: Text,
    sequence: u64,
) -> SpecEnvelope {
    SpecEnvelope {
        aais: "1.0"@,
        event_type: "approval.resolved"@,
        id: "evt_res_"@ + d.id,
        occurred_at: at,
        sequence,
        stream: requested.stream,
        extensions: None,
        request: None,
        decision: None,
        resolution: Some(
            SpecResolution {
                id: "res_"@ + d.id,
                request_id: d.request_id,
                decision_id: Some(d.id),
                action_digest: requested.request.unwrap().action_digest,
                resolved_at: at,
                outcome: verdict.0,
                message: verdict.1,
                effective_scope: if verdict.0 == "approved"@ || verdict.0 == "denied"@ {
                    Some(d.scope)
                } else {
                    None
                },
                extensions: None,
            },
        ),
        snapshot: None,
        activity: None,
    }
}

/// The sequence number of the resolution: one past the store's last, or the
/// decision's own if that is larger.
pub open spec fn next_sequence(last: u64, incoming: u64) -> u64 {
    max_u64((last + 1) as u64, incoming)
}

/// A decision that `decide` answers with a new resolution: a valid
/// `approval.decided` envelope for a request that is pending and not resolved.
pub open spec fn is_first_decision(s: SpecStore, e: SpecEnvelope) -> bool {
    &&& validate_outcome(e) is Ok
    &&& e.event_type == "approval.decided"@
    &&& find_resolved(s.resolved, e.decision.unwrap().request_id) < 0
    &&& find_pending(s.pending, e.decision.unwrap().request_id) >= 0
}

/// What `decide` returns and leaves behind.
pub open spec fn decide_outcome(
    s: SpecStore,
    e: SpecEnvelope,
    now: SpecTimestamp,
    current: Option<SpecAction>,
) -> (Result<SpecEnvelope, SpecError>, SpecStore) {
    match validate_outcome(e) {
        Err(m) => (Err(SpecError::Validation(m)), s),
        Ok(()) => if e.event_type != "approval.decided"@ {
            (Err(SpecError::Validation("decide requires approval.decided"@)), s)
        } else {
            let d = e.decision.unwrap();
            let fingerprint = decision_fingerprint(d);
            let ri = find_resolved(s.resolved, d.request_id);
            if ri >= 0 {
                if s.resolved[ri].fingerprint == fingerprint {
                    (Ok(s.resolved[ri].resolution), s)
                } else {
                    (Err(SpecError::Conflict("request already resolved"@)), s)
                }
            } else {
                let pi = find_pending(s.pending, d.request_id);
                if pi < 0 {
                    (Err(SpecError::Validation("unknown pending request"@)), s)
                } else {
                    let requested = s.pending[pi];
                    let v = verdict(requested.request.unwrap(), d, now.instant(), current);
                    let sequence = next_sequence(s.last_sequence, e.sequence);
                    let result = resolution_envelope(requested, d, v, now.text, sequence);
                    match validate_outcome(result) {
                        Err(m) => (
                            Err(SpecError::Validation(m)),
                            SpecStore { last_sequence: sequence, ..s },
                        ),
                        Ok(()) => (
                            Ok(result),
                            SpecStore {
                                pending: s.pending.remove(pi),
                                resolved: s.resolved.push(
                                    SpecResolved {
                                        request_id: d.request_id,
                                        resolution: result,
                                        fingerprint,
                                    },
                                ),
                                last_sequence: sequence,
                            },
                        ),
                    }
                }
            }
        },
    }
}

/// The position of the first choice offering `(decision, scope)`, if any.
fn offered_choice(cs: &Vec<crate::types::Choice>, decision: &String, scope: &String) -> (r: Option<usize>)
    ensures
        match r {
            Some(i) => first_offered_at(cs.deep_view(), decision@, scope@, i as int),
            None => !is_offered(cs.deep_view(), decision@, scope@),
        },
{
    let ghost csv = cs.deep_view();
    let mut i: usize = 0;
    while i < cs.len()
        invariant
            i <= cs@.len(),
            csv == cs.deep_view(),
            forall|k: int| 0 <= k < i ==> !offered_at(csv, decision@, scope@, k),
        decreases cs@.len() - i,
    {
        assert(csv[i as int] == cs[i as int]@);
        if cs[i].decision == *decision && cs[i].scope == *scope {
            return Some(i);
        }
        i = i + 1;
    }
    assert forall|k: int| 0 <= k < csv.len() implies !((#[trigger] csv[k]).decision == decision@
        && csv[k].scope == scope@) by {
        assert(!offered_at(csv, decision@, scope@, k));
    }
    None
}

fn expired(expires_at: &Option<String>, now: &Timestamp) -> (r: bool)
    ensures
        r == is_expired(expires_at.deep_view(), now@.instant()),
{
    match expires_at {
        None => false,
        Some(x) => match parse_time(x.as_str()) {
            Ok(t) => {
                let s = now.seconds();
                let n = now.nanos();
                !(s < t.0 || (s == t.0 && n < t.1))
            },
            Err(_) => false,
        },
    }
}

fn decide_verdict(r: &Request, d: &Decision, now: &Timestamp, current: Option<&Action>) -> (res: (
    String,
    String,
))
    ensures
        (res.0@, res.1@) == verdict(r@, d@, now@.instant(), action_ref_view(current)),
{
    if expired(&r.expires_at, now) {
        return (owned("expired"), owned("Approval request expired."));
    }
    let stale = if d.action_digest != r.action_digest {
        true
    } else {
        match current {
            Some(a) => match action_digest(a) {
                Ok(x) => x != r.action_digest,
                Err(_) => false,
            },
            None => false,
        }
    };
    if stale {
        return (owned("stale"), owned("The decision does not match the current action."));
    }
    let ci = match offered_choice(&r.choices, &d.decision, &d.scope) {
        Some(i) => i,
        None => {
            return (owned("invalid"), owned("The selected decision and scope were not offered."));
        },
    };
    proof {
        let cs = r.choices.deep_view();
        let ghost j = choose|j: int| first_offered_at(cs, d.decision@, d.scope@, j);
        assert(first_offered_at(cs, d.decision@, d.scope@, ci as int));
        if j < ci {
            assert(!offered_at(cs, d.decision@, d.scope@, j));
        } else if j > ci {
            assert(!offered_at(cs, d.decision@, d.scope@, ci as int));
        }
        assert(j == ci);
        assert(cs[ci as int] == r.choices[ci as int]@);
        assert(is_offered(cs, d.decision@, d.scope@)) by {
            assert(cs[ci as int].decision == d.decision@ && cs[ci as int].scope == d.scope@);
        }
    }
    if d.replacement_arguments.is_some() {
        if r.choices[ci].allow_edits {
            return (owned("invalid"), owned("Edited actions require a new request."));
        } else {
            return (owned("invalid"), owned("This choice does not allow edits."));
        }
    }
    if is_text(&d.decision, "approve") {
        (owned("approved"), owned("Approval accepted."))
    } else if is_text(&d.decision, "deny") {
        (owned("denied"), owned("Action denied."))
    } else {
        (owned("cancelled"), owned("Approval cancelled."))
    }
}

fn build_resolution(
    requested: &Envelope,
    d: &Decision,
    outcome: String,
    message: String,
    at: String,
    sequence: u64,
) -> (r: Envelope)
    requires
        requested.request is Some,
    ensures
        r@ == resolution_envelope(requested@, d@, (outcome@, message@), at@, sequence),
{
    let approved_or_denied = is_text(&outcome, "approved") || is_text(&outcome, "denied");
    let action_digest = match &requested.request {
        Some(r) => r.action_digest.clone(),
        None => String::new(),
    };
    let resolution = Resolution {
        id: concat("res_", d.id.as_str()),
        request_id: d.request_id.clone(),
        decision_id: Some(d.id.clone()),
        action_digest,
        resolved_at: at.clone(),
        outcome,
        message,
        effective_scope: if approved_or_denied {
            Some(d.scope.clone())
        } else {
            None
        },
        extensions: None,
    };
    Envelope {
        aais: owned("1.0"),
        event_type: owned("approval.resolved"),
        id: concat("evt_res_", d.id.as_str()),
        occurred_at: at,
        sequence,
        stream: requested.stream.duplicate(),
        extensions: None,
        request: None,
        decision: None,
        resolution: Some(resolution),
        snapshot: None,
        activity: None,
    }
}

/// The request is still live at `now`: it has no expiry, or its expiry reads
/// as an instant after `now`.
pub open spec fn is_live(e: SpecEnvelope, now: Instant) -> bool {
    match e.request.unwrap().expires_at {
        None => true,
        Some(x) => match parse_time_outcome(x) {
            Ok(t) => instant_before(now, t),
            Err(_) => false,
        },
    }
}

/// The live pending requests, in arrival order.
pub open spec fn live_requests(p: Seq<SpecEnvelope>, now: Instant) -> Seq<SpecRequest>
    decreases p.len(),
{
    if p.len() == 0 {
        Seq::empty()
    } else {
        let rest = live_requests(p.drop_last(), now);
        if is_live(p.last(), now) {
            rest.push(p.last().request.unwrap())
        } else {
            rest
        }
    }
}

/// The `approval.snapshot` envelope of a store.
pub open spec fn snapshot_envelope(
    s: SpecStore,
    stream: Option<Text>,
    now: SpecTimestamp,
    event_id: Text,
) -> SpecEnvelope {
    SpecEnvelope {
        aais: "1.0"@,
        event_type: "approval.snapshot"@,
        id: event_id,
        occurred_at: now.text,
        sequence: s.last_sequence,
        stream,
        extensions: None,
        request: None,
        decision: None,
        resolution: None,
        snapshot: Some(
            SpecSnapshot {
                as_of_sequence: s.last_sequence,
                pending: live_requests(s.pending, now.instant()),
            },
        ),
        activity: None,
    }
}

/// The `approval.requested` envelope under which a restored request is kept.
pub open spec fn restore_wrapper(r: SpecRequest, sequence: u64, stream: Option<Text>) -> SpecEnvelope {
    SpecEnvelope {
        aais: "1.0"@,
        event_type: "approval.requested"@,
        id: "restore_"@ + r.id,
        occurred_at: r.created_at,
        sequence,
        stream,
        extensions: None,
        request: Some(r),
        decision: None,
        resolution: None,
        snapshot: None,
        activity: None,
    }
}

/// The store rebuilt from the first `n` requests of a snapshot.
pub open spec fn restore_outcome(
    rs: Seq<SpecRequest>,
    n: int,
    as_of: u64,
    stream: Option<Text>,
) -> Result<SpecStore, SpecError>
    decreases n,
{
    if n <= 0 {
        Ok(empty_store(as_of))
    } else {
        match restore_outcome(rs, n - 1, as_of, stream) {
            Err(x) => Err(x),
            Ok(st) => match insert_outcome(st, restore_wrapper(rs[n - 1], st.last_sequence, stream)) {
                (Err(x), _) => Err(x),
                (Ok(()), st2) => Ok(st2),
            },
        }
    }
}

pub proof fn lemma_restore_outcome_stays(rs: Seq<SpecRequest>, n: int, m: int, as_of: u64, stream: Option<Text>)
    requires
        n <= m,
    ensures
        restore_outcome(rs, n, as_of, stream) is Err ==> restore_outcome(rs, m, as_of, stream)
            == restore_outcome(rs, n, as_of, stream),
    decreases m - n,
{
    if n < m {
        lemma_restore_outcome_stays(rs, n, m - 1, as_of, stream);
    }
}

/// What `from_snapshot` returns.
pub open spec fn from_snapshot_outcome(e: SpecEnvelope) -> Result<SpecStore, SpecError> {
    match validate_outcome(e) {
        Err(m) => Err(SpecError::Validation(m)),
        Ok(()) => if e.event_type != "approval.snapshot"@ {
            Err(SpecError::Validation("from_snapshot requires approval.snapshot"@))
        } else {
            let snap = e.snapshot.unwrap();
            restore_outcome(snap.pending, snap.pending.len() as int, snap.as_of_sequence, e.stream)
        },
    }
}

pub open spec fn store_result_view(r: Result<ApprovalStore, ApprovalError>) -> Result<SpecStore, SpecError> {
    match r {
        Ok(s) => Ok(s@),
        Err(e) => Err(e@),
    }
}

fn expired_or_unreadable(expires_at: &Option<String>, now: &Timestamp) -> (r: bool)
    ensures
        r == !match expires_at.deep_view() {
            None => true,
            Some(x) => match parse_time_outcome(x) {
                Ok(t) => instant_before(now@.instant(), t),
                Err(_) => false,
            },
        },
{
    match expires_at {
        None => false,
        Some(x) => match parse_time(x.as_str()) {
            Ok(t) => {
                let s = now.seconds();
                let n = now.nanos();
                !(s < t.0 || (s == t.0 && n < t.1))
            },
            Err(_) => true,
        },
    }
}

fn fresh_event_id() -> (r: String)
    ensures
        generated_id("evt_"@, r@),
{
    let u = random_uuid_simple();
    let r = concat("evt_", u.as_str());
    assert(r@.subrange(0, "evt_"@.len() as int) =~= "evt_"@);
    assert forall|i: int| "evt_"@.len() <= i < r@.len() implies crate::external::is_lower_hex_char(#[trigger] r@[i]) by {
        assert(r@[i] == u@[i - "evt_"@.len()]);
    }
    r
}

impl ApprovalStore {
    /// The store's invariant holds.
    pub open spec fn wf(&self) -> bool {
        store_wf(self@)
    }

    pub fn new() -> (r: Self)
        ensures
            r.wf(),
            r@ == empty_store(0),
    {
        let r = ApprovalStore { pending: Vec::new(), resolved: Vec::new(), last_sequence: 0 };
        assert(r@.pending =~= Seq::<SpecEnvelope>::empty());
        assert(r@.resolved =~= Seq::<SpecResolved>::empty());
        r
    }

    fn pending_position(&self, id: &String) -> (r: Option<usize>)
        requires
            self.wf(),
        ensures
            match r {
                Some(i) => i as int == find_pending(self@.pending, id@),
                None => find_pending(self@.pending, id@) == -1,
            },
    {
        proof {
            reveal(is_pending_entry);
        }
        let ghost p = self@.pending;
        let mut i: usize = self.pending.len();
        assert(p.take(i as int) =~= p);
        while i > 0
            invariant
                i <= self.pending@.len(),
                p == self@.pending,
                p.len() == self.pending@.len(),
                store_wf(self@),
                find_pending(p, id@) == find_pending(p.take(i as int), id@),
            decreases i,
        {
            proof {
                reveal(is_pending_entry);
            }
            assert(p[i - 1] == self.pending[i - 1]@);
            assert(is_pending_entry(p[i - 1]));
            assert(p.take(i as int).drop_last() =~= p.take(i - 1));
            assert(p.take(i as int).last() == p[i - 1]);
            match &self.pending[i - 1].request {
                Some(r) => {
                    if r.id == *id {
                        return Some(i - 1);
                    }
                },
                None => {},
            }
            i = i - 1;
        }
        None
    }

    fn resolved_position(&self, id: &String) -> (r: Option<usize>)
        ensures
            match r {
                Some(i) => i as int == find_resolved(self@.resolved, id@),
                None => find_resolved(self@.resolved, id@) == -1,
            },
    {
        let ghost rs = self@.resolved;
        let mut i: usize = self.resolved.len();
        assert(rs.take(i as int) =~= rs);
        while i > 0
            invariant
                i <= self.resolved@.len(),
                rs == self@.resolved,
                rs.len() == self.resolved@.len(),
                find_resolved(rs, id@) == find_resolved(rs.take(i as int), id@),
            decreases i,
        {
            assert(rs[i - 1] == self.resolved[i - 1]@);
            assert(rs.take(i as int).drop_last() =~= rs.take(i - 1));
            assert(rs.take(i as int).last() == rs[i - 1]);
            if self.resolved[i - 1].request_id == *id {
                return Some(i - 1);
            }
            i = i - 1;
        }
        None
    }

    /// Keep a valid request pending under its identifier (see `insert_outcome`).
    fn insert_pending(&mut self, e: Envelope) -> (r: Result<(), ApprovalError>)
        requires
            old(self).wf(),
            is_pending_entry(e@),
            find_resolved(old(self)@.resolved, request_key(e@)) == -1,
        ensures
            final(self).wf(),
            (unit_result_view(r), final(self)@) == insert_outcome(old(self)@, e@),
    {
        proof {
            reveal(is_pending_entry);
        }
        let id = match &e.request {
            Some(r) => r.id.clone(),
            None => {
                proof {
                    assert(false);
                }
                return Err(ApprovalError::Validation(owned("request payload required")));
            },
        };
        proof {
            lemma_find_pending(self@.pending, id@);
            lemma_find_resolved(self@.resolved, id@);
        }
        match self.pending_position(&id) {
            Some(i) => {
                assert(self@.pending[i as int] == self.pending[i as int]@);
                if !self.pending[i].same(&e) {
                    let mut m = concat("request ", id.as_str());
                    m.append(" already exists");
                    return Err(ApprovalError::Conflict(m));
                }
                Ok(())
            },
            None => {
                if e.sequence > self.last_sequence {
                    self.last_sequence = e.sequence;
                }
                let ghost before = self@;
                self.pending.push(e);
                proof {
                    assert(self@.pending =~= before.pending.push(e@));
                    assert forall|i: int, j: int|
                        0 <= i < j < self@.pending.len() implies request_key(
                        #[trigger] self@.pending[i],
                    ) != request_key(#[trigger] self@.pending[j]) by {
                        if j == self@.pending.len() - 1 {
                            assert(self@.pending[i] == before.pending[i]);
                        } else {
                            assert(self@.pending[i] == before.pending[i]);
                            assert(self@.pending[j] == before.pending[j]);
                        }
                    }
                    assert forall|i: int| 0 <= i < self@.pending.len() implies is_pending_entry(
                        #[trigger] self@.pending[i],
                    ) by {
                        if i < before.pending.len() {
                            assert(self@.pending[i] == before.pending[i]);
                        }
                    }
                    assert forall|i: int, j: int|
                        0 <= i < self@.pending.len() && 0 <= j < self@.resolved.len() implies request_key(
                        #[trigger] self@.pending[i],
                    ) != (#[trigger] self@.resolved[j]).request_id by {
                        if i < before.pending.len() {
                            assert(self@.pending[i] == before.pending[i]);
                        }
                    }
                }
                Ok(())
            },
        }
    }

    /// Persist an unresolved request; an identical request is accepted again
    /// without change, a different one under the same identifier conflicts,
    /// and a request that has already been resolved is refused.
    pub fn add(&mut self, e: Envelope) -> (r: Result<(), ApprovalError>)
        requires
            old(self).wf(),
        ensures
            final(self).wf(),
            (unit_result_view(r), final(self)@) == add_outcome(old(self)@, e@),
    {
        proof {
            reveal(is_pending_entry);
        }
        validate(&e)?;
        proof {
            lemma_valid_payload(e@);
        }
        if !is_text(&e.event_type, "approval.requested") {
            return Err(ApprovalError::Validation(owned("add requires approval.requested")));
        }
        let id = match &e.request {
            Some(r) => r.id.clone(),
            None => {
                proof {
                    assert(false);
                }
                return Err(ApprovalError::Validation(owned("request payload required")));
            },
        };
        if self.resolved_position(&id).is_some() {
            let mut m = concat("request ", id.as_str());
            m.append(" already resolved");
            return Err(ApprovalError::Conflict(m));
        }
        self.insert_pending(e)
    }

    fn record_resolution(&mut self, pi: usize, request_id: String, result: Envelope, fingerprint: String)
        requires
            old(self).wf(),
            pi < old(self)@.pending.len(),
            request_id@ == request_key(old(self)@.pending[pi as int]),
            find_resolved(old(self)@.resolved, request_id@) == -1,
        ensures
            final(self).wf(),
            final(self)@ == (SpecStore {
                pending: old(self)@.pending.remove(pi as int),
                resolved: old(self)@.resolved.push(
                    SpecResolved { request_id: request_id@, resolution: result@, fingerprint: fingerprint@ },
                ),
                last_sequence: old(self)@.last_sequence,
            }),
    {
        proof {
            lemma_find_resolved(self@.resolved, request_id@);
        }
        let ghost before = self@;
        let ghost rid = request_id@;
        self.pending.remove(pi);
        self.resolved.push(Resolved { request_id, resolution: result, fingerprint });
        proof {
            assert(self@.pending =~= before.pending.remove(pi as int));
            assert(self@.resolved[self@.resolved.len() - 1].request_id == rid);
            assert forall|i: int| 0 <= i < self@.pending.len() implies is_pending_entry(
                #[trigger] self@.pending[i],
            ) by {
                if i < pi {
                    assert(self@.pending[i] == before.pending[i]);
                } else {
                    assert(self@.pending[i] == before.pending[i + 1]);
                }
            }
            assert forall|i: int, j: int|
                0 <= i < j < self@.pending.len() implies request_key(
                #[trigger] self@.pending[i],
            ) != request_key(#[trigger] self@.pending[j]) by {
                let bi = if i < pi { i } else { i + 1 };
                let bj = if j < pi { j } else { j + 1 };
                assert(self@.pending[i] == before.pending[bi]);
                assert(self@.pending[j] == before.pending[bj]);
            }
            assert forall|i: int, j: int|
                0 <= i < j < self@.resolved.len() implies (#[trigger] self@.resolved[i]).request_id
                != (#[trigger] self@.resolved[j]).request_id by {
                if j == self@.resolved.len() - 1 {
                    assert(self@.resolved[i] == before.resolved[i]);
                } else {
                    assert(self@.resolved[i] == before.resolved[i]);
                    assert(self@.resolved[j] == before.resolved[j]);
                }
            }
            assert forall|i: int, j: int|
                0 <= i < self@.pending.len() && 0 <= j < self@.resolved.len() implies request_key(
                #[trigger] self@.pending[i],
            ) != (#[trigger] self@.resolved[j]).request_id by {
                let bi = if i < pi { i } else { i + 1 };
                assert(self@.pending[i] == before.pending[bi]);
                if j < before.resolved.len() {
                    assert(self@.resolved[j] == before.resolved[j]);
                } else {
                    assert(request_key(before.pending[bi]) != request_key(before.pending[pi as int]));
                }
            }
            assert(self@.resolved =~= before.resolved.push(
                SpecResolved { request_id: rid, resolution: self@.resolved[self@.resolved.len() - 1].resolution, fingerprint: self@.resolved[self@.resolved.len() - 1].fingerprint },
            ));
        }
    }

    /// The last sequence number the store has seen or issued.
    pub fn last_sequence(&self) -> (r: u64)
        ensures
            r == self@.last_sequence,
    {
        self.last_sequence
    }

    /// Whether `decide` would answer `e` with a new resolution: `e` is a valid
    /// `approval.decided` envelope for a request that is pending and not yet
    /// resolved. Only such an answer issues a new sequence number.
    pub fn resolves_anew(&self, e: &Envelope) -> (r: bool)
        requires
            self.wf(),
        ensures
            r == is_first_decision(self@, e@),
    {
        if validate(e).is_err() {
            return false;
        }
        proof {
            lemma_valid_payload(e@);
        }
        if !is_text(&e.event_type, "approval.decided") {
            return false;
        }
        match &e.decision {
            Some(d) => {
                proof {
                    lemma_find_resolved(self@.resolved, d.request_id@);
                    lemma_find_pending(self@.pending, d.request_id@);
                }
                self.resolved_position(&d.request_id).is_none()
                    && self.pending_position(&d.request_id).is_some()
            },
            None => false,
        }
    }

    /// Resolve a decision against the pending request it names, the current
    /// time and, optionally, the action about to be executed.
    pub fn decide(&mut self, e: Envelope, now: &Timestamp, current_action: Option<&Action>) -> (r:
        Result<Envelope, ApprovalError>)
        requires
            old(self).wf(),
            is_first_decision(old(self)@, e@) ==> old(self)@.last_sequence < u64::MAX,
        ensures
            final(self).wf(),
            (envelope_result_view(r), final(self)@) == decide_outcome(
                old(self)@,
                e@,
                now@,
                action_ref_view(current_action),
            ),
    {
        proof {
            reveal(is_pending_entry);
        }
        validate(&e)?;
        proof {
            lemma_valid_payload(e@);
        }
        if !is_text(&e.event_type, "approval.decided") {
            return Err(ApprovalError::Validation(owned("decide requires approval.decided")));
        }
        let d = match &e.decision {
            Some(d) => d,
            None => {
                proof {
                    assert(false);
                }
                return Err(ApprovalError::Validation(owned("decision payload required")));
            },
        };
        let fingerprint = decision_fingerprint_of(d);
        proof {
            lemma_find_resolved(self@.resolved, d.request_id@);
            lemma_find_pending(self@.pending, d.request_id@);
        }
        match self.resolved_position(&d.request_id) {
            Some(i) => {
                assert(self@.resolved[i as int] == self.resolved[i as int]@);
                if self.resolved[i].fingerprint == fingerprint {
                    return Ok(self.resolved[i].resolution.duplicate());
                } else {
                    return Err(ApprovalError::Conflict(owned("request already resolved")));
                }
            },
            None => {},
        }
        let pi = match self.pending_position(&d.request_id) {
            Some(i) => i,
            None => {
                return Err(ApprovalError::Validation(owned("unknown pending request")));
            },
        };
        let ghost s0 = self@;
        assert(s0.pending[pi as int] == self.pending[pi as int]@);
        assert(is_pending_entry(s0.pending[pi as int]));
        let requested = &self.pending[pi];
        let r = match &requested.request {
            Some(r) => r,
            None => {
                proof {
                    assert(false);
                }
                return Err(ApprovalError::Validation(owned("request payload required")));
            },
        };
        let (outcome, message) = decide_verdict(r, d, now, current_action);
        let sequence = if self.last_sequence + 1 >= e.sequence {
            self.last_sequence + 1
        } else {
            e.sequence
        };
        let at = now.text().clone();
        let result = build_resolution(requested, d, outcome, message, at, sequence);
        let request_id = d.request_id.clone();
        self.last_sequence = sequence;
        assert(result@ == resolution_envelope(
            s0.pending[pi as int],
            e@.decision.unwrap(),
            verdict(s0.pending[pi as int].request.unwrap(), e@.decision.unwrap(), now@.instant(), action_ref_view(current_action)),
            now@.text,
            sequence,
        ));
        validate(&result)?;
        let copy = result.duplicate();
        self.record_resolution(pi, request_id, copy, fingerprint);
        Ok(result)
    }
    /// The pending requests that are still live at `now`, as an
    /// `approval.snapshot` envelope with a fresh event identifier.
    pub fn snapshot(&self, stream: Option<String>, now: &Timestamp) -> (r: Envelope)
        requires
            self.wf(),
        ensures
            generated_id("evt_"@, r@.id),
            r@ == snapshot_envelope(self@, stream.deep_view(), now@, r@.id),
    {
        proof {
            reveal(is_pending_entry);
        }
        let ghost p = self@.pending;
        let mut pending: Vec<Request> = Vec::new();
        let mut i: usize = 0;
        while i < self.pending.len()
            invariant
                i <= self.pending@.len(),
                p == self@.pending,
                p.len() == self.pending@.len(),
                store_wf(self@),
                pending.deep_view() == live_requests(p.take(i as int), now@.instant()),
            decreases self.pending@.len() - i,
        {
            proof {
                reveal(is_pending_entry);
            }
            assert(p[i as int] == self.pending[i as int]@);
            assert(is_pending_entry(p[i as int]));
            assert(p.take(i + 1).drop_last() =~= p.take(i as int));
            assert(p.take(i + 1).last() == p[i as int]);
            match &self.pending[i].request {
                Some(r) => {
                    if !expired_or_unreadable(&r.expires_at, now) {
                        let copy = r.duplicate();
                        let ghost before = pending.deep_view();
                        pending.push(copy);
                        assert(pending.deep_view() =~= before.push(r@));
                    }
                },
                None => {},
            }
            i = i + 1;
        }
        assert(p.take(p.len() as int) =~= p);
        Envelope {
            aais: owned("1.0"),
            event_type: owned("approval.snapshot"),
            id: fresh_event_id(),
            occurred_at: now.text().clone(),
            sequence: self.last_sequence,
            stream,
            extensions: None,
            request: None,
            decision: None,
            resolution: None,
            snapshot: Some(Snapshot { as_of_sequence: self.last_sequence, pending }),
            activity: None,
        }
    }

    /// Rebuild a store from an `approval.snapshot` envelope, validating every
    /// pending request before it becomes visible.
    pub fn from_snapshot(e: &Envelope) -> (r: Result<Self, ApprovalError>)
        ensures
            store_result_view(r) == from_snapshot_outcome(e@),
            r matches Ok(s) ==> s.wf(),
    {
        proof {
            reveal(is_pending_entry);
        }
        match validate(e) {
            Ok(()) => {},
            Err(x) => {
                return Err(x);
            },
        }
        proof {
            lemma_valid_payload(e@);
        }
        if !is_text(&e.event_type, "approval.snapshot") {
            return Err(ApprovalError::Validation(owned("from_snapshot requires approval.snapshot")));
        }
        let snap = match &e.snapshot {
            Some(s) => s,
            None => {
                proof {
                    assert(false);
                }
                return Err(ApprovalError::Validation(owned("snapshot payload required")));
            },
        };
        let ghost rs = snap.pending.deep_view();
        let ghost stream = e@.stream;
        assert(e@.snapshot.unwrap().pending == rs);
        assert(from_snapshot_outcome(e@) == restore_outcome(rs, rs.len() as int, snap.as_of_sequence, stream));
        proof {
            lemma_requests_outcome_each(rs, rs.len() as int);
        }
        let mut store = ApprovalStore::new();
        store.last_sequence = snap.as_of_sequence;
        assert(store@ == empty_store(snap.as_of_sequence));
        let mut i: usize = 0;
        while i < snap.pending.len()
            invariant
                i <= snap.pending@.len(),
                rs == snap.pending.deep_view(),
                stream == e@.stream,
                rs.len() == snap.pending@.len(),
                from_snapshot_outcome(e@) == restore_outcome(rs, rs.len() as int, snap.as_of_sequence, stream),
                store.wf(),
                store@.resolved.len() == 0,
                forall|k: int| 0 <= k < rs.len() ==> request_outcome(#[trigger] rs[k]) is Ok,
                restore_outcome(rs, i as int, snap.as_of_sequence, stream) == Ok::<SpecStore, SpecError>(store@),
            decreases snap.pending@.len() - i,
        {
            let request = &snap.pending[i];
            assert(rs[i as int] == request@);
            let wrapper = Envelope {
                aais: owned("1.0"),
                event_type: owned("approval.requested"),
                id: concat("restore_", request.id.as_str()),
                occurred_at: request.created_at.clone(),
                sequence: store.last_sequence,
                stream: e.stream.duplicate(),
                extensions: None,
                request: Some(request.duplicate()),
                decision: None,
                resolution: None,
                snapshot: None,
                activity: None,
            };
            assert(wrapper@ == restore_wrapper(rs[i as int], store@.last_sequence, stream));
            let ghost st = store@;
            let ghost w = wrapper@;
            proof {
                reveal_strlit("approval.requested");
                reveal(is_pending_entry);
                assert(is_pending_entry(w));
                lemma_find_resolved(st.resolved, request_key(w));
            }
            match store.insert_pending(wrapper) {
                Ok(()) => {},
                Err(x) => {
                    proof {
                        assert(insert_outcome(st, w).0 == Err::<(), SpecError>(x@));
                        assert(restore_outcome(rs, i as int + 1, snap.as_of_sequence, stream) == Err::<SpecStore, SpecError>(x@));
                        lemma_restore_outcome_stays(rs, i as int + 1, rs.len() as int, snap.as_of_sequence, stream);
                    }
                    return Err(x);
                },
            }
            i = i + 1;
        }
        Ok(store)
    }
}

impl Default for ApprovalStore {
    fn default() -> (r: Self)
        ensures
            r.wf(),
            r@ == empty_store(0),
    {
        ApprovalStore::new()
    }
}

} // verus!
