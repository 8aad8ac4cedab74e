//! Properties of the approval state machine that span several operations.
use vstd::prelude::*;
use crate::canonical::{
    action_digest_text, action_text, actor_text, decision_fingerprint, decision_text, object_text,
    optional_member,
    optional_presentation, optional_string, presentation_text, string_array_text,
};
use crate::external::jcs_string_text;
use crate::text::join_text;
use crate::builders::{
    decision_result, generated_id, request_result, SpecDecisionOptions, SpecRequestOptions,
};
use crate::external::is_lower_hex_char;
use crate::store::{
    add_outcome, decide_outcome, find_pending, is_first_decision, find_resolved, from_snapshot_outcome,
    is_expired, is_live, is_offered, is_pending_entry, is_stale, lemma_find_pending,
    lemma_find_resolved, live_requests, request_key, restore_outcome, restore_wrapper,
    snapshot_envelope, store_wf, SpecResolved, SpecStore,
};
use crate::text::{is_id_char, valid_id_text};
use crate::time::{instant_before, parse_time_outcome, Instant, SpecTimestamp};
use crate::types::{SpecAction, SpecDecision, SpecEnvelope, SpecError, SpecRequest, Text};
use crate::validate::{
    lemma_valid_payload, payload_count, request_outcome, requests_outcome, validate_outcome,
};

verus! {

/// Adding a request is idempotent: once `add` has accepted an envelope, adding
/// the same envelope again succeeds and changes nothing.
pub proof fn law_add_is_idempotent(s: SpecStore, e: SpecEnvelope)
    requires
        store_wf(s),
        add_outcome(s, e).0 is Ok,
    ensures
        add_outcome(add_outcome(s, e).1, e) == (Ok::<(), SpecError>(()), add_outcome(s, e).1),
{
    lemma_valid_payload(e);
    let s2 = add_outcome(s, e).1;
    let id = request_key(e);
    lemma_find_pending(s.pending, id);
    if find_pending(s.pending, id) < 0 {
        assert(s2.pending.last() == e);
        assert(s2.pending.drop_last() =~= s.pending);
        assert(find_pending(s2.pending, id) == s2.pending.len() - 1);
    }
}

/// A resolved request is never added again: `add` refuses it with
/// `Conflict` and leaves the store as it was.
pub proof fn law_add_refuses_resolved_request(s: SpecStore, e: SpecEnvelope)
    requires
        store_wf(s),
        validate_outcome(e) is Ok,
        e.event_type == "approval.requested"@,
        find_resolved(s.resolved, request_key(e)) >= 0,
    ensures
        add_outcome(s, e).0 is Err && add_outcome(s, e).0->Err_0 is Conflict,
        add_outcome(s, e).1 == s,
{
}

/// Adding a request the store already holds pending, identically, succeeds
/// and changes nothing, whatever happened to the store in between.
pub proof fn law_add_of_held_request_changes_nothing(s: SpecStore, e: SpecEnvelope, i: int)
    requires
        store_wf(s),
        validate_outcome(e) is Ok,
        e.event_type == "approval.requested"@,
        0 <= i < s.pending.len(),
        s.pending[i] == e,
    ensures
        add_outcome(s, e) == (Ok::<(), SpecError>(()), s),
{
    reveal(is_pending_entry);
    lemma_valid_payload(e);
    let id = request_key(e);
    lemma_find_pending(s.pending, id);
    lemma_find_resolved(s.resolved, id);
    if find_resolved(s.resolved, id) >= 0 {
        assert(request_key(s.pending[i]) != s.resolved[find_resolved(s.resolved, id)].request_id);
    }
    let k = find_pending(s.pending, id);
    if k != i {
        if k < i {
            assert(request_key(s.pending[k]) != request_key(s.pending[i]));
        } else {
            assert(request_key(s.pending[i]) != request_key(s.pending[k]));
        }
    }
}

/// `add` keeps the store's invariant.
pub proof fn law_add_keeps_invariant(s: SpecStore, e: SpecEnvelope)
    requires
        store_wf(s),
    ensures
        store_wf(add_outcome(s, e).1),
{
    reveal(is_pending_entry);
    if validate_outcome(e) is Ok && e.event_type == "approval.requested"@ && find_resolved(
        s.resolved,
        request_key(e),
    ) < 0 {
        lemma_valid_payload(e);
        let id = request_key(e);
        lemma_find_pending(s.pending, id);
        lemma_find_resolved(s.resolved, id);
        if find_pending(s.pending, id) < 0 {
            let s2 = add_outcome(s, e).1;
            assert(s2.pending == s.pending.push(e));
            assert forall|i: int, j: int|
                0 <= i < j < s2.pending.len() implies request_key(#[trigger] s2.pending[i])
                != request_key(#[trigger] s2.pending[j]) by {
                assert(s2.pending[i] == s.pending[i]);
                if j < s.pending.len() {
                    assert(s2.pending[j] == s.pending[j]);
                }
            }
            assert forall|i: int| 0 <= i < s2.pending.len() implies is_pending_entry(
                #[trigger] s2.pending[i],
            ) by {
                if i < s.pending.len() {
                    assert(s2.pending[i] == s.pending[i]);
                }
            }
            assert forall|i: int, j: int|
                0 <= i < s2.pending.len() && 0 <= j < s2.resolved.len() implies request_key(
                #[trigger] s2.pending[i],
            ) != (#[trigger] s2.resolved[j]).request_id by {
                if i < s.pending.len() {
                    assert(s2.pending[i] == s.pending[i]);
                }
            }
        }
    }
}

/// `add` never touches the resolutions, and every request that was pending
/// stays pending, unchanged.
pub proof fn law_add_keeps_resolutions_and_pending(s: SpecStore, e: SpecEnvelope)
    ensures
        add_outcome(s, e).1.resolved == s.resolved,
        forall|i: int|
            0 <= i < s.pending.len() ==> add_outcome(s, e).1.pending[i] == #[trigger] s.pending[i],
        s.pending.len() <= add_outcome(s, e).1.pending.len(),
{
}

/// `add` never lowers the store's last sequence number.
pub proof fn law_add_keeps_sequence_order(s: SpecStore, e: SpecEnvelope)
    ensures
        add_outcome(s, e).1.last_sequence >= s.last_sequence,
{
}

/// `decide` never lowers the store's last sequence number.
pub proof fn law_decide_keeps_sequence_order(
    s: SpecStore,
    e: SpecEnvelope,
    now: SpecTimestamp,
    current: Option<SpecAction>,
)
    requires
        is_first_decision(s, e) ==> s.last_sequence < u64::MAX,
    ensures
        decide_outcome(s, e, now, current).1.last_sequence >= s.last_sequence,
{
}

/// Duplicate identical decisions are idempotent: once `decide` has answered a
/// decision, any valid `approval.decided` envelope carrying the same decision
/// (whatever its own identifier, sequence number or time) gets the same answer,
/// whatever the time and the current action, and the store does not change.
pub proof fn law_decide_replay_returns_same_resolution(
    s: SpecStore,
    e: SpecEnvelope,
    now: SpecTimestamp,
    current: Option<SpecAction>,
    again: SpecEnvelope,
    later: SpecTimestamp,
    later_action: Option<SpecAction>,
)
    requires
        store_wf(s),
        decide_outcome(s, e, now, current).0 is Ok,
        validate_outcome(again) is Ok,
        again.event_type == "approval.decided"@,
        again.decision == e.decision,
    ensures
        decide_outcome(decide_outcome(s, e, now, current).1, again, later, later_action) == (
            decide_outcome(s, e, now, current).0,
            decide_outcome(s, e, now, current).1,
        ),
{
    lemma_valid_payload(e);
    let d = e.decision.unwrap();
    let s2 = decide_outcome(s, e, now, current).1;
    lemma_find_resolved(s.resolved, d.request_id);
    if find_resolved(s.resolved, d.request_id) < 0 {
        assert(s2.resolved.last().request_id == d.request_id);
        assert(find_resolved(s2.resolved, d.request_id) == s2.resolved.len() - 1);
    }
}

/// A different decision after resolution produces a conflict: once a request
/// is resolved, a valid decision for it whose fingerprint differs from the
/// recorded one is refused with `Conflict`, and the store does not change.
pub proof fn law_conflicting_decision_is_refused(
    s: SpecStore,
    e: SpecEnvelope,
    now: SpecTimestamp,
    current: Option<SpecAction>,
    other: SpecEnvelope,
    later: SpecTimestamp,
    later_action: Option<SpecAction>,
)
    requires
        store_wf(s),
        decide_outcome(s, e, now, current).0 is Ok,
        validate_outcome(other) is Ok,
        other.event_type == "approval.decided"@,
        other.decision.unwrap().request_id == e.decision.unwrap().request_id,
        decision_fingerprint(other.decision.unwrap()) != decision_fingerprint(e.decision.unwrap()),
    ensures
        decide_outcome(decide_outcome(s, e, now, current).1, other, later, later_action) == (
            Err::<SpecEnvelope, SpecError>(SpecError::Conflict("request already resolved"@)),
            decide_outcome(s, e, now, current).1,
        ),
{
    lemma_valid_payload(e);
    let d = e.decision.unwrap();
    let s2 = decide_outcome(s, e, now, current).1;
    lemma_find_resolved(s.resolved, d.request_id);
    if find_resolved(s.resolved, d.request_id) < 0 {
        assert(s2.resolved.last().request_id == d.request_id);
        assert(find_resolved(s2.resolved, d.request_id) == s2.resolved.len() - 1);
    } else {
        let ri = find_resolved(s.resolved, d.request_id);
        assert(s.resolved[ri].fingerprint == decision_fingerprint(d));
    }
}

/// The resolution an `approval.resolved` answer carries.
pub open spec fn resolution_of(r: Result<SpecEnvelope, SpecError>) -> crate::types::SpecResolution {
    match r {
        Ok(e) => e.resolution.unwrap(),
        Err(_) => arbitrary(),
    }
}

/// The pending request a decision names.
pub open spec fn named_request(s: SpecStore, e: SpecEnvelope) -> crate::types::SpecRequest {
    s.pending[find_pending(s.pending, e.decision.unwrap().request_id)].request.unwrap()
}

/// Approval is exact: when `decide` accepts a first decision as `approved`, the
/// request had not expired, both the decision and the current action carry the
/// request's digest, the `(decision, scope)` tuple was offered, the action was
/// not edited, and the effective scope is the decision's own.
pub proof fn law_approval_is_exact(
    s: SpecStore,
    e: SpecEnvelope,
    now: SpecTimestamp,
    current: Option<SpecAction>,
)
    requires
        store_wf(s),
        is_first_decision(s, e),
        decide_outcome(s, e, now, current).0 matches Ok(res) && res.resolution.unwrap().outcome
            == "approved"@,
    ensures
        !is_expired(named_request(s, e).expires_at, now.instant()),
        !is_stale(named_request(s, e), e.decision.unwrap(), current),
        e.decision.unwrap().action_digest == named_request(s, e).action_digest,
        current matches Some(a) ==> action_digest_text(a) == named_request(s, e).action_digest,
        is_offered(named_request(s, e).choices, e.decision.unwrap().decision, e.decision.unwrap().scope),
        e.decision.unwrap().replacement_arguments is None,
        e.decision.unwrap().decision == "approve"@,
        resolution_of(decide_outcome(s, e, now, current).0).effective_scope == Some(
            e.decision.unwrap().scope,
        ),
{
    reveal_strlit("approved");
    reveal_strlit("expired");
    reveal_strlit("stale");
    reveal_strlit("invalid");
    reveal_strlit("denied");
    reveal_strlit("cancelled");
    assert("approved"@[0] != "expired"@[0]);
    assert("approved"@[0] != "stale"@[0]);
    assert("approved"@[0] != "invalid"@[0]);
    assert("approved"@[0] != "denied"@[0]);
    assert("approved"@[0] != "cancelled"@[0]);
}

/// A decision at or after the request's expiry resolves as `expired`.
pub proof fn law_expired_request_resolves_expired(
    s: SpecStore,
    e: SpecEnvelope,
    now: SpecTimestamp,
    current: Option<SpecAction>,
)
    requires
        store_wf(s),
        is_first_decision(s, e),
        is_expired(named_request(s, e).expires_at, now.instant()),
        decide_outcome(s, e, now, current).0 is Ok,
    ensures
        resolution_of(decide_outcome(s, e, now, current).0).outcome == "expired"@,
        resolution_of(decide_outcome(s, e, now, current).0).message == "Approval request expired."@,
        resolution_of(decide_outcome(s, e, now, current).0).effective_scope is None,
{
    reveal_strlit("expired");
    reveal_strlit("approved");
    reveal_strlit("denied");
    assert("expired"@[0] != "approved"@[0]);
    assert("expired"@[0] != "denied"@[0]);
}

/// A decision whose digest does not match the request, or whose request no
/// longer matches the action about to be executed, resolves as `stale` (unless
/// the request has expired first).
pub proof fn law_mismatched_digest_resolves_stale(
    s: SpecStore,
    e: SpecEnvelope,
    now: SpecTimestamp,
    current: Option<SpecAction>,
)
    requires
        store_wf(s),
        is_first_decision(s, e),
        !is_expired(named_request(s, e).expires_at, now.instant()),
        is_stale(named_request(s, e), e.decision.unwrap(), current),
        decide_outcome(s, e, now, current).0 is Ok,
    ensures
        resolution_of(decide_outcome(s, e, now, current).0).outcome == "stale"@,
        resolution_of(decide_outcome(s, e, now, current).0).message
            == "The decision does not match the current action."@,
        resolution_of(decide_outcome(s, e, now, current).0).effective_scope is None,
{
    reveal_strlit("stale");
    reveal_strlit("approved");
    reveal_strlit("denied");
    assert("stale"@[0] != "approved"@[0]);
    assert("stale"@[0] != "denied"@[0]);
}

/// A decision whose `(decision, scope)` tuple the request did not offer
/// resolves as `invalid` (when the request is neither expired nor stale).
pub proof fn law_unoffered_choice_resolves_invalid(
    s: SpecStore,
    e: SpecEnvelope,
    now: SpecTimestamp,
    current: Option<SpecAction>,
)
    requires
        store_wf(s),
        is_first_decision(s, e),
        !is_expired(named_request(s, e).expires_at, now.instant()),
        !is_stale(named_request(s, e), e.decision.unwrap(), current),
        !is_offered(named_request(s, e).choices, e.decision.unwrap().decision, e.decision.unwrap().scope),
        decide_outcome(s, e, now, current).0 is Ok,
    ensures
        resolution_of(decide_outcome(s, e, now, current).0).outcome == "invalid"@,
        resolution_of(decide_outcome(s, e, now, current).0).message
            == "The selected decision and scope were not offered."@,
        resolution_of(decide_outcome(s, e, now, current).0).effective_scope is None,
{
    reveal_strlit("invalid");
    reveal_strlit("approved");
    reveal_strlit("denied");
    assert("invalid"@[0] != "approved"@[0]);
    assert("invalid"@[0] != "denied"@[0]);
}

/// A decision that edits the action is never accepted: it resolves as
/// `invalid` whenever it is not already expired, stale or unoffered.
pub proof fn law_edited_decision_resolves_invalid(
    s: SpecStore,
    e: SpecEnvelope,
    now: SpecTimestamp,
    current: Option<SpecAction>,
)
    requires
        store_wf(s),
        is_first_decision(s, e),
        e.decision.unwrap().replacement_arguments is Some,
        decide_outcome(s, e, now, current).0 is Ok,
    ensures
        ({
            let o = resolution_of(decide_outcome(s, e, now, current).0).outcome;
            o == "expired"@ || o == "stale"@ || o == "invalid"@
        }),
        resolution_of(decide_outcome(s, e, now, current).0).effective_scope is None,
        !is_expired(named_request(s, e).expires_at, now.instant()) && !is_stale(
            named_request(s, e),
            e.decision.unwrap(),
            current,
        ) && is_offered(
            named_request(s, e).choices,
            e.decision.unwrap().decision,
            e.decision.unwrap().scope,
        ) ==> {
            let m = resolution_of(decide_outcome(s, e, now, current).0).message;
            m == "This choice does not allow edits."@ || m == "Edited actions require a new request."@
        },
{
    reveal_strlit("expired");
    reveal_strlit("stale");
    reveal_strlit("invalid");
    reveal_strlit("approved");
    reveal_strlit("denied");
    assert("expired"@[0] != "approved"@[0]);
    assert("expired"@[0] != "denied"@[0]);
    assert("stale"@[0] != "approved"@[0]);
    assert("stale"@[0] != "denied"@[0]);
    assert("invalid"@[0] != "approved"@[0]);
    assert("invalid"@[0] != "denied"@[0]);
}

/// A resolved request leaves the pending set: after `decide` has resolved a
/// first decision, the request is no longer pending.
pub proof fn law_resolved_request_leaves_pending(
    s: SpecStore,
    e: SpecEnvelope,
    now: SpecTimestamp,
    current: Option<SpecAction>,
)
    requires
        store_wf(s),
        is_first_decision(s, e),
        decide_outcome(s, e, now, current).0 is Ok,
    ensures
        find_pending(decide_outcome(s, e, now, current).1.pending, e.decision.unwrap().request_id)
            == -1,
{
    let id = e.decision.unwrap().request_id;
    let s2 = decide_outcome(s, e, now, current).1;
    let pi = find_pending(s.pending, id);
    lemma_find_pending(s.pending, id);
    lemma_find_pending(s2.pending, id);
    if find_pending(s2.pending, id) >= 0 {
        let k = find_pending(s2.pending, id);
        let bk = if k < pi { k } else { k + 1 };
        assert(s2.pending[k] == s.pending[bk]);
        assert(request_key(s.pending[bk]) != request_key(s.pending[pi]));
    }
}

/// The request is live at `now` (the test `snapshot` applies to a pending
/// envelope).
pub open spec fn request_live(r: SpecRequest, now: Instant) -> bool {
    match r.expires_at {
        None => true,
        Some(x) => match parse_time_outcome(x) {
            Ok(t) => instant_before(now, t),
            Err(_) => false,
        },
    }
}

proof fn lemma_pending_request_valid(e: SpecEnvelope)
    requires
        is_pending_entry(e),
    ensures
        request_outcome(e.request.unwrap()) is Ok,
{
    reveal(is_pending_entry);
}

/// Every request of a snapshot is live and comes from the pending set; no two
/// share an identifier.
proof fn lemma_live_requests(p: Seq<SpecEnvelope>, now: Instant)
    requires
        forall|i: int| 0 <= i < p.len() ==> (#[trigger] p[i]).request is Some,
        forall|i: int, j: int|
            0 <= i < j < p.len() ==> request_key(#[trigger] p[i]) != request_key(#[trigger] p[j]),
    ensures
        forall|k: int|
            0 <= k < live_requests(p, now).len() ==> request_live(
                #[trigger] live_requests(p, now)[k],
                now,
            ),
        forall|k: int|
            0 <= k < live_requests(p, now).len() ==> exists|j: int|
                0 <= j < p.len() && (#[trigger] p[j]).request == Some(
                    #[trigger] live_requests(p, now)[k],
                ),
        forall|k1: int, k2: int|
            0 <= k1 < k2 < live_requests(p, now).len() ==> (#[trigger] live_requests(p, now)[k1]).id
                != (#[trigger] live_requests(p, now)[k2]).id,
    decreases p.len(),
{
    if p.len() > 0 {
        let q = p.drop_last();
        assert forall|i: int| 0 <= i < q.len() implies (#[trigger] q[i]).request is Some by {
            assert(q[i] == p[i]);
        }
        assert forall|i: int, j: int|
            0 <= i < j < q.len() implies request_key(#[trigger] q[i]) != request_key(
            #[trigger] q[j],
        ) by {
            assert(q[i] == p[i]);
            assert(q[j] == p[j]);
        }
        lemma_live_requests(q, now);
        let rest = live_requests(q, now);
        let whole = live_requests(p, now);
        if is_live(p.last(), now) {
            assert(whole == rest.push(p.last().request.unwrap()));
            assert forall|k: int| 0 <= k < whole.len() implies exists|j: int|
                0 <= j < p.len() && (#[trigger] p[j]).request == Some(#[trigger] whole[k]) by {
                if k < rest.len() {
                    let j = choose|j: int| 0 <= j < q.len() && (#[trigger] q[j]).request == Some(rest[k]);
                    assert(p[j] == q[j]);
                    assert(whole[k] == rest[k]);
                } else {
                    assert(p[p.len() - 1].request == Some(whole[k]));
                }
            }
            assert forall|k1: int, k2: int|
                0 <= k1 < k2 < whole.len() implies (#[trigger] whole[k1]).id != (
                #[trigger] whole[k2]).id by {
                if k2 < rest.len() {
                    assert(whole[k1] == rest[k1]);
                    assert(whole[k2] == rest[k2]);
                } else {
                    let j = choose|j: int| 0 <= j < q.len() && (#[trigger] q[j]).request == Some(rest[k1]);
                    assert(p[j] == q[j]);
                    assert(whole[k1] == rest[k1]);
                    assert(request_key(p[j]) != request_key(p[p.len() - 1]));
                }
            }
            assert forall|k: int| 0 <= k < whole.len() implies request_live(#[trigger] whole[k], now) by {
                if k < rest.len() {
                    assert(whole[k] == rest[k]);
                }
            }
        } else {
            assert forall|k: int| 0 <= k < whole.len() implies exists|j: int|
                0 <= j < p.len() && (#[trigger] p[j]).request == Some(#[trigger] whole[k]) by {
                let j = choose|j: int| 0 <= j < q.len() && (#[trigger] q[j]).request == Some(rest[k]);
                assert(p[j] == q[j]);
            }
        }
    }
}

/// A snapshot lists only pending, live requests: each request of the snapshot
/// is the request of some pending envelope, and it has not expired at the
/// snapshot's instant.
pub proof fn law_snapshot_lists_live_pending_requests(
    s: SpecStore,
    stream: Option<Text>,
    now: SpecTimestamp,
    event_id: Text,
)
    requires
        store_wf(s),
    ensures
        ({
            let listed = snapshot_envelope(s, stream, now, event_id).snapshot.unwrap().pending;
            &&& forall|k: int| 0 <= k < listed.len() ==> request_live(#[trigger] listed[k], now.instant())
            &&& forall|k: int|
                0 <= k < listed.len() ==> exists|j: int|
                    0 <= j < s.pending.len() && (#[trigger] s.pending[j]).request == Some(
                        #[trigger] listed[k],
                    )
        }),
{
    reveal(is_pending_entry);
    assert forall|i: int| 0 <= i < s.pending.len() implies (#[trigger] s.pending[i]).request is Some by {
        assert(is_pending_entry(s.pending[i]));
    }
    lemma_live_requests(s.pending, now.instant());
}

/// The two shapes of the store `decide` leaves: a new resolution moves the
/// named request from pending to resolved; every other answer leaves the
/// pending requests and the resolutions as they were.
proof fn lemma_decide_shape(s: SpecStore, e: SpecEnvelope, now: SpecTimestamp, current: Option<SpecAction>)
    ensures
        ({
            let s2 = decide_outcome(s, e, now, current).1;
            if is_first_decision(s, e) && decide_outcome(s, e, now, current).0 is Ok {
                let id = e.decision.unwrap().request_id;
                &&& s2.pending == s.pending.remove(find_pending(s.pending, id))
                &&& s2.resolved.drop_last() == s.resolved
                &&& s2.resolved.len() == s.resolved.len() + 1
                &&& s2.resolved.last().request_id == id
            } else {
                &&& s2.pending == s.pending
                &&& s2.resolved == s.resolved
            }
        }),
{
    let s2 = decide_outcome(s, e, now, current).1;
    if is_first_decision(s, e) && decide_outcome(s, e, now, current).0 is Ok {
        assert(s2.resolved.drop_last() =~= s.resolved);
    }
}

/// Moving a pending request to the resolutions keeps the store's invariant.
proof fn lemma_resolve_keeps_wf(s: SpecStore, s2: SpecStore, id: Text)
    requires
        store_wf(s),
        find_pending(s.pending, id) >= 0,
        find_resolved(s.resolved, id) == -1,
        s2.pending == s.pending.remove(find_pending(s.pending, id)),
        s2.resolved.drop_last() == s.resolved,
        s2.resolved.len() == s.resolved.len() + 1,
        s2.resolved.last().request_id == id,
    ensures
        store_wf(s2),
{
    let pi = find_pending(s.pending, id);
    lemma_find_pending(s.pending, id);
    lemma_find_resolved(s.resolved, id);
    assert forall|i: int| 0 <= i < s2.pending.len() implies is_pending_entry(
        #[trigger] s2.pending[i],
    ) by {
        let bi = if i < pi { i } else { i + 1 };
        assert(s2.pending[i] == s.pending[bi]);
    }
    assert forall|i: int, j: int|
        0 <= i < j < s2.pending.len() implies request_key(#[trigger] s2.pending[i])
        != request_key(#[trigger] s2.pending[j]) by {
        let bi = if i < pi { i } else { i + 1 };
        let bj = if j < pi { j } else { j + 1 };
        assert(s2.pending[i] == s.pending[bi]);
        assert(s2.pending[j] == s.pending[bj]);
    }
    assert forall|i: int, j: int|
        0 <= i < j < s2.resolved.len() implies (#[trigger] s2.resolved[i]).request_id != (
        #[trigger] s2.resolved[j]).request_id by {
        assert(s2.resolved[i] == s2.resolved.drop_last()[i]);
        if j < s.resolved.len() {
            assert(s2.resolved[j] == s2.resolved.drop_last()[j]);
        }
    }
    assert forall|i: int, j: int|
        0 <= i < s2.pending.len() && 0 <= j < s2.resolved.len() implies request_key(
        #[trigger] s2.pending[i],
    ) != (#[trigger] s2.resolved[j]).request_id by {
        let bi = if i < pi { i } else { i + 1 };
        assert(s2.pending[i] == s.pending[bi]);
        if j < s.resolved.len() {
            assert(s2.resolved[j] == s2.resolved.drop_last()[j]);
        } else {
            assert(request_key(s.pending[bi]) != request_key(s.pending[pi]));
        }
    }
}

/// `decide` keeps the store's invariant.
pub proof fn law_decide_keeps_invariant(
    s: SpecStore,
    e: SpecEnvelope,
    now: SpecTimestamp,
    current: Option<SpecAction>,
)
    requires
        store_wf(s),
    ensures
        store_wf(decide_outcome(s, e, now, current).1),
{
    lemma_decide_shape(s, e, now, current);
    if is_first_decision(s, e) && decide_outcome(s, e, now, current).0 is Ok {
        lemma_valid_payload(e);
        lemma_find_resolved(s.resolved, e.decision.unwrap().request_id);
        lemma_resolve_keeps_wf(s, decide_outcome(s, e, now, current).1, e.decision.unwrap().request_id);
    }
}

/// `decide` never loses a resolution: the resolutions before the call come
/// first, unchanged, after it. Every request that was pending either stays
/// pending, unchanged, or is now resolved.
pub proof fn law_decide_keeps_resolutions_and_pending(
    s: SpecStore,
    e: SpecEnvelope,
    now: SpecTimestamp,
    current: Option<SpecAction>,
)
    requires
        store_wf(s),
    ensures
        ({
            let s2 = decide_outcome(s, e, now, current).1;
            &&& s.resolved.len() <= s2.resolved.len()
            &&& forall|i: int| 0 <= i < s.resolved.len() ==> s2.resolved[i] == #[trigger] s.resolved[i]
            &&& forall|i: int|
                0 <= i < s.pending.len() ==> (exists|j: int|
                    0 <= j < s2.pending.len() && s2.pending[j] == #[trigger] s.pending[i])
                    || find_resolved(s2.resolved, request_key(s.pending[i])) >= 0
        }),
{
    let s2 = decide_outcome(s, e, now, current).1;
    lemma_decide_shape(s, e, now, current);
    if is_first_decision(s, e) && decide_outcome(s, e, now, current).0 is Ok {
        lemma_valid_payload(e);
        let id = e.decision.unwrap().request_id;
        let pi = find_pending(s.pending, id);
        lemma_find_pending(s.pending, id);
        assert(find_resolved(s2.resolved, id) == s2.resolved.len() - 1);
        assert forall|i: int| 0 <= i < s.resolved.len() implies s2.resolved[i] == #[trigger] s.resolved[i] by {
            assert(s2.resolved[i] == s2.resolved.drop_last()[i]);
        }
        assert forall|i: int| 0 <= i < s.pending.len() implies (exists|j: int|
            0 <= j < s2.pending.len() && s2.pending[j] == #[trigger] s.pending[i])
            || find_resolved(s2.resolved, request_key(s.pending[i])) >= 0 by {
            if i < pi {
                assert(s2.pending[i] == s.pending[i]);
            } else if i > pi {
                assert(s2.pending[i - 1] == s.pending[i]);
            }
        }
    } else {
        assert forall|i: int| 0 <= i < s.pending.len() implies (exists|j: int|
            0 <= j < s2.pending.len() && s2.pending[j] == #[trigger] s.pending[i])
            || find_resolved(s2.resolved, request_key(s.pending[i])) >= 0 by {
            assert(s2.pending[i] == s.pending[i]);
        }
    }
}

/// A resolved request is never pending.
pub proof fn law_resolved_request_is_never_pending(s: SpecStore, id: Text)
    requires
        store_wf(s),
        find_resolved(s.resolved, id) >= 0,
    ensures
        find_pending(s.pending, id) == -1,
{
    lemma_find_resolved(s.resolved, id);
    lemma_find_pending(s.pending, id);
    if find_pending(s.pending, id) >= 0 {
        assert(request_key(s.pending[find_pending(s.pending, id)]) != s.resolved[find_resolved(
            s.resolved,
            id,
        )].request_id);
    }
}

/// A snapshot never lists a resolved request.
pub proof fn law_snapshot_never_lists_resolved(
    s: SpecStore,
    stream: Option<Text>,
    now: SpecTimestamp,
    event_id: Text,
    id: Text,
)
    requires
        store_wf(s),
        find_resolved(s.resolved, id) >= 0,
    ensures
        ({
            let listed = snapshot_envelope(s, stream, now, event_id).snapshot.unwrap().pending;
            forall|k: int| 0 <= k < listed.len() ==> (#[trigger] listed[k]).id != id
        }),
{
    reveal(is_pending_entry);
    law_resolved_request_is_never_pending(s, id);
    lemma_find_pending(s.pending, id);
    assert forall|i: int| 0 <= i < s.pending.len() implies (#[trigger] s.pending[i]).request is Some by {
        assert(is_pending_entry(s.pending[i]));
    }
    lemma_live_requests(s.pending, now.instant());
    let listed = live_requests(s.pending, now.instant());
    assert forall|k: int| 0 <= k < listed.len() implies (#[trigger] listed[k]).id != id by {
        let j = choose|j: int| 0 <= j < s.pending.len() && (#[trigger] s.pending[j]).request == Some(listed[k]);
        assert(request_key(s.pending[j]) != id);
    }
}

/// A resolved request is excluded from later snapshots: once `decide` has
/// resolved a first decision, no snapshot of the resulting store lists the
/// request.
pub proof fn law_resolved_request_leaves_snapshot(
    s: SpecStore,
    e: SpecEnvelope,
    now: SpecTimestamp,
    current: Option<SpecAction>,
    stream: Option<Text>,
    at: SpecTimestamp,
    event_id: Text,
)
    requires
        store_wf(s),
        is_first_decision(s, e),
        decide_outcome(s, e, now, current).0 is Ok,
    ensures
        ({
            let listed = snapshot_envelope(decide_outcome(s, e, now, current).1, stream, at, event_id).snapshot.unwrap().pending;
            forall|k: int| 0 <= k < listed.len() ==> (#[trigger] listed[k]).id != e.decision.unwrap().request_id
        }),
{
    let s2 = decide_outcome(s, e, now, current).1;
    let id = e.decision.unwrap().request_id;
    lemma_valid_payload(e);
    law_decide_keeps_invariant(s, e, now, current);
    assert(s2.resolved.last().request_id == id);
    assert(find_resolved(s2.resolved, id) == s2.resolved.len() - 1);
    law_snapshot_never_lists_resolved(s2, stream, at, event_id, id);
}

/// The pending envelopes that restoring a list of requests produces.
pub open spec fn restored_pending(rs: Seq<SpecRequest>, sequence: u64, stream: Option<Text>) -> Seq<SpecEnvelope> {
    Seq::new(rs.len(), |i: int| restore_wrapper(rs[i], sequence, stream))
}

/// Requests a snapshot can be restored from: no two share an identifier.
pub open spec fn restorable(rs: Seq<SpecRequest>) -> bool {
    forall|i: int, j: int| 0 <= i < j < rs.len() ==> (#[trigger] rs[i]).id != (#[trigger] rs[j]).id
}

proof fn lemma_restore(rs: Seq<SpecRequest>, n: int, as_of: u64, stream: Option<Text>)
    requires
        restorable(rs),
        0 <= n <= rs.len(),
    ensures
        restore_outcome(rs, n, as_of, stream) == Ok::<SpecStore, SpecError>(
            SpecStore {
                pending: restored_pending(rs.take(n), as_of, stream),
                resolved: Seq::empty(),
                last_sequence: as_of,
            },
        ),
    decreases n,
{
    if n == 0 {
        assert(restored_pending(rs.take(0), as_of, stream) =~= Seq::<SpecEnvelope>::empty());
    } else {
        lemma_restore(rs, n - 1, as_of, stream);
        let prev = restored_pending(rs.take(n - 1), as_of, stream);
        let st = SpecStore { pending: prev, resolved: Seq::empty(), last_sequence: as_of };
        let w = restore_wrapper(rs[n - 1], as_of, stream);
        lemma_find_pending(prev, rs[n - 1].id);
        if find_pending(prev, rs[n - 1].id) >= 0 {
            let k = find_pending(prev, rs[n - 1].id);
            assert(prev[k] == restore_wrapper(rs[k], as_of, stream));
        }
        assert(restored_pending(rs.take(n), as_of, stream) =~= prev.push(w));
    }
}

proof fn lemma_live_of_restored(rs: Seq<SpecRequest>, as_of: u64, stream: Option<Text>, now: Instant)
    requires
        forall|i: int| 0 <= i < rs.len() ==> request_live(#[trigger] rs[i], now),
    ensures
        live_requests(restored_pending(rs, as_of, stream), now) == rs,
    decreases rs.len(),
{
    if rs.len() > 0 {
        let q = rs.drop_last();
        assert forall|i: int| 0 <= i < q.len() implies request_live(#[trigger] q[i], now) by {
            assert(q[i] == rs[i]);
        }
        lemma_live_of_restored(q, as_of, stream, now);
        let p = restored_pending(rs, as_of, stream);
        assert(p.drop_last() =~= restored_pending(q, as_of, stream));
        assert(request_live(rs[rs.len() - 1], now));
        assert(live_requests(p, now) =~= rs);
    }
}

proof fn lemma_requests_all_valid(rs: Seq<SpecRequest>, n: int)
    requires
        0 <= n <= rs.len(),
        forall|i: int| 0 <= i < rs.len() ==> request_outcome(#[trigger] rs[i]) is Ok,
    ensures
        requests_outcome(rs, n) is Ok,
    decreases n,
{
    if n > 0 {
        lemma_requests_all_valid(rs, n - 1);
    }
}

/// Snapshots round-trip: restoring a store from its snapshot gives a store
/// with the same last sequence number and no resolutions whose pending set is
/// exactly the snapshot's requests, in the same order (each kept under its
/// restore envelope), so that its snapshot at the same instant lists the same
/// requests.
pub proof fn law_snapshot_round_trip(
    s: SpecStore,
    stream: Option<Text>,
    now: SpecTimestamp,
    event_id: Text,
)
    requires
        store_wf(s),
        generated_id("evt_"@, event_id),
        parse_time_outcome(now.text) == Ok::<Instant, Text>(now.instant()),
    ensures
        from_snapshot_outcome(snapshot_envelope(s, stream, now, event_id)) matches Ok(restored) && {
            &&& restored.last_sequence == s.last_sequence
            &&& restored.resolved.len() == 0
            &&& restored.pending == restored_pending(
                live_requests(s.pending, now.instant()),
                s.last_sequence,
                stream,
            )
            &&& live_requests(restored.pending, now.instant()) == live_requests(
                s.pending,
                now.instant(),
            )
        },
{
    reveal(is_pending_entry);
    let listed = live_requests(s.pending, now.instant());
    assert forall|i: int| 0 <= i < s.pending.len() implies (#[trigger] s.pending[i]).request is Some by {
        assert(is_pending_entry(s.pending[i]));
    }
    lemma_live_requests(s.pending, now.instant());
    assert forall|k: int| 0 <= k < listed.len() implies request_outcome(#[trigger] listed[k]) is Ok by {
        let j = choose|j: int| 0 <= j < s.pending.len() && (#[trigger] s.pending[j]).request == Some(listed[k]);
        assert(is_pending_entry(s.pending[j]));
        lemma_pending_request_valid(s.pending[j]);
    }
    assert(restorable(listed));
    // The snapshot envelope itself is valid.
    let snap = snapshot_envelope(s, stream, now, event_id);
    lemma_requests_all_valid(listed, listed.len() as int);
    reveal_strlit("evt_");
    reveal_strlit("approval.snapshot");
    reveal_strlit("approval.requested");
    reveal_strlit("approval.decided");
    reveal_strlit("approval.resolved");
    assert("approval.snapshot"@[9] != "approval.requested"@[9]);
    assert("approval.snapshot"@[9] != "approval.decided"@[9]);
    assert("approval.snapshot"@[9] != "approval.resolved"@[9]);
    assert forall|i: int| 1 <= i < event_id.len() implies is_id_char(#[trigger] event_id[i]) by {
        if i < 4 {
            assert(event_id[i] == event_id.subrange(0, 4)[i]);
        } else {
            assert(is_lower_hex_char(event_id[i]));
        }
    }
    assert(event_id[0] == event_id.subrange(0, 4)[0]);
    assert(valid_id_text(event_id));
    assert(payload_count(snap) == 1);
    assert(validate_outcome(snap) is Ok) by {
        reveal(validate_outcome);
    }
    lemma_restore(listed, listed.len() as int, s.last_sequence, stream);
    assert(listed.take(listed.len() as int) =~= listed);
    lemma_live_of_restored(listed, s.last_sequence, stream, now.instant());
}

/// A call that changes a store. (`snapshot` reads a store and changes nothing.)
pub enum StoreCall {
    Add(SpecEnvelope),
    Decide(SpecEnvelope, SpecTimestamp, Option<SpecAction>),
}

/// The store a call leaves behind, whatever it answered.
pub open spec fn apply_call(s: SpecStore, c: StoreCall) -> SpecStore {
    match c {
        StoreCall::Add(e) => add_outcome(s, e).1,
        StoreCall::Decide(e, now, current) => decide_outcome(s, e, now, current).1,
    }
}

/// The store a sequence of calls leaves behind.
pub open spec fn apply_calls(s: SpecStore, cs: Seq<StoreCall>) -> SpecStore
    decreases cs.len(),
{
    if cs.len() == 0 {
        s
    } else {
        apply_call(apply_calls(s, cs.drop_last()), cs.last())
    }
}

/// A resolution, once recorded, stays: a longer list of resolutions that
/// begins with the shorter still holds every resolved identifier.
proof fn lemma_resolved_stays(r: Seq<SpecResolved>, r2: Seq<SpecResolved>, id: Text)
    requires
        find_resolved(r, id) >= 0,
        r.len() <= r2.len(),
        forall|i: int| 0 <= i < r.len() ==> r2[i] == #[trigger] r[i],
    ensures
        find_resolved(r2, id) >= 0,
{
    lemma_find_resolved(r, id);
    lemma_find_resolved(r2, id);
    let k = find_resolved(r, id);
    assert(r2[k] == r[k]);
}

/// Every call keeps the invariant, the resolutions already recorded, and each
/// pending request unless it has been resolved.
proof fn lemma_calls_keep(s: SpecStore, cs: Seq<StoreCall>)
    requires
        store_wf(s),
    ensures
        store_wf(apply_calls(s, cs)),
        s.resolved.len() <= apply_calls(s, cs).resolved.len(),
        forall|i: int| 0 <= i < s.resolved.len() ==> apply_calls(s, cs).resolved[i] == #[trigger] s.resolved[i],
        forall|i: int|
            0 <= i < s.pending.len() ==> (exists|j: int|
                0 <= j < apply_calls(s, cs).pending.len() && apply_calls(s, cs).pending[j]
                    == #[trigger] s.pending[i]) || find_resolved(
                apply_calls(s, cs).resolved,
                request_key(s.pending[i]),
            ) >= 0,
    decreases cs.len(),
{
    if cs.len() > 0 {
        let prev = apply_calls(s, cs.drop_last());
        let next = apply_calls(s, cs);
        lemma_calls_keep(s, cs.drop_last());
        match cs.last() {
            StoreCall::Add(e) => {
                law_add_keeps_invariant(prev, e);
                law_add_keeps_resolutions_and_pending(prev, e);
            },
            StoreCall::Decide(e, now, current) => {
                law_decide_keeps_invariant(prev, e, now, current);
                law_decide_keeps_resolutions_and_pending(prev, e, now, current);
            },
        }
        assert(next == apply_call(prev, cs.last()));
        assert(prev.resolved.len() <= next.resolved.len());
        assert forall|i: int| 0 <= i < prev.resolved.len() implies next.resolved[i] == #[trigger] prev.resolved[i] by {
            match cs.last() {
                StoreCall::Add(e) => {},
                StoreCall::Decide(e, now, current) => {},
            }
        }
        assert forall|i: int| 0 <= i < s.pending.len() implies (exists|j: int|
            0 <= j < next.pending.len() && next.pending[j] == #[trigger] s.pending[i])
            || find_resolved(next.resolved, request_key(s.pending[i])) >= 0 by {
            let id = request_key(s.pending[i]);
            if find_resolved(prev.resolved, id) >= 0 {
                lemma_resolved_stays(prev.resolved, next.resolved, id);
            } else {
                let j = choose|j: int| 0 <= j < prev.pending.len() && prev.pending[j] == s.pending[i];
                match cs.last() {
                    StoreCall::Add(e) => {
                        assert(next.pending[j] == prev.pending[j]);
                    },
                    StoreCall::Decide(e, now, current) => {
                        assert((exists|k: int| 0 <= k < next.pending.len() && next.pending[k] == #[trigger] prev.pending[j])
                            || find_resolved(next.resolved, request_key(prev.pending[j])) >= 0);
                    },
                }
            }
        }
    }
}

/// A resolved request never comes back: after any sequence of calls, it is
/// still resolved, it is not pending, and no snapshot lists it.
pub proof fn law_resolved_request_stays_resolved(
    s: SpecStore,
    id: Text,
    cs: Seq<StoreCall>,
    stream: Option<Text>,
    now: SpecTimestamp,
    event_id: Text,
)
    requires
        store_wf(s),
        find_resolved(s.resolved, id) >= 0,
    ensures
        find_resolved(apply_calls(s, cs).resolved, id) >= 0,
        find_pending(apply_calls(s, cs).pending, id) == -1,
        ({
            let listed = snapshot_envelope(apply_calls(s, cs), stream, now, event_id).snapshot.unwrap().pending;
            forall|k: int| 0 <= k < listed.len() ==> (#[trigger] listed[k]).id != id
        }),
{
    let s2 = apply_calls(s, cs);
    lemma_calls_keep(s, cs);
    lemma_resolved_stays(s.resolved, s2.resolved, id);
    law_resolved_request_is_never_pending(s2, id);
    law_snapshot_never_lists_resolved(s2, stream, now, event_id, id);
}

/// `add` stays idempotent: once `add` has accepted an envelope, adding it
/// again after any sequence of calls that has not resolved its request
/// succeeds and changes nothing.
pub proof fn law_add_stays_idempotent(s: SpecStore, e: SpecEnvelope, cs: Seq<StoreCall>)
    requires
        store_wf(s),
        add_outcome(s, e).0 is Ok,
        find_resolved(apply_calls(add_outcome(s, e).1, cs).resolved, request_key(e)) < 0,
    ensures
        add_outcome(apply_calls(add_outcome(s, e).1, cs), e) == (
            Ok::<(), SpecError>(()),
            apply_calls(add_outcome(s, e).1, cs),
        ),
{
    lemma_valid_payload(e);
    let s1 = add_outcome(s, e).1;
    let id = request_key(e);
    law_add_keeps_invariant(s, e);
    lemma_find_pending(s.pending, id);
    let i = if find_pending(s.pending, id) >= 0 {
        find_pending(s.pending, id)
    } else {
        s.pending.len() as int
    };
    assert(s1.pending[i] == e);
    lemma_calls_keep(s1, cs);
    let s2 = apply_calls(s1, cs);
    assert(request_key(s1.pending[i]) == id);
    let j = choose|j: int| 0 <= j < s2.pending.len() && s2.pending[j] == #[trigger] s1.pending[i];
    law_add_of_held_request_changes_nothing(s2, e, j);
}

/// `part` occurs in `t` as a contiguous piece.
pub open spec fn contains_text(t: Text, part: Text) -> bool {
    exists|i: int| 0 <= i && i + part.len() <= t.len() && #[trigger] t.subrange(i, i + part.len()) == part
}

proof fn lemma_join_contains(items: Seq<Text>, sep: Text, k: int)
    requires
        0 <= k < items.len(),
    ensures
        contains_text(join_text(items, sep), items[k]),
    decreases items.len(),
{
    let j = join_text(items, sep);
    let m = items[k];
    if items.len() == 1 {
        let i: int = 0;
        assert(j.subrange(i, i + m.len()) =~= m);
    } else if k == items.len() - 1 {
        let pre = join_text(items.drop_last(), sep) + sep;
        assert(j == pre + items.last());
        let i: int = pre.len() as int;
        assert(j.subrange(i, i + m.len()) =~= m);
    } else {
        let rest = items.drop_last();
        assert(rest[k] == m);
        lemma_join_contains(rest, sep, k);
        let inner = join_text(rest, sep);
        let i = choose|i: int| 0 <= i && i + m.len() <= inner.len() && #[trigger] inner.subrange(i, i + m.len()) == m;
        assert(j == inner + sep + items.last());
        assert(j.subrange(i, i + m.len()) =~= inner.subrange(i, i + m.len()));
    }
}

proof fn lemma_object_contains(members: Seq<Text>, k: int)
    requires
        0 <= k < members.len(),
    ensures
        contains_text(object_text(members), members[k]),
{
    let m = members[k];
    let inner = join_text(members, seq![',']);
    lemma_join_contains(members, seq![','], k);
    let i = choose|i: int| 0 <= i && i + m.len() <= inner.len() && #[trigger] inner.subrange(i, i + m.len()) == m;
    let t = object_text(members);
    assert(t == seq!['{'] + inner + seq!['}']);
    assert(t.subrange(i + 1, i + 1 + m.len()) =~= inner.subrange(i, i + m.len()));
}

/// The canonical text of an action, over which its digest is taken, carries
/// every member the action has: `arguments`, `kind`, `name` and `summary`
/// always, and `effects`, `presentation`, `resource` and `working_directory`
/// whenever they are present, each as `"key":value` with strings in their
/// RFC 8785 form. So the digest binds every member of the action.
pub proof fn law_action_text_carries_every_member(a: SpecAction)
    ensures
        contains_text(action_text(a), "\"arguments\":"@ + a.arguments),
        contains_text(action_text(a), "\"kind\":"@ + jcs_string_text(a.kind)),
        contains_text(action_text(a), "\"name\":"@ + jcs_string_text(a.name)),
        contains_text(action_text(a), "\"summary\":"@ + jcs_string_text(a.summary)),
        a.effects.len() > 0 ==> contains_text(action_text(a), "\"effects\":"@ + string_array_text(a.effects)),
        a.presentation matches Some(p) ==> contains_text(action_text(a), "\"presentation\":"@ + presentation_text(p)),
        a.resource matches Some(r) ==> contains_text(action_text(a), "\"resource\":"@ + jcs_string_text(r)),
        a.working_directory matches Some(w) ==> contains_text(
            action_text(a),
            "\"working_directory\":"@ + jcs_string_text(w),
        ),
{
    let pa = seq!["\"arguments\":"@ + a.arguments];
    let pb = if a.effects.len() > 0 {
        seq!["\"effects\":"@ + string_array_text(a.effects)]
    } else {
        Seq::empty()
    };
    let pc = seq!["\"kind\":"@ + jcs_string_text(a.kind), "\"name\":"@ + jcs_string_text(a.name)];
    let pd = optional_member("\"presentation\":"@, optional_presentation(a.presentation));
    let pe = optional_member("\"resource\":"@, optional_string(a.resource));
    let pf = seq!["\"summary\":"@ + jcs_string_text(a.summary)];
    let pg = optional_member("\"working_directory\":"@, optional_string(a.working_directory));
    let ms = pa + pb + pc + pd + pe + pf + pg;
    assert(action_text(a) == object_text(ms));
    let nb = pb.len() as int;
    let nd = pd.len() as int;
    let ne = pe.len() as int;
    assert(ms[0] == pa[0]);
    lemma_object_contains(ms, 0);
    assert(ms[1 + nb] == pc[0]);
    lemma_object_contains(ms, 1 + nb);
    assert(ms[2 + nb] == pc[1]);
    lemma_object_contains(ms, 2 + nb);
    assert(ms[3 + nb + nd + ne] == pf[0]);
    lemma_object_contains(ms, 3 + nb + nd + ne);
    if a.effects.len() > 0 {
        assert(ms[1] == pb[0]);
        lemma_object_contains(ms, 1);
    }
    if a.presentation is Some {
        assert(ms[3 + nb] == pd[0]);
        lemma_object_contains(ms, 3 + nb);
    }
    if a.resource is Some {
        assert(ms[3 + nb + nd] == pe[0]);
        lemma_object_contains(ms, 3 + nb + nd);
    }
    if a.working_directory is Some {
        assert(ms[4 + nb + nd + ne] == pg[0]);
        lemma_object_contains(ms, 4 + nb + nd + ne);
    }
}

/// An accepted first decision resolves as what it decided: on a pending
/// request that has not expired, is not stale, offers the `(decision, scope)`
/// tuple and is not edited, `approve` resolves `approved` ("Approval
/// accepted."), `deny` resolves `denied` ("Action denied."), both with the
/// decision's scope as effective scope, and `cancel` resolves `cancelled`
/// ("Approval cancelled.") with no effective scope. The resolution names the
/// decision, its request and the request's digest, and carries the decision
/// instant's text.
pub proof fn law_accepted_decision_resolves_as_decided(
    s: SpecStore,
    e: SpecEnvelope,
    now: SpecTimestamp,
    current: Option<SpecAction>,
)
    requires
        store_wf(s),
        is_first_decision(s, e),
        !is_expired(named_request(s, e).expires_at, now.instant()),
        !is_stale(named_request(s, e), e.decision.unwrap(), current),
        is_offered(named_request(s, e).choices, e.decision.unwrap().decision, e.decision.unwrap().scope),
        e.decision.unwrap().replacement_arguments is None,
        decide_outcome(s, e, now, current).0 is Ok,
    ensures
        ({
            let d = e.decision.unwrap();
            let res = resolution_of(decide_outcome(s, e, now, current).0);
            &&& d.decision == "approve"@ ==> res.outcome == "approved"@ && res.message
                == "Approval accepted."@ && res.effective_scope == Some(d.scope)
            &&& d.decision == "deny"@ ==> res.outcome == "denied"@ && res.message == "Action denied."@
                && res.effective_scope == Some(d.scope)
            &&& d.decision == "cancel"@ ==> res.outcome == "cancelled"@ && res.message
                == "Approval cancelled."@ && res.effective_scope is None
            &&& res.decision_id == Some(d.id)
            &&& res.request_id == d.request_id
            &&& res.action_digest == named_request(s, e).action_digest
            &&& res.resolved_at == now.text
        }),
{
    reveal_strlit("approve");
    reveal_strlit("deny");
    reveal_strlit("cancel");
    reveal_strlit("approved");
    reveal_strlit("denied");
    reveal_strlit("cancelled");
    assert("cancel"@[0] != "approve"@[0]);
    assert("cancel"@[0] != "deny"@[0]);
    assert("deny"@[0] != "approve"@[0]);
    assert("cancelled"@[0] != "approved"@[0]);
    assert("cancelled"@[0] != "denied"@[0]);
    assert("denied"@[0] != "approved"@[0]);
}

/// Activity validation: an `approval.activity` envelope whose header is valid
/// (version `1.0`, a valid id, a readable timestamp, the activity as its only
/// payload) passes exactly when its request id is a valid identifier and its
/// message is not empty; otherwise it fails with "invalid activity".
pub proof fn law_activity_is_checked_by_request_id_and_message(e: SpecEnvelope)
    requires
        e.aais == "1.0"@,
        valid_id_text(e.id),
        parse_time_outcome(e.occurred_at) is Ok,
        e.event_type == "approval.activity"@,
        e.activity is Some,
        e.request is None,
        e.decision is None,
        e.resolution is None,
        e.snapshot is None,
    ensures
        validate_outcome(e) is Ok <==> (valid_id_text(e.activity.unwrap().request_id)
            && e.activity.unwrap().message.len() > 0),
        validate_outcome(e) is Err ==> validate_outcome(e) == Err::<(), Text>("invalid activity"@),
{
    reveal(validate_outcome);
    reveal_strlit("approval.activity");
    reveal_strlit("approval.requested");
    reveal_strlit("approval.decided");
    reveal_strlit("approval.resolved");
    reveal_strlit("approval.snapshot");
    assert("approval.activity"@[9] != "approval.requested"@[9]);
    assert("approval.activity"@[9] != "approval.decided"@[9]);
    assert("approval.activity"@[9] != "approval.resolved"@[9]);
    assert("approval.activity"@[9] != "approval.snapshot"@[9]);
    assert(payload_count(e) == 1);
}

/// A request `create_request` builds carries its options unchanged: the
/// origin, action, risk and choices given, the chosen identifiers, the
/// creation instant's text as both `created_at` and `occurred_at`, the expiry
/// text if one was given, status `pending`, and the action's digest. It is a
/// valid `approval.requested` envelope.
pub proof fn law_created_request_carries_its_options(
    o: SpecRequestOptions,
    request_id: Text,
    event_id: Text,
    created: SpecTimestamp,
)
    requires
        request_result(o, request_id, event_id, created) is Ok,
    ensures
        ({
            let e = request_result(o, request_id, event_id, created)->Ok_0;
            let r = e.request.unwrap();
            &&& validate_outcome(e) is Ok
            &&& e.event_type == "approval.requested"@
            &&& e.id == event_id
            &&& e.sequence == o.sequence
            &&& e.stream == o.stream
            &&& e.occurred_at == created.text
            &&& e.decision is None && e.resolution is None && e.snapshot is None && e.activity is None
            &&& r.id == request_id
            &&& r.created_at == created.text
            &&& r.status == "pending"@
            &&& r.origin == o.origin
            &&& r.action == o.action
            &&& r.risk == o.risk
            &&& r.choices == o.choices
            &&& r.action_digest == action_digest_text(o.action)
            &&& (match o.expires_at {
                Some(t) => r.expires_at == Some(t.text),
                None => r.expires_at is None,
            })
        }),
{
}

/// A decision `create_decision` builds is bound to the request it answers and
/// carries its options unchanged: the request's id and digest, the decision,
/// scope, actor and replacement arguments given, the chosen identifiers, and
/// the decision instant's text as both `decided_at` and `occurred_at`. It is
/// a valid `approval.decided` envelope.
pub proof fn law_created_decision_carries_its_options(
    request: SpecRequest,
    o: SpecDecisionOptions,
    decision_id: Text,
    event_id: Text,
    decided: SpecTimestamp,
)
    requires
        decision_result(request, o, decision_id, event_id, decided) is Ok,
    ensures
        ({
            let e = decision_result(request, o, decision_id, event_id, decided)->Ok_0;
            let d = e.decision.unwrap();
            &&& validate_outcome(e) is Ok
            &&& e.event_type == "approval.decided"@
            &&& e.id == event_id
            &&& e.sequence == o.sequence
            &&& e.stream == o.stream
            &&& e.occurred_at == decided.text
            &&& e.request is None && e.resolution is None && e.snapshot is None && e.activity is None
            &&& d.id == decision_id
            &&& d.decided_at == decided.text
            &&& d.decided_at == e.occurred_at
            &&& d.request_id == request.id
            &&& d.action_digest == request.action_digest
            &&& d.decision == o.decision
            &&& d.scope == o.scope
            &&& d.actor == o.actor
            &&& d.replacement_arguments == o.replacement_arguments
        }),
{
}

/// The answer to a first decision is an `approval.resolved` envelope for that
/// decision: its identifiers are derived from the decision's (`evt_res_` and
/// `res_` before its id), it is stamped with the decision instant, it goes to
/// the stream of the request, and its sequence number comes after the store's
/// last and is no lower than the decision's own, becoming the store's last.
/// Its outcome is one of the seven outcome words, and only `approved` and
/// `denied` carry an effective scope, the decision's.
pub proof fn law_resolution_answers_its_decision(
    s: SpecStore,
    e: SpecEnvelope,
    now: SpecTimestamp,
    current: Option<SpecAction>,
)
    requires
        store_wf(s),
        is_first_decision(s, e),
        s.last_sequence < u64::MAX,
        decide_outcome(s, e, now, current).0 is Ok,
    ensures
        ({
            let d = e.decision.unwrap();
            let out = decide_outcome(s, e, now, current);
            let answer = out.0->Ok_0;
            let res = answer.resolution.unwrap();
            let requested = s.pending[find_pending(s.pending, d.request_id)];
            &&& answer.event_type == "approval.resolved"@
            &&& answer.id == "evt_res_"@ + d.id
            &&& res.id == "res_"@ + d.id
            &&& answer.occurred_at == now.text
            &&& res.resolved_at == now.text
            &&& answer.stream == requested.stream
            &&& answer.sequence > s.last_sequence
            &&& answer.sequence >= e.sequence
            &&& out.1.last_sequence == answer.sequence
            &&& res.request_id == d.request_id
            &&& res.decision_id == Some(d.id)
            &&& res.action_digest == requested.request.unwrap().action_digest
            &&& (res.outcome == "approved"@ || res.outcome == "denied"@ || res.outcome == "cancelled"@
                || res.outcome == "expired"@ || res.outcome == "stale"@ || res.outcome == "invalid"@)
            &&& (res.effective_scope is Some <==> (res.outcome == "approved"@ || res.outcome == "denied"@))
            &&& res.effective_scope is Some ==> res.effective_scope == Some(d.scope)
        }),
{
}

/// The canonical text of a decision, whose digest tells a replay from a
/// different decision, carries every member of the decision: its digest,
/// actor, instant, decision, id, request id and scope always, and its
/// extensions and replacement arguments whenever present.
pub proof fn law_decision_text_carries_every_member(d: SpecDecision)
    ensures
        contains_text(decision_text(d), "\"action_digest\":"@ + jcs_string_text(d.action_digest)),
        contains_text(decision_text(d), "\"actor\":"@ + actor_text(d.actor)),
        contains_text(decision_text(d), "\"decided_at\":"@ + jcs_string_text(d.decided_at)),
        contains_text(decision_text(d), "\"decision\":"@ + jcs_string_text(d.decision)),
        contains_text(decision_text(d), "\"id\":"@ + jcs_string_text(d.id)),
        contains_text(decision_text(d), "\"request_id\":"@ + jcs_string_text(d.request_id)),
        contains_text(decision_text(d), "\"scope\":"@ + jcs_string_text(d.scope)),
        d.extensions matches Some(x) ==> contains_text(decision_text(d), "\"extensions\":"@ + x),
        d.replacement_arguments matches Some(x) ==> contains_text(
            decision_text(d),
            "\"replacement_arguments\":"@ + x,
        ),
{
    let pa = seq![
        "\"action_digest\":"@ + jcs_string_text(d.action_digest),
        "\"actor\":"@ + actor_text(d.actor),
        "\"decided_at\":"@ + jcs_string_text(d.decided_at),
        "\"decision\":"@ + jcs_string_text(d.decision),
    ];
    let pb = optional_member("\"extensions\":"@, d.extensions);
    let pc = seq!["\"id\":"@ + jcs_string_text(d.id)];
    let pd = optional_member("\"replacement_arguments\":"@, d.replacement_arguments);
    let pe = seq!["\"request_id\":"@ + jcs_string_text(d.request_id), "\"scope\":"@ + jcs_string_text(d.scope)];
    let ms = pa + pb + pc + pd + pe;
    assert(decision_text(d) == object_text(ms));
    let nb = pb.len() as int;
    let nd = pd.len() as int;
    assert(ms[0] == pa[0]);
    lemma_object_contains(ms, 0);
    assert(ms[1] == pa[1]);
    lemma_object_contains(ms, 1);
    assert(ms[2] == pa[2]);
    lemma_object_contains(ms, 2);
    assert(ms[3] == pa[3]);
    lemma_object_contains(ms, 3);
    assert(ms[4 + nb] == pc[0]);
    lemma_object_contains(ms, 4 + nb);
    assert(ms[5 + nb + nd] == pe[0]);
    lemma_object_contains(ms, 5 + nb + nd);
    assert(ms[6 + nb + nd] == pe[1]);
    lemma_object_contains(ms, 6 + nb + nd);
    if d.extensions is Some {
        assert(ms[4] == pb[0]);
        lemma_object_contains(ms, 4);
    }
    if d.replacement_arguments is Some {
        assert(ms[5 + nb] == pd[0]);
        lemma_object_contains(ms, 5 + nb);
    }
}

} // verus!
