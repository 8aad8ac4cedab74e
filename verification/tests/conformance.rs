use agent_approval_interchange::{
    action_digest, create_decision, create_request, validate, Action, Actor, ApprovalError,
    ApprovalStore, Choice, CreateDecisionOptions, CreateRequestOptions, Envelope, JsonObject,
    Origin, Risk, Timestamp,
};
use chrono::{TimeZone, Utc};

fn at(hour: u32, minute: u32, second: u32) -> Timestamp {
    let t = Utc.with_ymd_and_hms(2026, 8, 30, hour, minute, second).unwrap();
    Timestamp::from_unix(t.timestamp(), t.timestamp_subsec_nanos()).unwrap()
}

fn json(text: &str) -> JsonObject {
    JsonObject { canonical_json: text.to_string() }
}

fn shell_action() -> Action {
    Action {
        kind: "tool.call".into(),
        name: "shell.exec".into(),
        summary: "Run the JavaScript syntax check".into(),
        arguments: json("{\"command\":\"node --check script.js\"}"),
        resource: None,
        working_directory: None,
        effects: vec![],
        presentation: None,
    }
}

fn shell_choices() -> Vec<Choice> {
    vec![
        Choice {
            decision: "approve".into(),
            scope: "once".into(),
            label: "Allow once".into(),
            allow_edits: false,
            scope_constraints: None,
        },
        Choice {
            decision: "approve".into(),
            scope: "session".into(),
            label: "Allow for this session".into(),
            allow_edits: false,
            scope_constraints: Some(json("{\"action_name\":\"shell.exec\"}")),
        },
        Choice {
            decision: "deny".into(),
            scope: "once".into(),
            label: "Deny".into(),
            allow_edits: false,
            scope_constraints: None,
        },
    ]
}

fn shell_origin() -> Origin {
    Origin {
        harness: "example".into(),
        session_id: "s-1".into(),
        run_id: Some("r-7".into()),
        task_id: None,
        graph_id: None,
        node_id: None,
        agent_id: None,
        profile: None,
        subagent_run_id: None,
        parent_run_id: None,
        project: None,
    }
}

fn shell_risk() -> Risk {
    Risk { level: "medium".into(), reasons: vec!["executes a local process".into()] }
}

/// The shared request vector: a shell command awaiting approval for ten minutes.
fn shell_approval() -> Envelope {
    create_request(CreateRequestOptions {
        action: shell_action(),
        origin: shell_origin(),
        risk: shell_risk(),
        choices: shell_choices(),
        sequence: 41,
        stream: Some("session_s1".into()),
        request_id: Some("apr_01JQ8QH80E4M7KJ6J7J7Y2RKSC".into()),
        event_id: Some("evt_01JQ8QH80E4M7KJ6J7J7Y2RKSC".into()),
        created_at: Some(at(18, 0, 0)),
        expires_at: Some(at(18, 10, 0)),
    })
    .unwrap()
}

fn alex() -> Actor {
    Actor {
        id: "alex".into(),
        actor_type: "human".into(),
        display_name: None,
        authenticated_by: None,
    }
}

/// The shared decision vector: approve once.
fn approve_once() -> Envelope {
    create_decision(
        &shell_approval(),
        CreateDecisionOptions {
            decision: "approve".into(),
            scope: "once".into(),
            actor: alex(),
            sequence: 1,
            stream: Some("presenter_alex".into()),
            decision_id: Some("dec_01JQ8QJ2".into()),
            event_id: Some("evt_01JQ8QJ2".into()),
            decided_at: Some(at(18, 0, 30)),
            replacement_arguments: None,
        },
    )
    .unwrap()
}

fn outcome(e: &Envelope) -> String {
    e.resolution.as_ref().unwrap().outcome.clone()
}

#[test]
fn approval_replay_conflict_and_snapshot() {
    let mut store = ApprovalStore::new();
    store.add(shell_approval()).unwrap();
    let decision = approve_once();
    let at = at(18, 1, 0);
    let first = store.decide(decision.clone(), &at, None).unwrap();
    assert_eq!(first.resolution.as_ref().unwrap().outcome, "approved");
    assert_eq!(store.decide(decision.clone(), &at, None).unwrap(), first);
    let mut changed = decision;
    let body = changed.decision.as_mut().unwrap();
    body.id = "dec_other".into();
    body.decision = "deny".into();
    assert!(matches!(store.decide(changed, &at, None), Err(ApprovalError::Conflict(_))));
}

#[test]
fn expiry_and_unoffered_scope() {
    let mut expired = ApprovalStore::new();
    expired.add(shell_approval()).unwrap();
    let late = at(19, 0, 0);
    assert_eq!(
        expired.decide(approve_once(), &late, None).unwrap().resolution.unwrap().outcome,
        "expired"
    );
    let mut store = ApprovalStore::new();
    store.add(shell_approval()).unwrap();
    let mut decision = approve_once();
    decision.decision.as_mut().unwrap().scope = "persistent".into();
    let at = at(18, 1, 0);
    assert_eq!(store.decide(decision, &at, None).unwrap().resolution.unwrap().outcome, "invalid");
}

#[test]
fn snapshot_round_trip() {
    let mut store = ApprovalStore::new();
    store.add(shell_approval()).unwrap();
    let at = at(18, 1, 0);
    let snapshot = store.snapshot(Some("session_s1".into()), &at);
    let restored = ApprovalStore::from_snapshot(&snapshot).unwrap();
    assert_eq!(restored.snapshot(None, &at).snapshot.unwrap().pending.len(), 1);
}

#[test]
fn builders_are_valid() {
    let source = shell_approval().request.unwrap();
    let start = at(18, 0, 0);
    let expires = Timestamp::from_unix(start.seconds() + 600, 0).unwrap();
    let request = create_request(CreateRequestOptions {
        action: source.action,
        origin: source.origin,
        risk: source.risk,
        choices: source.choices,
        sequence: 1,
        stream: Some("session_s1".into()),
        request_id: None,
        event_id: None,
        created_at: Some(start),
        expires_at: Some(expires),
    })
    .unwrap();
    create_decision(
        &request,
        CreateDecisionOptions {
            decision: "approve".into(),
            scope: "once".into(),
            actor: Actor {
                id: "alex".into(),
                actor_type: "human".into(),
                display_name: None,
                authenticated_by: None,
            },
            sequence: 2,
            stream: Some("presenter_alex".into()),
            decision_id: None,
            event_id: None,
            decided_at: Some(Timestamp::from_unix(at(18, 0, 0).seconds() + 60, 0).unwrap()),
            replacement_arguments: None,
        },
    )
    .unwrap();
}

// ---------------------------------------------------------------------------
// Further cases
// ---------------------------------------------------------------------------

#[test]
fn action_digest_of_readme_action() {
    assert_eq!(
        action_digest(&shell_action()).unwrap(),
        "sha256:fd4373f7e590d720b88ef5a37b49a14169bf21a7be7c3a20f2b21a01c0f22ea4"
    );
}

#[test]
fn action_digest_changes_with_arguments() {
    let mut other = shell_action();
    other.arguments = json("{\"command\":\"node --check other.js\"}");
    assert_ne!(action_digest(&other).unwrap(), action_digest(&shell_action()).unwrap());
    let digest = action_digest(&other).unwrap();
    assert_eq!(digest.len(), 71);
    assert!(digest.starts_with("sha256:"));
}

#[test]
fn timestamp_text_reads_back() {
    let t = at(18, 0, 0);
    assert_eq!(t.text(), "2026-08-30T18:00:00Z");
    let u = Timestamp::from_unix(t.seconds(), 500_000_000).unwrap();
    assert_eq!(u.text(), "2026-08-30T18:00:00.500Z");
}

#[test]
fn created_request_is_bound_to_its_action() {
    let e = shell_approval();
    let r = e.request.as_ref().unwrap();
    assert_eq!(r.action_digest, action_digest(&r.action).unwrap());
    assert_eq!(r.created_at, "2026-08-30T18:00:00Z");
    assert_eq!(r.expires_at.as_deref(), Some("2026-08-30T18:10:00Z"));
    assert_eq!(e.occurred_at, r.created_at);
    assert_eq!(e.event_type, "approval.requested");
    assert!(validate(&e).is_ok());
}

#[test]
fn generated_identifiers_have_prefixes() {
    let source = shell_approval().request.unwrap();
    let request = create_request(CreateRequestOptions {
        action: source.action,
        origin: source.origin,
        risk: source.risk,
        choices: source.choices,
        sequence: 1,
        stream: None,
        request_id: None,
        event_id: None,
        created_at: None,
        expires_at: None,
    })
    .unwrap();
    let id = &request.request.as_ref().unwrap().id;
    assert!(id.starts_with("apr_") && id.len() == 36);
    assert!(request.id.starts_with("evt_") && request.id.len() == 36);
}

#[test]
fn decision_is_bound_to_request_and_presenter_stream() {
    let d = approve_once();
    let body = d.decision.as_ref().unwrap();
    let r = shell_approval().request.unwrap();
    assert_eq!(body.request_id, r.id);
    assert_eq!(body.action_digest, r.action_digest);
    assert_eq!(d.stream.as_deref(), Some("presenter_alex"));
    assert_eq!(d.occurred_at, "2026-08-30T18:00:30Z");
}

#[test]
fn create_decision_requires_a_request() {
    let decided = approve_once();
    let r = create_decision(
        &decided,
        CreateDecisionOptions {
            decision: "approve".into(),
            scope: "once".into(),
            actor: alex(),
            sequence: 2,
            stream: None,
            decision_id: None,
            event_id: None,
            decided_at: Some(at(18, 1, 0)),
            replacement_arguments: None,
        },
    );
    assert_eq!(
        r,
        Err(ApprovalError::Validation("create_decision requires approval.requested".into()))
    );
}

#[test]
fn add_is_idempotent_and_conflicts_on_change() {
    let mut store = ApprovalStore::new();
    store.add(shell_approval()).unwrap();
    store.add(shell_approval()).unwrap();
    assert_eq!(store.last_sequence, 41);
    assert_eq!(store.snapshot(None, &at(18, 1, 0)).snapshot.unwrap().pending.len(), 1);
    let mut changed = shell_approval();
    changed.sequence = 42;
    assert_eq!(
        store.add(changed),
        Err(ApprovalError::Conflict(
            "request apr_01JQ8QH80E4M7KJ6J7J7Y2RKSC already exists".into()
        ))
    );
    assert_eq!(
        store.add(approve_once()),
        Err(ApprovalError::Validation("add requires approval.requested".into()))
    );
}

#[test]
fn decide_sequence_and_resolution_fields() {
    let mut store = ApprovalStore::new();
    store.add(shell_approval()).unwrap();
    let res = store.decide(approve_once(), &at(18, 1, 0), None).unwrap();
    assert_eq!(res.sequence, 42);
    assert_eq!(store.last_sequence, 42);
    assert_eq!(res.id, "evt_res_dec_01JQ8QJ2");
    assert_eq!(res.event_type, "approval.resolved");
    assert_eq!(res.stream.as_deref(), Some("session_s1"));
    assert_eq!(res.occurred_at, "2026-08-30T18:01:00Z");
    let body = res.resolution.unwrap();
    assert_eq!(body.id, "res_dec_01JQ8QJ2");
    assert_eq!(body.decision_id.as_deref(), Some("dec_01JQ8QJ2"));
    assert_eq!(body.effective_scope.as_deref(), Some("once"));
    assert_eq!(body.message, "Approval accepted.");
    assert_eq!(store.snapshot(None, &at(18, 2, 0)).snapshot.unwrap().pending.len(), 0);
}

#[test]
fn deny_resolves_denied() {
    let mut store = ApprovalStore::new();
    store.add(shell_approval()).unwrap();
    let mut d = approve_once();
    d.decision.as_mut().unwrap().decision = "deny".into();
    let res = store.decide(d, &at(18, 1, 0), None).unwrap().resolution.unwrap();
    assert_eq!(res.outcome, "denied");
    assert_eq!(res.effective_scope.as_deref(), Some("once"));
}

#[test]
fn cancel_not_offered_is_invalid() {
    let mut store = ApprovalStore::new();
    store.add(shell_approval()).unwrap();
    let mut d = approve_once();
    d.decision.as_mut().unwrap().decision = "cancel".into();
    let res = store.decide(d, &at(18, 1, 0), None).unwrap().resolution.unwrap();
    assert_eq!(res.outcome, "invalid");
    assert_eq!(res.effective_scope, None);
}

#[test]
fn expiry_at_the_instant_is_expired() {
    let mut store = ApprovalStore::new();
    store.add(shell_approval()).unwrap();
    let res = store.decide(approve_once(), &at(18, 10, 0), None).unwrap().resolution.unwrap();
    assert_eq!(res.outcome, "expired");
    assert_eq!(res.message, "Approval request expired.");
}

#[test]
fn changed_current_action_is_stale() {
    let mut store = ApprovalStore::new();
    store.add(shell_approval()).unwrap();
    let mut current = shell_action();
    current.working_directory = Some("/tmp".into());
    let res = store.decide(approve_once(), &at(18, 1, 0), Some(&current)).unwrap();
    assert_eq!(outcome(&res), "stale");
    let mut store = ApprovalStore::new();
    store.add(shell_approval()).unwrap();
    let res = store.decide(approve_once(), &at(18, 1, 0), Some(&shell_action())).unwrap();
    assert_eq!(outcome(&res), "approved");
}

#[test]
fn decision_with_other_digest_is_stale() {
    let mut store = ApprovalStore::new();
    store.add(shell_approval()).unwrap();
    let mut d = approve_once();
    d.decision.as_mut().unwrap().action_digest =
        "sha256:0000000000000000000000000000000000000000000000000000000000000000".into();
    assert_eq!(outcome(&store.decide(d, &at(18, 1, 0), None).unwrap()), "stale");
}

#[test]
fn edited_decision_is_invalid() {
    let mut store = ApprovalStore::new();
    store.add(shell_approval()).unwrap();
    let mut d = approve_once();
    d.decision.as_mut().unwrap().replacement_arguments = Some(json("{\"command\":\"ls\"}"));
    let res = store.decide(d, &at(18, 1, 0), None).unwrap().resolution.unwrap();
    assert_eq!(res.outcome, "invalid");
    assert_eq!(res.message, "This choice does not allow edits.");
}

#[test]
fn edited_decision_on_editable_choice_is_invalid() {
    let mut request = shell_approval();
    request.request.as_mut().unwrap().choices[0].allow_edits = true;
    let mut store = ApprovalStore::new();
    store.add(request).unwrap();
    let mut d = approve_once();
    d.decision.as_mut().unwrap().replacement_arguments = Some(json("{\"command\":\"ls\"}"));
    let res = store.decide(d, &at(18, 1, 0), None).unwrap().resolution.unwrap();
    assert_eq!(res.outcome, "invalid");
    assert_eq!(res.message, "Edited actions require a new request.");
    assert_eq!(res.effective_scope, None);
}

#[test]
fn resolved_request_cannot_be_added_again() {
    let mut store = ApprovalStore::new();
    store.add(shell_approval()).unwrap();
    store.decide(approve_once(), &at(18, 1, 0), None).unwrap();
    assert_eq!(
        store.add(shell_approval()),
        Err(ApprovalError::Conflict(
            "request apr_01JQ8QH80E4M7KJ6J7J7Y2RKSC already resolved".into()
        ))
    );
    assert_eq!(store.last_sequence, 42);
    assert_eq!(store.snapshot(None, &at(18, 2, 0)).snapshot.unwrap().pending.len(), 0);
}

#[test]
fn replay_is_answered_at_the_sequence_limit() {
    let mut store = ApprovalStore::new();
    store.add(shell_approval()).unwrap();
    let first = store.decide(approve_once(), &at(18, 1, 0), None).unwrap();
    store.last_sequence = u64::MAX;
    assert!(!store.resolves_anew(&approve_once()));
    let mut again = approve_once();
    again.id = "evt_dec_again".into();
    again.sequence = 99;
    assert_eq!(store.decide(again, &at(19, 0, 0), None).unwrap(), first);
    assert_eq!(store.last_sequence, u64::MAX);
}

#[test]
fn resolves_anew_only_for_a_pending_request() {
    let mut store = ApprovalStore::new();
    assert!(!store.resolves_anew(&approve_once()));
    store.add(shell_approval()).unwrap();
    assert!(store.resolves_anew(&approve_once()));
    assert!(!store.resolves_anew(&shell_approval()));
}

#[test]
fn unknown_pending_request_is_refused() {
    let mut store = ApprovalStore::new();
    assert_eq!(
        store.decide(approve_once(), &at(18, 1, 0), None),
        Err(ApprovalError::Validation("unknown pending request".into()))
    );
    assert_eq!(
        store.decide(shell_approval(), &at(18, 1, 0), None),
        Err(ApprovalError::Validation("decide requires approval.decided".into()))
    );
}

#[test]
fn snapshot_omits_expired_requests() {
    let mut store = ApprovalStore::new();
    store.add(shell_approval()).unwrap();
    let snap = store.snapshot(Some("session_s1".into()), &at(18, 10, 0));
    let body = snap.snapshot.as_ref().unwrap();
    assert_eq!(body.pending.len(), 0);
    assert_eq!(body.as_of_sequence, 41);
    assert_eq!(snap.sequence, 41);
    assert!(snap.id.starts_with("evt_"));
    assert!(validate(&snap).is_ok());
}

#[test]
fn from_snapshot_requires_snapshot() {
    assert_eq!(
        ApprovalStore::from_snapshot(&shell_approval()).map(|_| ()),
        Err(ApprovalError::Validation("from_snapshot requires approval.snapshot".into()))
    );
}

#[test]
fn restored_store_keeps_sequence() {
    let mut store = ApprovalStore::new();
    store.add(shell_approval()).unwrap();
    let now = at(18, 1, 0);
    let restored = ApprovalStore::from_snapshot(&store.snapshot(None, &now)).unwrap();
    assert_eq!(restored.last_sequence, 41);
    let pending = restored.snapshot(None, &now).snapshot.unwrap().pending;
    assert_eq!(pending, store.snapshot(None, &now).snapshot.unwrap().pending);
}

#[test]
fn restore_keeps_longest_request_id() {
    let mut request = shell_approval();
    let long_id = format!("a{}", "b".repeat(199));
    request.request.as_mut().unwrap().id = long_id.clone();
    let mut store = ApprovalStore::new();
    store.add(request).unwrap();
    let now = at(18, 1, 0);
    let restored = ApprovalStore::from_snapshot(&store.snapshot(None, &now)).unwrap();
    let pending = restored.snapshot(None, &now).snapshot.unwrap().pending;
    assert_eq!(pending.len(), 1);
    assert_eq!(pending[0].id, long_id);
}

#[test]
fn restore_conflicts_on_duplicate_request_ids() {
    let mut store = ApprovalStore::new();
    store.add(shell_approval()).unwrap();
    let mut snap = store.snapshot(None, &at(18, 1, 0));
    let mut other = snap.snapshot.as_ref().unwrap().pending[0].clone();
    other.choices[0].label = "Run it once".into();
    snap.snapshot.as_mut().unwrap().pending.push(other);
    assert_eq!(
        ApprovalStore::from_snapshot(&snap).map(|_| ()),
        Err(ApprovalError::Conflict(
            "request apr_01JQ8QH80E4M7KJ6J7J7Y2RKSC already exists".into()
        ))
    );
}

fn err(e: &Envelope) -> String {
    match validate(e) {
        Err(ApprovalError::Validation(m)) => m,
        other => panic!("unexpected {:?}", other),
    }
}

#[test]
fn validation_errors() {
    let mut e = shell_approval();
    e.aais = "2.0".into();
    assert_eq!(err(&e), "invalid envelope version or id");
    let mut e = shell_approval();
    e.id = "-bad".into();
    assert_eq!(err(&e), "invalid envelope version or id");
    let mut e = shell_approval();
    e.occurred_at = "2026-08-30T18:00:00".into();
    assert_eq!(err(&e), "timestamp requires an explicit offset");
    let mut e = shell_approval();
    e.occurred_at = "2026-13-30T18:00:00Z".into();
    assert_eq!(err(&e), "invalid RFC 3339 timestamp");
    let mut e = shell_approval();
    e.occurred_at = "2026-08-30T20:00:00+02:00".into();
    assert!(validate(&e).is_ok());
    let mut e = shell_approval();
    e.decision = approve_once().decision;
    assert_eq!(err(&e), "exactly one payload is required");
    let mut e = approve_once();
    e.event_type = "approval.requested".into();
    assert_eq!(err(&e), "request payload required");
    let mut e = shell_approval();
    e.event_type = "approval.unknown".into();
    assert_eq!(err(&e), "unknown event type");
}

fn request_err(edit: impl FnOnce(&mut agent_approval_interchange::Request)) -> String {
    let mut e = shell_approval();
    edit(e.request.as_mut().unwrap());
    err(&e)
}

#[test]
fn request_validation_errors() {
    assert_eq!(request_err(|r| r.status = "done".into()), "invalid request identity or origin");
    assert_eq!(
        request_err(|r| r.expires_at = Some("2026-08-30T18:00:00Z".into())),
        "expires_at must be later than created_at"
    );
    assert_eq!(request_err(|r| r.action.summary = String::new()), "invalid action");
    assert_eq!(
        request_err(|r| r.action.presentation = Some(agent_approval_interchange::Presentation {
            redacted: true,
            binding_hint: None,
            details: None,
        })),
        "redacted action requires binding_hint"
    );
    assert_eq!(
        request_err(|r| r.action.name = "shell.run".into()),
        "action_digest does not match action"
    );
    assert_eq!(request_err(|r| r.risk.level = "extreme".into()), "invalid digest, risk, or choices");
    assert_eq!(request_err(|r| r.choices[0].label = String::new()), "invalid choice");
    assert_eq!(request_err(|r| r.choices[2].scope = "session".into()), "deny/cancel choice invalid");
    assert_eq!(
        request_err(|r| r.choices[1].scope_constraints = Some(json("{}"))),
        "broader scope requires constraints"
    );
    assert_eq!(
        request_err(|r| r.choices[1].scope = "once".into()),
        "duplicate decision/scope choice"
    );
    assert_eq!(
        request_err(|r| {
            r.choices.truncate(2);
        }),
        "at least one deny or cancel choice is required"
    );
}

#[test]
fn decision_validation_errors() {
    let mut d = approve_once();
    d.decision.as_mut().unwrap().actor.actor_type = "robot".into();
    assert_eq!(err(&d), "invalid decision");
    let mut d = approve_once();
    let body = d.decision.as_mut().unwrap();
    body.decision = "deny".into();
    body.scope = "session".into();
    assert_eq!(err(&d), "deny/cancel decision invalid");
}

#[test]
fn identifier_length_limit() {
    let mut e = shell_approval();
    e.id = format!("a{}", "b".repeat(199));
    assert!(validate(&e).is_ok());
    e.id = format!("a{}", "b".repeat(200));
    assert_eq!(err(&e), "invalid envelope version or id");
}

#[test]
fn offset_digits_of_any_script_count_as_an_offset() {
    let mut e = shell_approval();
    e.occurred_at = "2026-08-30T20:00:00+\u{0660}\u{0662}:\u{0660}\u{0660}".into();
    assert_eq!(err(&e), "invalid RFC 3339 timestamp");
    let mut e = shell_approval();
    e.occurred_at = "2026-08-30T20:00:00+0a:00".into();
    assert_eq!(err(&e), "timestamp requires an explicit offset");
}

#[test]
fn default_times_come_from_the_clock() {
    let source = shell_approval().request.unwrap();
    let request = create_request(CreateRequestOptions {
        action: source.action,
        origin: source.origin,
        risk: source.risk,
        choices: source.choices,
        sequence: 1,
        stream: None,
        request_id: None,
        event_id: None,
        created_at: None,
        expires_at: None,
    })
    .unwrap();
    let created = request.request.as_ref().unwrap().created_at.clone();
    assert!(created.ends_with('Z'));
    assert_eq!(request.occurred_at, created);
    let parsed = chrono::DateTime::parse_from_rfc3339(&created).unwrap();
    assert!((Utc::now() - parsed.with_timezone(&Utc)).num_seconds().abs() < 60);
}

#[test]
fn last_sequence_reads_the_store() {
    let mut store = ApprovalStore::new();
    assert_eq!(store.last_sequence(), 0);
    store.add(shell_approval()).unwrap();
    assert_eq!(store.last_sequence(), 41);
}
