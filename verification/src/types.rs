//! The AAIS document model: executable types and their mathematical views.
use vstd::prelude::*;

verus! {

/// A JSON object carried through the library as its RFC 8785 canonical text
/// (for example `{"command":"ls"}`). The library never interprets the members;
/// it only compares, splices and tests the text for emptiness.
#[derive(Clone, Debug, PartialEq)]
pub struct JsonObject {
    pub canonical_json: String,
}

#[derive(Clone, Debug, PartialEq)]
pub struct Origin {
    pub harness: String,
    pub session_id: String,
    pub run_id: Option<String>,
    pub task_id: Option<String>,
    pub graph_id: Option<String>,
    pub node_id: Option<String>,
    pub agent_id: Option<String>,
    pub profile: Option<String>,
    pub subagent_run_id: Option<String>,
    pub parent_run_id: Option<String>,
    pub project: Option<String>,
}

#[derive(Clone, Debug, PartialEq)]
pub struct Presentation {
    pub redacted: bool,
    pub binding_hint: Option<String>,
    pub details: Option<String>,
}

#[derive(Clone, Debug, PartialEq)]
pub struct Action {
    pub kind: String,
    pub name: String,
    pub summary: String,
    pub arguments: JsonObject,
    pub resource: Option<String>,
    pub working_directory: Option<String>,
    pub effects: Vec<String>,
    pub presentation: Option<Presentation>,
}

#[derive(Clone, Debug, PartialEq)]
pub struct Risk {
    pub level: String,
    pub reasons: Vec<String>,
}

#[derive(Clone, Debug, PartialEq)]
pub struct Choice {
    pub decision: String,
    pub scope: String,
    pub label: String,
    pub allow_edits: bool,
    pub scope_constraints: Option<JsonObject>,
}

#[derive(Clone, Debug, PartialEq)]
pub struct Request {
    pub id: String,
    pub created_at: String,
    pub expires_at: Option<String>,
    pub status: String,
    pub origin: Origin,
    pub action: Action,
    pub action_digest: String,
    pub risk: Risk,
    pub choices: Vec<Choice>,
    pub extensions: Option<JsonObject>,
}

#[derive(Clone, Debug, PartialEq)]
pub struct Actor {
    pub id: String,
    pub actor_type: String,
    pub display_name: Option<String>,
    pub authenticated_by: Option<String>,
}

#[derive(Clone, Debug, PartialEq)]
pub struct Decision {
    pub id: String,
    pub request_id: String,
    pub action_digest: String,
    pub decided_at: String,
    pub decision: String,
    pub scope: String,
    pub actor: Actor,
    pub replacement_arguments: Option<JsonObject>,
    pub extensions: Option<JsonObject>,
}

#[derive(Clone, Debug, PartialEq)]
pub struct Resolution {
    pub id: String,
    pub request_id: String,
    pub decision_id: Option<String>,
    pub action_digest: String,
    pub resolved_at: String,
    pub outcome: String,
    pub message: String,
    pub effective_scope: Option<String>,
    pub extensions: Option<JsonObject>,
}

#[derive(Clone, Debug, PartialEq)]
pub struct Snapshot {
    pub as_of_sequence: u64,
    pub pending: Vec<Request>,
}

#[derive(Clone, Debug, PartialEq)]
pub struct Activity {
    pub request_id: String,
    pub message: String,
    pub stage: Option<String>,
}

#[derive(Clone, Debug, PartialEq)]
pub struct Envelope {
    pub aais: String,
    pub event_type: String,
    pub id: String,
    pub occurred_at: String,
    pub sequence: u64,
    pub stream: Option<String>,
    pub extensions: Option<JsonObject>,
    pub request: Option<Request>,
    pub decision: Option<Decision>,
    pub resolution: Option<Resolution>,
    pub snapshot: Option<Snapshot>,
    pub activity: Option<Activity>,
}

/// Error returned for invalid AAIS documents or state transitions.
#[derive(Clone, Debug, PartialEq)]
pub enum ApprovalError {
    Validation(String),
    Conflict(String),
    /// A JSON text that could not be read as an envelope; only the JSON reader
    /// outside the verified core produces it.
    Json(String),
}

pub type Result<T> = core::result::Result<T, ApprovalError>;

// ---------------------------------------------------------------------------
// Mathematical views
// ---------------------------------------------------------------------------

pub type Text = Seq<char>;

pub struct SpecOrigin {
    pub harness: Text,
    pub session_id: Text,
    pub run_id: Option<Text>,
    pub task_id: Option<Text>,
    pub graph_id: Option<Text>,
    pub node_id: Option<Text>,
    pub agent_id: Option<Text>,
    pub profile: Option<Text>,
    pub subagent_run_id: Option<Text>,
    pub parent_run_id: Option<Text>,
    pub project: Option<Text>,
}

pub struct SpecPresentation {
    pub redacted: bool,
    pub binding_hint: Option<Text>,
    pub details: Option<Text>,
}

pub struct SpecAction {
    pub kind: Text,
    pub name: Text,
    pub summary: Text,
    pub arguments: Text,
    pub resource: Option<Text>,
    pub working_directory: Option<Text>,
    pub effects: Seq<Text>,
    pub presentation: Option<SpecPresentation>,
}

pub struct SpecRisk {
    pub level: Text,
    pub reasons: Seq<Text>,
}

pub struct SpecChoice {
    pub decision: Text,
    pub scope: Text,
    pub label: Text,
    pub allow_edits: bool,
    pub scope_constraints: Option<Text>,
}

pub struct SpecRequest {
    pub id: Text,
    pub created_at: Text,
    pub expires_at: Option<Text>,
    pub status: Text,
    pub origin: SpecOrigin,
    pub action: SpecAction,
    pub action_digest: Text,
    pub risk: SpecRisk,
    pub choices: Seq<SpecChoice>,
    pub extensions: Option<Text>,
}

pub struct SpecActor {
    pub id: Text,
    pub actor_type: Text,
    pub display_name: Option<Text>,
    pub authenticated_by: Option<Text>,
}

pub struct SpecDecision {
    pub id: Text,
    pub request_id: Text,
    pub action_digest: Text,
    pub decided_at: Text,
    pub decision: Text,
    pub scope: Text,
    pub actor: SpecActor,
    pub replacement_arguments: Option<Text>,
    pub extensions: Option<Text>,
}

pub struct SpecResolution {
    pub id: Text,
    pub request_id: Text,
    pub decision_id: Option<Text>,
    pub action_digest: Text,
    pub resolved_at: Text,
    pub outcome: Text,
    pub message: Text,
    pub effective_scope: Option<Text>,
    pub extensions: Option<Text>,
}

pub struct SpecSnapshot {
    pub as_of_sequence: u64,
    pub pending: Seq<SpecRequest>,
}

pub struct SpecActivity {
    pub request_id: Text,
    pub message: Text,
    pub stage: Option<Text>,
}

pub struct SpecEnvelope {
    pub aais: Text,
    pub event_type: Text,
    pub id: Text,
    pub occurred_at: Text,
    pub sequence: u64,
    pub stream: Option<Text>,
    pub extensions: Option<Text>,
    pub request: Option<SpecRequest>,
    pub decision: Option<SpecDecision>,
    pub resolution: Option<SpecResolution>,
    pub snapshot: Option<SpecSnapshot>,
    pub activity: Option<SpecActivity>,
}

pub enum SpecError {
    Validation(Text),
    Conflict(Text),
    Json(Text),
}

impl View for JsonObject {
    type V = Text;

    open spec fn view(&self) -> Text {
        self.canonical_json@
    }
}

impl DeepView for JsonObject {
    type V = Text;

    open spec fn deep_view(&self) -> Text {
        self.view()
    }
}

impl View for Origin {
    type V = SpecOrigin;

    open spec fn view(&self) -> SpecOrigin {
        SpecOrigin {
            harness: self.harness@,
            session_id: self.session_id@,
            run_id: self.run_id.deep_view(),
            task_id: self.task_id.deep_view(),
            graph_id: self.graph_id.deep_view(),
            node_id: self.node_id.deep_view(),
            agent_id: self.agent_id.deep_view(),
            profile: self.profile.deep_view(),
            subagent_run_id: self.subagent_run_id.deep_view(),
            parent_run_id: self.parent_run_id.deep_view(),
            project: self.project.deep_view(),
        }
    }
}

impl DeepView for Origin {
    type V = SpecOrigin;

    open spec fn deep_view(&self) -> SpecOrigin {
        self.view()
    }
}

impl View for Presentation {
    type V = SpecPresentation;

    open spec fn view(&self) -> SpecPresentation {
        SpecPresentation {
            redacted: self.redacted,
            binding_hint: self.binding_hint.deep_view(),
            details: self.details.deep_view(),
        }
    }
}

impl DeepView for Presentation {
    type V = SpecPresentation;

    open spec fn deep_view(&self) -> SpecPresentation {
        self.view()
    }
}

impl View for Action {
    type V = SpecAction;

    open spec fn view(&self) -> SpecAction {
        SpecAction {
            kind: self.kind@,
            name: self.name@,
            summary: self.summary@,
            arguments: self.arguments@,
            resource: self.resource.deep_view(),
            working_directory: self.working_directory.deep_view(),
            effects: self.effects.deep_view(),
            presentation: self.presentation.deep_view(),
        }
    }
}

impl DeepView for Action {
    type V = SpecAction;

    open spec fn deep_view(&self) -> SpecAction {
        self.view()
    }
}

impl View for Risk {
    type V = SpecRisk;

    open spec fn view(&self) -> SpecRisk {
        SpecRisk { level: self.level@, reasons: self.reasons.deep_view() }
    }
}

impl DeepView for Risk {
    type V = SpecRisk;

    open spec fn deep_view(&self) -> SpecRisk {
        self.view()
    }
}

impl View for Choice {
    type V = SpecChoice;

    open spec fn view(&self) -> SpecChoice {
        SpecChoice {
            decision: self.decision@,
            scope: self.scope@,
            label: self.label@,
            allow_edits: self.allow_edits,
            scope_constraints: self.scope_constraints.deep_view(),
        }
    }
}

impl DeepView for Choice {
    type V = SpecChoice;

    open spec fn deep_view(&self) -> SpecChoice {
        self.view()
    }
}

impl View for Request {
    type V = SpecRequest;

    open spec fn view(&self) -> SpecRequest {
        SpecRequest {
            id: self.id@,
            created_at: self.created_at@,
            expires_at: self.expires_at.deep_view(),
            status: self.status@,
            origin: self.origin@,
            action: self.action@,
            action_digest: self.action_digest@,
            risk: self.risk@,
            choices: self.choices.deep_view(),
            extensions: self.extensions.deep_view(),
        }
    }
}

impl DeepView for Request {
    type V = SpecRequest;

    open spec fn deep_view(&self) -> SpecRequest {
        self.view()
    }
}

impl View for Actor {
    type V = SpecActor;

    open spec fn view(&self) -> SpecActor {
        SpecActor {
            id: self.id@,
            actor_type: self.actor_type@,
            display_name: self.display_name.deep_view(),
            authenticated_by: self.authenticated_by.deep_view(),
        }
    }
}

impl DeepView for Actor {
    type V = SpecActor;

    open spec fn deep_view(&self) -> SpecActor {
        self.view()
    }
}

impl View for Decision {
    type V = SpecDecision;

    open spec fn view(&self) -> SpecDecision {
        SpecDecision {
            id: self.id@,
            request_id: self.request_id@,
            action_digest: self.action_digest@,
            decided_at: self.decided_at@,
            decision: self.decision@,
            scope: self.scope@,
            actor: self.actor@,
            replacement_arguments: self.replacement_arguments.deep_view(),
            extensions: self.extensions.deep_view(),
        }
    }
}

impl DeepView for Decision {
    type V = SpecDecision;

    open spec fn deep_view(&self) -> SpecDecision {
        self.view()
    }
}

impl View for Resolution {
    type V = SpecResolution;

    open spec fn view(&self) -> SpecResolution {
        SpecResolution {
            id: self.id@,
            request_id: self.request_id@,
            decision_id: self.decision_id.deep_view(),
            action_digest: self.action_digest@,
            resolved_at: self.resolved_at@,
            outcome: self.outcome@,
            message: self.message@,
            effective_scope: self.effective_scope.deep_view(),
            extensions: self.extensions.deep_view(),
        }
    }
}

impl DeepView for Resolution {
    type V = SpecResolution;

    open spec fn deep_view(&self) -> SpecResolution {
        self.view()
    }
}

impl View for Snapshot {
    type V = SpecSnapshot;

    open spec fn view(&self) -> SpecSnapshot {
        SpecSnapshot { as_of_sequence: self.as_of_sequence, pending: self.pending.deep_view() }
    }
}

impl DeepView for Snapshot {
    type V = SpecSnapshot;

    open spec fn deep_view(&self) -> SpecSnapshot {
        self.view()
    }
}

impl View for Activity {
    type V = SpecActivity;

    open spec fn view(&self) -> SpecActivity {
        SpecActivity {
            request_id: self.request_id@,
            message: self.message@,
            stage: self.stage.deep_view(),
        }
    }
}

impl DeepView for Activity {
    type V = SpecActivity;

    open spec fn deep_view(&self) -> SpecActivity {
        self.view()
    }
}

impl View for Envelope {
    type V = SpecEnvelope;

    open spec fn view(&self) -> SpecEnvelope {
        SpecEnvelope {
            aais: self.aais@,
            event_type: self.event_type@,
            id: self.id@,
            occurred_at: self.occurred_at@,
            sequence: self.sequence,
            stream: self.stream.deep_view(),
            extensions: self.extensions.deep_view(),
            request: self.request.deep_view(),
            decision: self.decision.deep_view(),
            resolution: self.resolution.deep_view(),
            snapshot: self.snapshot.deep_view(),
            activity: self.activity.deep_view(),
        }
    }
}

impl DeepView for Envelope {
    type V = SpecEnvelope;

    open spec fn deep_view(&self) -> SpecEnvelope {
        self.view()
    }
}

impl View for ApprovalError {
    type V = SpecError;

    open spec fn view(&self) -> SpecError {
        match self {
            ApprovalError::Validation(m) => SpecError::Validation(m@),
            ApprovalError::Conflict(m) => SpecError::Conflict(m@),
            ApprovalError::Json(m) => SpecError::Json(m@),
        }
    }
}

/// The view of a fallible result whose success carries no value.
pub open spec fn unit_result_view(r: core::result::Result<(), ApprovalError>) -> core::result::Result<(), SpecError> {
    match r {
        Ok(()) => Ok(()),
        Err(e) => Err(e@),
    }
}

/// The view of a fallible result that carries an envelope.
pub open spec fn envelope_result_view(r: core::result::Result<Envelope, ApprovalError>) -> core::result::Result<SpecEnvelope, SpecError> {
    match r {
        Ok(e) => Ok(e@),
        Err(e) => Err(e@),
    }
}

} // verus!
