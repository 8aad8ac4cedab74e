//! Deep copies and deep comparisons of documents, with their meaning stated
//! over the documents' views.
use vstd::prelude::*;
use crate::types::{
    Action, Activity, Actor, Choice, Decision, Envelope, JsonObject, Origin, Presentation, Request,
    Resolution, Risk, Snapshot,
};

verus! {

/// Values that can be copied and compared by what they mean.
pub trait Duplicate: DeepView + Sized {
    fn duplicate(&self) -> (r: Self)
        ensures
            r.deep_view() == self.deep_view(),
    ;

    fn same(&self, other: &Self) -> (r: bool)
        ensures
            r == (self.deep_view() == other.deep_view()),
    ;
}

impl Duplicate for String {
    fn duplicate(&self) -> (r: Self) {
        self.clone()
    }

    fn same(&self, other: &Self) -> (r: bool) {
        *self == *other
    }
}

impl Duplicate for bool {
    fn duplicate(&self) -> (r: Self) {
        *self
    }

    fn same(&self, other: &Self) -> (r: bool) {
        *self == *other
    }
}

impl Duplicate for u64 {
    fn duplicate(&self) -> (r: Self) {
        *self
    }

    fn same(&self, other: &Self) -> (r: bool) {
        *self == *other
    }
}

impl<T: Duplicate> Duplicate for Option<T> {
    fn duplicate(&self) -> (r: Self) {
        match self {
            Some(x) => Some(x.duplicate()),
            None => None,
        }
    }

    fn same(&self, other: &Self) -> (r: bool) {
        match (self, other) {
            (Some(a), Some(b)) => a.same(b),
            (None, None) => true,
            _ => false,
        }
    }
}

impl<T: Duplicate> Duplicate for Vec<T> {
    fn duplicate(&self) -> (r: Self) {
        let mut r: Vec<T> = Vec::new();
        let mut i: usize = 0;
        while i < self.len()
            invariant
                i <= self@.len(),
                r.deep_view() =~= self.deep_view().take(i as int),
            decreases self@.len() - i,
        {
            let x = self[i].duplicate();
            let ghost before = r.deep_view();
            r.push(x);
            assert(r.deep_view() =~= before.push(x.deep_view()));
            i = i + 1;
        }
        assert(self.deep_view() =~= self.deep_view().take(self@.len() as int));
        r
    }

    fn same(&self, other: &Self) -> (r: bool) {
        if self.len() != other.len() {
            assert(self.deep_view().len() != other.deep_view().len());
            return false;
        }
        let mut i: usize = 0;
        while i < self.len()
            invariant
                i <= self@.len(),
                self@.len() == other@.len(),
                self.deep_view().take(i as int) =~= other.deep_view().take(i as int),
            decreases self@.len() - i,
        {
            if !self[i].same(&other[i]) {
                assert(self.deep_view()[i as int] != other.deep_view()[i as int]);
                return false;
            }
            i = i + 1;
        }
        assert(self.deep_view() =~= self.deep_view().take(self@.len() as int));
        assert(other.deep_view() =~= other.deep_view().take(other@.len() as int));
        true
    }
}

impl Duplicate for JsonObject {
    fn duplicate(&self) -> (r: Self) {
        JsonObject { canonical_json: self.canonical_json.clone() }
    }

    fn same(&self, other: &Self) -> (r: bool) {
        self.canonical_json == other.canonical_json
    }
}

impl Duplicate for Origin {
    fn duplicate(&self) -> (r: Self) {
        Origin {
            harness: self.harness.duplicate(),
            session_id: self.session_id.duplicate(),
            run_id: self.run_id.duplicate(),
            task_id: self.task_id.duplicate(),
            graph_id: self.graph_id.duplicate(),
            node_id: self.node_id.duplicate(),
            agent_id: self.agent_id.duplicate(),
            profile: self.profile.duplicate(),
            subagent_run_id: self.subagent_run_id.duplicate(),
            parent_run_id: self.parent_run_id.duplicate(),
            project: self.project.duplicate(),
        }
    }

    fn same(&self, other: &Self) -> (r: bool) {
        self.harness.same(&other.harness) && self.session_id.same(&other.session_id)
            && self.run_id.same(&other.run_id) && self.task_id.same(&other.task_id)
            && self.graph_id.same(&other.graph_id) && self.node_id.same(&other.node_id)
            && self.agent_id.same(&other.agent_id) && self.profile.same(&other.profile)
            && self.subagent_run_id.same(&other.subagent_run_id) && self.parent_run_id.same(
            &other.parent_run_id,
        ) && self.project.same(&other.project)
    }
}

impl Duplicate for Presentation {
    fn duplicate(&self) -> (r: Self) {
        Presentation {
            redacted: self.redacted,
            binding_hint: self.binding_hint.duplicate(),
            details: self.details.duplicate(),
        }
    }

    fn same(&self, other: &Self) -> (r: bool) {
        self.redacted == other.redacted && self.binding_hint.same(&other.binding_hint)
            && self.details.same(&other.details)
    }
}

impl Duplicate for Action {
    fn duplicate(&self) -> (r: Self) {
        Action {
            kind: self.kind.duplicate(),
            name: self.name.duplicate(),
            summary: self.summary.duplicate(),
            arguments: self.arguments.duplicate(),
            resource: self.resource.duplicate(),
            working_directory: self.working_directory.duplicate(),
            effects: self.effects.duplicate(),
            presentation: self.presentation.duplicate(),
        }
    }

    fn same(&self, other: &Self) -> (r: bool) {
        self.kind.same(&other.kind) && self.name.same(&other.name) && self.summary.same(
            &other.summary,
        ) && self.arguments.same(&other.arguments) && self.resource.same(&other.resource)
            && self.working_directory.same(&other.working_directory) && self.effects.same(
            &other.effects,
        ) && self.presentation.same(&other.presentation)
    }
}

impl Duplicate for Risk {
    fn duplicate(&self) -> (r: Self) {
        Risk { level: self.level.duplicate(), reasons: self.reasons.duplicate() }
    }

    fn same(&self, other: &Self) -> (r: bool) {
        self.level.same(&other.level) && self.reasons.same(&other.reasons)
    }
}

impl Duplicate for Choice {
    fn duplicate(&self) -> (r: Self) {
        Choice {
            decision: self.decision.duplicate(),
            scope: self.scope.duplicate(),
            label: self.label.duplicate(),
            allow_edits: self.allow_edits,
            scope_constraints: self.scope_constraints.duplicate(),
        }
    }

    fn same(&self, other: &Self) -> (r: bool) {
        self.decision.same(&other.decision) && self.scope.same(&other.scope) && self.label.same(
            &other.label,
        ) && self.allow_edits == other.allow_edits && self.scope_constraints.same(
            &other.scope_constraints,
        )
    }
}

impl Duplicate for Request {
    fn duplicate(&self) -> (r: Self) {
        Request {
            id: self.id.duplicate(),
            created_at: self.created_at.duplicate(),
            expires_at: self.expires_at.duplicate(),
            status: self.status.duplicate(),
            origin: self.origin.duplicate(),
            action: self.action.duplicate(),
            action_digest: self.action_digest.duplicate(),
            risk: self.risk.duplicate(),
            choices: self.choices.duplicate(),
            extensions: self.extensions.duplicate(),
        }
    }

    fn same(&self, other: &Self) -> (r: bool) {
        self.id.same(&other.id) && self.created_at.same(&other.created_at)
            && self.expires_at.same(&other.expires_at) && self.status.same(&other.status)
            && self.origin.same(&other.origin) && self.action.same(&other.action)
            && self.action_digest.same(&other.action_digest) && self.risk.same(&other.risk)
            && self.choices.same(&other.choices) && self.extensions.same(&other.extensions)
    }
}

impl Duplicate for Actor {
    fn duplicate(&self) -> (r: Self) {
        Actor {
            id: self.id.duplicate(),
            actor_type: self.actor_type.duplicate(),
            display_name: self.display_name.duplicate(),
            authenticated_by: self.authenticated_by.duplicate(),
        }
    }

    fn same(&self, other: &Self) -> (r: bool) {
        self.id.same(&other.id) && self.actor_type.same(&other.actor_type)
            && self.display_name.same(&other.display_name) && self.authenticated_by.same(
            &other.authenticated_by,
        )
    }
}

impl Duplicate for Decision {
    fn duplicate(&self) -> (r: Self) {
        Decision {
            id: self.id.duplicate(),
            request_id: self.request_id.duplicate(),
            action_digest: self.action_digest.duplicate(),
            decided_at: self.decided_at.duplicate(),
            decision: self.decision.duplicate(),
            scope: self.scope.duplicate(),
            actor: self.actor.duplicate(),
            replacement_arguments: self.replacement_arguments.duplicate(),
            extensions: self.extensions.duplicate(),
        }
    }

    fn same(&self, other: &Self) -> (r: bool) {
        self.id.same(&other.id) && self.request_id.same(&other.request_id)
            && self.action_digest.same(&other.action_digest) && self.decided_at.same(
            &other.decided_at,
        ) && self.decision.same(&other.decision) && self.scope.same(&other.scope)
            && self.actor.same(&other.actor) && self.replacement_arguments.same(
            &other.replacement_arguments,
        ) && self.extensions.same(&other.extensions)
    }
}

impl Duplicate for Resolution {
    fn duplicate(&self) -> (r: Self) {
        Resolution {
            id: self.id.duplicate(),
            request_id: self.request_id.duplicate(),
            decision_id: self.decision_id.duplicate(),
            action_digest: self.action_digest.duplicate(),
            resolved_at: self.resolved_at.duplicate(),
            outcome: self.outcome.duplicate(),
            message: self.message.duplicate(),
            effective_scope: self.effective_scope.duplicate(),
            extensions: self.extensions.duplicate(),
        }
    }

    fn same(&self, other: &Self) -> (r: bool) {
        self.id.same(&other.id) && self.request_id.same(&other.request_id)
            && self.decision_id.same(&other.decision_id) && self.action_digest.same(
            &other.action_digest,
        ) && self.resolved_at.same(&other.resolved_at) && self.outcome.same(&other.outcome)
            && self.message.same(&other.message) && self.effective_scope.same(
            &other.effective_scope,
        ) && self.extensions.same(&other.extensions)
    }
}

impl Duplicate for Snapshot {
    fn duplicate(&self) -> (r: Self) {
        Snapshot { as_of_sequence: self.as_of_sequence, pending: self.pending.duplicate() }
    }

    fn same(&self, other: &Self) -> (r: bool) {
        self.as_of_sequence == other.as_of_sequence && self.pending.same(&other.pending)
    }
}

impl Duplicate for Activity {
    fn duplicate(&self) -> (r: Self) {
        Activity {
            request_id: self.request_id.duplicate(),
            message: self.message.duplicate(),
            stage: self.stage.duplicate(),
        }
    }

    fn same(&self, other: &Self) -> (r: bool) {
        self.request_id.same(&other.request_id) && self.message.same(&other.message)
            && self.stage.same(&other.stage)
    }
}

impl Duplicate for Envelope {
    fn duplicate(&self) -> (r: Self) {
        Envelope {
            aais: self.aais.duplicate(),
            event_type: self.event_type.duplicate(),
            id: self.id.duplicate(),
            occurred_at: self.occurred_at.duplicate(),
            sequence: self.sequence,
            stream: self.stream.duplicate(),
            extensions: self.extensions.duplicate(),
            request: self.request.duplicate(),
            decision: self.decision.duplicate(),
            resolution: self.resolution.duplicate(),
            snapshot: self.snapshot.duplicate(),
            activity: self.activity.duplicate(),
        }
    }

    fn same(&self, other: &Self) -> (r: bool) {
        self.aais.same(&other.aais) && self.event_type.same(&other.event_type) && self.id.same(
            &other.id,
        ) && self.occurred_at.same(&other.occurred_at) && self.sequence == other.sequence
            && self.stream.same(&other.stream) && self.extensions.same(&other.extensions)
            && self.request.same(&other.request) && self.decision.same(&other.decision)
            && self.resolution.same(&other.resolution) && self.snapshot.same(&other.snapshot)
            && self.activity.same(&other.activity)
    }
}

} // verus!
