//! Agent Approval Interchange Specification 1.0: documents, Core validation,
//! RFC 8785 action binding, builders and a replay-safe approval state machine.
pub mod builders;
pub mod canonical;
pub mod copy;
pub mod external;
pub mod laws;
pub mod store;
pub mod text;
pub mod time;
pub mod types;
pub mod validate;

pub use builders::{create_decision, create_request, CreateDecisionOptions, CreateRequestOptions};
pub use canonical::action_digest;
pub use store::ApprovalStore;
pub use time::Timestamp;
pub use types::{
    Action, Activity, Actor, ApprovalError, Choice, Decision, Envelope, JsonObject, Origin,
    Presentation, Request, Resolution, Result, Risk, Snapshot,
};
pub use validate::validate;
