# agent-approval-interchange

A Verus-verified support library for the Agent Approval Interchange
Specification (AAIS) 1.0: document types, Core validation, RFC 8785 /
SHA-256 action binding, request and decision builders, and an in-memory,
replay-safe approval state machine with durable snapshots.

Layout:

- `src/types.rs` — the documents and their mathematical views;
- `src/text.rs` — identifier, offset and digest grammars, hexadecimal text;
- `src/time.rs` — RFC 3339 instants and the `Timestamp` type;
- `src/canonical.rs` — canonical JSON of actions and decisions, digests;
- `src/validate.rs` — Core validation, stated as the first failing check;
- `src/builders.rs` — `create_request` and `create_decision`;
- `src/store.rs` — `ApprovalStore` (`add`, `decide`, `snapshot`, `from_snapshot`);
- `src/laws.rs` — properties that span several operations;
- `src/copy.rs` — deep copies and comparisons;
- `src/external.rs` — the calls into chrono, regex, sha2, serde_jcs and uuid;
- `app/lib.rs` — JSON reading and writing (serde), chrono conversions.

JSON objects that the protocol treats as opaque data (action arguments,
scope constraints, extensions) are carried as their RFC 8785 canonical text.
