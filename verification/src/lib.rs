//! Verified core of the bead task-coordination service: the decisions,
//! parsers and report builders that the command layer runs around storage,
//! Git and the file system.
pub mod text;
pub mod git;
pub mod git_stage;
pub mod git_commit;
pub mod doctor;
pub mod digest;
pub mod redaction;
pub mod external_refs;
pub mod lifecycle;
pub mod issues;
pub mod policy;
pub mod migrate;
pub mod rehearsal;
pub mod leases;
pub mod dryrun;
pub mod error;
pub mod model;
pub mod query;
pub mod resource_locks;
pub mod manifest;
pub mod reconcile;
pub mod scheduling;
pub mod dependency_cycles;
pub mod doctor_checks;
