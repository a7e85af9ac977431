//! Verified core of the KessokuTeaTime API backend: the control-flow states and
//! transactions of its deployment framework, the queueing and draining rules of the
//! service, the GitHub artifact decisions, and the checks on deployment payloads.

pub mod archive;
pub mod auth;
pub mod deploy;
pub mod digest;
pub mod framework;
pub mod service;
pub mod shutdown;
pub mod text;
pub mod transactions;
pub mod update;
pub mod website;
pub mod workflow;
