//! Authoritative state for Pantheon's control plane.
pub mod agent_control;
pub mod artifacts;
pub mod cancel;
pub mod clock;
pub mod command;
pub mod configuration;
pub mod context;
pub mod dispatch;
pub mod error;
pub mod execution;
pub mod json;
pub mod laws;
pub mod migrations;
pub mod operator;
pub mod order;
pub mod planning;
pub mod policy;
pub mod revision;
pub mod sandbox;
pub mod scheduling;
pub mod store;
pub mod submission;
pub mod table;
pub mod text;
