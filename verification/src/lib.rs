//! A declarative host-provisioning engine.
//!
//! Operators describe the desired state of a machine as named manifests. A
//! manifest lists actions and the names of the manifests it depends on. This
//! crate orders the manifests, turns each action into the host operations it
//! stands for, and decides after each operation what happens next. Performing
//! an operation on the host is left to the caller.

pub mod actions;
pub mod atoms;
pub mod dag;
pub mod engine;
pub mod graph;
pub mod manifest;
