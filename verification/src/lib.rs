//! Core logic of a single-operator deployment tool: a persisted key/value
//! config store, a placeholder template renderer, volume-mapping parsing,
//! routing-rule construction, and the ordered step plans and state machine
//! that drive host provisioning and application deployment over a remote
//! command channel.
#![verifier::loop_isolation(false)]

pub mod command;
pub mod config;
pub mod deploy;
pub mod init;
pub mod setup;
pub mod template;
pub mod text;
