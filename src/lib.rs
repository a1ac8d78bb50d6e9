//! Script-execution core of a JavaScript view server: the command model,
//! the wire messages and their binary codec, the one-shot pending result
//! shared by a submitter and a session worker, the worker's decisions, the
//! HTTP routes, and the engine environment shared by all sessions.

pub mod command;
pub mod env;
pub mod http;
pub mod pending;
pub mod worker;
pub mod wire;
