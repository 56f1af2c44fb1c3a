//! Core library of a backup orchestrator: the profile/repository data model
//! with its versioned configuration, secret resolution, the coordination
//! primitives (per-repository exclusion, fan-in completion, check
//! aggregation), the command/response bus vocabulary, and the directory
//! suggestion index.

pub mod ring;
pub mod strutil;
pub mod profiles;
pub mod coordination;
pub mod secrets;
pub mod finder;
pub mod types;
pub mod bus;
pub mod config;
pub mod actions;
pub mod emitter;
pub mod session;
pub mod input;
