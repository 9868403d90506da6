//! `hq` — a mission orchestrator for AI coding agents.
//!
//! This crate is the engine's decisions: the state of missions, the
//! verdicts of the gates, the allowlists, and the text the engine writes for
//! agents and humans. What talks to a disk, a container engine, git or the
//! network lives in the program around it and hands this crate plain values.

pub mod text;
pub mod harness;
pub mod state;
pub mod backoff;
pub mod mission;
pub mod gate;
pub mod security;
pub mod engine;
pub mod git;
pub mod perimeter;
pub mod compose;
pub mod exec;
pub mod run;
pub mod mutants;
pub mod project;
pub mod account;
pub mod consumption;
pub mod forge;
pub mod human;
pub mod sessions;
pub mod secrets;
pub mod role;
pub mod followup;
pub mod lifecycle;
pub mod slot;
pub mod push;
pub mod check;
pub mod verify;
pub mod monitor;
pub mod findings;
pub mod gesture;
pub mod logs;
pub mod provider;
pub mod image;
pub mod launch;
pub mod probe;
pub mod init;
