//! FileHog: the verified core of an agent that watches a directory and keeps
//! every eligible file stored on a decentralized storage network.
//!
//! The crate holds the rules of the agent as functions over plain values:
//! the per-file lifecycle, the record store in its two layouts, the retry
//! policy, the protocol of the storage network and the decisions of the
//! scheduler. Everything that touches the network or the file system is
//! left to the caller, which does what these functions ask for and reports
//! what came of it.
//!
//! - [`storage`]: the lifecycle record of a file, the rules that change it
//!   and the record store; [`layout`] says what the store holds in either
//!   layout, and [`paths`] how paths and store keys lead to each other.
//! - [`registry`]: the records of all known files, by path.
//! - [`file_processor`]: the orchestrator that drives a file through
//!   upload, purchase request and confirmation; [`lifecycle`] says what
//!   each of its steps does.
//! - [`error`]: retrying with exponential backoff.
//! - [`monitor`]: the scheduler.
//! - [`codex`]: the calls to the nodes of the storage network.
//! - [`config`]: the configuration and its rules.
//! - [`text`]: numbers and text.

mod clock;
pub mod codex;
pub mod config;
pub mod error;
pub mod file_processor;
pub mod layout;
pub mod lifecycle;
pub mod monitor;
pub mod paths;
pub mod registry;
pub mod storage;
pub mod text;
