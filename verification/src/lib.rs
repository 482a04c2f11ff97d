//! Persistent SSH workspaces: shells that outlive the connection that opened
//! them, the journal of their output, and the client that reattaches to them.

pub mod bookmark;
pub mod bootstrap;
pub mod bytes;
pub mod compression;
pub mod connection;
pub mod global_search;
pub mod harness_persistence;
pub mod harness_usage;
pub mod host;
pub mod journal;
pub mod local;
pub mod native_replay;
pub mod number;
pub mod outline;
pub mod paths;
pub mod popup;
pub mod proto;
pub mod replay;
pub mod rpc;
pub mod settings;
pub mod shell;
pub mod ssh_recipe;
pub mod status;
pub mod terminal;
pub mod text;
pub mod transport;
pub mod usage_reporting;
pub mod workspace;
