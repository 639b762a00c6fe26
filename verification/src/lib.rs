//! Folder watching and automatic transcoding: the decisions behind the `hbwatch` daemon.

pub mod claims;
pub mod cli;
pub mod config;
pub mod dashboard;
pub mod encoder;
pub mod job_run;
pub mod mover;
pub mod notify_ntfy;
pub mod path;
pub mod preset;
pub mod progress;
pub mod queue;
pub mod resolver;
pub mod runtime;
pub mod scan;
pub mod server;
pub mod service;
pub mod status;
pub mod statuscmd;
pub mod text;
pub mod watcher;
pub mod worker;
