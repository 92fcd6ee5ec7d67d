//! A polling-trigger engine: schedules that sample poll functions, a
//! dispatch table from events to ordered actions, the per-iteration and
//! per-loop decisions, a run flag, and a command-diff change detector; with
//! the readers of network tool output that surround it.

pub mod config;
pub mod errors;
pub mod ifconfig;
pub mod interfaces;
pub mod ip;
pub mod keyed;
pub mod monitor;
pub mod net_tools;
pub mod notify;
pub mod poller;
pub mod public_ip;
pub mod schedule;
pub mod watcher;
