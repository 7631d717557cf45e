//! Turns VPN lifecycle events into systemd-networkd configuration.
//!
//! A VPN client raises an event when it connects or disconnects, and hands
//! over the parameters of the tunnel. This crate decides what the event
//! means for the machine: which file is written with what text or deleted,
//! and whether the network manager has to reload. It performs no input or
//! output itself. What has to happen is handed out as plain values, one
//! step at a time; the caller performs each step and reports how it went.
//!
//! - [`config`]: the parameters of an event.
//! - [`document`]: the text of the `.network` file.
//! - [`process`]: the synthesizer, which turns an event into steps.
//! - [`lifecycle`]: one invocation from its first step to its result.
//! - [`networkctl`]: the command that reloads the network manager.
//! - [`agent`] and [`caller`]: the two ends of the channel over which a
//!   caller without privilege has a privileged agent process its events.
//! - [`params`]: where the split routes are found among the named values.
//! - [`text`]: decimal numbers, words and fields.

pub mod agent;
pub mod caller;
pub mod config;
pub mod document;
pub mod error;
pub mod lifecycle;
pub mod networkctl;
pub mod params;
pub mod plan;
pub mod process;
pub mod text;

pub use crate::config::{Config, Reason, Route};
pub use crate::error::Error;
pub use crate::lifecycle::run_locally_noenv;
pub use crate::networkctl::Networkctl;
pub use crate::plan::Changed;
pub use crate::process::Process;
