//! Verified core of the karasync synchronisation server: message codes, the
//! JSON reply framing, frame decoding, the per-connection session machine,
//! the client registry, configuration parsing, and the walks that drive
//! project uploads, downloads, clones and pushes.

pub mod text;
pub mod json;
pub mod code;
pub mod structs;
pub mod processing;
pub mod hub;
pub mod rpc;
pub mod tasks;
pub mod config;
pub mod ssh_error;
pub mod logging;
pub mod session;
pub mod registry;
pub mod transfer;
pub mod project;
