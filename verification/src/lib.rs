//! A verified core for an editor-facing language server that proxies
//! semantic queries to a supervised compiler subprocess (the sidecar).
//!
//! The crate holds the logic of four subsystems: the framed JSON-RPC
//! codec, the project resolver, the document session, and the sidecar
//! bridge with its health check and analysis debouncer.  Asynchronous
//! plumbing (process spawning, channels, timers) lives outside; the
//! decisions it carries out are verified here.

pub mod bridge;
pub mod cli;
pub mod codec;
pub mod config;
pub mod debounce;
pub mod diagnostics;
pub mod errors;
pub mod jsonrpc;
pub mod params;
pub mod project;
pub mod session;
pub mod text;
