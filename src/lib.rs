//! Core of a server that administers a Linux host and bridges a remote
//! terminal to it.
//!
//! The heart is the terminal bridge: credential and capability gating
//! (`auth`, `config`, `gate`), the wire protocol of a session (`protocol`),
//! the output pump's per-read decision (`pump`) and the session's state
//! machine (`session`). The hosting program owns the network session, the
//! pseudo-terminal, the child process and the reader thread; it performs the
//! actions the state machine orders and feeds back what happened as events.
//!
//! Around it stand the decisions of the management endpoints: request
//! authorization (`middleware`) and the readers of what system tools print
//! (`pkgmgr`, `services`, `firewall`, `docker`, `db`, `monitor`, on top of
//! `text`).
pub mod auth;
pub mod config;
pub mod db;
pub mod docker;
pub mod error;
pub mod firewall;
pub mod gate;
pub mod middleware;
pub mod monitor;
pub mod pkgmgr;
pub mod protocol;
pub mod pump;
pub mod services;
pub mod session;
pub mod text;
