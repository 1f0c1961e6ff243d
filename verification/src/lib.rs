//! GitHub notification forwarder for `ntfy`: the verified core.
//!
//! The library decides what to forward: it summarises GitHub timelines,
//! renders notification titles and bodies, applies block rules, remembers
//! what was already delivered, and plans the polling loop.  The program
//! around it performs the network and file work.

pub mod action;
pub mod app;
pub mod auto_watch;
pub mod config;
pub mod filter;
pub mod github;
pub mod ntfy;
pub mod render;
pub mod state;
pub mod text;
pub mod wildcard;
