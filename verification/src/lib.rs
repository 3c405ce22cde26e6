//! Core of an embeddable developer console: a command registry, a dispatch
//! engine, and the interactive session state (edit buffer, scrollback log,
//! history ring), together with the pure detector that decides when a raw
//! key event should toggle the console open or closed.
//!
//! The host application supplies the rendering, the raw input events and the
//! per-frame scheduling; this crate holds the state machines and rules that
//! sit between them.

pub mod binding;
pub mod config;
pub mod events;
pub mod parser;
pub mod registry;
pub mod session;
pub mod text;
pub mod toggle;
pub mod tokenize;
