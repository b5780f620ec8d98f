//! Interactive multi-select over a list of display strings.
//!
//! The crate models one selection session: an immutable ordered item list, a
//! live case-insensitive substring filter, a cursor and viewport over the
//! filtered view, a set of selected canonical indices, and the key-routing
//! state machine that drives them. Around that core sit the pure parts of the
//! surrounding tool: configuration bookkeeping, template-index bookkeeping,
//! path and key validation, theme selection, and release-version picking.

pub mod cli;
pub mod config;
pub mod display;
pub mod gitignore;
pub mod selection;
pub mod strkit;
pub mod template;
pub mod theme;
pub mod updater;
pub mod validation;
