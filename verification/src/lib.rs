//! Core of a server-rendered, session-scoped task list.
//!
//! All application state lives in a per-session [`state::State`] value; every
//! mutation is a pure function from the checked-out state and the request's
//! already-parsed inputs to a new state plus a list of HTML fragments
//! ([`fragment::Fragment`]), each carrying the page region it targets and its
//! swap mode. Loading and saving the session, routing, and transport belong to
//! the surrounding application, not to this crate.
//!
//! Known limitation: two concurrent requests against the same session race at
//! the store level (last write wins); this core provides no intra-session
//! mutual exclusion.

pub mod errors;
pub mod filter;
pub mod footer;
pub mod fragment;
pub mod handlers;
pub mod laws;
pub mod state;
pub mod text;
pub mod todos;
pub mod views;
