//! Roster management for a gaming community: players, teams and platoons.
//!
//! - `database` holds the in-memory relational store with verified CRUD
//!   operations and the team-membership reconciliation workflow, together
//!   with proofs of its governing rules;
//! - `domain` holds the entities as the presentation layer sees them;
//! - `auth` verifies credentials against stored password digests;
//! - `server` holds the request-level entry points: row-to-domain
//!   translation, form parsing, and error wrapping;
//! - `text` holds the byte-level helpers behind name filters and id-list
//!   parsing.

pub mod auth;
pub mod database;
pub mod domain;
pub mod server;
pub mod text;
