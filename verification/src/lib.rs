//! Client-side logic for TheTVDB's JSON API v2.
//!
//! The crate holds what the client decides and computes; sending requests
//! and reading answers is left to the program around it.
//!
//! - [`tvdb_errors`]: the kinds of failure, and which response statuses fail.
//! - [`tvdb_auth`]: the login request, and the token kept after the first
//!   successful login.
//! - [`tvdb_from`]: the address of each entity, the addresses of the pages of
//!   a paginated entity, and the assembly of the pages in page order.
//! - [`tvdb_api`]: the entities themselves, the newest-first order of search
//!   hits, the grouping of episodes by season, and the merged feed of
//!   recently updated series.
//! - [`ordering`]: the stable sort behind those orders.
//! - [`text`]: decimal numerals, joining and replacing, and the order of
//!   strings.
//! - [`render`]: the lines of the tables that show the entities.
//! - [`cli`]: what the command-line tools ask and how they read an answer.

use vstd::prelude::*;

pub mod cli;
pub mod ordering;
pub mod render;
pub mod text;
pub mod tvdb_api;
pub mod tvdb_auth;
pub mod tvdb_errors;
pub mod tvdb_from;

verus! {

/// What every request names as its user agent.
pub const USER_AGENT: &'static str = "tvdb-v2-rs/0.1";

/// Where the service lives.
pub const BASE_URL: &'static str = "https://api.thetvdb.com";

/// The API version asked for in the `Accept` header.
pub const ACCEPT_API_VERSION: &'static str = "application/vnd.thetvdb.v3";

/// The key this client logs in with.
pub const API_KEY: &'static str = "0629B785CE550C8D";

} // verus!
