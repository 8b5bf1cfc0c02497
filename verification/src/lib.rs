//! A verified core for a token-budgeted document-collection server.
//!
//! The library turns free-text queries into structured search
//! specifications, executes bounded searches against a document store,
//! renders results as compact prose, and dispatches JSON-RPC style
//! requests, with an authenticated write path.

pub mod auth;
pub mod crud_service;
pub mod db_service;
pub mod formatting;
pub mod json;
pub mod models;
pub mod protocol;
pub mod query_parser;
pub mod regex_match;
pub mod server;
pub mod text;
