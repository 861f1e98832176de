//! Decisions of a tools-only Model Context Protocol client, free of I/O.

pub mod bearer;
pub mod callback;
pub mod canonical;
pub mod challenge;
pub mod client;
pub mod command;
pub mod command_laws;
pub mod connection;
pub mod controlled;
pub mod controlled_laws;
pub mod custody;
pub mod custody_laws;
pub mod digest_laws;
pub mod endpoint;
pub mod error;
pub mod exchange;
pub mod frames;
pub mod headers;
pub mod identity;
pub mod json;
pub mod laws;
pub mod limits;
pub mod oauth;
pub mod oauth_laws;
pub mod outside;
pub mod paths;
pub mod refusal;
pub mod registry;
pub mod registry_digest;
pub mod registry_laws;
pub mod schema;
pub mod schema_laws;
pub mod secret;
pub mod testkit;
pub mod text;
pub mod text_laws;
pub mod text_map;
pub mod tool_laws;
pub mod tools;
pub mod transport;
pub mod transport_laws;
