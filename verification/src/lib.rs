//! Stele: verified core of a shared memory service (flat memories and a
//! knowledge graph), its query builder, mailbox addressing and client logic.

pub mod address;
pub mod auth;
pub mod client;
pub mod graph;
pub mod json;
pub mod lenient;
pub mod mail_cli;
pub mod mailbox;
pub mod mcp;
pub mod models;
pub mod node;
pub mod notify;
pub mod output;
pub mod profiles;
pub mod query;
pub mod rest;
pub mod server_config;
pub mod sql;
pub mod steop;
pub mod store;
pub mod text;
pub mod tools;
pub mod transport;
