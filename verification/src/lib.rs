//! Verified core of a collaborative Rust playground: operational-transform
//! documents, project access rules, language-server framing and the
//! validation rules of the HTTP and WebSocket API.

pub mod access;
pub mod errors;
pub mod ot;
pub mod strmap;
pub mod document;
pub mod text;
pub mod lsp;
pub mod auth;
pub mod users;
pub mod manager;
pub mod paths;
pub mod project;
pub mod messages;
pub mod session;
pub mod runner;
pub mod protocol;
pub mod opseq;
pub mod util;
pub mod config;
