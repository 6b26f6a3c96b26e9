//! Request handling rules of the Graph API server: credentials, scopes,
//! paging, record conversion, punishment and player rules, and the
//! Server-Sent Events stream parser of the client SDK.

pub mod text;

pub mod sse;
pub mod encoding;
pub mod auth;
pub mod models;
pub mod filters;
pub mod pagination;
pub mod stream;
pub mod punishments;
pub mod records;
pub mod players;
pub mod api_keys;
pub mod crawls;
pub mod patch_notes;
pub mod mcp;
pub mod mojang;
