//! Google Workspace command-line logic: request planning, response handling,
//! OAuth helpers and message framing, verified with Verus.

pub mod text;
pub mod codec;
pub mod json;
pub mod client;
pub mod output;
pub mod auth;
pub mod paths;
pub mod gmail;
pub mod drive;
pub mod docs;
pub mod sheets;
pub mod schema;
