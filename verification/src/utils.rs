//! Utilities around the core: request-id generation and static-file path
//! resolution.

pub mod request_id;
pub mod serve_dir;
