//! A minimal HTTP/1.0 protocol layer: request parsing, the status and error
//! taxonomy, and response serialization.

pub mod status;
pub mod error;
pub mod text;
pub mod headers;
pub mod response;
pub mod request;
pub mod server;
