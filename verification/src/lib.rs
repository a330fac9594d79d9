//! A client-side implementation of NNTP framing: the status-line and data-block
//! grammar, the response-code table, command encoding and typed decoders.

pub mod client;
pub mod error;
pub mod raw;
pub mod response_code;
pub mod text;
pub mod types;

pub use client::ClientConfig;
pub use client::NntpClient;
pub use raw::compression::Compression;
pub use raw::connection::ConnectionConfig;
pub use raw::connection::NntpConnection;
