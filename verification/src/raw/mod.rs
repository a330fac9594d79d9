//! The wire level: line grammar, framed responses and the reading engine.

pub mod compression;
pub mod connection;
pub mod error;
pub mod parse;
pub mod response;
pub mod stream;
pub mod tls;

pub use compression::Compression;
pub use connection::NntpConnection;
pub use connection::TlsConfig;
pub use response::DataBlocks;
pub use response::RawResponse;
pub use stream::ByteStream;
