//! Articles and their parts.

pub mod binary;
pub mod body;
pub mod headers;
pub mod iter;
pub mod parse;
pub mod stat;
pub mod text;

pub use binary::BinaryArticle;
pub use body::Body;
pub use headers::Head;
pub use headers::Header;
pub use headers::Headers;
pub use stat::Stat;
pub use text::TextArticle;
