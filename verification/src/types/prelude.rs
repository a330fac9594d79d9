//! The types that most users of the library need.

pub use crate::raw::response::DataBlocks;
pub use crate::raw::response::RawResponse;
pub use crate::response_code::Kind;
pub use crate::response_code::ResponseCode;
pub use crate::types::command::NntpCommand;
pub use crate::types::response::BinaryArticle;
pub use crate::types::response::Body;
pub use crate::types::response::Capabilities;
pub use crate::types::response::Capability;
pub use crate::types::response::Group;
pub use crate::types::response::Head;
pub use crate::types::response::Header;
pub use crate::types::response::Headers;
pub use crate::types::response::NntpResponseBody;
pub use crate::types::response::Response;
pub use crate::types::response::Stat;
pub use crate::types::response::TextArticle;
pub use crate::types::ArticleNumber;
