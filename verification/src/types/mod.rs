//! Typed commands and typed responses.

use vstd::prelude::*;

pub mod command;
pub mod prelude;
pub mod response;

pub use crate::response_code::Kind;
pub use crate::response_code::ResponseCode;
pub use command::NntpCommand;

verus! {

/// The number of an article within a newsgroup.
pub type ArticleNumber = u64;

} // verus!
