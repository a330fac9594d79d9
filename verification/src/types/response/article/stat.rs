use crate::error::Error;
use crate::raw::response::RawResponse;
use crate::response_code::Kind;
use crate::response_code::ResponseCode;
use crate::text::text_of;
use crate::types::response::util::article_fields_of;
use crate::types::response::util::err_if_not_kind;
use crate::types::response::util::invalid_code_text;
use crate::types::response::util::process_article_first_line;
use vstd::prelude::*;

verus! {

/// What the server says of an article that exists: its number and its id.
#[derive(Clone, Debug, Eq, PartialEq)]
pub struct Stat {
    /// The number of the article within its newsgroup
    pub number: u64,
    /// The message id of the article
    pub message_id: String,
}

impl Stat {
    /// The outcome of decoding the status of an article from a response: an
    /// error unless the code says that the article exists, and else what the
    /// status line holds.
    pub open spec fn decoded(resp: RawResponse, r: Result<Stat, Error>) -> bool {
        if resp.spec_code() != ResponseCode::Known(Kind::ArticleExists) {
            r matches Err(e) && e.is_de(invalid_code_text(resp.spec_code()))
        } else {
            match (r, article_fields_of(text_of(resp.spec_first_line()))) {
                (Ok(stat), Ok((number, id))) => stat.number == number && stat.message_id@ == id,
                (Err(e), Err(msg)) => e.is_de(msg),
                _ => false,
            }
        }
    }

    /// Decodes the status of an article from a response.
    pub fn try_from(resp: &RawResponse) -> (r: Result<Stat, Error>)
        ensures
            Stat::decoded(*resp, r),
    {
        match err_if_not_kind(resp, Kind::ArticleExists) {
            Ok(()) => {},
            Err(e) => {
                return Err(e);
            },
        }
        match process_article_first_line(resp) {
            Ok((number, message_id)) => Ok(Stat { number, message_id }),
            Err(e) => Err(e),
        }
    }
}

} // verus!
