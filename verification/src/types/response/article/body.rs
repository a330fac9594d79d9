use crate::error::missing_data_blocks_text;
use crate::error::Error;
use crate::raw::response::DataBlocks;
use crate::raw::response::RawResponse;
use crate::response_code::Kind;
use crate::response_code::ResponseCode;
use crate::text::text_of;
use crate::types::response::article::iter::Lines;
use crate::types::response::article::iter::Unterminated;
use crate::types::response::util::article_fields_of;
use crate::types::response::util::err_if_not_kind;
use crate::types::response::util::invalid_code_text;
use crate::types::response::util::process_article_first_line;
use vstd::prelude::*;

verus! {

/// The body of an article, as the server sends it on its own.
#[derive(Clone, Debug, Eq, PartialEq)]
pub struct Body {
    /// The number of the article within its newsgroup
    pub number: u64,
    /// The message id of the article
    pub message_id: String,
    pub(crate) blocks: DataBlocks,
}

impl Body {
    /// The number of the article.
    pub open(crate) spec fn spec_number(&self) -> u64 {
        self.number
    }

    /// The message id of the article.
    pub open(crate) spec fn spec_message_id(&self) -> Seq<char> {
        self.message_id@
    }

    /// The data-block section that holds the body.
    pub open(crate) spec fn spec_blocks(&self) -> DataBlocks {
        self.blocks
    }

    /// The outcome of decoding a body from a response: an error unless the
    /// code says that a body follows, the status line holds an article number
    /// and a message id, and the response has a data-block section; and else
    /// these three.
    pub open spec fn decoded(resp: RawResponse, r: Result<Body, Error>) -> bool {
        if resp.spec_code() != ResponseCode::Known(Kind::Body) {
            r matches Err(e) && e.is_de(invalid_code_text(resp.spec_code()))
        } else {
            match article_fields_of(text_of(resp.spec_first_line())) {
                Err(msg) => r matches Err(e) && e.is_de(msg),
                Ok((number, id)) => match resp.spec_data_blocks() {
                    None => r matches Err(e) && e.is_de(missing_data_blocks_text()),
                    Some(db) => {
                        &&& r matches Ok(body)
                        &&& body.spec_number() == number
                        &&& body.spec_message_id() == id
                        &&& body.spec_blocks().spec_payload() == db.spec_payload()
                        &&& body.spec_blocks().spec_boundaries() == db.spec_boundaries()
                    },
                },
            }
        }
    }

    /// Decodes a body from a response.
    pub fn try_from(resp: &RawResponse) -> (r: Result<Body, Error>)
        ensures
            Body::decoded(*resp, r),
    {
        match err_if_not_kind(resp, Kind::Body) {
            Ok(()) => {},
            Err(e) => {
                return Err(e);
            },
        }
        let (number, message_id) = match process_article_first_line(resp) {
            Ok(fields) => fields,
            Err(e) => {
                return Err(e);
            },
        };
        match resp.data_blocks() {
            None => Err(Error::missing_data_blocks()),
            Some(db) => Ok(Body { number, message_id, blocks: db.clone() }),
        }
    }

    /// The number of the article within the newsgroup it was retrieved from.
    pub fn number(&self) -> (number: u64)
        ensures
            number == self.spec_number(),
    {
        self.number
    }

    /// The message id of the article.
    pub fn message_id(&self) -> (id: &str)
        ensures
            id@ == self.spec_message_id(),
    {
        self.message_id.as_str()
    }

    /// The raw bytes of the body, the terminator line included.
    pub fn body(&self) -> (bytes: &[u8])
        ensures
            bytes@ == self.spec_blocks().spec_payload(),
    {
        self.blocks.payload()
    }

    /// A cursor over the lines of the body, each with its line terminator.
    pub fn lines(&self) -> (lines: Lines<'_>)
        ensures
            lines.remaining() == self.spec_blocks().spec_lines(),
    {
        Lines { inner: self.blocks.lines() }
    }

    /// A cursor over the content lines of the body, without line terminators
    /// and without the terminator line.
    pub fn unterminated(&self) -> (lines: Unterminated<'_>)
        ensures
            lines.remaining() == self.spec_blocks().spec_unterminated(),
    {
        Unterminated { inner: self.blocks.unterminated() }
    }
}

} // verus!
