use crate::raw::response::RawResponse;
use crate::response_code::ResponseCode;
use vstd::prelude::*;
use vstd::string::StringExecFns;

verus! {

/// All of the ways in which an operation of this library can fail.
#[derive(Clone, Debug, PartialEq, Eq)]
pub enum Error {
    /// The server answered, well-formed, with a code that was not the one
    /// hoped for
    Failure {
        /// The response code
        code: ResponseCode,
        /// The response as it was framed
        resp: RawResponse,
        /// A message that goes with the response
        msg: Option<String>,
    },
    /// An error of the connection below
    Connection(crate::raw::error::Error),
    /// A response could not be decoded into a typed record
    Deserialization(String),
    /// Bytes that had to be UTF-8 were not
    Utf8(std::str::Utf8Error),
}

/// The message for a field that a status line lacks.
pub open spec fn missing_field_text(name: Seq<char>) -> Seq<char> {
    "Missing field `"@ + name + "`"@
}

/// The message for a field whose text could not be read as its type.
pub open spec fn parse_error_text(name: Seq<char>) -> Seq<char> {
    "Could not parse field `"@ + name + "`"@
}

/// The message for a data-block section that broke its grammar.
pub open spec fn invalid_data_blocks_text(msg: Seq<char>) -> Seq<char> {
    "Invalid data-block section -- "@ + msg
}

/// The message for a response that lacks the data-block section it needs.
pub open spec fn missing_data_blocks_text() -> Seq<char> {
    "Response is missing multi-line data blocks"@
}

impl Error {
    /// `self` is a deserialization error with the message `text`.
    pub open spec fn is_de(self, text: Seq<char>) -> bool {
        self matches Error::Deserialization(m) && m@ == text
    }

    /// `self` is the failure that the response `resp` stands for, with its
    /// code and with the message `text`.
    pub open spec fn is_failure(self, resp: RawResponse, text: Option<Seq<char>>) -> bool {
        &&& self matches Error::Failure { code, resp: r, msg }
        &&& code == resp.spec_code()
        &&& r == resp
        &&& match text {
            Some(t) => msg matches Some(m) && m@ == t,
            None => msg is None,
        }
    }

    /// The failure that a response with an unexpected code stands for.
    pub fn failure(resp: RawResponse) -> (e: Error)
        ensures
            e.is_failure(resp, None),
    {
        Error::Failure { code: resp.code(), resp, msg: None }
    }

    /// A deserialization error with the message `msg`.
    pub fn de(msg: &str) -> (e: Error)
        ensures
            e.is_de(msg@),
    {
        Error::Deserialization(String::from_str(msg))
    }

    /// The error for a field that a status line lacks.
    pub fn missing_field(name: &str) -> (e: Error)
        ensures
            e.is_de(missing_field_text(name@)),
    {
        Error::Deserialization(String::from_str("Missing field `").concat(name).concat("`"))
    }

    /// The error for a field whose text could not be read as its type.
    pub fn parse_error(name: &str) -> (e: Error)
        ensures
            e.is_de(parse_error_text(name@)),
    {
        Error::Deserialization(String::from_str("Could not parse field `").concat(name).concat("`"))
    }

    /// The error for a response that lacks the data-block section it needs.
    pub fn missing_data_blocks() -> (e: Error)
        ensures
            e.is_de(missing_data_blocks_text()),
    {
        Error::Deserialization(String::from_str("Response is missing multi-line data blocks"))
    }

    /// The error for a data-block section that broke its grammar.
    pub fn invalid_data_blocks(msg: &str) -> (e: Error)
        ensures
            e.is_de(invalid_data_blocks_text(msg@)),
    {
        Error::Deserialization(String::from_str("Invalid data-block section -- ").concat(msg))
    }
}

} // verus!
