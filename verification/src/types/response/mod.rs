//! Typed responses, each decoded from a framed response.

use crate::error::Error;
use crate::raw::response::RawResponse;
use crate::response_code::ResponseCode;
use vstd::prelude::*;

pub mod article;
pub mod capabilities;
pub mod group;
pub mod util;

pub use article::BinaryArticle;
pub use article::Body;
pub use article::Head;
pub use article::Header;
pub use article::Headers;
pub use article::Stat;
pub use article::TextArticle;
pub use capabilities::Capabilities;
pub use capabilities::Capability;
pub use group::Group;

verus! {

/// A type that can be decoded from a framed response.
pub trait NntpResponseBody: Sized {
    /// `r` is what decoding `resp` gives.
    spec fn decodes_to(resp: RawResponse, r: Result<Self, Error>) -> bool;

    /// Decodes a value of this type from a response.
    fn decode(resp: &RawResponse) -> (r: Result<Self, Error>)
        ensures
            Self::decodes_to(*resp, r),
    ;
}

impl NntpResponseBody for Group {
    open spec fn decodes_to(resp: RawResponse, r: Result<Self, Error>) -> bool {
        Group::decoded(resp, r)
    }

    fn decode(resp: &RawResponse) -> (r: Result<Self, Error>) {
        Group::try_from(resp)
    }
}

impl NntpResponseBody for Stat {
    open spec fn decodes_to(resp: RawResponse, r: Result<Self, Error>) -> bool {
        Stat::decoded(resp, r)
    }

    fn decode(resp: &RawResponse) -> (r: Result<Self, Error>) {
        Stat::try_from(resp)
    }
}

impl NntpResponseBody for Body {
    open spec fn decodes_to(resp: RawResponse, r: Result<Self, Error>) -> bool {
        Body::decoded(resp, r)
    }

    fn decode(resp: &RawResponse) -> (r: Result<Self, Error>) {
        Body::try_from(resp)
    }
}

impl NntpResponseBody for Head {
    open spec fn decodes_to(resp: RawResponse, r: Result<Self, Error>) -> bool {
        Head::decoded(resp, r)
    }

    fn decode(resp: &RawResponse) -> (r: Result<Self, Error>) {
        Head::try_from(resp)
    }
}

impl NntpResponseBody for BinaryArticle {
    open spec fn decodes_to(resp: RawResponse, r: Result<Self, Error>) -> bool {
        BinaryArticle::decoded(resp, r)
    }

    fn decode(resp: &RawResponse) -> (r: Result<Self, Error>) {
        BinaryArticle::try_from(resp)
    }
}

impl NntpResponseBody for Capabilities {
    open spec fn decodes_to(resp: RawResponse, r: Result<Self, Error>) -> bool {
        Capabilities::decoded(resp, r)
    }

    fn decode(resp: &RawResponse) -> (r: Result<Self, Error>) {
        Capabilities::try_from(resp)
    }
}

/// A response of the server: its code, and what was decoded from it.
#[derive(Clone, Debug)]
pub struct Response<B> where B: Clone + NntpResponseBody {
    code: ResponseCode,
    body: B,
}

impl<B: Clone + NntpResponseBody> Response<B> {
    /// The code of the response.
    pub closed spec fn spec_code(&self) -> ResponseCode {
        self.code
    }

    /// What was decoded from the response.
    pub closed spec fn spec_body(&self) -> B {
        self.body
    }

    /// The code of the response.
    pub fn code(&self) -> (code: ResponseCode)
        ensures
            code == self.spec_code(),
    {
        self.code
    }

    /// The body of the response.
    pub fn body(&self) -> (body: &B)
        ensures
            *body == self.spec_body(),
    {
        &self.body
    }

    /// Decodes a response: the body as its type says, and with it the code.
    pub fn try_from(value: &RawResponse) -> (r: Result<Self, Error>)
        ensures
            match r {
                Ok(resp) => resp.spec_code() == value.spec_code() && B::decodes_to(
                    *value,
                    Ok(resp.spec_body()),
                ),
                Err(e) => B::decodes_to(*value, Err(e)),
            },
    {
        match B::decode(value) {
            Ok(body) => Ok(Response { code: value.code(), body }),
            Err(e) => Err(e),
        }
    }
}

} // verus!
