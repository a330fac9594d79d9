use vstd::prelude::*;
use vstd::std_specs::convert::FromSpecImpl;

verus! {

/// The meaning of a response code that this library knows.
#[derive(Clone, Copy, Debug, PartialEq, Eq, Hash, Structural)]
pub enum Kind {
    /// 100: help text follows
    Help,
    /// 101: capability list follows
    Capabilities,
    /// 111: server date and time
    Date,
    /// 200: service available, posting allowed
    PostingAllowed,
    /// 201: service available, posting prohibited
    PostingNotPermitted,
    /// 205: connection closing
    ConnectionClosing,
    /// 211: group selected
    GroupSelected,
    /// 215: information follows
    List,
    /// 220: article follows
    Article,
    /// 221: article headers follow
    Head,
    /// 222: article body follows
    Body,
    /// 223: article exists and is selected
    ArticleExists,
    /// 224: overview information follows
    Overview,
    /// 225: headers follow
    Headers,
    /// 230: list of new articles follows
    NewNews,
    /// 231: list of new newsgroups follows
    NewGroups,
    /// 235: article transferred
    ArticleTransferredOk,
    /// 240: article received
    ArticleReceivedOk,
    /// 281: authentication accepted
    AuthenticationAccepted,
    /// 335: send the article to be transferred
    SendArticleTransfer,
    /// 340: send the article to be posted
    SendArticlePost,
    /// 381: password required
    PasswordRequired,
    /// 400: service not available or no longer available
    TemporarilyUnavailable,
    /// 401: the server is in the wrong mode
    WrongMode,
    /// 403: internal fault
    InternalFault,
    /// 411: no such newsgroup
    NoSuchNewsgroup,
    /// 412: no newsgroup selected
    NoNewsgroupSelected,
    /// 420: the current article number is invalid
    InvalidCurrentArticleNumber,
    /// 421: no next article in this group
    NoNextArticle,
    /// 422: no previous article in this group
    NoPreviousArticle,
    /// 423: no article with that number
    NoArticleWithNumber,
    /// 430: no article with that message id
    NoArticleWithMessageId,
    /// 435: article not wanted
    ArticleNotWanted,
    /// 436: transfer not possible, try again later
    TransferFailed,
    /// 437: transfer rejected, do not retry
    TransferRejected,
    /// 440: posting not permitted
    PostingProhibited,
    /// 441: posting failed
    PostingFailed,
    /// 480: command unavailable until authenticated
    AuthenticationRequired,
    /// 481: authentication failed
    AuthenticationFailed,
    /// 482: authentication commands issued out of sequence
    AuthenticationOutOfSequence,
    /// 483: command unavailable until the connection is encrypted
    EncryptionRequired,
    /// 500: unknown command
    UnknownCommand,
    /// 501: syntax error in the command
    SyntaxError,
    /// 502: service permanently unavailable
    PermanentlyUnavailable,
    /// 503: feature not supported
    FeatureNotSupported,
    /// 504: error in base64 encoding
    Base64Error,
}

/// The number that the protocol assigns to a kind.
pub open spec fn kind_code(kind: Kind) -> u16 {
    match kind {
        Kind::Help => 100,
        Kind::Capabilities => 101,
        Kind::Date => 111,
        Kind::PostingAllowed => 200,
        Kind::PostingNotPermitted => 201,
        Kind::ConnectionClosing => 205,
        Kind::GroupSelected => 211,
        Kind::List => 215,
        Kind::Article => 220,
        Kind::Head => 221,
        Kind::Body => 222,
        Kind::ArticleExists => 223,
        Kind::Overview => 224,
        Kind::Headers => 225,
        Kind::NewNews => 230,
        Kind::NewGroups => 231,
        Kind::ArticleTransferredOk => 235,
        Kind::ArticleReceivedOk => 240,
        Kind::AuthenticationAccepted => 281,
        Kind::SendArticleTransfer => 335,
        Kind::SendArticlePost => 340,
        Kind::PasswordRequired => 381,
        Kind::TemporarilyUnavailable => 400,
        Kind::WrongMode => 401,
        Kind::InternalFault => 403,
        Kind::NoSuchNewsgroup => 411,
        Kind::NoNewsgroupSelected => 412,
        Kind::InvalidCurrentArticleNumber => 420,
        Kind::NoNextArticle => 421,
        Kind::NoPreviousArticle => 422,
        Kind::NoArticleWithNumber => 423,
        Kind::NoArticleWithMessageId => 430,
        Kind::ArticleNotWanted => 435,
        Kind::TransferFailed => 436,
        Kind::TransferRejected => 437,
        Kind::PostingProhibited => 440,
        Kind::PostingFailed => 441,
        Kind::AuthenticationRequired => 480,
        Kind::AuthenticationFailed => 481,
        Kind::AuthenticationOutOfSequence => 482,
        Kind::EncryptionRequired => 483,
        Kind::UnknownCommand => 500,
        Kind::SyntaxError => 501,
        Kind::PermanentlyUnavailable => 502,
        Kind::FeatureNotSupported => 503,
        Kind::Base64Error => 504,
    }
}

/// The kind that a number stands for, if the table holds the number.
pub open spec fn kind_of_code(code: u16) -> Option<Kind> {
    if code == 100 {
        Some(Kind::Help)
    } else if code == 101 {
        Some(Kind::Capabilities)
    } else if code == 111 {
        Some(Kind::Date)
    } else if code == 200 {
        Some(Kind::PostingAllowed)
    } else if code == 201 {
        Some(Kind::PostingNotPermitted)
    } else if code == 205 {
        Some(Kind::ConnectionClosing)
    } else if code == 211 {
        Some(Kind::GroupSelected)
    } else if code == 215 {
        Some(Kind::List)
    } else if code == 220 {
        Some(Kind::Article)
    } else if code == 221 {
        Some(Kind::Head)
    } else if code == 222 {
        Some(Kind::Body)
    } else if code == 223 {
        Some(Kind::ArticleExists)
    } else if code == 224 {
        Some(Kind::Overview)
    } else if code == 225 {
        Some(Kind::Headers)
    } else if code == 230 {
        Some(Kind::NewNews)
    } else if code == 231 {
        Some(Kind::NewGroups)
    } else if code == 235 {
        Some(Kind::ArticleTransferredOk)
    } else if code == 240 {
        Some(Kind::ArticleReceivedOk)
    } else if code == 281 {
        Some(Kind::AuthenticationAccepted)
    } else if code == 335 {
        Some(Kind::SendArticleTransfer)
    } else if code == 340 {
        Some(Kind::SendArticlePost)
    } else if code == 381 {
        Some(Kind::PasswordRequired)
    } else if code == 400 {
        Some(Kind::TemporarilyUnavailable)
    } else if code == 401 {
        Some(Kind::WrongMode)
    } else if code == 403 {
        Some(Kind::InternalFault)
    } else if code == 411 {
        Some(Kind::NoSuchNewsgroup)
    } else if code == 412 {
        Some(Kind::NoNewsgroupSelected)
    } else if code == 420 {
        Some(Kind::InvalidCurrentArticleNumber)
    } else if code == 421 {
        Some(Kind::NoNextArticle)
    } else if code == 422 {
        Some(Kind::NoPreviousArticle)
    } else if code == 423 {
        Some(Kind::NoArticleWithNumber)
    } else if code == 430 {
        Some(Kind::NoArticleWithMessageId)
    } else if code == 435 {
        Some(Kind::ArticleNotWanted)
    } else if code == 436 {
        Some(Kind::TransferFailed)
    } else if code == 437 {
        Some(Kind::TransferRejected)
    } else if code == 440 {
        Some(Kind::PostingProhibited)
    } else if code == 441 {
        Some(Kind::PostingFailed)
    } else if code == 480 {
        Some(Kind::AuthenticationRequired)
    } else if code == 481 {
        Some(Kind::AuthenticationFailed)
    } else if code == 482 {
        Some(Kind::AuthenticationOutOfSequence)
    } else if code == 483 {
        Some(Kind::EncryptionRequired)
    } else if code == 500 {
        Some(Kind::UnknownCommand)
    } else if code == 501 {
        Some(Kind::SyntaxError)
    } else if code == 502 {
        Some(Kind::PermanentlyUnavailable)
    } else if code == 503 {
        Some(Kind::FeatureNotSupported)
    } else if code == 504 {
        Some(Kind::Base64Error)
    } else {
        None
    }
}

/// Whether a response of this kind carries a data-block section.
pub open spec fn kind_is_multiline(kind: Kind) -> bool {
    kind is Help || kind is Capabilities || kind is List || kind is Article || kind is Head
        || kind is Body || kind is Overview || kind is Headers || kind is NewNews
        || kind is NewGroups
}

impl Kind {
    /// The number of this kind on the wire.
    pub fn code(&self) -> (code: u16)
        ensures
            code == kind_code(*self),
            100 <= code <= 599,
    {
        match self {
            Kind::Help => 100,
            Kind::Capabilities => 101,
            Kind::Date => 111,
            Kind::PostingAllowed => 200,
            Kind::PostingNotPermitted => 201,
            Kind::ConnectionClosing => 205,
            Kind::GroupSelected => 211,
            Kind::List => 215,
            Kind::Article => 220,
            Kind::Head => 221,
            Kind::Body => 222,
            Kind::ArticleExists => 223,
            Kind::Overview => 224,
            Kind::Headers => 225,
            Kind::NewNews => 230,
            Kind::NewGroups => 231,
            Kind::ArticleTransferredOk => 235,
            Kind::ArticleReceivedOk => 240,
            Kind::AuthenticationAccepted => 281,
            Kind::SendArticleTransfer => 335,
            Kind::SendArticlePost => 340,
            Kind::PasswordRequired => 381,
            Kind::TemporarilyUnavailable => 400,
            Kind::WrongMode => 401,
            Kind::InternalFault => 403,
            Kind::NoSuchNewsgroup => 411,
            Kind::NoNewsgroupSelected => 412,
            Kind::InvalidCurrentArticleNumber => 420,
            Kind::NoNextArticle => 421,
            Kind::NoPreviousArticle => 422,
            Kind::NoArticleWithNumber => 423,
            Kind::NoArticleWithMessageId => 430,
            Kind::ArticleNotWanted => 435,
            Kind::TransferFailed => 436,
            Kind::TransferRejected => 437,
            Kind::PostingProhibited => 440,
            Kind::PostingFailed => 441,
            Kind::AuthenticationRequired => 480,
            Kind::AuthenticationFailed => 481,
            Kind::AuthenticationOutOfSequence => 482,
            Kind::EncryptionRequired => 483,
            Kind::UnknownCommand => 500,
            Kind::SyntaxError => 501,
            Kind::PermanentlyUnavailable => 502,
            Kind::FeatureNotSupported => 503,
            Kind::Base64Error => 504,
        }
    }

    /// The kind that `code` stands for, or `None` where the table does not hold it.
    pub fn from_code(code: u16) -> (kind: Option<Kind>)
        ensures
            kind == kind_of_code(code),
    {
        match code {
            100 => Some(Kind::Help),
            101 => Some(Kind::Capabilities),
            111 => Some(Kind::Date),
            200 => Some(Kind::PostingAllowed),
            201 => Some(Kind::PostingNotPermitted),
            205 => Some(Kind::ConnectionClosing),
            211 => Some(Kind::GroupSelected),
            215 => Some(Kind::List),
            220 => Some(Kind::Article),
            221 => Some(Kind::Head),
            222 => Some(Kind::Body),
            223 => Some(Kind::ArticleExists),
            224 => Some(Kind::Overview),
            225 => Some(Kind::Headers),
            230 => Some(Kind::NewNews),
            231 => Some(Kind::NewGroups),
            235 => Some(Kind::ArticleTransferredOk),
            240 => Some(Kind::ArticleReceivedOk),
            281 => Some(Kind::AuthenticationAccepted),
            335 => Some(Kind::SendArticleTransfer),
            340 => Some(Kind::SendArticlePost),
            381 => Some(Kind::PasswordRequired),
            400 => Some(Kind::TemporarilyUnavailable),
            401 => Some(Kind::WrongMode),
            403 => Some(Kind::InternalFault),
            411 => Some(Kind::NoSuchNewsgroup),
            412 => Some(Kind::NoNewsgroupSelected),
            420 => Some(Kind::InvalidCurrentArticleNumber),
            421 => Some(Kind::NoNextArticle),
            422 => Some(Kind::NoPreviousArticle),
            423 => Some(Kind::NoArticleWithNumber),
            430 => Some(Kind::NoArticleWithMessageId),
            435 => Some(Kind::ArticleNotWanted),
            436 => Some(Kind::TransferFailed),
            437 => Some(Kind::TransferRejected),
            440 => Some(Kind::PostingProhibited),
            441 => Some(Kind::PostingFailed),
            480 => Some(Kind::AuthenticationRequired),
            481 => Some(Kind::AuthenticationFailed),
            482 => Some(Kind::AuthenticationOutOfSequence),
            483 => Some(Kind::EncryptionRequired),
            500 => Some(Kind::UnknownCommand),
            501 => Some(Kind::SyntaxError),
            502 => Some(Kind::PermanentlyUnavailable),
            503 => Some(Kind::FeatureNotSupported),
            504 => Some(Kind::Base64Error),
            _ => None,
        }
    }

    /// Whether a response of this kind is followed by a data-block section.
    pub fn is_multiline(&self) -> (multiline: bool)
        ensures
            multiline == kind_is_multiline(*self),
    {
        match self {
            Kind::Help
            | Kind::Capabilities
            | Kind::List
            | Kind::Article
            | Kind::Head
            | Kind::Body
            | Kind::Overview
            | Kind::Headers
            | Kind::NewNews
            | Kind::NewGroups => true,
            _ => false,
        }
    }
}

/// A response code: one of the known kinds, or a number that the table does not hold.
#[derive(Clone, Copy, Debug, PartialEq, Eq, Hash, Structural)]
pub enum ResponseCode {
    /// A code whose meaning is known
    Known(Kind),
    /// A code that the table does not hold
    Unknown(u16),
}

/// The response code that a number stands for.
pub open spec fn response_code_of(code: u16) -> ResponseCode {
    match kind_of_code(code) {
        Some(kind) => ResponseCode::Known(kind),
        None => ResponseCode::Unknown(code),
    }
}

/// The number of a response code.
pub open spec fn response_code_number(code: ResponseCode) -> u16 {
    match code {
        ResponseCode::Known(kind) => kind_code(kind),
        ResponseCode::Unknown(n) => n,
    }
}

/// Whether a response with this code carries a data-block section. A code that
/// the table does not hold is taken to carry none.
pub open spec fn response_code_is_multiline(code: ResponseCode) -> bool {
    match code {
        ResponseCode::Known(kind) => kind_is_multiline(kind),
        ResponseCode::Unknown(_) => false,
    }
}

impl ResponseCode {
    /// Whether a response with this code is followed by a data-block section.
    pub fn is_multiline(&self) -> (multiline: bool)
        ensures
            multiline == response_code_is_multiline(*self),
    {
        match self {
            ResponseCode::Known(kind) => kind.is_multiline(),
            ResponseCode::Unknown(_) => false,
        }
    }

    /// The number of this code.
    pub fn number(&self) -> (n: u16)
        ensures
            n == response_code_number(*self),
    {
        match self {
            ResponseCode::Known(kind) => kind.code(),
            ResponseCode::Unknown(n) => *n,
        }
    }
}

impl From<u16> for ResponseCode {
    fn from(code: u16) -> (r: ResponseCode) {
        match Kind::from_code(code) {
            Some(kind) => ResponseCode::Known(kind),
            None => ResponseCode::Unknown(code),
        }
    }
}

impl FromSpecImpl<u16> for ResponseCode {
    open spec fn obeys_from_spec() -> bool {
        true
    }

    open spec fn from_spec(code: u16) -> ResponseCode {
        response_code_of(code)
    }
}

impl From<Kind> for ResponseCode {
    fn from(kind: Kind) -> (r: ResponseCode) {
        ResponseCode::Known(kind)
    }
}

impl FromSpecImpl<Kind> for ResponseCode {
    open spec fn obeys_from_spec() -> bool {
        true
    }

    open spec fn from_spec(kind: Kind) -> ResponseCode {
        ResponseCode::Known(kind)
    }
}

impl From<ResponseCode> for u16 {
    fn from(code: ResponseCode) -> (n: u16) {
        code.number()
    }
}

impl FromSpecImpl<ResponseCode> for u16 {
    open spec fn obeys_from_spec() -> bool {
        true
    }

    open spec fn from_spec(code: ResponseCode) -> u16 {
        response_code_number(code)
    }
}

/// Every kind is found again from its number.
pub proof fn lemma_kind_round_trip(kind: Kind)
    ensures
        kind_of_code(kind_code(kind)) == Some(kind),
        response_code_of(kind_code(kind)) == ResponseCode::Known(kind),
{
}

/// Every number, in the table or not, is found again from its response code.
pub proof fn lemma_number_round_trip(code: u16)
    ensures
        response_code_number(response_code_of(code)) == code,
{
}

} // verus!
