use vstd::prelude::*;
use vstd::string::StringExecFns;

verus! {

/// What can go wrong below the level of the protocol's meaning.
#[derive(Clone, Debug, PartialEq, Eq)]
pub enum Error {
    /// Reading or writing failed; the text says how
    Io(String),
    /// The TLS layer reported a fault; the text says which
    Tls(String),
    /// The TLS handshake failed; the text says how
    TlsHandshake(String),
    /// A line from the peer broke the wire grammar
    Parse,
}

/// The words in which a low-level error is reported.
pub open spec fn error_text(e: Error) -> Seq<char> {
    match e {
        Error::Io(m) => "IO "@ + m@,
        Error::Tls(m) => "TLS Error -- "@ + m@,
        Error::TlsHandshake(m) => "TLS Handshake Error -- "@ + m@,
        Error::Parse => "Failed to parse response"@,
    }
}

impl Error {
    /// The words in which this error is reported.
    pub fn to_string(&self) -> (s: String)
        ensures
            s@ == error_text(*self),
    {
        match self {
            Error::Io(m) => String::from_str("IO ").concat(m.as_str()),
            Error::Tls(m) => String::from_str("TLS Error -- ").concat(m.as_str()),
            Error::TlsHandshake(m) => String::from_str("TLS Handshake Error -- ").concat(
                m.as_str(),
            ),
            Error::Parse => String::from_str("Failed to parse response"),
        }
    }
}

} // verus!
