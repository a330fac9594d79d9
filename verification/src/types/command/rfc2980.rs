use crate::types::command::range_text;
use crate::types::command::verb_arg;
use crate::types::command::verb_range;
use crate::types::command::with_arg;
use crate::types::command::Encode;
use crate::types::command::NntpCommand;
use vstd::prelude::*;
use vstd::string::StrSliceExecFns;
use vstd::string::StringExecFns;
use vstd::utf8::encode_utf8;

verus! {

/// Retrieve one header of one or more articles.
#[derive(Clone, Debug)]
pub enum XHdr {
    /// Of the article with a message id
    MessageId {
        /// The name of the header
        header: String,
        /// The message id of the article
        id: String,
    },
    /// Of a range of articles
    Range {
        /// The name of the header
        header: String,
        /// The low number of the range
        low: u64,
        /// The high number of the range
        high: u64,
    },
}

impl XHdr {
    /// The text of the command.
    pub open spec fn text(&self) -> Seq<char> {
        match self {
            XHdr::MessageId { header, id } => with_arg(with_arg("XHDR"@, header@), id@),
            XHdr::Range { header, low, high } => with_arg(
                with_arg("XHDR"@, header@),
                range_text(*low, *high),
            ),
        }
    }

    /// The text of the command.
    pub fn to_string(&self) -> (s: String)
        ensures
            s@ == self.text(),
    {
        match self {
            XHdr::MessageId { header, id } => verb_arg(
                verb_arg("XHDR", header.as_str()).as_str(),
                id.as_str(),
            ),
            XHdr::Range { header, low, high } => verb_range(
                verb_arg("XHDR", header.as_str()).as_str(),
                *low,
                *high,
            ),
        }
    }
}

impl Encode for XHdr {
    open spec fn wire(&self) -> Seq<u8> {
        encode_utf8(self.text())
    }

    fn encode(&self) -> (bytes: Vec<u8>) {
        self.to_string().as_str().as_bytes_vec()
    }
}

impl NntpCommand for XHdr {

}

/// Retrieve the overview fields of one or more articles.
#[derive(Copy, Clone, Debug)]
pub enum XOver {
    /// Of a range of articles
    Range {
        /// The low number of the range
        low: u64,
        /// The high number of the range
        high: u64,
    },
    /// Of the current article
    Current,
}

impl XOver {
    /// The text of the command.
    pub open spec fn text(&self) -> Seq<char> {
        match self {
            XOver::Range { low, high } => with_arg("XOVER"@, range_text(*low, *high)),
            XOver::Current => "XOVER"@,
        }
    }

    /// The text of the command.
    pub fn to_string(&self) -> (s: String)
        ensures
            s@ == self.text(),
    {
        match self {
            XOver::Range { low, high } => verb_range("XOVER", *low, *high),
            XOver::Current => String::from_str("XOVER"),
        }
    }
}

impl Encode for XOver {
    open spec fn wire(&self) -> Seq<u8> {
        encode_utf8(self.text())
    }

    fn encode(&self) -> (bytes: Vec<u8>) {
        self.to_string().as_str().as_bytes_vec()
    }
}

impl NntpCommand for XOver {

}

} // verus!
