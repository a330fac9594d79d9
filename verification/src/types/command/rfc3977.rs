use crate::text::decimal;
use crate::types::command::range_text;
use crate::types::command::verb_arg;
use crate::types::command::verb_number;
use crate::types::command::verb_range;
use crate::types::command::with_arg;
use crate::types::command::Encode;
use crate::types::command::NntpCommand;
use vstd::prelude::*;
use vstd::string::StrSliceExecFns;
use vstd::string::StringExecFns;
use vstd::utf8::encode_utf8;

verus! {

/// Retrieve the headers and the body of an article.
#[derive(Clone, Debug)]
pub enum Article {
    /// The article with this message id
    MessageId(String),
    /// The article with this number in the current group
    Number(u64),
    /// The current article
    Current,
}

impl Article {
    /// The text of the command.
    pub open spec fn text(&self) -> Seq<char> {
        match self {
            Article::MessageId(id) => with_arg("ARTICLE"@, id@),
            Article::Number(number) => with_arg("ARTICLE"@, decimal(*number as nat)),
            Article::Current => "ARTICLE"@,
        }
    }

    /// The text of the command.
    pub fn to_string(&self) -> (s: String)
        ensures
            s@ == self.text(),
    {
        match self {
            Article::MessageId(id) => verb_arg("ARTICLE", id.as_str()),
            Article::Number(number) => verb_number("ARTICLE", *number),
            Article::Current => String::from_str("ARTICLE"),
        }
    }
}

impl Encode for Article {
    open spec fn wire(&self) -> Seq<u8> {
        encode_utf8(self.text())
    }

    fn encode(&self) -> (bytes: Vec<u8>) {
        self.to_string().as_str().as_bytes_vec()
    }
}

impl NntpCommand for Article {

}

/// Retrieve the body of an article.
#[derive(Clone, Debug)]
pub enum Body {
    /// The article with this message id
    MessageId(String),
    /// The article with this number in the current group
    Number(u64),
    /// The current article
    Current,
}

impl Body {
    /// The text of the command.
    pub open spec fn text(&self) -> Seq<char> {
        match self {
            Body::MessageId(id) => with_arg("BODY"@, id@),
            Body::Number(number) => with_arg("BODY"@, decimal(*number as nat)),
            Body::Current => "BODY"@,
        }
    }

    /// The text of the command.
    pub fn to_string(&self) -> (s: String)
        ensures
            s@ == self.text(),
    {
        match self {
            Body::MessageId(id) => verb_arg("BODY", id.as_str()),
            Body::Number(number) => verb_number("BODY", *number),
            Body::Current => String::from_str("BODY"),
        }
    }
}

impl Encode for Body {
    open spec fn wire(&self) -> Seq<u8> {
        encode_utf8(self.text())
    }

    fn encode(&self) -> (bytes: Vec<u8>) {
        self.to_string().as_str().as_bytes_vec()
    }
}

impl NntpCommand for Body {

}

/// Ask for the capabilities of the server.
#[derive(Clone, Copy, Debug)]
pub struct Capabilities;

impl Capabilities {
    /// The text of the command.
    pub open spec fn text(&self) -> Seq<char> {
        "CAPABILITIES"@
    }

    /// The text of the command.
    pub fn to_string(&self) -> (s: String)
        ensures
            s@ == self.text(),
    {
        String::from_str("CAPABILITIES")
    }
}

impl Encode for Capabilities {
    open spec fn wire(&self) -> Seq<u8> {
        encode_utf8(self.text())
    }

    fn encode(&self) -> (bytes: Vec<u8>) {
        self.to_string().as_str().as_bytes_vec()
    }
}

impl NntpCommand for Capabilities {

}

/// Ask for the date and time of the server.
#[derive(Clone, Copy, Debug)]
pub struct Date;

impl Date {
    /// The text of the command.
    pub open spec fn text(&self) -> Seq<char> {
        "DATE"@
    }

    /// The text of the command.
    pub fn to_string(&self) -> (s: String)
        ensures
            s@ == self.text(),
    {
        String::from_str("DATE")
    }
}

impl Encode for Date {
    open spec fn wire(&self) -> Seq<u8> {
        encode_utf8(self.text())
    }

    fn encode(&self) -> (bytes: Vec<u8>) {
        self.to_string().as_str().as_bytes_vec()
    }
}

impl NntpCommand for Date {

}

/// Select a newsgroup.
#[derive(Clone, Debug)]
pub struct Group(
    /// The name of the newsgroup
    pub String,
);

impl Group {
    /// The text of the command.
    pub open spec fn text(&self) -> Seq<char> {
        with_arg("GROUP"@, self.0@)
    }

    /// The text of the command.
    pub fn to_string(&self) -> (s: String)
        ensures
            s@ == self.text(),
    {
        verb_arg("GROUP", self.0.as_str())
    }
}

impl Encode for Group {
    open spec fn wire(&self) -> Seq<u8> {
        encode_utf8(self.text())
    }

    fn encode(&self) -> (bytes: Vec<u8>) {
        self.to_string().as_str().as_bytes_vec()
    }
}

impl NntpCommand for Group {

}

/// Retrieve one header of one or more articles.
#[derive(Clone, Debug)]
pub enum Hdr {
    /// Of the article with a message id
    MessageId {
        /// The name of the header
        field: String,
        /// The message id of the article
        id: String,
    },
    /// Of a range of articles
    Range {
        /// The name of the header
        field: String,
        /// The low number of the range
        low: u64,
        /// The high number of the range
        high: u64,
    },
    /// Of the current article
    Current {
        /// The name of the header
        field: String,
    },
}

impl Hdr {
    /// The text of the command.
    pub open spec fn text(&self) -> Seq<char> {
        match self {
            Hdr::MessageId { field, id } => with_arg(with_arg("HDR"@, field@), id@),
            Hdr::Range { field, low, high } => with_arg(
                with_arg("HDR"@, field@),
                range_text(*low, *high),
            ),
            Hdr::Current { field } => with_arg("HDR"@, field@),
        }
    }

    /// The text of the command.
    pub fn to_string(&self) -> (s: String)
        ensures
            s@ == self.text(),
    {
        match self {
            Hdr::MessageId { field, id } => verb_arg(
                verb_arg("HDR", field.as_str()).as_str(),
                id.as_str(),
            ),
            Hdr::Range { field, low, high } => verb_range(
                verb_arg("HDR", field.as_str()).as_str(),
                *low,
                *high,
            ),
            Hdr::Current { field } => verb_arg("HDR", field.as_str()),
        }
    }
}

impl Encode for Hdr {
    open spec fn wire(&self) -> Seq<u8> {
        encode_utf8(self.text())
    }

    fn encode(&self) -> (bytes: Vec<u8>) {
        self.to_string().as_str().as_bytes_vec()
    }
}

impl NntpCommand for Hdr {

}

/// Retrieve the headers of an article.
#[derive(Clone, Debug)]
pub enum Head {
    /// The article with this message id
    MessageId(String),
    /// The article with this number in the current group
    Number(u64),
    /// The current article
    Current,
}

impl Head {
    /// The text of the command.
    pub open spec fn text(&self) -> Seq<char> {
        match self {
            Head::MessageId(id) => with_arg("HEAD"@, id@),
            Head::Number(number) => with_arg("HEAD"@, decimal(*number as nat)),
            Head::Current => "HEAD"@,
        }
    }

    /// The text of the command.
    pub fn to_string(&self) -> (s: String)
        ensures
            s@ == self.text(),
    {
        match self {
            Head::MessageId(id) => verb_arg("HEAD", id.as_str()),
            Head::Number(number) => verb_number("HEAD", *number),
            Head::Current => String::from_str("HEAD"),
        }
    }
}

impl Encode for Head {
    open spec fn wire(&self) -> Seq<u8> {
        encode_utf8(self.text())
    }

    fn encode(&self) -> (bytes: Vec<u8>) {
        self.to_string().as_str().as_bytes_vec()
    }
}

impl NntpCommand for Head {

}

/// Ask for the help text of the server.
#[derive(Clone, Copy, Debug)]
pub struct Help;

impl Help {
    /// The text of the command.
    pub open spec fn text(&self) -> Seq<char> {
        "HELP"@
    }

    /// The text of the command.
    pub fn to_string(&self) -> (s: String)
        ensures
            s@ == self.text(),
    {
        String::from_str("HELP")
    }
}

impl Encode for Help {
    open spec fn wire(&self) -> Seq<u8> {
        encode_utf8(self.text())
    }

    fn encode(&self) -> (bytes: Vec<u8>) {
        self.to_string().as_str().as_bytes_vec()
    }
}

impl NntpCommand for Help {

}

/// Tell the server of an article that can be transferred to it.
#[derive(Clone, Debug)]
pub struct IHave(
    /// The message id of the article
    pub String,
);

impl IHave {
    /// The text of the command.
    pub open spec fn text(&self) -> Seq<char> {
        with_arg("IHAVE"@, self.0@)
    }

    /// The text of the command.
    pub fn to_string(&self) -> (s: String)
        ensures
            s@ == self.text(),
    {
        verb_arg("IHAVE", self.0.as_str())
    }
}

impl Encode for IHave {
    open spec fn wire(&self) -> Seq<u8> {
        encode_utf8(self.text())
    }

    fn encode(&self) -> (bytes: Vec<u8>) {
        self.to_string().as_str().as_bytes_vec()
    }
}

impl NntpCommand for IHave {

}

/// Move to the article before the current one.
#[derive(Clone, Copy, Debug)]
pub struct Last;

impl Last {
    /// The text of the command.
    pub open spec fn text(&self) -> Seq<char> {
        "LAST"@
    }

    /// The text of the command.
    pub fn to_string(&self) -> (s: String)
        ensures
            s@ == self.text(),
    {
        String::from_str("LAST")
    }
}

impl Encode for Last {
    open spec fn wire(&self) -> Seq<u8> {
        encode_utf8(self.text())
    }

    fn encode(&self) -> (bytes: Vec<u8>) {
        self.to_string().as_str().as_bytes_vec()
    }
}

impl NntpCommand for Last {

}

/// Retrieve a list of information from the server. Not all keywords are
/// supported by all servers.
#[derive(Clone, Debug)]
pub enum List {
    /// The active newsgroups
    Active {
        /// The pattern that names of newsgroups must match
        wildmat: Option<String>,
    },
    /// When the newsgroups were created
    ActiveTimes {
        /// The pattern that names of newsgroups must match
        wildmat: Option<String>,
    },
    /// The newsgroups
    Newsgroups {
        /// The pattern that names of newsgroups must match
        wildmat: Option<String>,
    },
    /// The distribution patterns
    DistribPats,
    /// The fields of the overview database
    OverviewFmt,
}

/// A keyword, and after a blank the pattern where there is one.
pub open spec fn with_wildmat(keyword: Seq<char>, wildmat: Option<String>) -> Seq<char> {
    match wildmat {
        Some(w) => with_arg(keyword, w@),
        None => keyword,
    }
}

/// The list of newsgroups and the list of their creation times are asked for
/// with different words, whatever the pattern.
pub proof fn lemma_newsgroups_is_not_active_times(wildmat: Option<String>, other: Option<String>)
    ensures
        (List::Newsgroups { wildmat }).text() != (List::ActiveTimes { wildmat: other }).text(),
{
    reveal_strlit("LIST NEWSGROUPS");
    reveal_strlit("LIST ACTIVE TIMES");
    reveal_strlit(" ");
    let a = (List::Newsgroups { wildmat }).text();
    let b = (List::ActiveTimes { wildmat: other }).text();
    assert(a[5] == 'N');
    assert(b[5] == 'A');
}

/// The text of a keyword and its pattern.
fn keyword_wildmat(keyword: &str, wildmat: &Option<String>) -> (s: String)
    ensures
        s@ == with_wildmat(keyword@, *wildmat),
{
    match wildmat {
        Some(w) => verb_arg(keyword, w.as_str()),
        None => String::from_str(keyword),
    }
}

impl List {
    /// The text of the command.
    pub open spec fn text(&self) -> Seq<char> {
        match self {
            List::Active { wildmat } => with_wildmat("LIST ACTIVE"@, *wildmat),
            List::ActiveTimes { wildmat } => with_wildmat("LIST ACTIVE TIMES"@, *wildmat),
            List::Newsgroups { wildmat } => with_wildmat("LIST NEWSGROUPS"@, *wildmat),
            List::DistribPats => "LIST DISTRIB.PATS"@,
            List::OverviewFmt => "LIST OVERVIEW.FMT"@,
        }
    }

    /// The text of the command.
    pub fn to_string(&self) -> (s: String)
        ensures
            s@ == self.text(),
    {
        match self {
            List::Active { wildmat } => keyword_wildmat("LIST ACTIVE", wildmat),
            List::ActiveTimes { wildmat } => keyword_wildmat("LIST ACTIVE TIMES", wildmat),
            List::Newsgroups { wildmat } => keyword_wildmat("LIST NEWSGROUPS", wildmat),
            List::DistribPats => String::from_str("LIST DISTRIB.PATS"),
            List::OverviewFmt => String::from_str("LIST OVERVIEW.FMT"),
        }
    }
}

impl Encode for List {
    open spec fn wire(&self) -> Seq<u8> {
        encode_utf8(self.text())
    }

    fn encode(&self) -> (bytes: Vec<u8>) {
        self.to_string().as_str().as_bytes_vec()
    }
}

impl NntpCommand for List {

}

/// Switch a mode-switching server to reader mode.
#[derive(Clone, Copy, Debug)]
pub struct ModeReader;

impl ModeReader {
    /// The text of the command.
    pub open spec fn text(&self) -> Seq<char> {
        "MODE READER"@
    }

    /// The text of the command.
    pub fn to_string(&self) -> (s: String)
        ensures
            s@ == self.text(),
    {
        String::from_str("MODE READER")
    }
}

impl Encode for ModeReader {
    open spec fn wire(&self) -> Seq<u8> {
        encode_utf8(self.text())
    }

    fn encode(&self) -> (bytes: Vec<u8>) {
        self.to_string().as_str().as_bytes_vec()
    }
}

impl NntpCommand for ModeReader {

}

/// List the newsgroups created since a date and time.
#[derive(Clone, Debug)]
pub struct NewGroups {
    /// The date from which to list newsgroups
    pub date: String,
    /// The time from which to list newsgroups
    pub time: String,
    /// The distributions to include
    pub distributions: Option<String>,
}

impl NewGroups {
    /// The text of the command. The blank before the distributions is there
    /// also where there are none.
    pub open spec fn text(&self) -> Seq<char> {
        with_arg(
            with_arg(with_arg("NEWGROUPS"@, self.date@), self.time@),
            match self.distributions {
                Some(d) => d@,
                None => Seq::empty(),
            },
        )
    }

    /// The text of the command.
    pub fn to_string(&self) -> (s: String)
        ensures
            s@ == self.text(),
    {
        let dated = verb_arg(verb_arg("NEWGROUPS", self.date.as_str()).as_str(), self.time.as_str());
        match &self.distributions {
            Some(d) => verb_arg(dated.as_str(), d.as_str()),
            None => {
                let s = dated.concat(" ");
                s
            },
        }
    }
}

impl Encode for NewGroups {
    open spec fn wire(&self) -> Seq<u8> {
        encode_utf8(self.text())
    }

    fn encode(&self) -> (bytes: Vec<u8>) {
        self.to_string().as_str().as_bytes_vec()
    }
}

impl NntpCommand for NewGroups {

}

/// Move to the article after the current one.
#[derive(Clone, Copy, Debug)]
pub struct Next;

impl Next {
    /// The text of the command.
    pub open spec fn text(&self) -> Seq<char> {
        "NEXT"@
    }

    /// The text of the command.
    pub fn to_string(&self) -> (s: String)
        ensures
            s@ == self.text(),
    {
        String::from_str("NEXT")
    }
}

impl Encode for Next {
    open spec fn wire(&self) -> Seq<u8> {
        encode_utf8(self.text())
    }

    fn encode(&self) -> (bytes: Vec<u8>) {
        self.to_string().as_str().as_bytes_vec()
    }
}

impl NntpCommand for Next {

}

/// Retrieve the overview fields of one or more articles.
#[derive(Clone, Debug)]
pub enum Over {
    /// Of the article with this message id
    MessageId(String),
    /// Of a range of articles
    Range {
        /// The low number of the range
        low: u64,
        /// The high number of the range
        high: u64,
    },
    /// Of the current article
    Current,
}

impl Over {
    /// The text of the command.
    pub open spec fn text(&self) -> Seq<char> {
        match self {
            Over::MessageId(id) => with_arg("OVER"@, id@),
            Over::Range { low, high } => with_arg("OVER"@, range_text(*low, *high)),
            Over::Current => "OVER"@,
        }
    }

    /// The text of the command.
    pub fn to_string(&self) -> (s: String)
        ensures
            s@ == self.text(),
    {
        match self {
            Over::MessageId(id) => verb_arg("OVER", id.as_str()),
            Over::Range { low, high } => verb_range("OVER", *low, *high),
            Over::Current => String::from_str("OVER"),
        }
    }
}

impl Encode for Over {
    open spec fn wire(&self) -> Seq<u8> {
        encode_utf8(self.text())
    }

    fn encode(&self) -> (bytes: Vec<u8>) {
        self.to_string().as_str().as_bytes_vec()
    }
}

impl NntpCommand for Over {

}

/// Close the connection.
#[derive(Clone, Copy, Debug)]
pub struct Quit;

impl Quit {
    /// The text of the command.
    pub open spec fn text(&self) -> Seq<char> {
        "QUIT"@
    }

    /// The text of the command.
    pub fn to_string(&self) -> (s: String)
        ensures
            s@ == self.text(),
    {
        String::from_str("QUIT")
    }
}

impl Encode for Quit {
    open spec fn wire(&self) -> Seq<u8> {
        encode_utf8(self.text())
    }

    fn encode(&self) -> (bytes: Vec<u8>) {
        self.to_string().as_str().as_bytes_vec()
    }
}

impl NntpCommand for Quit {

}

/// Check whether an article exists.
#[derive(Clone, Debug)]
pub enum Stat {
    /// The article with this message id
    MessageId(String),
    /// The article with this number in the current group
    Number(u64),
    /// The current article
    Current,
}

impl Stat {
    /// The text of the command.
    pub open spec fn text(&self) -> Seq<char> {
        match self {
            Stat::MessageId(id) => with_arg("STAT"@, id@),
            Stat::Number(number) => with_arg("STAT"@, decimal(*number as nat)),
            Stat::Current => "STAT"@,
        }
    }

    /// The text of the command.
    pub fn to_string(&self) -> (s: String)
        ensures
            s@ == self.text(),
    {
        match self {
            Stat::MessageId(id) => verb_arg("STAT", id.as_str()),
            Stat::Number(number) => verb_number("STAT", *number),
            Stat::Current => String::from_str("STAT"),
        }
    }
}

impl Encode for Stat {
    open spec fn wire(&self) -> Seq<u8> {
        encode_utf8(self.text())
    }

    fn encode(&self) -> (bytes: Vec<u8>) {
        self.to_string().as_str().as_bytes_vec()
    }
}

impl NntpCommand for Stat {

}

} // verus!
