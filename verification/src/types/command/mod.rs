//! Commands, each of which renders to the bytes that are sent to the server.

use crate::text::decimal;
use crate::text::push_decimal;
use vstd::prelude::*;
use vstd::string::StringExecFns;

pub mod post;
pub mod rfc2980;
pub mod rfc3977;
pub mod rfc4643;
pub mod xfeature;

pub use post::Post;
pub use post::PostArticle;
pub use rfc2980::XHdr;
pub use rfc2980::XOver;
pub use rfc3977::Article;
pub use rfc3977::Body;
pub use rfc3977::Capabilities;
pub use rfc3977::Date;
pub use rfc3977::Group;
pub use rfc3977::Hdr;
pub use rfc3977::Head;
pub use rfc3977::Help;
pub use rfc3977::IHave;
pub use rfc3977::Last;
pub use rfc3977::List;
pub use rfc3977::ModeReader;
pub use rfc3977::NewGroups;
pub use rfc3977::Next;
pub use rfc3977::Over;
pub use rfc3977::Quit;
pub use rfc3977::Stat;
pub use rfc4643::AuthInfo;
pub use xfeature::XFeatureCompress;

verus! {

/// A type that renders to the bytes of one command. The bytes do not hold the
/// line terminator that ends the command on the wire.
pub trait Encode {
    /// The bytes that are sent for this value.
    spec fn wire(&self) -> Seq<u8>;

    /// The bytes that are sent for this value.
    fn encode(&self) -> (bytes: Vec<u8>)
        ensures
            bytes@ == self.wire(),
    ;
}

/// A command of the protocol.
pub trait NntpCommand: Encode {

}

/// A verb and its argument, with a blank between them.
pub open spec fn with_arg(verb: Seq<char>, arg: Seq<char>) -> Seq<char> {
    verb + " "@ + arg
}

/// A range of article numbers: the low and the high number, with a hyphen
/// between them.
pub open spec fn range_text(low: u64, high: u64) -> Seq<char> {
    decimal(low as nat) + "-"@ + decimal(high as nat)
}

/// The text of a verb and its argument.
pub fn verb_arg(verb: &str, arg: &str) -> (s: String)
    ensures
        s@ == with_arg(verb@, arg@),
{
    String::from_str(verb).concat(" ").concat(arg)
}

/// The text of a verb and a number.
pub fn verb_number(verb: &str, n: u64) -> (s: String)
    ensures
        s@ == with_arg(verb@, decimal(n as nat)),
{
    let mut s = String::from_str(verb).concat(" ");
    push_decimal(&mut s, n);
    s
}

/// The text of a verb and a range of article numbers.
pub fn verb_range(verb: &str, low: u64, high: u64) -> (s: String)
    ensures
        s@ == with_arg(verb@, range_text(low, high)),
{
    let mut s = String::from_str(verb).concat(" ");
    push_decimal(&mut s, low);
    s.append("-");
    push_decimal(&mut s, high);
    s
}

} // verus!
