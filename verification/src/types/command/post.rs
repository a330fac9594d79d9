use crate::raw::parse::CR;
use crate::raw::parse::LF;
use crate::types::command::Encode;
use crate::types::command::NntpCommand;
use vstd::prelude::*;
use vstd::string::StrSliceExecFns;
use vstd::string::StringExecFns;
use vstd::utf8::encode_utf8;

verus! {

/// Ask the server whether it takes an article. Where it does, the article is
/// sent as a second command, `PostArticle`.
#[derive(Clone, Copy, Debug)]
pub struct Post;

impl Post {
    /// The text of the command.
    pub open spec fn text(&self) -> Seq<char> {
        "POST"@
    }

    /// The text of the command.
    pub fn to_string(&self) -> (s: String)
        ensures
            s@ == self.text(),
    {
        String::from_str("POST")
    }
}

impl Encode for Post {
    open spec fn wire(&self) -> Seq<u8> {
        encode_utf8(self.text())
    }

    fn encode(&self) -> (bytes: Vec<u8>) {
        self.to_string().as_str().as_bytes_vec()
    }
}

impl NntpCommand for Post {

}

/// The article that is sent after the server has agreed to take one: its
/// headers and its body. The headers are sent as they are given: none is
/// folded or checked, and a name that is given twice is sent twice.
#[derive(Clone, Debug)]
pub struct PostArticle {
    /// The headers, each a name and its content
    pub headers: Vec<(String, String)>,
    /// The body
    pub body: Vec<u8>,
}

/// The line of one header: its name, a colon, a blank, its content and the
/// line terminator.
pub open spec fn header_line(name: Seq<char>, content: Seq<char>) -> Seq<u8> {
    encode_utf8(name) + seq![0x3au8, 0x20u8] + encode_utf8(content) + seq![CR, LF]
}

/// The lines of the headers, in order.
pub open spec fn header_lines(headers: Seq<(String, String)>) -> Seq<u8>
    decreases headers.len(),
{
    if headers.len() == 0 {
        Seq::empty()
    } else {
        header_lines(headers.drop_last()) + header_line(headers.last().0@, headers.last().1@)
    }
}

/// The bytes of an article as it is posted: the lines of the headers, an empty
/// line, the body, and a line terminator followed by a lone `.`. The line
/// terminator that ends the command on the wire completes the terminator
/// line.
pub open spec fn article_wire(headers: Seq<(String, String)>, body: Seq<u8>) -> Seq<u8> {
    header_lines(headers) + seq![CR, LF] + body + seq![CR, LF, 0x2eu8]
}

impl Encode for PostArticle {
    open spec fn wire(&self) -> Seq<u8> {
        article_wire(self.headers@, self.body@)
    }

    fn encode(&self) -> (bytes: Vec<u8>) {
        let mut bytes: Vec<u8> = Vec::new();
        let n: usize = self.headers.len();
        let mut i: usize = 0;
        while i < n
            invariant
                n == self.headers@.len(),
                i <= n,
                bytes@ == header_lines(self.headers@.subrange(0, i as int)),
            decreases n - i,
        {
            let ghost next = self.headers@.subrange(0, i + 1);
            bytes.extend_from_slice(self.headers[i].0.as_str().as_bytes());
            bytes.push(0x3a);
            bytes.push(0x20);
            bytes.extend_from_slice(self.headers[i].1.as_str().as_bytes());
            bytes.push(CR);
            bytes.push(LF);
            proof {
                assert(next.drop_last() =~= self.headers@.subrange(0, i as int));
            }
            i = i + 1;
        }
        assert(self.headers@.subrange(0, n as int) =~= self.headers@);
        bytes.push(CR);
        bytes.push(LF);
        bytes.extend_from_slice(self.body.as_slice());
        bytes.push(CR);
        bytes.push(LF);
        bytes.push(0x2e);
        bytes
    }
}

impl NntpCommand for PostArticle {

}

} // verus!
