use crate::error::Error;
use crate::types::response::article::binary::BinaryArticle;
use crate::types::response::article::headers::Headers;
use vstd::prelude::*;

verus! {

/// An article whose body is text: every line of it is UTF-8.
#[derive(Clone, Debug, Eq, PartialEq)]
pub struct TextArticle {
    pub(crate) number: u64,
    pub(crate) message_id: String,
    pub(crate) headers: Headers,
    pub(crate) body: Vec<String>,
}

impl TextArticle {
    /// The number of the article.
    pub open(crate) spec fn spec_number(&self) -> u64 {
        self.number
    }

    /// The message id of the article.
    pub open(crate) spec fn spec_message_id(&self) -> Seq<char> {
        self.message_id@
    }

    /// The headers of the article.
    pub open(crate) spec fn spec_headers(&self) -> Headers {
        self.headers
    }

    /// The lines of the body, without line terminators.
    pub open(crate) spec fn spec_body(&self) -> Seq<Seq<char>> {
        self.body.deep_view()
    }

    /// The number of the article within the newsgroup it was retrieved from.
    pub fn number(&self) -> (number: u64)
        ensures
            number == self.spec_number(),
    {
        self.number
    }

    /// The message id of the article.
    pub fn message_id(&self) -> (id: &str)
        ensures
            id@ == self.spec_message_id(),
    {
        self.message_id.as_str()
    }

    /// The headers of the article.
    pub fn headers(&self) -> (headers: &Headers)
        ensures
            *headers == self.spec_headers(),
    {
        &self.headers
    }

    /// The lines of the body, without line terminators.
    pub fn body(&self) -> (body: &[String])
        ensures
            body.deep_view() == self.spec_body(),
    {
        let body = self.body.as_slice();
        body
    }

    /// Makes a text article from a binary one. Fails where a line of the body
    /// is not UTF-8.
    pub fn from_binary(b: &BinaryArticle) -> (r: Result<TextArticle, Error>)
        ensures
            b.text_of(r),
    {
        b.to_text()
    }

    /// Makes a text article from a binary one; U+FFFD stands for what is not
    /// UTF-8.
    pub fn from_binary_lossy(b: &BinaryArticle) -> (text: TextArticle)
        ensures
            b.lossy_text_of(text),
    {
        b.to_text_lossy()
    }

    /// A cursor over the lines of the body. No line holds its line terminator.
    pub fn lines(&self) -> (lines: Lines<'_>)
        ensures
            lines.remaining() == self.spec_body(),
    {
        let lines = Lines { body: &self.body, next: 0 };
        lines
    }
}

/// A cursor over the lines of a text article.
#[derive(Clone, Debug)]
pub struct Lines<'a> {
    body: &'a Vec<String>,
    next: usize,
}

impl<'a> Lines<'a> {
    /// The lines that the cursor has yet to hand out.
    pub closed spec fn remaining(&self) -> Seq<Seq<char>> {
        let all = self.body.deep_view();
        if self.next <= all.len() {
            all.subrange(self.next as int, all.len() as int)
        } else {
            Seq::empty()
        }
    }

    /// Hands out the next line, or `None` when all have been handed out.
    pub fn next(&mut self) -> (line: Option<&'a String>)
        ensures
            match line {
                Some(l) => {
                    &&& old(self).remaining().len() > 0
                    &&& l@ == old(self).remaining()[0]
                    &&& final(self).remaining() == old(self).remaining().drop_first()
                },
                None => {
                    &&& old(self).remaining().len() == 0
                    &&& final(self).remaining() == old(self).remaining()
                },
            },
    {
        let body: &'a Vec<String> = self.body;
        if self.next < body.len() {
            let line = &body[self.next];
            self.next = self.next + 1;
            Some(line)
        } else {
            None
        }
    }
}

} // verus!
