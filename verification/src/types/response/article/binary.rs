use crate::error::invalid_data_blocks_text;
use crate::error::missing_data_blocks_text;
use crate::error::Error;
use crate::raw::parse::kind_name;
use crate::raw::parse::ErrorKind;
use crate::raw::response::lemma_line_starts_after_line_feed;
use crate::raw::response::DataBlocks;
use crate::raw::response::RawResponse;
use crate::response_code::Kind;
use crate::response_code::ResponseCode;
use crate::text::decimal;
use crate::text::text_of;
use crate::text::push_decimal;
use crate::text::utf8_checked;
use crate::text::lossy_string;
use crate::types::response::article::headers::collect_headers;
use crate::types::response::article::headers::HeaderView;
use crate::types::response::article::headers::Headers;
use crate::types::response::article::iter::Lines;
use crate::types::response::article::iter::Unterminated;
use crate::types::response::article::parse::decoded_headers;
use crate::types::response::article::parse::has_header_section;
use crate::types::response::article::parse::headers_end;
use crate::types::response::article::parse::lemma_headers_end;
use crate::types::response::article::parse::raw_headers;
use crate::types::response::article::parse::take_headers;
use crate::types::response::article::text::TextArticle;
use crate::types::response::util::article_fields_of;
use crate::types::response::util::err_if_not_kind;
use crate::types::response::util::invalid_code_text;
use crate::types::response::util::process_article_first_line;
use vstd::prelude::*;
use vstd::string::StringExecFns;
use vstd::utf8::decode_utf8;
use vstd::utf8::valid_utf8;

verus! {

/// An article whose body is kept as bytes. Nothing is required of the body
/// but its framing into lines.
#[derive(Clone, Debug, Eq, PartialEq)]
pub struct BinaryArticle {
    pub(crate) number: u64,
    pub(crate) message_id: String,
    pub(crate) headers: Headers,
    pub(crate) body: DataBlocks,
}

/// Every line is valid UTF-8.
pub open spec fn all_utf8(lines: Seq<Seq<u8>>) -> bool {
    forall|i: int| 0 <= i < lines.len() ==> valid_utf8(#[trigger] lines[i])
}

/// The text that each line encodes.
pub open spec fn decoded_lines(lines: Seq<Seq<u8>>) -> Seq<Seq<char>> {
    Seq::new(lines.len(), |i: int| decode_utf8(lines[i]))
}

/// The text of each line, with U+FFFD for what is not UTF-8.
pub open spec fn lossy_lines(lines: Seq<Seq<u8>>) -> Seq<Seq<char>> {
    Seq::new(lines.len(), |i: int| text_of(lines[i]))
}

/// Lines that are all valid UTF-8 have as their lossy text the text that
/// they encode.
pub proof fn lemma_lossy_lines_of_utf8(lines: Seq<Seq<u8>>)
    requires
        all_utf8(lines),
    ensures
        lossy_lines(lines) == decoded_lines(lines),
{
    assert(lossy_lines(lines) =~= decoded_lines(lines));
}

/// The message for a data-block section that does not start with a header
/// section: it names the fault, which is the lack of a first header, or the
/// lack of the empty line after the headers.
pub open spec fn header_section_fault_text(payload: Seq<u8>) -> Seq<char> {
    invalid_data_blocks_text(
        kind_name(
            if headers_end(payload, 0) == 0 {
                ErrorKind::Many1
            } else {
                ErrorKind::CrLf
            },
        ),
    )
}

/// The headers that the header section at the front of `payload` holds.
pub open spec fn section_headers(payload: Seq<u8>) -> Seq<HeaderView> {
    collect_headers(decoded_headers(raw_headers(payload, 0)))
}

/// What follows the header section at the front of `payload`.
pub open spec fn section_body(payload: Seq<u8>) -> Seq<u8> {
    payload.subrange(headers_end(payload, 0) + 2, payload.len() as int)
}

impl BinaryArticle {
    /// The number of the article.
    pub open(crate) spec fn spec_number(&self) -> u64 {
        self.number
    }

    /// The message id of the article.
    pub open(crate) spec fn spec_message_id(&self) -> Seq<char> {
        self.message_id@
    }

    /// The headers of the article.
    pub open(crate) spec fn spec_headers(&self) -> Headers {
        self.headers
    }

    /// The data-block section that holds the body.
    pub open(crate) spec fn spec_body(&self) -> DataBlocks {
        self.body
    }

    /// The outcome of decoding an article from a response. It is an error
    /// unless the code says that an article follows, the status line holds an
    /// article number and a message id, the response has a data-block section,
    /// and the section starts with a header section. The article then holds
    /// the headers, and as its body what follows the header section.
    pub open spec fn decoded(resp: RawResponse, r: Result<BinaryArticle, Error>) -> bool {
        if resp.spec_code() != ResponseCode::Known(Kind::Article) {
            r matches Err(e) && e.is_de(invalid_code_text(resp.spec_code()))
        } else {
            match article_fields_of(text_of(resp.spec_first_line())) {
                Err(msg) => r matches Err(e) && e.is_de(msg),
                Ok((number, id)) => match resp.spec_data_blocks() {
                    None => r matches Err(e) && e.is_de(missing_data_blocks_text()),
                    Some(db) => if !has_header_section(db.spec_payload()) {
                        r matches Err(e) && e.is_de(header_section_fault_text(db.spec_payload()))
                    } else {
                        &&& r matches Ok(article)
                        &&& article.spec_number() == number
                        &&& article.spec_message_id() == id
                        &&& article.spec_headers().wf()
                        &&& article.spec_headers().spec_entries() == section_headers(
                            db.spec_payload(),
                        )
                        &&& article.spec_body().wf()
                        &&& article.spec_body().spec_payload() == section_body(db.spec_payload())
                    },
                },
            }
        }
    }

    /// Decodes an article from a response.
    pub fn try_from(resp: &RawResponse) -> (r: Result<BinaryArticle, Error>)
        ensures
            BinaryArticle::decoded(*resp, r),
    {
        match err_if_not_kind(resp, Kind::Article) {
            Ok(()) => {},
            Err(e) => {
                return Err(e);
            },
        }
        let (number, message_id) = match process_article_first_line(resp) {
            Ok(fields) => fields,
            Err(e) => {
                return Err(e);
            },
        };
        let data_blocks = match resp.data_blocks() {
            Some(db) => db,
            None => {
                return Err(Error::missing_data_blocks());
            },
        };
        let payload = data_blocks.payload();
        let (body, headers) = match take_headers(payload) {
            Ok(found) => found,
            Err(e) => {
                return Err(Error::invalid_data_blocks(e.kind.name()));
            },
        };
        let bytes_read: usize = payload.len() - body.len();
        proof {
            let s = payload@;
            let bounds = data_blocks.spec_boundaries();
            lemma_headers_end(s, 0);
            let last = bounds.len() - 1;
            crate::raw::response::lemma_tile_in_range(s, bounds, 0, last);
            let line = crate::raw::response::line_of(s, bounds[last]);
            assert(line[1] == s[s.len() - 2]);
            lemma_line_starts_after_line_feed(s, bounds, bytes_read as int);
        }
        let blocks = match data_blocks.tail_from(bytes_read) {
            Some(blocks) => blocks,
            None => {
                return Err(Error::missing_data_blocks());
            },
        };
        Ok(BinaryArticle { number, message_id, headers, body: blocks })
    }

    /// The number of the article within the newsgroup it was retrieved from.
    pub fn number(&self) -> (number: u64)
        ensures
            number == self.spec_number(),
    {
        self.number
    }

    /// The message id of the article.
    pub fn message_id(&self) -> (id: &str)
        ensures
            id@ == self.spec_message_id(),
    {
        self.message_id.as_str()
    }

    /// The headers of the article.
    pub fn headers(&self) -> (headers: &Headers)
        ensures
            *headers == self.spec_headers(),
    {
        &self.headers
    }

    /// The raw bytes of the body, the terminator line included.
    pub fn body(&self) -> (bytes: &[u8])
        ensures
            bytes@ == self.spec_body().spec_payload(),
    {
        self.body.payload()
    }

    /// The number of lines in the body, the terminator line among them.
    pub fn lines_len(&self) -> (n: usize)
        ensures
            n == self.spec_body().spec_lines().len(),
    {
        self.body.lines_len()
    }

    /// A cursor over the lines of the body, each with its line terminator.
    pub fn lines(&self) -> (lines: Lines<'_>)
        ensures
            lines.remaining() == self.spec_body().spec_lines(),
    {
        Lines { inner: self.body.lines() }
    }

    /// A cursor over the content lines of the body, without line terminators
    /// and without the terminator line.
    pub fn unterminated(&self) -> (lines: Unterminated<'_>)
        ensures
            lines.remaining() == self.spec_body().spec_unterminated(),
    {
        Unterminated { inner: self.body.unterminated() }
    }

    /// `r` is what converting this article to text gives: the article with
    /// each content line of its body as the text it encodes, where every line
    /// is UTF-8, and else an error.
    pub open spec fn text_of(&self, r: Result<TextArticle, Error>) -> bool {
        let lines = self.spec_body().spec_unterminated();
        match r {
            Ok(text) => {
                &&& all_utf8(lines)
                &&& text.spec_number() == self.spec_number()
                &&& text.spec_message_id() == self.spec_message_id()
                &&& text.spec_headers().spec_entries() == self.spec_headers().spec_entries()
                &&& text.spec_headers().spec_len() == self.spec_headers().spec_len()
                &&& text.spec_body() == decoded_lines(lines)
            },
            Err(e) => !all_utf8(lines) && e is Utf8,
        }
    }

    /// `text` is what converting this article to text gives when U+FFFD
    /// stands for what is not UTF-8.
    pub open spec fn lossy_text_of(&self, text: TextArticle) -> bool {
        &&& text.spec_number() == self.spec_number()
        &&& text.spec_message_id() == self.spec_message_id()
        &&& text.spec_headers().spec_entries() == self.spec_headers().spec_entries()
        &&& text.spec_headers().spec_len() == self.spec_headers().spec_len()
        &&& text.spec_body() == lossy_lines(self.spec_body().spec_unterminated())
        &&& forall|i: int|
            0 <= i < self.spec_body().spec_unterminated().len() && valid_utf8(
                #[trigger] self.spec_body().spec_unterminated()[i],
            ) ==> text.spec_body()[i] == decode_utf8(self.spec_body().spec_unterminated()[i])
    }

    /// Where every content line of the body is UTF-8, the lossy conversion
    /// gives what the checked conversion gives: the same number, message id,
    /// headers and lines.
    pub proof fn lemma_lossy_is_text_where_text_is(
        self,
        checked: TextArticle,
        lossy: TextArticle,
    )
        requires
            self.text_of(Ok(checked)),
            self.lossy_text_of(lossy),
        ensures
            lossy.spec_number() == checked.spec_number(),
            lossy.spec_message_id() == checked.spec_message_id(),
            lossy.spec_headers().spec_entries() == checked.spec_headers().spec_entries(),
            lossy.spec_headers().spec_len() == checked.spec_headers().spec_len(),
            lossy.spec_body() == checked.spec_body(),
    {
        lemma_lossy_lines_of_utf8(self.spec_body().spec_unterminated());
    }

    /// Converts the article into a text article. Fails with a UTF-8 error
    /// where a content line of the body is not valid UTF-8.
    pub fn to_text(&self) -> (r: Result<TextArticle, Error>)
        ensures
            self.text_of(r),
    {
        let headers = self.headers.clone();
        let mut body: Vec<String> = Vec::new();
        let mut lines = self.body.unterminated();
        let ghost all = self.body.spec_unterminated();
        let ghost mut k: int = 0;
        proof {
            assert(all.subrange(0, all.len() as int) =~= all);
        }
        loop
            invariant
                0 <= k <= all.len(),
                all == self.body.spec_unterminated(),
                lines.remaining() == all.subrange(k, all.len() as int),
                body@.len() == k,
                forall|i: int| 0 <= i < k ==> valid_utf8(#[trigger] all[i]),
                forall|i: int| 0 <= i < k ==> (#[trigger] body@[i])@ == decode_utf8(all[i]),
            ensures
                k == all.len(),
                body@.len() == k,
                all_utf8(all),
                forall|i: int| 0 <= i < k ==> (#[trigger] body@[i])@ == decode_utf8(all[i]),
            decreases all.len() - k,
        {
            match lines.next() {
                None => {
                    break ;
                },
                Some(line) => {
                    match utf8_checked(line) {
                        Ok(text) => {
                            body.push(text);
                            proof {
                                k = k + 1;
                            }
                        },
                        Err(e) => {
                            return Err(Error::Utf8(e));
                        },
                    }
                },
            }
        }
        assert(body.deep_view() =~= decoded_lines(all));
        Ok(TextArticle { number: self.number, message_id: self.message_id.clone(), headers, body })
    }

    /// Converts the article into a text article; U+FFFD stands for what is not
    /// UTF-8 in a line.
    pub fn to_text_lossy(&self) -> (text: TextArticle)
        ensures
            self.lossy_text_of(text),
    {
        let headers = self.headers.clone();
        let mut body: Vec<String> = Vec::new();
        let mut lines = self.body.unterminated();
        let ghost all = self.body.spec_unterminated();
        let ghost mut k: int = 0;
        proof {
            assert(all.subrange(0, all.len() as int) =~= all);
        }
        loop
            invariant
                0 <= k <= all.len(),
                all == self.body.spec_unterminated(),
                lines.remaining() == all.subrange(k, all.len() as int),
                body@.len() == k,
                forall|i: int| 0 <= i < k ==> (#[trigger] body@[i])@ == text_of(all[i]),
            ensures
                k == all.len(),
                body@.len() == k,
                forall|i: int| 0 <= i < k ==> (#[trigger] body@[i])@ == text_of(all[i]),
            decreases all.len() - k,
        {
            match lines.next() {
                None => {
                    break ;
                },
                Some(line) => {
                    body.push(lossy_string(line));
                    proof {
                        k = k + 1;
                    }
                },
            }
        }
        assert(body.deep_view() =~= lossy_lines(all));
        TextArticle { number: self.number, message_id: self.message_id.clone(), headers, body }
    }

    /// The words in which the article is shown: the number of its headers,
    /// the size of its body in bytes, and the number of its lines.
    pub open spec fn summary(&self) -> Seq<char> {
        "BinaryArticle("@ + decimal(self.spec_headers().spec_len()) + " headers, "@ + decimal(
            self.spec_body().spec_payload().len(),
        ) + "B body, "@ + decimal(self.spec_body().spec_lines().len()) + " lines)"@
    }

    /// The words in which the article is shown.
    pub fn to_string(&self) -> (s: String)
        ensures
            s@ == self.summary(),
    {
        let mut s = String::from_str("BinaryArticle(");
        push_decimal(&mut s, self.headers.len() as u64);
        s.append(" headers, ");
        push_decimal(&mut s, self.body.payload_len() as u64);
        s.append("B body, ");
        push_decimal(&mut s, self.body.lines_len() as u64);
        s.append(" lines)");
        s
    }
}

} // verus!
