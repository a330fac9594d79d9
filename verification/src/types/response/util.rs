use crate::error::missing_field_text;
use crate::error::parse_error_text;
use crate::error::Error;
use crate::raw::response::RawResponse;
use crate::response_code::response_code_number;
use crate::response_code::Kind;
use crate::response_code::ResponseCode;
use crate::text::decimal;
use crate::text::decimal_u64;
use crate::text::text_of;
use crate::text::parse_u64;
use crate::text::push_decimal;
use crate::text::split_whitespace;
use crate::text::words;
use vstd::prelude::*;
use vstd::string::StringExecFns;

verus! {

/// A type that a field of a status line can be read as.
pub trait Field: Sized {
    /// The text can be read as a value of this type.
    spec fn readable(text: Seq<char>) -> bool;

    /// `value` is what the text reads as.
    spec fn reads_as(text: Seq<char>, value: Self) -> bool;

    /// Reads the text as a value of this type.
    fn read(text: &str) -> (r: Option<Self>)
        ensures
            r is Some <==> Self::readable(text@),
            r matches Some(value) ==> Self::reads_as(text@, value),
    ;
}

impl Field for u64 {
    open spec fn readable(text: Seq<char>) -> bool {
        decimal_u64(text) is Some
    }

    open spec fn reads_as(text: Seq<char>, value: u64) -> bool {
        decimal_u64(text) == Some(value)
    }

    fn read(text: &str) -> (r: Option<u64>) {
        parse_u64(text)
    }
}

impl Field for String {
    open spec fn readable(text: Seq<char>) -> bool {
        true
    }

    open spec fn reads_as(text: Seq<char>, value: String) -> bool {
        value@ == text
    }

    fn read(text: &str) -> (r: Option<String>) {
        Some(String::from_str(text))
    }
}

/// A cursor over the fields of a status line: its words, split at white space.
#[derive(Clone, Debug)]
pub struct Fields {
    tokens: Vec<String>,
    next: usize,
}

impl Fields {
    /// The fields that the cursor has yet to hand out.
    pub closed spec fn remaining(&self) -> Seq<Seq<char>> {
        let all = self.tokens.deep_view();
        if self.next <= all.len() {
            all.subrange(self.next as int, all.len() as int)
        } else {
            Seq::empty()
        }
    }

    /// A cursor over the words of `text`.
    pub fn new(text: &str) -> (fields: Self)
        ensures
            fields.remaining() == words(text@),
    {
        let fields = Fields { tokens: split_whitespace(text), next: 0 };
        fields
    }

    /// Hands out the next field, or `None` when all have been handed out.
    pub fn next(&mut self) -> (field: Option<String>)
        ensures
            match field {
                Some(text) => {
                    &&& old(self).remaining().len() > 0
                    &&& text@ == old(self).remaining()[0]
                    &&& final(self).remaining() == old(self).remaining().drop_first()
                },
                None => {
                    &&& old(self).remaining().len() == 0
                    &&& final(self).remaining() == old(self).remaining()
                },
            },
    {
        if self.next < self.tokens.len() {
            let text = self.tokens[self.next].clone();
            self.next = self.next + 1;
            Some(text)
        } else {
            None
        }
    }
}

/// Reads the next field as a value of type `T`. The cursor moves on by one
/// field. The error names the field: as missing where no field is left, as
/// unreadable where the field cannot be read as a `T`.
pub fn parse_field<T: Field>(iter: &mut Fields, name: &str) -> (r: Result<T, Error>)
    ensures
        final(iter).remaining() == if old(iter).remaining().len() > 0 {
            old(iter).remaining().drop_first()
        } else {
            old(iter).remaining()
        },
        match r {
            Ok(value) => old(iter).remaining().len() > 0 && T::reads_as(
                old(iter).remaining()[0],
                value,
            ),
            Err(e) => if old(iter).remaining().len() == 0 {
                e.is_de(missing_field_text(name@))
            } else {
                !T::readable(old(iter).remaining()[0]) && e.is_de(parse_error_text(name@))
            },
        },
{
    match iter.next() {
        None => Err(Error::missing_field(name)),
        Some(text) => match T::read(text.as_str()) {
            Some(value) => Ok(value),
            None => Err(Error::parse_error(name)),
        },
    }
}

/// The message for a response whose code is not the one that a decoder needs.
pub open spec fn invalid_code_text(code: ResponseCode) -> Seq<char> {
    "Invalid response code "@ + decimal(response_code_number(code) as nat)
}

/// Gives a deserialization error unless the code of the response is that of
/// the kind `desired`.
pub fn err_if_not_kind(resp: &RawResponse, desired: Kind) -> (r: Result<(), Error>)
    ensures
        match r {
            Ok(()) => resp.spec_code() == ResponseCode::Known(desired),
            Err(e) => resp.spec_code() != ResponseCode::Known(desired) && e.is_de(
                invalid_code_text(resp.spec_code()),
            ),
        },
{
    if resp.code() != ResponseCode::Known(desired) {
        let mut msg = String::from_str("Invalid response code ");
        push_decimal(&mut msg, resp.code().number() as u64);
        Err(Error::Deserialization(msg))
    } else {
        Ok(())
    }
}

/// The article number and the message id that the text of a status line
/// holds, as its second and third word; or the message of the error.
pub open spec fn article_fields_of(text: Seq<char>) -> Result<(u64, Seq<char>), Seq<char>> {
    let w = words(text);
    if w.len() < 2 {
        Err(missing_field_text("article-number"@))
    } else if decimal_u64(w[1]) is None {
        Err(parse_error_text("article-number"@))
    } else if w.len() < 3 {
        Err(missing_field_text("message-id"@))
    } else {
        Ok((decimal_u64(w[1])->0, w[2]))
    }
}

/// What was read is what was to be read.
pub open spec fn article_fields_match(
    r: Result<(u64, String), Error>,
    want: Result<(u64, Seq<char>), Seq<char>>,
) -> bool {
    match (r, want) {
        (Ok((number, id)), Ok((n, i))) => number == n && id@ == i,
        (Err(e), Err(msg)) => e.is_de(msg),
        _ => false,
    }
}

/// Reads the article number and the message id from the text of a status
/// line: its second and third word. The first word is the response code.
pub fn article_fields(text: &str) -> (r: Result<(u64, String), Error>)
    ensures
        article_fields_match(r, article_fields_of(text@)),
{
    let mut iter = Fields::new(text);
    let ghost w = words(text@);
    iter.next();
    let number: u64 = match parse_field::<u64>(&mut iter, "article-number") {
        Ok(number) => number,
        Err(e) => {
            return Err(e);
        },
    };
    assert(iter.remaining() =~= w.subrange(2, w.len() as int));
    let message_id: String = match parse_field::<String>(&mut iter, "message-id") {
        Ok(id) => id,
        Err(e) => {
            return Err(e);
        },
    };
    Ok((number, message_id))
}

/// Reads the article number and the message id from the status line of a
/// response. The line is taken as text in which U+FFFD stands for what is not
/// UTF-8.
pub fn process_article_first_line(resp: &RawResponse) -> (r: Result<(u64, String), Error>)
    ensures
        article_fields_match(r, article_fields_of(text_of(resp.spec_first_line()))),
{
    let lossy = resp.first_line_to_utf8_lossy();
    article_fields(lossy.as_str())
}

} // verus!
