use crate::error::missing_field_text;
use crate::error::parse_error_text;
use crate::error::Error;
use crate::raw::response::RawResponse;
use crate::response_code::Kind;
use crate::response_code::ResponseCode;
use crate::text::decimal_u64;
use crate::text::text_of;
use crate::text::words;
use crate::types::response::util::err_if_not_kind;
use crate::types::response::util::invalid_code_text;
use crate::types::response::util::parse_field;
use crate::types::response::util::Fields;
use vstd::prelude::*;

verus! {

/// What the server says of a newsgroup when it is selected.
#[derive(Clone, Debug, Eq, PartialEq)]
pub struct Group {
    /// The estimated number of articles in the group
    pub number: u64,
    /// The lowest reported article number
    pub low: u64,
    /// The highest reported article number
    pub high: u64,
    /// The name of the group
    pub name: String,
}

/// The number that the word at index `at` spells, or the message of the error
/// that names the field.
pub open spec fn number_at(w: Seq<Seq<char>>, at: int, name: Seq<char>) -> Result<u64, Seq<char>> {
    if w.len() <= at {
        Err(missing_field_text(name))
    } else {
        match decimal_u64(w[at]) {
            Some(n) => Ok(n),
            None => Err(parse_error_text(name)),
        }
    }
}

/// The four fields of a group that the text of a status line holds after the
/// response code: the number of articles, the lowest and the highest article
/// number, and the name; or the message of the first error.
pub open spec fn group_of(text: Seq<char>) -> Result<(u64, u64, u64, Seq<char>), Seq<char>> {
    let w = words(text);
    if w.len() < 1 {
        Err(missing_field_text("response code"@))
    } else {
        match number_at(w, 1, "number"@) {
            Err(msg) => Err(msg),
            Ok(number) => match number_at(w, 2, "low"@) {
                Err(msg) => Err(msg),
                Ok(low) => match number_at(w, 3, "high"@) {
                    Err(msg) => Err(msg),
                    Ok(high) => if w.len() < 5 {
                        Err(missing_field_text("name"@))
                    } else {
                        Ok((number, low, high, w[4]))
                    },
                },
            },
        }
    }
}

/// What was decoded is what was to be decoded.
pub open spec fn group_matches(
    r: Result<Group, Error>,
    want: Result<(u64, u64, u64, Seq<char>), Seq<char>>,
) -> bool {
    match (r, want) {
        (Ok(g), Ok((number, low, high, name))) => g.number == number && g.low == low && g.high
            == high && g.name@ == name,
        (Err(e), Err(msg)) => e.is_de(msg),
        _ => false,
    }
}

impl Group {
    /// Decodes a group from the text of a status line.
    pub fn from_status_text(text: &str) -> (r: Result<Group, Error>)
        ensures
            group_matches(r, group_of(text@)),
    {
        let mut iter = Fields::new(text);
        let ghost w = words(text@);
        match iter.next() {
            None => {
                return Err(Error::missing_field("response code"));
            },
            Some(_) => {},
        }
        let number: u64 = match parse_field::<u64>(&mut iter, "number") {
            Ok(n) => n,
            Err(e) => {
                return Err(e);
            },
        };
        let low: u64 = match parse_field::<u64>(&mut iter, "low") {
            Ok(n) => n,
            Err(e) => {
                return Err(e);
            },
        };
        let high: u64 = match parse_field::<u64>(&mut iter, "high") {
            Ok(n) => n,
            Err(e) => {
                return Err(e);
            },
        };
        assert(iter.remaining() =~= w.subrange(4, w.len() as int));
        let name: String = match parse_field::<String>(&mut iter, "name") {
            Ok(n) => n,
            Err(e) => {
                return Err(e);
            },
        };
        Ok(Group { number, low, high, name })
    }

    /// The outcome of decoding a group from a response: an error unless the
    /// code is that of a selected group, and else what the status line holds.
    pub open spec fn decoded(resp: RawResponse, r: Result<Group, Error>) -> bool {
        if resp.spec_code() != ResponseCode::Known(Kind::GroupSelected) {
            r matches Err(e) && e.is_de(invalid_code_text(resp.spec_code()))
        } else {
            group_matches(r, group_of(text_of(resp.spec_first_line())))
        }
    }

    /// Decodes a group from a response. The status line is taken as text in
    /// which U+FFFD stands for what is not UTF-8.
    pub fn try_from(resp: &RawResponse) -> (r: Result<Group, Error>)
        ensures
            Group::decoded(*resp, r),
    {
        match err_if_not_kind(resp, Kind::GroupSelected) {
            Ok(()) => {},
            Err(e) => {
                return Err(e);
            },
        }
        let lossy = resp.first_line_to_utf8_lossy();
        Group::from_status_text(lossy.as_str())
    }
}

} // verus!
