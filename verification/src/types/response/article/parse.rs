use crate::raw::parse::crlf_at;
use crate::raw::parse::ErrorKind;
use crate::raw::parse::ParseError;
use crate::raw::parse::CR;
use crate::raw::parse::LF;
use crate::text::lossy_string;
use crate::types::response::article::headers::add_header;
use crate::types::response::article::headers::collect_headers;
use crate::types::response::article::headers::has_name;
use crate::types::response::article::headers::headers_view;
use crate::types::response::article::headers::lemma_collect_headers;
use crate::types::response::article::headers::lemma_name_index;
use crate::types::response::article::headers::names_unique;
use crate::types::response::article::headers::Header;
use crate::types::response::article::headers::Headers;
use vstd::prelude::*;
use vstd::slice::slice_subrange;
use vstd::utf8::decode_utf8;
use vstd::utf8::valid_utf8;

verus! {

/// `c` is an ASCII character from `!` to `~` other than the colon.
pub open spec fn is_a_notcolon_byte(c: u8) -> bool {
    (0x21 <= c <= 0x39) || (0x3b <= c <= 0x7e)
}

/// `c` is an ASCII character from `!` to `~`.
pub open spec fn is_a_char_byte(c: u8) -> bool {
    0x21 <= c <= 0x7e
}

/// `c` is a blank or a tab.
pub open spec fn is_blank(c: u8) -> bool {
    c == 0x20 || c == 0x09
}

/// `s` is valid UTF-8 and holds no ASCII byte.
pub open spec fn is_utf8_non_ascii_run(s: Seq<u8>) -> bool {
    valid_utf8(s) && forall|i: int| 0 <= i < s.len() ==> s[i] >= 0x80
}

/// The `n` bytes of `s` from index `at` on are there, are valid UTF-8 and hold
/// no ASCII byte.
pub open spec fn non_ascii_fits(s: Seq<u8>, at: int, n: int) -> bool {
    0 <= at && at + n <= s.len() && is_utf8_non_ascii_run(s.subrange(at, at + n))
}

/// The length of the character outside ASCII that starts at index `at` of `s`:
/// the least of the lengths one to four at which the bytes are valid UTF-8
/// without an ASCII byte, or zero where there is none.
pub open spec fn utf8_non_ascii_len(s: Seq<u8>, at: int) -> int {
    if non_ascii_fits(s, at, 1) {
        1
    } else if non_ascii_fits(s, at, 2) {
        2
    } else if non_ascii_fits(s, at, 3) {
        3
    } else if non_ascii_fits(s, at, 4) {
        4
    } else {
        0
    }
}

/// The length of the printable character that starts at index `at` of `s`: an
/// ASCII character from `!` to `~`, or a character outside ASCII; zero where
/// there is none.
pub open spec fn p_char_len(s: Seq<u8>, at: int) -> int {
    if 0 <= at < s.len() && is_a_char_byte(s[at]) {
        1
    } else {
        utf8_non_ascii_len(s, at)
    }
}

/// The end of the run of printable characters that starts at index `at`.
pub open spec fn token_end(s: Seq<u8>, at: int) -> int
    decreases s.len() - at,
{
    let n = p_char_len(s, at);
    if 0 <= at < s.len() && n > 0 {
        token_end(s, at + n)
    } else {
        at
    }
}

/// The end of the run of blanks and tabs that starts at index `at`.
pub open spec fn blank_end(s: Seq<u8>, at: int) -> int
    decreases s.len() - at,
{
    if 0 <= at < s.len() && is_blank(s[at]) {
        blank_end(s, at + 1)
    } else {
        at
    }
}

/// The end of the run of header-name characters that starts at index `at`.
pub open spec fn name_end(s: Seq<u8>, at: int) -> int
    decreases s.len() - at,
{
    if 0 <= at < s.len() && is_a_notcolon_byte(s[at]) {
        name_end(s, at + 1)
    } else {
        at
    }
}

/// The end of one further piece of header content at index `at`: an optional
/// line terminator, at least one blank or tab, and a token. Where no such
/// piece starts at `at`, the result is `at`.
pub open spec fn fold_end(s: Seq<u8>, at: int) -> int {
    let a = if crlf_at(s, at) {
        at + 2
    } else {
        at
    };
    let b = blank_end(s, a);
    let c = token_end(s, b);
    if b > a && c > b {
        c
    } else {
        at
    }
}

/// The end of all further pieces of header content from index `at` on.
pub open spec fn folds_end(s: Seq<u8>, at: int) -> int
    decreases s.len() - at,
{
    let e = fold_end(s, at);
    if 0 <= at < e <= s.len() {
        folds_end(s, e)
    } else {
        at
    }
}

/// The end of the header content that starts at index `at`: optional blanks, a
/// token, and all further pieces, each of which may be folded onto a new line.
/// `None` where no token follows the blanks.
pub open spec fn content_end(s: Seq<u8>, at: int) -> Option<int> {
    let b = blank_end(s, at);
    let t = token_end(s, b);
    if t > b {
        Some(folds_end(s, t))
    } else {
        None
    }
}

/// The header that starts at index `at` of `s`: a name of one or more
/// characters, a colon, a blank, the content, and a line terminator. The
/// result is the end of the name and the end of the content; the header ends
/// two bytes after that.
pub open spec fn header_at(s: Seq<u8>, at: int) -> Option<(int, int)> {
    let n = name_end(s, at);
    if n > at && n + 1 < s.len() && s[n] == 0x3a && s[n + 1] == 0x20 {
        match content_end(s, n + 2) {
            Some(e) => if crlf_at(s, e) {
                Some((n, e))
            } else {
                None
            },
            None => None,
        }
    } else {
        None
    }
}

/// Where in `s`, and why, the header at index `at` is refused. It has a
/// meaning only where no header starts there.
pub open spec fn header_fault(s: Seq<u8>, at: int) -> (int, ErrorKind) {
    let n = name_end(s, at);
    if n <= at {
        (at, ErrorKind::TakeWhile1)
    } else if n >= s.len() || s[n] != 0x3a {
        (n, ErrorKind::Char)
    } else if n + 1 >= s.len() || s[n + 1] != 0x20 {
        (n + 1, ErrorKind::Char)
    } else {
        match content_end(s, n + 2) {
            Some(e) => (e, ErrorKind::CrLf),
            None => (blank_end(s, n + 2), ErrorKind::Many1),
        }
    }
}

/// The end of the run of headers that starts at index `at`.
pub open spec fn headers_end(s: Seq<u8>, at: int) -> int
    decreases s.len() - at,
{
    match header_at(s, at) {
        Some((n, e)) => if 0 <= at < e + 2 <= s.len() {
            headers_end(s, e + 2)
        } else {
            at
        },
        None => at,
    }
}

/// The headers of the run that starts at index `at`, in order: for each the
/// bytes of its name and the bytes of its content, folds included.
pub open spec fn raw_headers(s: Seq<u8>, at: int) -> Seq<(Seq<u8>, Seq<u8>)>
    decreases s.len() - at,
{
    match header_at(s, at) {
        Some((n, e)) => if 0 <= at < e + 2 <= s.len() {
            seq![(s.subrange(at, n), s.subrange(n + 2, e))] + raw_headers(s, e + 2)
        } else {
            Seq::empty()
        },
        None => Seq::empty(),
    }
}

/// `s` starts with a header section: one or more headers and an empty line.
pub open spec fn has_header_section(s: Seq<u8>) -> bool {
    headers_end(s, 0) > 0 && crlf_at(s, headers_end(s, 0))
}

/// A run of headers that is not empty ends with a line terminator.
pub proof fn lemma_headers_end(s: Seq<u8>, at: int)
    requires
        0 <= at <= s.len(),
    ensures
        at <= headers_end(s, at) <= s.len(),
        headers_end(s, at) > at ==> crlf_at(s, headers_end(s, at) - 2),
    decreases s.len() - at,
{
    match header_at(s, at) {
        Some((n, e)) => {
            if 0 <= at < e + 2 <= s.len() {
                lemma_headers_end(s, e + 2);
            }
        },
        None => {},
    }
}

/// Returns true if the character is an ASCII character from `!` to `~` other
/// than the colon.
pub fn is_a_notcolon(chr: u8) -> (r: bool)
    ensures
        r == is_a_notcolon_byte(chr),
{
    (chr >= 0x21 && chr <= 0x39) || (chr >= 0x3b && chr <= 0x7e)
}

/// Returns true if the slice is UTF-8 and holds no ASCII character.
pub fn is_utf8_non_ascii(b: &[u8]) -> (r: bool)
    ensures
        r == is_utf8_non_ascii_run(b@),
{
    match core::str::from_utf8(b) {
        Ok(_) => {
            let n: usize = b.len();
            let mut i: usize = 0;
            while i < n
                invariant
                    n == b@.len(),
                    i <= n,
                    forall|j: int| 0 <= j < i ==> b@[j] >= 0x80,
                decreases n - i,
            {
                if b[i] < 0x80 {
                    return false;
                }
                i = i + 1;
            }
            true
        },
        Err(_) => false,
    }
}

/// Returns true if the character is an ASCII character from `!` to `~`.
pub fn is_a_char(chr: u8) -> (r: bool)
    ensures
        r == is_a_char_byte(chr),
{
    chr >= 0x21 && chr <= 0x7e
}

/// Returns true if the slice is a single ASCII character from `!` to `~`.
pub fn is_a_char_bytes(b: &[u8]) -> (r: bool)
    ensures
        r == (b@.len() == 1 && is_a_char_byte(b@[0])),
{
    if b.len() != 1 {
        false
    } else {
        is_a_char(b[0])
    }
}

/// The length of the character outside ASCII at index `at` of `b`, or zero.
fn scan_utf8_non_ascii(b: &[u8], at: usize) -> (n: usize)
    requires
        at <= b@.len(),
    ensures
        n == utf8_non_ascii_len(b@, at as int),
        at + n <= b@.len(),
{
    let len: usize = b.len();
    let left: usize = len - at;
    if left >= 1 && is_utf8_non_ascii(slice_subrange(b, at, at + 1)) {
        1
    } else if left >= 2 && is_utf8_non_ascii(slice_subrange(b, at, at + 2)) {
        2
    } else if left >= 3 && is_utf8_non_ascii(slice_subrange(b, at, at + 3)) {
        3
    } else if left >= 4 && is_utf8_non_ascii(slice_subrange(b, at, at + 4)) {
        4
    } else {
        0
    }
}

/// The length of the printable character at index `at` of `b`, or zero.
fn scan_p_char(b: &[u8], at: usize) -> (n: usize)
    requires
        at <= b@.len(),
    ensures
        n == p_char_len(b@, at as int),
        at + n <= b@.len(),
{
    if at < b.len() && is_a_char(b[at]) {
        1
    } else {
        scan_utf8_non_ascii(b, at)
    }
}

/// The end of the token at index `at` of `b`.
fn scan_token(b: &[u8], at: usize) -> (end: usize)
    requires
        at <= b@.len(),
    ensures
        end == token_end(b@, at as int),
        at <= end <= b@.len(),
{
    let len: usize = b.len();
    let mut i: usize = at;
    loop
        invariant
            len == b@.len(),
            at <= i <= len,
            token_end(b@, at as int) == token_end(b@, i as int),
        decreases len - i,
    {
        let n = scan_p_char(b, i);
        if i < len && n > 0 {
            i = i + n;
        } else {
            return i;
        }
    }
}

/// The end of the run of blanks and tabs at index `at` of `b`.
fn scan_blanks(b: &[u8], at: usize) -> (end: usize)
    requires
        at <= b@.len(),
    ensures
        end == blank_end(b@, at as int),
        at <= end <= b@.len(),
{
    let len: usize = b.len();
    let mut i: usize = at;
    while i < len && (b[i] == 0x20 || b[i] == 0x09)
        invariant
            len == b@.len(),
            at <= i <= len,
            blank_end(b@, at as int) == blank_end(b@, i as int),
        decreases len - i,
    {
        i = i + 1;
    }
    i
}

/// The end of the run of header-name characters at index `at` of `b`.
fn scan_name(b: &[u8], at: usize) -> (end: usize)
    requires
        at <= b@.len(),
    ensures
        end == name_end(b@, at as int),
        at <= end <= b@.len(),
{
    let len: usize = b.len();
    let mut i: usize = at;
    while i < len && is_a_notcolon(b[i])
        invariant
            len == b@.len(),
            at <= i <= len,
            name_end(b@, at as int) == name_end(b@, i as int),
        decreases len - i,
    {
        i = i + 1;
    }
    i
}

/// Whether a line terminator stands at index `at` of `b`.
fn has_crlf_at(b: &[u8], at: usize) -> (r: bool)
    ensures
        r == crlf_at(b@, at as int),
{
    let len: usize = b.len();
    len >= 2 && at <= len - 2 && b[at] == CR && b[at + 1] == LF
}

/// The end of one further piece of header content at index `at` of `b`.
fn scan_fold(b: &[u8], at: usize) -> (end: usize)
    requires
        at <= b@.len(),
    ensures
        end == fold_end(b@, at as int),
        at <= end <= b@.len(),
{
    let a: usize = if b.len() - at >= 2 && has_crlf_at(b, at) {
        at + 2
    } else {
        at
    };
    let blanks = scan_blanks(b, a);
    let token = scan_token(b, blanks);
    if blanks > a && token > blanks {
        token
    } else {
        at
    }
}

/// The end of all further pieces of header content from index `at` of `b` on.
fn scan_folds(b: &[u8], at: usize) -> (end: usize)
    requires
        at <= b@.len(),
    ensures
        end == folds_end(b@, at as int),
        at <= end <= b@.len(),
{
    let len: usize = b.len();
    let mut i: usize = at;
    loop
        invariant
            len == b@.len(),
            at <= i <= len,
            folds_end(b@, at as int) == folds_end(b@, i as int),
        decreases len - i,
    {
        let e = scan_fold(b, i);
        if e > i {
            i = e;
        } else {
            return i;
        }
    }
}

/// The end of the header content at index `at` of `b`, or where it is refused.
fn scan_content(b: &[u8], at: usize) -> (r: Result<usize, usize>)
    requires
        at <= b@.len(),
    ensures
        match r {
            Ok(end) => content_end(b@, at as int) == Some(end as int) && at < end <= b@.len(),
            Err(fault) => content_end(b@, at as int) is None && fault == blank_end(
                b@,
                at as int,
            ) && fault <= b@.len(),
        },
{
    let blanks = scan_blanks(b, at);
    let token = scan_token(b, blanks);
    if token > blanks {
        Ok(scan_folds(b, token))
    } else {
        Err(blanks)
    }
}

/// The header at index `at` of `b`: the end of its name and the end of its
/// content; or where and why it is refused.
fn scan_header(b: &[u8], at: usize) -> (r: Result<(usize, usize), (usize, ErrorKind)>)
    requires
        at <= b@.len(),
    ensures
        match r {
            Ok((n, e)) => header_at(b@, at as int) == Some((n as int, e as int)) && at < n && n
                + 2 < e && e + 2 <= b@.len(),
            Err((fault, kind)) => header_at(b@, at as int) is None && (fault as int, kind)
                == header_fault(b@, at as int) && fault <= b@.len(),
        },
{
    let len: usize = b.len();
    let n = scan_name(b, at);
    if n <= at {
        return Err((at, ErrorKind::TakeWhile1));
    }
    if n >= len || b[n] != 0x3a {
        return Err((n, ErrorKind::Char));
    }
    if n + 1 >= len || b[n + 1] != 0x20 {
        return Err((n + 1, ErrorKind::Char));
    }
    match scan_content(b, n + 2) {
        Err(fault) => Err((fault, ErrorKind::Many1)),
        Ok(e) => {
            if has_crlf_at(b, e) {
                Ok((n, e))
            } else {
                Err((e, ErrorKind::CrLf))
            }
        },
    }
}

/// Takes a single byte from the front of `b`, if it is ASCII.
pub fn take_ascii_byte<'a>(b: &'a [u8]) -> (r: Result<(&'a [u8], &'a [u8]), ParseError<'a>>)
    ensures
        match r {
            Ok((rest, byte)) => {
                &&& b@.len() >= 1 && b@[0] < 0x80
                &&& byte@ == b@.subrange(0, 1)
                &&& rest@ == b@.subrange(1, b@.len() as int)
            },
            Err(e) => {
                &&& b@.len() == 0 || b@[0] >= 0x80
                &&& e.kind == if b@.len() == 0 {
                    ErrorKind::Eof
                } else {
                    ErrorKind::Verify
                }
                &&& e.input@ == b@
            },
        },
{
    if b.len() == 0 {
        Err(ParseError { input: b, kind: ErrorKind::Eof })
    } else if b[0] >= 0x80 {
        Err(ParseError { input: b, kind: ErrorKind::Verify })
    } else {
        Ok((slice_subrange(b, 1, b.len()), slice_subrange(b, 0, 1)))
    }
}

/// Takes an ASCII character from `!` to `~` from the front of `b`.
pub fn take_a_char<'a>(b: &'a [u8]) -> (r: Result<(&'a [u8], &'a [u8]), ParseError<'a>>)
    ensures
        match r {
            Ok((rest, c)) => {
                &&& b@.len() >= 1 && is_a_char_byte(b@[0])
                &&& c@ == b@.subrange(0, 1)
                &&& rest@ == b@.subrange(1, b@.len() as int)
            },
            Err(e) => {
                &&& b@.len() == 0 || !is_a_char_byte(b@[0])
                &&& e.kind == if b@.len() == 0 {
                    ErrorKind::Eof
                } else {
                    ErrorKind::Verify
                }
                &&& e.input@ == b@
            },
        },
{
    match take_ascii_byte(b) {
        Err(e) => Err(e),
        Ok((rest, byte)) => {
            if is_a_char_bytes(byte) {
                Ok((rest, byte))
            } else {
                Err(ParseError { input: b, kind: ErrorKind::Verify })
            }
        },
    }
}

/// Takes a single character outside ASCII from the front of `b`.
pub fn take_utf8_non_ascii<'a>(b: &'a [u8]) -> (r: Result<(&'a [u8], &'a [u8]), ParseError<'a>>)
    ensures
        match r {
            Ok((rest, c)) => {
                &&& utf8_non_ascii_len(b@, 0) > 0
                &&& c@ == b@.subrange(0, utf8_non_ascii_len(b@, 0))
                &&& rest@ == b@.subrange(utf8_non_ascii_len(b@, 0), b@.len() as int)
            },
            Err(e) => {
                &&& utf8_non_ascii_len(b@, 0) == 0
                &&& e.kind == if b@.len() < 4 {
                    ErrorKind::Eof
                } else {
                    ErrorKind::Verify
                }
                &&& e.input@ == b@
            },
        },
{
    let n = scan_utf8_non_ascii(b, 0);
    if n > 0 {
        Ok((slice_subrange(b, n, b.len()), slice_subrange(b, 0, n)))
    } else if b.len() < 4 {
        Err(ParseError { input: b, kind: ErrorKind::Eof })
    } else {
        Err(ParseError { input: b, kind: ErrorKind::Verify })
    }
}

/// Takes a single printable character from the front of `b`: an ASCII
/// character from `!` to `~`, or a character outside ASCII.
pub fn take_p_char<'a>(b: &'a [u8]) -> (r: Result<(&'a [u8], &'a [u8]), ParseError<'a>>)
    ensures
        match r {
            Ok((rest, c)) => {
                &&& p_char_len(b@, 0) > 0
                &&& c@ == b@.subrange(0, p_char_len(b@, 0))
                &&& rest@ == b@.subrange(p_char_len(b@, 0), b@.len() as int)
            },
            Err(e) => {
                &&& p_char_len(b@, 0) == 0
                &&& e.kind == if b@.len() < 4 {
                    ErrorKind::Eof
                } else {
                    ErrorKind::Verify
                }
                &&& e.input@ == b@
            },
        },
{
    match take_a_char(b) {
        Ok(found) => Ok(found),
        Err(_) => take_utf8_non_ascii(b),
    }
}

/// Takes the name of a header from the front of `b`: one or more ASCII
/// characters from `!` to `~` other than the colon.
pub fn take_header_name<'a>(b: &'a [u8]) -> (r: Result<(&'a [u8], &'a [u8]), ParseError<'a>>)
    ensures
        match r {
            Ok((rest, name)) => {
                &&& name_end(b@, 0) > 0
                &&& name@ == b@.subrange(0, name_end(b@, 0))
                &&& rest@ == b@.subrange(name_end(b@, 0), b@.len() as int)
            },
            Err(e) => {
                &&& name_end(b@, 0) == 0
                &&& e.kind == ErrorKind::TakeWhile1
                &&& e.input@ == b@
            },
        },
{
    let n = scan_name(b, 0);
    if n > 0 {
        Ok((slice_subrange(b, n, b.len()), slice_subrange(b, 0, n)))
    } else {
        Err(ParseError { input: b, kind: ErrorKind::TakeWhile1 })
    }
}

/// Takes a token from the front of `b`: one or more printable characters.
pub fn take_token<'a>(b: &'a [u8]) -> (r: Result<(&'a [u8], &'a [u8]), ParseError<'a>>)
    ensures
        match r {
            Ok((rest, token)) => {
                &&& token_end(b@, 0) > 0
                &&& token@ == b@.subrange(0, token_end(b@, 0))
                &&& rest@ == b@.subrange(token_end(b@, 0), b@.len() as int)
            },
            Err(e) => {
                &&& token_end(b@, 0) == 0
                &&& e.kind == ErrorKind::Many1
                &&& e.input@ == b@
            },
        },
{
    let n = scan_token(b, 0);
    if n > 0 {
        Ok((slice_subrange(b, n, b.len()), slice_subrange(b, 0, n)))
    } else {
        Err(ParseError { input: b, kind: ErrorKind::Many1 })
    }
}

/// Takes the content of a header from the front of `b`. The content may be
/// folded: it goes on over a line terminator that blanks or tabs follow. The
/// content that is handed out holds the folds as they stand in `b`, and not
/// the line terminator that ends the header.
pub fn take_header_content<'a>(b: &'a [u8]) -> (r: Result<(&'a [u8], &'a [u8]), ParseError<'a>>)
    ensures
        match r {
            Ok((rest, content)) => {
                &&& content_end(b@, 0) matches Some(e)
                &&& content@ == b@.subrange(0, e)
                &&& rest@ == b@.subrange(e, b@.len() as int)
            },
            Err(e) => {
                &&& content_end(b@, 0) is None
                &&& e.kind == ErrorKind::Many1
                &&& e.input@ == b@.subrange(blank_end(b@, 0), b@.len() as int)
            },
        },
{
    match scan_content(b, 0) {
        Ok(e) => Ok((slice_subrange(b, e, b.len()), slice_subrange(b, 0, e))),
        Err(fault) => Err(ParseError { input: slice_subrange(b, fault, b.len()), kind: ErrorKind::Many1 }),
    }
}

/// Takes one header from the front of `b`: its name, a colon, a blank, its
/// content and a line terminator. Hands out the name and the content.
pub fn take_header<'a>(b: &'a [u8]) -> (r: Result<
    (&'a [u8], (&'a [u8], &'a [u8])),
    ParseError<'a>,
>)
    ensures
        match r {
            Ok((rest, (name, content))) => {
                &&& header_at(b@, 0) matches Some((n, e))
                &&& name@ == b@.subrange(0, n)
                &&& content@ == b@.subrange(n + 2, e)
                &&& rest@ == b@.subrange(e + 2, b@.len() as int)
            },
            Err(e) => {
                &&& header_at(b@, 0) is None
                &&& e.kind == header_fault(b@, 0).1
                &&& e.input@ == b@.subrange(header_fault(b@, 0).0, b@.len() as int)
            },
        },
{
    let len: usize = b.len();
    match scan_header(b, 0) {
        Ok((n, e)) => Ok(
            (slice_subrange(b, e + 2, len), (slice_subrange(b, 0, n), slice_subrange(b, n + 2, e))),
        ),
        Err((fault, kind)) => Err(ParseError { input: slice_subrange(b, fault, b.len()), kind }),
    }
}

/// The bytes of `s` from index `at` on, without the line terminators.
pub open spec fn unfolded_from(s: Seq<u8>, at: int) -> Seq<u8>
    decreases s.len() - at,
{
    if at < 0 || at >= s.len() {
        Seq::empty()
    } else if crlf_at(s, at) {
        unfolded_from(s, at + 2)
    } else {
        seq![s[at]] + unfolded_from(s, at + 1)
    }
}

/// Header content with its folds undone: the bytes of `s` without the line
/// terminators. The blanks and tabs that follow a fold stay.
pub open spec fn unfolded(s: Seq<u8>) -> Seq<u8> {
    unfolded_from(s, 0)
}

/// Content that is folded once unfolds to its two lines, one behind the
/// other: the line terminator between them is gone, and so the blanks or tabs
/// that start the second line follow the first line at once.
pub proof fn lemma_unfold_two_lines(first: Seq<u8>, second: Seq<u8>)
    requires
        crate::raw::parse::no_crlf(first),
        crate::raw::parse::no_crlf(second),
    ensures
        unfolded(first + seq![CR, LF] + second) == first + second,
{
    lemma_unfold_folded(first, second, 0);
}

/// What holds no line terminator unfolds to itself.
proof fn lemma_unfold_plain(s: Seq<u8>, base: int, second: Seq<u8>, at: int)
    requires
        crate::raw::parse::no_crlf(second),
        0 <= base,
        base + second.len() == s.len(),
        s.subrange(base, s.len() as int) == second,
        base <= at <= s.len(),
    ensures
        unfolded_from(s, at) == second.subrange(at - base, second.len() as int),
    decreases s.len() - at,
{
    if at < s.len() {
        if at + 1 < s.len() {
            assert(s[at + 1] == second[at + 1 - base]);
        }
        assert(!crlf_at(second, at - base));
        lemma_unfold_plain(s, base, second, at + 1);
    } else {
        assert(unfolded_from(s, at) =~= second.subrange(at - base, second.len() as int));
    }
}

/// What is folded once unfolds, from an index in its first line on, to the
/// rest of that line and the second line.
proof fn lemma_unfold_folded(first: Seq<u8>, second: Seq<u8>, at: int)
    requires
        crate::raw::parse::no_crlf(first),
        crate::raw::parse::no_crlf(second),
        0 <= at <= first.len(),
    ensures
        unfolded_from(first + seq![CR, LF] + second, at) == first.subrange(
            at,
            first.len() as int,
        ) + second,
    decreases first.len() - at,
{
    let s = first + seq![CR, LF] + second;
    if at == first.len() {
        let base = first.len() as int + 2;
        assert(s.subrange(base, s.len() as int) =~= second);
        lemma_unfold_plain(s, base, second, base);
    } else {
        if at + 1 < first.len() {
            assert(!crlf_at(first, at));
        }
        lemma_unfold_folded(first, second, at + 1);
    }
}

/// Bytes below 0x80 are valid UTF-8.
pub proof fn lemma_ascii_is_utf8(s: Seq<u8>)
    requires
        forall|i: int| 0 <= i < s.len() ==> s[i] < 0x80,
    ensures
        valid_utf8(s),
{
    assert forall|i: int| 0 <= 0 <= i < s.len() <= s.len() implies #[trigger]
        vstd::utf8::is_leading_byte_width_1(s[i]) by {
        assert(s[i] < 0x80);
    }
    vstd::utf8::partial_valid_utf8_extend_ascii_block(s, 0, s.len() as int);
    assert(s.subrange(0, s.len() as int) =~= s);
}

/// The runs of blanks and of header-name characters hold bytes below 0x80
/// only, and end inside the input.
pub proof fn lemma_runs_are_ascii(s: Seq<u8>, at: int)
    requires
        0 <= at <= s.len(),
    ensures
        at <= blank_end(s, at) <= s.len(),
        at <= name_end(s, at) <= s.len(),
        forall|i: int| at <= i < blank_end(s, at) ==> s[i] < 0x80,
        forall|i: int| at <= i < name_end(s, at) ==> s[i] < 0x80,
    decreases s.len() - at,
{
    if at < s.len() {
        lemma_runs_are_ascii(s, at + 1);
    }
}

/// A token is valid UTF-8, and ends inside the input.
pub proof fn lemma_token_is_utf8(s: Seq<u8>, at: int)
    requires
        0 <= at <= s.len(),
    ensures
        at <= token_end(s, at) <= s.len(),
        valid_utf8(s.subrange(at, token_end(s, at))),
    decreases s.len() - at,
{
    let n = p_char_len(s, at);
    if at < s.len() && n > 0 {
        lemma_token_is_utf8(s, at + n);
        let first = s.subrange(at, at + n);
        if is_a_char_byte(s[at]) {
            lemma_ascii_is_utf8(first);
        }
        vstd::utf8::valid_utf8_concat(first, s.subrange(at + n, token_end(s, at)));
        assert(first + s.subrange(at + n, token_end(s, at)) =~= s.subrange(
            at,
            token_end(s, at),
        ));
    } else {
        assert(s.subrange(at, at) =~= Seq::<u8>::empty());
    }
}

/// The bytes between `from` and `to` are valid UTF-8 where they are so from
/// `from` to `mid` and from `mid` to `to`.
proof fn lemma_utf8_pieces(s: Seq<u8>, from: int, mid: int, to: int)
    requires
        0 <= from <= mid <= to <= s.len(),
        valid_utf8(s.subrange(from, mid)),
        valid_utf8(s.subrange(mid, to)),
    ensures
        valid_utf8(s.subrange(from, to)),
{
    vstd::utf8::valid_utf8_concat(s.subrange(from, mid), s.subrange(mid, to));
    assert(s.subrange(from, mid) + s.subrange(mid, to) =~= s.subrange(from, to));
}

/// The bytes between `from` and `to` are valid UTF-8 where all of them are
/// below 0x80.
proof fn lemma_ascii_piece(s: Seq<u8>, from: int, to: int)
    requires
        0 <= from <= to <= s.len(),
        forall|i: int| from <= i < to ==> s[i] < 0x80,
    ensures
        valid_utf8(s.subrange(from, to)),
{
    lemma_ascii_is_utf8(s.subrange(from, to));
}

/// A further piece of header content is valid UTF-8, and ends inside the
/// input.
pub proof fn lemma_fold_is_utf8(s: Seq<u8>, at: int)
    requires
        0 <= at <= s.len(),
    ensures
        at <= fold_end(s, at) <= s.len(),
        valid_utf8(s.subrange(at, fold_end(s, at))),
{
    let a = if crlf_at(s, at) {
        at + 2
    } else {
        at
    };
    lemma_runs_are_ascii(s, a);
    let b = blank_end(s, a);
    lemma_token_is_utf8(s, b);
    let c = token_end(s, b);
    if b > a && c > b {
        lemma_ascii_piece(s, at, a);
        lemma_ascii_piece(s, a, b);
        lemma_utf8_pieces(s, at, a, b);
        lemma_utf8_pieces(s, at, b, c);
    } else {
        assert(s.subrange(at, at) =~= Seq::<u8>::empty());
    }
}

/// All further pieces of header content are valid UTF-8, and end inside the
/// input.
pub proof fn lemma_folds_are_utf8(s: Seq<u8>, at: int)
    requires
        0 <= at <= s.len(),
    ensures
        at <= folds_end(s, at) <= s.len(),
        valid_utf8(s.subrange(at, folds_end(s, at))),
    decreases s.len() - at,
{
    lemma_fold_is_utf8(s, at);
    let e = fold_end(s, at);
    if at < e {
        lemma_folds_are_utf8(s, e);
        lemma_utf8_pieces(s, at, e, folds_end(s, at));
    } else {
        assert(s.subrange(at, at) =~= Seq::<u8>::empty());
    }
}

/// Header content is valid UTF-8, and ends inside the input.
pub proof fn lemma_content_is_utf8(s: Seq<u8>, at: int)
    requires
        0 <= at <= s.len(),
    ensures
        content_end(s, at) matches Some(e) ==> at < e <= s.len() && valid_utf8(
            s.subrange(at, e),
        ),
{
    lemma_runs_are_ascii(s, at);
    let b = blank_end(s, at);
    lemma_token_is_utf8(s, b);
    let t = token_end(s, b);
    if t > b {
        lemma_folds_are_utf8(s, t);
        lemma_ascii_piece(s, at, b);
        lemma_utf8_pieces(s, at, b, t);
        lemma_utf8_pieces(s, at, t, folds_end(s, t));
    }
}

/// Unfolding from an index on is unfolding what stands from that index on.
pub proof fn lemma_unfolded_shift(s: Seq<u8>, k: int, at: int)
    requires
        0 <= k <= at <= s.len(),
    ensures
        unfolded_from(s, at) == unfolded_from(s.subrange(k, s.len() as int), at - k),
    decreases s.len() - at,
{
    let t = s.subrange(k, s.len() as int);
    if at < s.len() {
        if at + 1 < s.len() {
            assert(t[at - k + 1] == s[at + 1]);
        }
        if crlf_at(s, at) {
            lemma_unfolded_shift(s, k, at + 2);
        } else {
            lemma_unfolded_shift(s, k, at + 1);
        }
    }
}

/// The first character of valid UTF-8 passes unfolding as it is, unless it is
/// a carriage return that a line feed follows.
proof fn lemma_unfolded_scalar(s: Seq<u8>, n: int, at: int)
    requires
        0 <= at <= n <= s.len(),
        !crlf_at(s, 0),
        forall|i: int| 1 <= i < n ==> s[i] >= 0x80,
        n >= 1,
    ensures
        unfolded_from(s, at) == s.subrange(at, n) + unfolded_from(s, n),
    decreases n - at,
{
    if at < n {
        assert(!crlf_at(s, at)) by {
            if at > 0 {
                assert(s[at] >= 0x80);
            }
        }
        lemma_unfolded_scalar(s, n, at + 1);
    } else {
        assert(s.subrange(at, n) + unfolded_from(s, n) =~= unfolded_from(s, n));
    }
}

/// The first character of valid UTF-8 is valid UTF-8 on its own.
proof fn lemma_first_scalar_alone(s: Seq<u8>)
    requires
        vstd::utf8::valid_first_scalar(s),
    ensures
        valid_utf8(s.subrange(0, vstd::utf8::length_of_first_scalar(s))),
{
    reveal_with_fuel(vstd::utf8::valid_utf8, 2);
    let n = vstd::utf8::length_of_first_scalar(s);
    let first = s.subrange(0, n);
    if n >= 2 {
        assert(first[1] == s[1]);
    }
    if n >= 3 {
        assert(first[2] == s[2]);
    }
    if n >= 4 {
        assert(first[3] == s[3]);
    }
}

/// Valid UTF-8 stays valid UTF-8 when it is unfolded.
pub proof fn lemma_unfolded_is_utf8(s: Seq<u8>)
    requires
        valid_utf8(s),
    ensures
        valid_utf8(unfolded(s)),
    decreases s.len(),
{
    if s.len() > 0 {
        let n = vstd::utf8::length_of_first_scalar(s);
        let rest = vstd::utf8::pop_first_scalar(s);
        assert(valid_utf8(rest));
        if crlf_at(s, 0) {
            let after = vstd::utf8::pop_first_scalar(rest);
            assert(after =~= s.subrange(2, s.len() as int));
            lemma_unfolded_is_utf8(after);
            lemma_unfolded_shift(s, 2, 2);
        } else {
            assert forall|i: int| 1 <= i < n implies s[i] >= 0x80 by {
                assert(vstd::utf8::is_continuation_byte(s[i]));
            }
            lemma_unfolded_scalar(s, n, 0);
            lemma_unfolded_shift(s, n, n);
            lemma_unfolded_is_utf8(rest);
            let first = s.subrange(0, n);
            lemma_first_scalar_alone(s);
            vstd::utf8::valid_utf8_concat(first, unfolded(rest));
        }
    }
}

/// The name and the content of each header as text: the name as it stands, the
/// content with its folds undone. Both are valid UTF-8, as the grammar of
/// headers admits nothing else.
pub open spec fn decoded_headers(raw: Seq<(Seq<u8>, Seq<u8>)>) -> Seq<(Seq<char>, Seq<char>)> {
    Seq::new(raw.len(), |i: int| (decode_utf8(raw[i].0), decode_utf8(unfolded(raw[i].1))))
}

/// Undoes the folds of header content: hands out the bytes of `content`
/// without the line terminators.
pub fn unfold(content: &[u8]) -> (out: Vec<u8>)
    ensures
        out@ == unfolded(content@),
{
    let n: usize = content.len();
    let mut out: Vec<u8> = Vec::with_capacity(n);
    let mut i: usize = 0;
    while i < n
        invariant
            n == content@.len(),
            i <= n,
            out@ + unfolded_from(content@, i as int) == unfolded(content@),
        decreases n - i,
    {
        if has_crlf_at(content, i) {
            i = i + 2;
        } else {
            out.push(content[i]);
            i = i + 1;
        }
    }
    out
}

/// The index of the header of the name `name` among `entries`.
fn find_header(entries: &Vec<Header>, name: &String) -> (found: Option<usize>)
    ensures
        match found {
            Some(i) => i < entries@.len() && entries@[i as int].name@ == name@,
            None => !has_name(headers_view(entries@), name@),
        },
{
    let n: usize = entries.len();
    let mut i: usize = 0;
    while i < n
        invariant
            n == entries@.len(),
            i <= n,
            forall|j: int| 0 <= j < i ==> (#[trigger] headers_view(entries@)[j]).0 != name@,
        decreases n - i,
    {
        if entries[i].name == *name {
            return Some(i);
        }
        i = i + 1;
    }
    None
}

/// Adds one header to the entries: to the entry of its name, or as a new entry
/// after the others.
fn push_header(entries: &mut Vec<Header>, name: String, content: String)
    requires
        names_unique(headers_view(old(entries)@)),
    ensures
        headers_view(final(entries)@) == add_header(
            headers_view(old(entries)@),
            name@,
            content@,
        ),
{
    let ghost before = headers_view(entries@);
    match find_header(entries, &name) {
        Some(i) => {
            proof {
                lemma_name_index(before, name@, i as int);
            }
            let mut h = entries.remove(i);
            let ghost values = h.content.deep_view();
            h.content.push(content);
            assert(h.content.deep_view() =~= values.push(content@));
            entries.insert(i, h);
        },
        None => {
            let mut values: Vec<String> = Vec::new();
            values.push(content);
            assert(values.deep_view() =~= seq![content@]);
            entries.push(Header { name, content: values });
        },
    }
}

/// Takes the header section from the front of `b`: one or more headers and the
/// empty line that ends them. Hands out what follows the empty line, and the
/// headers: each name as it stands, each content with its folds undone, both
/// as the text that their bytes encode.
pub fn take_headers<'a>(b: &'a [u8]) -> (r: Result<(&'a [u8], Headers), ParseError<'a>>)
    ensures
        match r {
            Ok((rest, headers)) => {
                &&& has_header_section(b@)
                &&& rest@ == b@.subrange(headers_end(b@, 0) + 2, b@.len() as int)
                &&& headers.wf()
                &&& headers.spec_entries() == collect_headers(
                    decoded_headers(raw_headers(b@, 0)),
                )
                &&& headers.spec_len() == raw_headers(b@, 0).len()
            },
            Err(e) => {
                &&& !has_header_section(b@)
                &&& if headers_end(b@, 0) == 0 {
                    e.kind == ErrorKind::Many1 && e.input@ == b@
                } else {
                    e.kind == ErrorKind::CrLf && e.input@ == b@.subrange(
                        headers_end(b@, 0),
                        b@.len() as int,
                    )
                }
            },
        },
{
    let len: usize = b.len();
    let mut entries: Vec<Header> = Vec::new();
    let mut count: usize = 0;
    let mut at: usize = 0;
    let ghost mut done: Seq<(Seq<u8>, Seq<u8>)> = Seq::empty();
    proof {
        assert(headers_view(entries@) =~= collect_headers(decoded_headers(done)));
    }
    loop
        invariant
            len == b@.len(),
            at <= len,
            count <= at,
            count == done.len(),
            at > 0 <==> count > 0,
            headers_end(b@, 0) == headers_end(b@, at as int),
            raw_headers(b@, 0) == done + raw_headers(b@, at as int),
            headers_view(entries@) == collect_headers(decoded_headers(done)),
        ensures
            header_at(b@, at as int) is None,
            headers_end(b@, 0) == at,
            raw_headers(b@, 0) == done,
        decreases len - at,
    {
        match scan_header(b, at) {
            Err(_) => {
                break ;
            },
            Ok((n, e)) => {
                let name = lossy_string(slice_subrange(b, at, n));
                let plain = unfold(slice_subrange(b, n + 2, e));
                let content = lossy_string(plain.as_slice());
                proof {
                    lemma_runs_are_ascii(b@, at as int);
                    lemma_ascii_piece(b@, at as int, n as int);
                    lemma_content_is_utf8(b@, n + 2);
                    lemma_unfolded_is_utf8(b@.subrange(n + 2, e as int));
                    lemma_collect_headers(decoded_headers(done));
                    let pair = (b@.subrange(at as int, n as int), b@.subrange(n + 2, e as int));
                    let longer = done.push(pair);
                    assert(decoded_headers(longer).drop_last() =~= decoded_headers(done));
                    done = longer;
                }
                push_header(&mut entries, name, content);
                count = count + 1;
                at = e + 2;
            },
        }
    }
    proof {
        lemma_collect_headers(decoded_headers(done));
    }
    if at == 0 {
        return Err(ParseError { input: b, kind: ErrorKind::Many1 });
    }
    if !has_crlf_at(b, at) {
        return Err(ParseError { input: slice_subrange(b, at, len), kind: ErrorKind::CrLf });
    }
    Ok((slice_subrange(b, at + 2, len), Headers::from_parts(entries, count)))
}

} // verus!
