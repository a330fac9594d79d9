use vstd::prelude::*;
use vstd::slice::slice_subrange;

verus! {

/// Why a grammar function refused its input.
#[derive(Clone, Copy, Debug, PartialEq, Eq, Structural)]
pub enum ErrorKind {
    /// A byte outside the expected set
    OneOf,
    /// A byte other than the one expected
    Char,
    /// No line terminator in the input
    TakeUntil,
    /// No line terminator at this place
    CrLf,
    /// Input left over, or too little of it
    Eof,
    /// An empty run where at least one byte was needed
    TakeWhile1,
    /// A byte or a run of bytes that failed a test
    Verify,
    /// No item where at least one was needed
    Many1,
}

/// The name of a kind of fault.
pub open spec fn kind_name(kind: ErrorKind) -> Seq<char> {
    match kind {
        ErrorKind::OneOf => "OneOf"@,
        ErrorKind::Char => "Char"@,
        ErrorKind::TakeUntil => "TakeUntil"@,
        ErrorKind::CrLf => "CrLf"@,
        ErrorKind::Eof => "Eof"@,
        ErrorKind::TakeWhile1 => "TakeWhile1"@,
        ErrorKind::Verify => "Verify"@,
        ErrorKind::Many1 => "Many1"@,
    }
}

impl ErrorKind {
    /// The name of this kind of fault.
    pub fn name(&self) -> (name: &'static str)
        ensures
            name@ == kind_name(*self),
    {
        match self {
            ErrorKind::OneOf => "OneOf",
            ErrorKind::Char => "Char",
            ErrorKind::TakeUntil => "TakeUntil",
            ErrorKind::CrLf => "CrLf",
            ErrorKind::Eof => "Eof",
            ErrorKind::TakeWhile1 => "TakeWhile1",
            ErrorKind::Verify => "Verify",
            ErrorKind::Many1 => "Many1",
        }
    }
}

/// A refusal: the input from the place of the fault on, and the kind of fault.
#[derive(Clone, Copy, Debug, PartialEq, Eq)]
pub struct ParseError<'a> {
    /// What was left of the input where the fault was found
    pub input: &'a [u8],
    /// The kind of fault
    pub kind: ErrorKind,
}

/// The first line of a response, as slices of the buffer that was parsed.
#[derive(Clone, Copy, Debug, PartialEq, Eq)]
pub struct InitialResponseLine<'a> {
    /// The three digits of the response code
    pub code: [u8; 3],
    /// The text after the code and its blank, without the line terminator
    pub data: &'a [u8],
    /// The whole line, terminator included
    pub buffer: &'a [u8],
}

/// The carriage return, the first byte of the line terminator.
pub const CR: u8 = 0x0d;

/// The line feed, the second byte of the line terminator.
pub const LF: u8 = 0x0a;

/// `b` is one of the ASCII digits.
pub open spec fn is_digit(b: u8) -> bool {
    0x30 <= b <= 0x39
}

/// `b` is one of the ASCII digits 1 to 5, which alone may start a response code.
pub open spec fn is_code_lead(b: u8) -> bool {
    0x31 <= b <= 0x35
}

/// A line terminator stands at index `i` of `s`.
pub open spec fn crlf_at(s: Seq<u8>, i: int) -> bool {
    0 <= i && i + 1 < s.len() && s[i] == CR && s[i + 1] == LF
}

/// The first line terminator of `s` stands at index `i`.
pub open spec fn first_crlf(s: Seq<u8>, i: int) -> bool {
    crlf_at(s, i) && forall|j: int| 0 <= j < i ==> !crlf_at(s, j)
}

/// `s` holds no line terminator.
pub open spec fn no_crlf(s: Seq<u8>) -> bool {
    forall|j: int| !crlf_at(s, j)
}

/// `s` is exactly one terminated line: its only line terminator is its end.
pub open spec fn is_line(s: Seq<u8>) -> bool {
    s.len() >= 2 && first_crlf(s, s.len() - 2)
}

/// `s` starts with a response code: a digit from 1 to 5, then two digits.
pub open spec fn has_response_code(s: Seq<u8>) -> bool {
    s.len() >= 3 && is_code_lead(s[0]) && is_digit(s[1]) && is_digit(s[2])
}

/// The number that three digits of a response code spell.
pub open spec fn code_value(code: Seq<u8>) -> int
    recommends
        code.len() == 3,
{
    (code[0] - 0x30) * 100 + (code[1] - 0x30) * 10 + (code[2] - 0x30)
}

/// `s` is one whole status line: a response code, one blank, text without a
/// line terminator, and the line terminator, with nothing after it.
pub open spec fn is_first_line(s: Seq<u8>) -> bool {
    &&& s.len() >= 6
    &&& has_response_code(s)
    &&& s[3] == 0x20
    &&& first_crlf(s.subrange(4, s.len() as int), s.len() - 6)
}

/// Where in `s`, and why, the response code is refused. It has a meaning only
/// where `s` does not start with a response code.
pub open spec fn response_code_fault(s: Seq<u8>) -> int {
    if s.len() < 1 || !is_code_lead(s[0]) {
        0
    } else if s.len() < 2 || !is_digit(s[1]) {
        1
    } else {
        2
    }
}

/// Where in `s`, and why, a status line is refused. It has a meaning only where
/// `s` is no status line.
pub open spec fn first_line_fault(s: Seq<u8>) -> (int, ErrorKind) {
    if !has_response_code(s) {
        (response_code_fault(s), ErrorKind::OneOf)
    } else if s.len() < 4 || s[3] != 0x20 {
        (3, ErrorKind::Char)
    } else if no_crlf(s.subrange(4, s.len() as int)) {
        (4, ErrorKind::TakeUntil)
    } else {
        (4 + (choose|i: int| first_crlf(s.subrange(4, s.len() as int), i)) + 2, ErrorKind::Eof)
    }
}

/// A response code, a blank, text without a line terminator and a line
/// terminator make a status line, whose first three bytes are the code.
pub proof fn lemma_status_line_is_first_line(code: Seq<u8>, text: Seq<u8>)
    requires
        code.len() == 3,
        has_response_code(code),
        no_crlf(text),
    ensures
        is_first_line(code + seq![0x20u8] + text + seq![CR, LF]),
        (code + seq![0x20u8] + text + seq![CR, LF]).subrange(0, 3) == code,
{
    let s = code + seq![0x20u8] + text + seq![CR, LF];
    let t = s.subrange(4, s.len() as int);
    assert forall|j: int| 0 <= j < text.len() implies !crlf_at(t, j) by {
        if j + 1 < text.len() {
            assert(!crlf_at(text, j));
        }
    }
}

/// Bytes that do not end with the line terminator are no status line.
pub proof fn lemma_first_line_needs_terminator(s: Seq<u8>)
    requires
        s.len() < 2 || s[s.len() - 2] != CR || s[s.len() - 1] != LF,
    ensures
        !is_first_line(s),
{
    if s.len() >= 6 {
        let t = s.subrange(4, s.len() as int);
        assert(crlf_at(t, s.len() - 6) ==> s[s.len() - 2] == CR && s[s.len() - 1] == LF);
    }
}

/// Bytes whose leading run of digits is shorter or longer than three are no
/// status line.
pub proof fn lemma_first_line_code_width(s: Seq<u8>)
    requires
        s.len() < 3 || !is_digit(s[0]) || !is_digit(s[1]) || !is_digit(s[2]) || (s.len() > 3
            && is_digit(s[3])),
    ensures
        !is_first_line(s),
{
}

/// The index of the first line terminator of `b`, or `None` where it holds none.
pub fn find_crlf(b: &[u8]) -> (at: Option<usize>)
    ensures
        match at {
            Some(i) => first_crlf(b@, i as int) && i + 2 <= b@.len(),
            None => no_crlf(b@),
        },
{
    let n: usize = b.len();
    if n < 2 {
        return None;
    }
    let mut i: usize = 0;
    while i < n - 1
        invariant
            n == b@.len(),
            n >= 2,
            i <= n - 1,
            forall|j: int| 0 <= j < i ==> !crlf_at(b@, j),
        decreases n - i,
    {
        if b[i] == CR && b[i + 1] == LF {
            return Some(i);
        }
        i = i + 1;
    }
    None
}

/// Takes one ASCII digit from the front of `b`.
pub fn one_of_digit<'a>(b: &'a [u8]) -> (r: Result<(&'a [u8], char), ParseError<'a>>)
    ensures
        match r {
            Ok((rest, c)) => {
                &&& b@.len() >= 1
                &&& is_digit(b@[0])
                &&& c == b@[0] as char
                &&& rest@ == b@.subrange(1, b@.len() as int)
            },
            Err(e) => {
                &&& b@.len() == 0 || !is_digit(b@[0])
                &&& e.kind == ErrorKind::OneOf
                &&& e.input@ == b@
            },
        },
{
    if b.len() >= 1 && 0x30 <= b[0] && b[0] <= 0x39 {
        Ok((slice_subrange(b, 1, b.len()), b[0] as char))
    } else {
        Err(ParseError { input: b, kind: ErrorKind::OneOf })
    }
}

/// Takes a line from the front of `b`: the bytes before its first line
/// terminator. What follows the terminator is handed back as the rest.
pub fn take_line<'a>(b: &'a [u8]) -> (r: Result<(&'a [u8], &'a [u8]), ParseError<'a>>)
    ensures
        match r {
            Ok((rest, line)) => exists|i: int|
                {
                    &&& #[trigger] first_crlf(b@, i)
                    &&& line@ == b@.subrange(0, i)
                    &&& rest@ == b@.subrange(i + 2, b@.len() as int)
                },
            Err(e) => {
                &&& no_crlf(b@)
                &&& e.kind == ErrorKind::TakeUntil
                &&& e.input@ == b@
            },
        },
{
    let n: usize = b.len();
    match find_crlf(b) {
        Some(i) => Ok((slice_subrange(b, i + 2, n), slice_subrange(b, 0, i))),
        None => Err(ParseError { input: b, kind: ErrorKind::TakeUntil }),
    }
}

/// Takes a response code from the front of `b`: three ASCII digits, the first
/// of them between 1 and 5. The fault is reported at the first byte that is
/// not such a digit.
pub fn take_response_code<'a>(b: &'a [u8]) -> (r: Result<(&'a [u8], &'a [u8]), ParseError<'a>>)
    ensures
        match r {
            Ok((rest, code)) => {
                &&& has_response_code(b@)
                &&& code@ == b@.subrange(0, 3)
                &&& rest@ == b@.subrange(3, b@.len() as int)
            },
            Err(e) => {
                &&& !has_response_code(b@)
                &&& e.kind == ErrorKind::OneOf
                &&& e.input@ == b@.subrange(response_code_fault(b@), b@.len() as int)
            },
        },
{
    let n: usize = b.len();
    if n < 1 || !(0x31 <= b[0] && b[0] <= 0x35) {
        Err(ParseError { input: b, kind: ErrorKind::OneOf })
    } else if n < 2 || !(0x30 <= b[1] && b[1] <= 0x39) {
        Err(ParseError { input: slice_subrange(b, 1, n), kind: ErrorKind::OneOf })
    } else if n < 3 || !(0x30 <= b[2] && b[2] <= 0x39) {
        Err(ParseError { input: slice_subrange(b, 2, n), kind: ErrorKind::OneOf })
    } else {
        Ok((slice_subrange(b, 3, n), slice_subrange(b, 0, 3)))
    }
}

/// Returns true if the buffer holds only a `.`.
pub fn is_end_of_datablock(b: &[u8]) -> (end: bool)
    ensures
        end == (b@.len() == 1 && b@[0] == 0x2e),
{
    b.len() == 1 && b[0] == 0x2e
}

/// Parses the first line of a response: a three-digit response code, a single
/// blank, and text that ends with the line terminator. The whole of `b` has to
/// be that line.
pub fn parse_first_line<'a>(b: &'a [u8]) -> (r: Result<
    (&'a [u8], InitialResponseLine<'a>),
    ParseError<'a>,
>)
    ensures
        match r {
            Ok((rest, line)) => {
                &&& is_first_line(b@)
                &&& rest@.len() == 0
                &&& line.code@ == b@.subrange(0, 3)
                &&& line.data@ == b@.subrange(4, b@.len() - 2)
                &&& line.buffer@ == b@
            },
            Err(e) => {
                &&& !is_first_line(b@)
                &&& e.kind == first_line_fault(b@).1
                &&& e.input@ == b@.subrange(first_line_fault(b@).0, b@.len() as int)
            },
        },
{
    let n: usize = b.len();
    let (after_code, code) = match take_response_code(b) {
        Ok(found) => found,
        Err(e) => {
            return Err(e);
        },
    };
    if n < 4 || b[3] != 0x20 {
        return Err(ParseError { input: after_code, kind: ErrorKind::Char });
    }
    let text = slice_subrange(b, 4, n);
    match find_crlf(text) {
        None => Err(ParseError { input: text, kind: ErrorKind::TakeUntil }),
        Some(i) => {
            let rest = slice_subrange(text, i + 2, text.len());
            if rest.len() == 0 {
                let line = InitialResponseLine {
                    code: [b[0], b[1], b[2]],
                    data: slice_subrange(b, 4, n - 2),
                    buffer: b,
                };
                Ok((rest, line))
            } else {
                Err(ParseError { input: rest, kind: ErrorKind::Eof })
            }
        },
    }
}

/// Parses one line of a data block. The whole of `b` has to be that line: its
/// content and the line terminator, with nothing after it.
pub fn parse_data_block_line<'a>(b: &'a [u8]) -> (r: Result<(&'a [u8], &'a [u8]), ParseError<'a>>)
    ensures
        match r {
            Ok((rest, line)) => {
                &&& is_line(b@)
                &&& rest@.len() == 0
                &&& line@ == b@.subrange(0, b@.len() - 2)
            },
            Err(e) => {
                &&& !is_line(b@)
                &&& if no_crlf(b@) {
                    e.kind == ErrorKind::TakeUntil && e.input@ == b@
                } else {
                    &&& e.kind == ErrorKind::Eof
                    &&& exists|i: int|
                        #[trigger] first_crlf(b@, i) && e.input@ == b@.subrange(
                            i + 2,
                            b@.len() as int,
                        )
                }
            },
        },
{
    let n: usize = b.len();
    match find_crlf(b) {
        None => Err(ParseError { input: b, kind: ErrorKind::TakeUntil }),
        Some(i) => {
            let rest = slice_subrange(b, i + 2, n);
            if rest.len() == 0 {
                Ok((rest, slice_subrange(b, 0, i)))
            } else {
                Err(ParseError { input: rest, kind: ErrorKind::Eof })
            }
        },
    }
}

} // verus!
