use std::collections::HashMap;
use std::str::from_utf8;

use brokaw::raw::parse::parse_data_block_line;
use brokaw::raw::parse::parse_first_line;
use brokaw::raw::parse::ParseError;
use brokaw::types::response::article::parse::take_header;
use brokaw::types::response::article::parse::take_header_content;
use brokaw::types::response::article::parse::take_header_name;
use brokaw::types::response::article::parse::take_headers;
use brokaw::types::response::article::parse::take_p_char;
use brokaw::types::response::article::parse::take_token;
use brokaw::types::response::article::parse::unfold;
use nom::branch::alt;
use nom::bytes::complete::take;
use nom::bytes::complete::take_until;
use nom::bytes::complete::take_while1;
use nom::character::complete::char;
use nom::character::complete::crlf;
use nom::character::complete::one_of;
use nom::character::complete::space0;
use nom::character::complete::space1;
use nom::combinator::all_consuming;
use nom::combinator::opt;
use nom::combinator::verify;
use nom::multi::fold_many1;
use nom::multi::many0;
use nom::sequence::terminated;
use nom::sequence::tuple;
use nom::IResult;

// The grammar once more, written with parser combinators. The library has to
// agree with it on every input: on what is taken, on what is left, and on the
// place and the kind of every fault.

fn c_one_of_digit(b: &[u8]) -> IResult<&[u8], char> {
    one_of("0123456789")(b)
}

fn c_take_line(b: &[u8]) -> IResult<&[u8], &[u8]> {
    terminated(take_until("\r\n"), crlf)(b)
}

fn c_take_response_code(b: &[u8]) -> IResult<&[u8], &[u8]> {
    let res: IResult<_, (char, char, char)> =
        tuple((one_of("12345"), c_one_of_digit, c_one_of_digit))(b);
    let (rest, _) = res?;
    Ok((rest, &b[0..3]))
}

fn c_parse_first_line(b: &[u8]) -> IResult<&[u8], (&[u8], &[u8])> {
    let (rest, (code, _, data, _)) =
        all_consuming(tuple((c_take_response_code, char(' '), take_until("\r\n"), crlf)))(b)?;
    Ok((rest, (code, data)))
}

fn c_parse_data_block_line(b: &[u8]) -> IResult<&[u8], &[u8]> {
    all_consuming(c_take_line)(b)
}

fn c_is_a_notcolon(chr: u8) -> bool {
    (chr >= 0x21 && chr <= 0x39) || (chr >= 0x3b && chr <= 0x7e)
}

fn c_is_utf8_non_ascii(b: &[u8]) -> bool {
    if let Ok(s) = from_utf8(b) {
        !s.bytes().any(|u| u.is_ascii())
    } else {
        false
    }
}

fn c_is_a_char_bytes(b: &[u8]) -> bool {
    b.len() == 1 && b[0] >= 0x21 && b[0] <= 0x7e
}

fn c_take_ascii_byte(b: &[u8]) -> IResult<&[u8], &[u8]> {
    verify(take(1u8), |uint: &[u8]| uint.is_ascii())(b)
}

fn c_take_a_char(b: &[u8]) -> IResult<&[u8], &[u8]> {
    verify(c_take_ascii_byte, c_is_a_char_bytes)(b)
}

fn c_take_utf8_non_ascii(b: &[u8]) -> IResult<&[u8], &[u8]> {
    alt((
        verify(take(1u8), c_is_utf8_non_ascii),
        verify(take(2u8), c_is_utf8_non_ascii),
        verify(take(3u8), c_is_utf8_non_ascii),
        verify(take(4u8), c_is_utf8_non_ascii),
    ))(b)
}

fn c_take_p_char(b: &[u8]) -> IResult<&[u8], &[u8]> {
    alt((c_take_a_char, c_take_utf8_non_ascii))(b)
}

fn c_take_header_name(b: &[u8]) -> IResult<&[u8], &[u8]> {
    take_while1(c_is_a_notcolon)(b)
}

fn c_take_token(b: &[u8]) -> IResult<&[u8], &[u8]> {
    let (rest, token_len) = fold_many1(c_take_p_char, 0, |mut acc, slice| {
        acc += slice.len();
        acc
    })(b)?;
    Ok((rest, &b[..token_len]))
}

fn c_take_header_content(b: &[u8]) -> IResult<&[u8], &[u8]> {
    let (rest, _) = tuple((
        opt(space0),
        c_take_token,
        many0(tuple((opt(crlf), space1, c_take_token))),
    ))(b)?;
    let bytes_read = b.len() - rest.len();
    Ok((rest, &b[..bytes_read]))
}

fn c_take_header(b: &[u8]) -> IResult<&[u8], (&[u8], &[u8])> {
    let (rest, (header_name, _, _, header_content)) = terminated(
        tuple((c_take_header_name, char(':'), char(' '), c_take_header_content)),
        crlf,
    )(b)?;
    Ok((rest, (header_name, header_content)))
}

fn c_take_headers(b: &[u8]) -> IResult<&[u8], HashMap<String, Vec<String>>> {
    let fold_headers = fold_many1(c_take_header, HashMap::new(), |mut acc, (name, content)| {
        let name = String::from_utf8_lossy(name).to_string();
        let content = String::from_utf8_lossy(content).to_string();
        let entries: &mut Vec<_> = acc.entry(name).or_default();
        entries.push(content);
        acc
    });
    terminated(fold_headers, crlf)(b)
}

/// How a parser ended: with what it left and what it took, or with what was
/// left at the fault and the name of its kind.
fn outcome<O>(r: IResult<&[u8], O>) -> Result<(Vec<u8>, O), (Vec<u8>, String)> {
    match r {
        Ok((rest, out)) => Ok((rest.to_vec(), out)),
        Err(nom::Err::Error((rest, kind))) | Err(nom::Err::Failure((rest, kind))) => {
            Err((rest.to_vec(), format!("{:?}", kind)))
        }
        Err(nom::Err::Incomplete(_)) => panic!("a complete parser asked for more"),
    }
}

fn ours<O>(r: Result<(&[u8], O), ParseError<'_>>) -> Result<(Vec<u8>, O), (Vec<u8>, String)> {
    match r {
        Ok((rest, out)) => Ok((rest.to_vec(), out)),
        Err(e) => Err((e.input.to_vec(), e.kind.name().to_string())),
    }
}

const ALPHABET: [u8; 9] = [b'2', b'0', b' ', b':', b'a', b'\r', b'\n', b'\t', b'.'];

/// Every input of up to `max` symbols of the alphabet, each after `prefix`.
fn inputs(prefix: &[u8], alphabet: &[u8], max: usize) -> Vec<Vec<u8>> {
    let mut all = vec![prefix.to_vec()];
    let mut from = 0;
    for _ in 0..max {
        let upto = all.len();
        for i in from..upto {
            for symbol in alphabet {
                let mut next = all[i].clone();
                next.push(*symbol);
                all.push(next);
            }
        }
        from = upto;
    }
    all
}

/// Inputs drawn from a fixed sequence of numbers: lines, headers and text
/// outside ASCII, whole and broken.
fn drawn(count: usize, max_len: usize) -> Vec<Vec<u8>> {
    let pieces: [&[u8]; 24] = [
        b"a", b"Z", b"9", b":", b" ", b"\t", b"\r\n", b"\r", b"\n", b": ", b"\r\n ", b"\r\n\t",
        b"\r\n\r\n", b".", b"~", b"!", b"\x7f", b"\x00", "\u{e9}".as_bytes(), "\u{20ac}".as_bytes(),
        "\u{1f980}".as_bytes(), b"\xff", b"\x80", b"\xe2\x82",
    ];
    let mut state: u64 = 0x2545f4914f6cdd1d;
    let mut all = Vec::new();
    for _ in 0..count {
        let mut input = Vec::new();
        loop {
            state ^= state << 13;
            state ^= state >> 7;
            state ^= state << 17;
            let piece = pieces[(state % 24) as usize];
            if input.len() + piece.len() > max_len || (state >> 32) % 9 == 0 {
                break;
            }
            input.extend_from_slice(piece);
        }
        all.push(input);
    }
    all
}

#[test]
fn first_lines_agree() {
    let mut all = inputs(b"", &ALPHABET, 5);
    all.extend(inputs(b"20", &ALPHABET, 5));
    all.extend(inputs(b"200 ", &ALPHABET, 5));
    all.extend(drawn(20000, 12));
    for input in &all {
        let expected = outcome(c_parse_first_line(input));
        let found = ours(parse_first_line(input)).map(|(rest, line)| {
            assert_eq!(line.buffer, &input[..]);
            (rest, (&input[0..3], line.data))
        });
        assert_eq!(found, expected, "{:?}", input);
        if let Ok((_, line)) = parse_first_line(input) {
            assert_eq!(&line.code[..], &input[0..3]);
        }
    }
}

#[test]
fn data_block_lines_agree() {
    let mut all = inputs(b"", &ALPHABET, 5);
    all.extend(drawn(20000, 12));
    for input in &all {
        assert_eq!(
            ours(parse_data_block_line(input)),
            outcome(c_parse_data_block_line(input)),
            "{:?}",
            input
        );
    }
}

#[test]
fn tokens_and_names_agree() {
    let mut all = inputs(b"", &ALPHABET, 4);
    all.extend(inputs(b"", &[0xc3, 0xa9, 0xe2, 0x82, 0xac, 0xf0, 0x9f, 0x80, b'a', b' '], 4));
    all.extend(drawn(20000, 12));
    for input in &all {
        assert_eq!(ours(take_p_char(input)), outcome(c_take_p_char(input)), "{:?}", input);
        assert_eq!(ours(take_token(input)), outcome(c_take_token(input)), "{:?}", input);
        assert_eq!(
            ours(take_header_name(input)),
            outcome(c_take_header_name(input)),
            "{:?}",
            input
        );
    }
}

#[test]
fn header_content_agrees() {
    let mut all = inputs(b"", &ALPHABET, 5);
    all.extend(inputs(b"a", &ALPHABET, 5));
    all.extend(drawn(20000, 16));
    for input in &all {
        assert_eq!(
            ours(take_header_content(input)),
            outcome(c_take_header_content(input)),
            "{:?}",
            input
        );
    }
}

#[test]
fn headers_agree() {
    let mut all = inputs(b"a: ", &ALPHABET, 5);
    all.extend(inputs(b"a: a\r\n", &ALPHABET, 5));
    all.extend(inputs(b"", &ALPHABET, 5));
    all.extend(drawn(40000, 24));
    let mut sections = 0;
    for input in &all {
        assert_eq!(ours(take_header(input)), outcome(c_take_header(input)), "{:?}", input);
        let expected = outcome(c_take_headers(input));
        match (take_headers(input), expected) {
            (Ok((rest, headers)), Ok((expected_rest, expected_headers))) => {
                sections += 1;
                assert_eq!(rest, &expected_rest[..], "{:?}", input);
                let mut names = 0;
                let mut values = 0;
                let mut iter = headers.iter();
                while let Some(header) = iter.next() {
                    names += 1;
                    values += header.content.len();
                    let folded = &expected_headers[&header.name];
                    let unfolded: Vec<String> = folded
                        .iter()
                        .map(|content| {
                            String::from_utf8_lossy(&unfold(content.as_bytes())).to_string()
                        })
                        .collect();
                    assert_eq!(header.content, unfolded, "{:?}", input);
                }
                assert_eq!(names, expected_headers.len(), "{:?}", input);
                assert_eq!(values, headers.len(), "{:?}", input);
            }
            (Err(e), Err((expected_rest, expected_kind))) => {
                assert_eq!(e.input, &expected_rest[..], "{:?}", input);
                assert_eq!(e.kind.name(), expected_kind, "{:?}", input);
            }
            (found, expected) => panic!("{:?}: {:?} and {:?}", input, found, expected),
        }
    }
    assert!(sections > 100);
}
