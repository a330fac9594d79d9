use brokaw::raw::parse::find_crlf;
use brokaw::raw::parse::is_end_of_datablock;
use brokaw::raw::parse::one_of_digit;
use brokaw::raw::parse::parse_data_block_line;
use brokaw::raw::parse::parse_first_line;
use brokaw::raw::parse::take_line;
use brokaw::raw::parse::take_response_code;
use brokaw::raw::parse::ErrorKind;
use brokaw::raw::parse::InitialResponseLine;
use brokaw::raw::parse::ParseError;

const MOTD: &[u8] = b"200 news.example.com InterNetNews server INN 2.5.5 ready (transit mode)\r\n";
const MOTD_NO_CRLF: &[u8] =
    b"200 news.example.com InterNetNews server INN 2.5.5 ready (transit mode)";

#[test]
fn happy_path() {
    let (_remainder, raw_response) = parse_first_line(MOTD).unwrap();
    let expected_resp = InitialResponseLine {
        code: *b"200",
        data: &b"news.example.com InterNetNews server INN 2.5.5 ready (transit mode)"[..],
        buffer: &MOTD,
    };
    assert_eq!(raw_response, expected_resp)
}

#[test]
fn test_remaining_data() {
    let data = [MOTD, &b"SOME MORE DATA\r\n"[..]].concat();

    assert!(parse_first_line(&data).is_err());
}

#[test]
fn take_line_happy_path() {
    assert_eq!(take_line(MOTD), Ok((&b""[..], MOTD_NO_CRLF)));
}

#[test]
fn parse_happy_path() {
    let msg = b"101 Capability list:\r\n";
    let (_remainder, block) = parse_data_block_line(msg).unwrap();
    assert_eq!(block, b"101 Capability list:")
}

#[test]
fn take_response_code_happy_path() {
    [
        &b"200"[..],
        &b"200 "[..],
        &b"2000"[..],
        &b"200000"[..],
        &b"200123"[..],
        &b"200abc"[..],
    ]
    .iter()
    .for_each(|input| {
        let res = take_response_code(input);
        assert!(res.is_ok());
        let (_rest, code) = res.unwrap();
        assert_eq!(code, b"200")
    });
}

#[test]
fn too_short() {
    println!("Testing {:?}", b"5");
    assert_eq!(
        take_response_code(b"5"),
        Err(ParseError { input: &b""[..], kind: ErrorKind::OneOf })
    )
}

#[test]
fn not_enough_digits() {
    assert_eq!(
        take_response_code(b"5ab500"),
        Err(ParseError { input: &b"ab500"[..], kind: ErrorKind::OneOf })
    )
}

#[test]
fn response_code_starts_with_one_to_five() {
    assert_eq!(
        take_response_code(b"600"),
        Err(ParseError { input: &b"600"[..], kind: ErrorKind::OneOf })
    );
    assert_eq!(
        take_response_code(b"099"),
        Err(ParseError { input: &b"099"[..], kind: ErrorKind::OneOf })
    );
    assert_eq!(
        take_response_code(b"20x"),
        Err(ParseError { input: &b"x"[..], kind: ErrorKind::OneOf })
    );
    assert_eq!(take_response_code(b""), Err(ParseError { input: &b""[..], kind: ErrorKind::OneOf }));
    assert_eq!(take_response_code(b"599 x"), Ok((&b" x"[..], &b"599"[..])));
    assert_eq!(take_response_code(b"100"), Ok((&b""[..], &b"100"[..])));
}

#[test]
fn first_line_round_trips_the_code() {
    for code in [b"100", b"211", b"335", b"430", b"599"] {
        let mut line = code.to_vec();
        line.extend_from_slice(b" some text\r\n");
        let (rest, parsed) = parse_first_line(&line).unwrap();
        assert_eq!(rest.len(), 0);
        assert_eq!(&parsed.code, code);
        assert_eq!(parsed.data, b"some text");
        assert_eq!(parsed.buffer, &line[..]);
    }
    // text may be empty, and may hold a lone carriage return or line feed
    let (_, parsed) = parse_first_line(b"200 \r\n").unwrap();
    assert_eq!(parsed.data, b"");
    let (_, parsed) = parse_first_line(b"200 a\rb\nc\r\r\n").unwrap();
    assert_eq!(parsed.data, b"a\rb\nc\r");
}

#[test]
fn first_line_faults() {
    // no line terminator
    assert_eq!(
        parse_first_line(MOTD_NO_CRLF).unwrap_err(),
        ParseError { input: &MOTD_NO_CRLF[4..], kind: ErrorKind::TakeUntil }
    );
    assert_eq!(
        parse_first_line(b"200 hello\n").unwrap_err(),
        ParseError { input: &b"hello\n"[..], kind: ErrorKind::TakeUntil }
    );
    // code of the wrong width
    assert_eq!(
        parse_first_line(b"20 hello\r\n").unwrap_err(),
        ParseError { input: &b" hello\r\n"[..], kind: ErrorKind::OneOf }
    );
    assert_eq!(
        parse_first_line(b"2000 hello\r\n").unwrap_err(),
        ParseError { input: &b"0 hello\r\n"[..], kind: ErrorKind::Char }
    );
    // no blank after the code
    assert_eq!(
        parse_first_line(b"200\r\n").unwrap_err(),
        ParseError { input: &b"\r\n"[..], kind: ErrorKind::Char }
    );
    assert_eq!(
        parse_first_line(b"200").unwrap_err(),
        ParseError { input: &b""[..], kind: ErrorKind::Char }
    );
    // first digit out of range
    assert_eq!(
        parse_first_line(b"600 hello\r\n").unwrap_err(),
        ParseError { input: &b"600 hello\r\n"[..], kind: ErrorKind::OneOf }
    );
    // data after the line
    assert_eq!(
        parse_first_line(b"200 hello\r\nmore").unwrap_err(),
        ParseError { input: &b"more"[..], kind: ErrorKind::Eof }
    );
    assert_eq!(
        parse_first_line(b"").unwrap_err(),
        ParseError { input: &b""[..], kind: ErrorKind::OneOf }
    );
}

#[test]
fn lines() {
    assert_eq!(take_line(b"a\r\nb\r\n"), Ok((&b"b\r\n"[..], &b"a"[..])));
    assert_eq!(take_line(b"\r\n"), Ok((&b""[..], &b""[..])));
    assert_eq!(take_line(b"abc"), Err(ParseError { input: &b"abc"[..], kind: ErrorKind::TakeUntil }));
    assert_eq!(take_line(b"abc\n"), Err(ParseError { input: &b"abc\n"[..], kind: ErrorKind::TakeUntil }));
    assert_eq!(
        parse_data_block_line(b"a\r\nb\r\n"),
        Err(ParseError { input: &b"b\r\n"[..], kind: ErrorKind::Eof })
    );
    assert_eq!(
        parse_data_block_line(b"abc"),
        Err(ParseError { input: &b"abc"[..], kind: ErrorKind::TakeUntil })
    );
    assert_eq!(parse_data_block_line(b".\r\n"), Ok((&b""[..], &b"."[..])));
    assert_eq!(find_crlf(b"ab\r\ncd\r\n"), Some(2));
    assert_eq!(find_crlf(b"\r\n"), Some(0));
    assert_eq!(find_crlf(b"\r"), None);
    assert_eq!(find_crlf(b"\n\r"), None);
    assert_eq!(find_crlf(b""), None);
}

#[test]
fn end_of_datablock() {
    assert!(is_end_of_datablock(b"."));
    assert!(!is_end_of_datablock(b".."));
    assert!(!is_end_of_datablock(b""));
    assert!(!is_end_of_datablock(b".\r\n"));
    assert!(!is_end_of_datablock(b"a"));
}

#[test]
fn digits() {
    assert_eq!(one_of_digit(b"7x"), Ok((&b"x"[..], '7')));
    assert_eq!(one_of_digit(b"0"), Ok((&b""[..], '0')));
    assert_eq!(one_of_digit(b"x7"), Err(ParseError { input: &b"x7"[..], kind: ErrorKind::OneOf }));
    assert_eq!(one_of_digit(b""), Err(ParseError { input: &b""[..], kind: ErrorKind::OneOf }));
}

#[test]
fn kind_names() {
    assert_eq!(ErrorKind::Many1.name(), "Many1");
    assert_eq!(ErrorKind::CrLf.name(), "CrLf");
    assert_eq!(ErrorKind::OneOf.name(), "OneOf");
    assert_eq!(ErrorKind::Char.name(), "Char");
    assert_eq!(ErrorKind::TakeUntil.name(), "TakeUntil");
    assert_eq!(ErrorKind::Eof.name(), "Eof");
    assert_eq!(ErrorKind::TakeWhile1.name(), "TakeWhile1");
    assert_eq!(ErrorKind::Verify.name(), "Verify");
}
