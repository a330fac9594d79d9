use brokaw::raw::parse::ErrorKind;
use brokaw::raw::parse::ParseError;
use brokaw::types::response::article::parse::is_a_char;
use brokaw::types::response::article::parse::is_a_char_bytes;
use brokaw::types::response::article::parse::is_a_notcolon;
use brokaw::types::response::article::parse::is_utf8_non_ascii;
use brokaw::types::response::article::parse::take_a_char;
use brokaw::types::response::article::parse::take_ascii_byte;
use brokaw::types::response::article::parse::take_header;
use brokaw::types::response::article::parse::take_header_content;
use brokaw::types::response::article::parse::take_header_name;
use brokaw::types::response::article::parse::take_headers;
use brokaw::types::response::article::parse::take_p_char;
use brokaw::types::response::article::parse::take_token;
use brokaw::types::response::article::parse::take_utf8_non_ascii;
use brokaw::types::response::article::parse::unfold;
use std::str::from_utf8;

const FOLDED_HEADER: &[u8; 127] =
    b"X-Received: by 2002:ac8:2aed:: with SMTP id c42mr5587158qta.202.1591290821135;\r\n        \
        Thu, 05 Jun 2020 10:13:41 -0700 (PDT)\r\n";

const TEXT_ARTICLE: &str = "220 47661 <E7OdnXjEZMrphzDEnZ2dnUU7-X-dnZ2d@mozilla.org>\r\n\
Path: buffer1.nntp.dca1.giganews.com!border2.nntp.dca1.giganews.com!nntp.giganews.com\r\n\
X-Received: by 2002:ac8:2aed:: with SMTP id c42mr5587158qta.202.1591290821135;\r\n        \
Thu, 05 Jun 2020 10:13:41 -0700 (PDT)\r\n\
X-Received: by 2002:a37:a0a:: with SMTP id 10mr11767975qkk.333.1591290820833;\r\n        \
Thu, 05 Jun 2020 10:13:40 -0700 (PDT)\r\n\
Subject: Intent to deprecate: stretched dashes\r\n\
Xref: number.nntp.giganews.com mozilla.dev.platform:47661\r\n\
\r\n\
In bug 1630935 [1], I intend to deprecate support for drawing stretched\r\n\
dashes.\r\n\
.\r\n";

#[test]
fn is_utf8_non_ascii_happy_path() {
    ["ğŸ¤˜".as_bytes(), "Â¥".as_bytes(), "ğŸšƒ".as_bytes()]
        .iter()
        .for_each(|b| {
            println!("Testing `{}` -- {:?}", from_utf8(b).unwrap(), b);
            assert_eq!(is_utf8_non_ascii(b), true)
        });
}

#[test]
fn fail_ascii() {
    assert_eq!(is_utf8_non_ascii("1".as_bytes()), false)
}

#[test]
fn take_utf8_non_ascii_happy_path() {
    ["ğŸ¤˜", "Â¢", "ã", "ğŸšƒ5"].iter().for_each(|s| {
        println!("Testing `{}` -- {:?}", s, s.as_bytes());
        let (rest, byte) = take_utf8_non_ascii(s.as_bytes()).unwrap();

        assert_eq!(from_utf8(byte).unwrap().chars().next(), s.chars().next());
        assert_eq!(rest.is_empty(), s.chars().count() == 1);
    })
}

#[test]
fn test_token() {
    let (rest, token) = take_token("ğŸ“¯1ğŸ¤˜ some words ğŸ’ ".as_bytes()).unwrap();

    assert_eq!(token, "ğŸ“¯1ğŸ¤˜".as_bytes());
    assert_eq!(rest, " some words ğŸ’ ".as_bytes())
}

#[test]
fn take_ascii_byte_happy_path() {
    let (rest, byte) = take_ascii_byte("5".as_bytes()).unwrap();
    assert_eq!(rest.len(), 0);
    assert_eq!(byte, "5".as_bytes());
}

#[test]
fn fail_on_unicode() {
    assert!(take_ascii_byte("ğŸ¤˜ ".as_bytes()).is_err());
}

#[test]
fn test_take_header_name() {
    let (rest, header_name) = take_header_name(FOLDED_HEADER).unwrap();
    assert_eq!(header_name, b"X-Received");
    assert_ne!(rest.len(), 0);
}

#[test]
fn test_header_content() {
    let content =
        b"by 2002:ac8:2aed:: with SMTP id c42mr5587158qta.202.1591290821135;\r\n        \
        Thu, 05 Jun 2020 10:13:41 -0700 (PDT)\r\n";

    let (_rest, parsed_header) = take_header_content(&content[..]).unwrap();

    // the content does not hold the final line terminator: that ends the header
    assert_eq!(&content[..content.len() - 2], parsed_header)
}

#[test]
fn test_folded() {
    let content =
        b"by 2002:ac8:2aed:: with SMTP id c42mr5587158qta.202.1591290821135;\r\n        \
        Thu, 05 Jun 2020 10:13:41 -0700 (PDT)\r\n";

    let (rest, (header_name, parsed_content)) = take_header(FOLDED_HEADER).unwrap();
    assert_eq!(rest.len(), 0);
    assert_eq!(header_name, &b"X-Received"[..]);
    assert_eq!(parsed_content, &content[..content.len() - 2])
}

#[test]
fn test_simple() {
    let header = "Xref: number.nntp.giganews.com mozilla.dev.platform:47661\r\n";

    let (rest, (name, content)) = take_header(header.as_bytes()).unwrap();

    assert_eq!(rest.len(), 0);
    assert_eq!(name, header.split(':').next().unwrap().as_bytes());
    assert_eq!(
        from_utf8(content).unwrap(),
        header
            .splitn(2, ':')
            .skip(1)
            .next()
            .map(|s| s.trim())
            .unwrap()
    )
}

#[test]
fn test_take_headers() {
    // strip the initial response line
    let article = TEXT_ARTICLE.splitn(2, '\n').skip(1).next().unwrap();
    let (rest, headers) = take_headers(article.as_bytes()).unwrap();

    println!("{:#?}", headers);

    assert!(rest.starts_with(b"In bug 1630935 [1], I intend to deprecate support for drawing"));
    assert!(headers.get("X-Received").is_some());
    assert_eq!(headers.get("X-Received").unwrap().content.len(), 2);
}

#[test]
fn take_headers_keeps_repeated_names_in_order() {
    let article = TEXT_ARTICLE.splitn(2, '\n').skip(1).next().unwrap();
    let (_rest, headers) = take_headers(article.as_bytes()).unwrap();
    assert_eq!(headers.len(), 5);
    assert!(!headers.is_empty());
    let received = headers.get("X-Received").unwrap();
    assert_eq!(received.name, "X-Received");
    assert_eq!(
        received.content,
        vec![
            "by 2002:ac8:2aed:: with SMTP id c42mr5587158qta.202.1591290821135;        Thu, 05 Jun 2020 10:13:41 -0700 (PDT)".to_string(),
            "by 2002:a37:a0a:: with SMTP id 10mr11767975qkk.333.1591290820833;        Thu, 05 Jun 2020 10:13:40 -0700 (PDT)".to_string(),
        ]
    );
    assert_eq!(
        headers.get("Subject").unwrap().content,
        vec!["Intent to deprecate: stretched dashes".to_string()]
    );
    assert!(headers.get("subject").is_none());
    let mut names = Vec::new();
    let mut iter = headers.iter();
    while let Some(h) = iter.next() {
        names.push(h.name.clone());
    }
    assert_eq!(names, vec!["Path", "X-Received", "Subject", "Xref"]);
}

#[test]
fn folded_content_is_unfolded_when_decoded() {
    let (rest, headers) = take_headers(b"A: one\r\n two\r\n\r\nbody").unwrap();
    assert_eq!(rest, b"body");
    assert_eq!(headers.get("A").unwrap().content, vec!["one two".to_string()]);
    assert_eq!(unfold(b"one\r\n two"), b"one two".to_vec());
    assert_eq!(unfold(b"one\r\n\ttwo\r\n three"), b"one\ttwo three".to_vec());
    assert_eq!(unfold(b"plain"), b"plain".to_vec());
    assert_eq!(unfold(b""), Vec::<u8>::new());
}

#[test]
fn take_headers_needs_a_header() {
    assert_eq!(
        take_headers(b"\r\nbody").unwrap_err(),
        ParseError { input: &b"\r\nbody"[..], kind: ErrorKind::Many1 }
    );
    assert_eq!(
        take_headers(b"").unwrap_err(),
        ParseError { input: &b""[..], kind: ErrorKind::Many1 }
    );
}

#[test]
fn take_headers_needs_the_empty_line() {
    assert_eq!(
        take_headers(b"A: b\r\nbody\r\n").unwrap_err(),
        ParseError { input: &b"body\r\n"[..], kind: ErrorKind::CrLf }
    );
    assert_eq!(
        take_headers(b"A: b\r\n").unwrap_err(),
        ParseError { input: &b""[..], kind: ErrorKind::CrLf }
    );
}

#[test]
fn take_header_faults() {
    assert_eq!(
        take_header(b": x\r\n").unwrap_err(),
        ParseError { input: &b": x\r\n"[..], kind: ErrorKind::TakeWhile1 }
    );
    assert_eq!(
        take_header(b"Name x\r\n").unwrap_err(),
        ParseError { input: &b" x\r\n"[..], kind: ErrorKind::Char }
    );
    assert_eq!(
        take_header(b"Name:x\r\n").unwrap_err(),
        ParseError { input: &b"x\r\n"[..], kind: ErrorKind::Char }
    );
    assert_eq!(
        take_header(b"Name: \r\n").unwrap_err(),
        ParseError { input: &b"\r\n"[..], kind: ErrorKind::Many1 }
    );
    assert_eq!(
        take_header(b"Name: x").unwrap_err(),
        ParseError { input: &b""[..], kind: ErrorKind::CrLf }
    );
    // a blank before the line terminator is not part of the content
    assert_eq!(
        take_header(b"Name: x \r\n").unwrap_err(),
        ParseError { input: &b" \r\n"[..], kind: ErrorKind::CrLf }
    );
    // a fold without a blank after the line terminator ends the header
    let (rest, (name, content)) = take_header(b"Name: x\r\ny\r\n").unwrap();
    assert_eq!(name, b"Name");
    assert_eq!(content, b"x");
    assert_eq!(rest, b"y\r\n");
}

#[test]
fn byte_classes() {
    assert!(is_a_notcolon(b'!'));
    assert!(is_a_notcolon(b'9'));
    assert!(!is_a_notcolon(b':'));
    assert!(is_a_notcolon(b';'));
    assert!(is_a_notcolon(b'~'));
    assert!(!is_a_notcolon(b' '));
    assert!(!is_a_notcolon(0x7f));
    assert!(is_a_char(b':'));
    assert!(is_a_char(b'!'));
    assert!(is_a_char(b'~'));
    assert!(!is_a_char(b' '));
    assert!(!is_a_char(0x7f));
    assert!(is_a_char_bytes(b"a"));
    assert!(!is_a_char_bytes(b"ab"));
    assert!(!is_a_char_bytes(b""));
    assert!(!is_a_char_bytes(b" "));
}

#[test]
fn single_characters() {
    assert_eq!(take_a_char(b"ab").unwrap(), (&b"b"[..], &b"a"[..]));
    assert_eq!(
        take_a_char(b" b").unwrap_err(),
        ParseError { input: &b" b"[..], kind: ErrorKind::Verify }
    );
    assert_eq!(take_a_char(b"").unwrap_err(), ParseError { input: &b""[..], kind: ErrorKind::Eof });
    assert_eq!(
        take_ascii_byte(b"").unwrap_err(),
        ParseError { input: &b""[..], kind: ErrorKind::Eof }
    );
    assert_eq!(
        take_ascii_byte(&[0xc3, 0xa3]).unwrap_err(),
        ParseError { input: &[0xc3, 0xa3][..], kind: ErrorKind::Verify }
    );
    let euro = "\u{20ac}x";
    assert_eq!(take_p_char(euro.as_bytes()).unwrap(), (&b"x"[..], "\u{20ac}".as_bytes()));
    assert_eq!(take_p_char(b"xy").unwrap(), (&b"y"[..], &b"x"[..]));
    let crab = "\u{1f980}";
    assert_eq!(take_utf8_non_ascii(crab.as_bytes()).unwrap(), (&b""[..], crab.as_bytes()));
    assert_eq!(
        take_utf8_non_ascii(b"abcd").unwrap_err(),
        ParseError { input: &b"abcd"[..], kind: ErrorKind::Verify }
    );
    assert_eq!(
        take_utf8_non_ascii(b"abc").unwrap_err(),
        ParseError { input: &b"abc"[..], kind: ErrorKind::Eof }
    );
    // a lone continuation byte is no character
    assert_eq!(
        take_p_char(&[0x80, 0x80, 0x80, 0x80]).unwrap_err(),
        ParseError { input: &[0x80, 0x80, 0x80, 0x80][..], kind: ErrorKind::Verify }
    );
    assert_eq!(
        take_token(b" x").unwrap_err(),
        ParseError { input: &b" x"[..], kind: ErrorKind::Many1 }
    );
    assert_eq!(
        take_header_name(b":x").unwrap_err(),
        ParseError { input: &b":x"[..], kind: ErrorKind::TakeWhile1 }
    );
    assert_eq!(
        take_header_content(b"  \r\n").unwrap_err(),
        ParseError { input: &b"\r\n"[..], kind: ErrorKind::Many1 }
    );
}
