use brokaw::raw::compression::Compression;
use brokaw::raw::connection::is_one_block_line;
use brokaw::raw::connection::read_data_blocks;
use brokaw::raw::connection::read_initial_response;
use brokaw::raw::connection::status_line_code;
use brokaw::raw::connection::ConnectionConfig;
use brokaw::raw::connection::FirstLine;
use brokaw::raw::connection::NntpConnection;
use brokaw::raw::connection::Progress;
use brokaw::raw::connection::TlsConfig;
use brokaw::raw::error::Error;
use brokaw::raw::response::RawResponse;
use brokaw::raw::stream::ByteStream;
use brokaw::response_code::Kind;
use brokaw::response_code::ResponseCode;
use brokaw::types::command::Group;
use std::io::Write;
use std::time::Duration;

fn read(bytes: &[u8], is_multiline: Option<bool>) -> Result<RawResponse, Error> {
    let mut conn = NntpConnection::new(ConnectionConfig::new());
    let mut stream = ByteStream::new(bytes);
    conn.read_response(&mut stream, is_multiline)
}

fn compressing() -> NntpConnection {
    let mut config = ConnectionConfig::new();
    config.compression(Some(Compression::XFeature));
    NntpConnection::new(config)
}

fn zlib(plain: &[u8]) -> Vec<u8> {
    let mut encoder =
        flate2::write::ZlibEncoder::new(Vec::new(), flate2::Compression::default());
    encoder.write_all(plain).unwrap();
    encoder.finish().unwrap()
}

fn all_lines(resp: &RawResponse) -> Vec<Vec<u8>> {
    let mut out = Vec::new();
    let mut lines = resp.data_blocks().unwrap().lines();
    while let Some(line) = lines.next() {
        out.push(line.to_vec());
    }
    out
}

fn content_lines(resp: &RawResponse) -> Vec<Vec<u8>> {
    let mut out = Vec::new();
    let mut lines = resp.data_blocks().unwrap().unterminated();
    while let Some(line) = lines.next() {
        out.push(line.to_vec());
    }
    out
}

#[test]
fn single_line_response() {
    let resp = read(b"200 hello\r\n", None).unwrap();
    assert_eq!(resp.code(), ResponseCode::Known(Kind::PostingAllowed));
    assert_eq!(resp.code().number(), 200);
    assert!(!resp.has_data_blocks());
    assert!(resp.data_blocks().is_none());
    assert_eq!(resp.first_line(), b"200 hello\r\n");
    assert_eq!(resp.first_line_without_code(), b"hello\r\n");
    assert_eq!(resp.first_line_to_utf8_lossy(), "200 hello\r\n");
}

#[test]
fn multi_line_response() {
    let wire = b"215 list follows\r\nmisc.test 10 1 y\r\nalt.test 3 2 n\r\n.\r\n";
    let resp = read(wire, None).unwrap();
    assert_eq!(resp.code(), ResponseCode::Known(Kind::List));
    assert!(resp.has_data_blocks());
    let blocks = resp.data_blocks().unwrap();
    assert_eq!(blocks.payload(), &wire[18..]);
    assert_eq!(blocks.payload_len(), wire.len() - 18);
    assert_eq!(blocks.lines_len(), 3);
    assert!(!blocks.is_empty());
    assert_eq!(blocks.payload_as_utf8().unwrap(), "misc.test 10 1 y\r\nalt.test 3 2 n\r\n.\r\n");
    assert_eq!(blocks.line(0), Some(&b"misc.test 10 1 y\r\n"[..]));
    assert_eq!(blocks.line(2), Some(&b".\r\n"[..]));
    assert_eq!(blocks.line(3), None);
}

#[test]
fn lines_rebuild_the_payload() {
    let wire = b"215 list follows\r\na\r\n\r\nbb\rb\r\n..\r\n.\r\n";
    let resp = read(wire, None).unwrap();
    let lines = all_lines(&resp);
    assert_eq!(lines.len(), 5);
    assert_eq!(lines.concat(), resp.data_blocks().unwrap().payload());
    for line in &lines {
        assert!(line.ends_with(b"\r\n"));
    }
}

#[test]
fn terminator_line_is_a_line_but_no_content() {
    let resp = read(b"215 list follows\r\na\r\nbb\r\n.\r\n", None).unwrap();
    assert_eq!(all_lines(&resp), vec![b"a\r\n".to_vec(), b"bb\r\n".to_vec(), b".\r\n".to_vec()]);
    assert_eq!(content_lines(&resp), vec![b"a".to_vec(), b"bb".to_vec()]);
    let empty = read(b"215 list follows\r\n.\r\n", None).unwrap();
    assert_eq!(all_lines(&empty), vec![b".\r\n".to_vec()]);
    assert_eq!(content_lines(&empty), Vec::<Vec<u8>>::new());
    let mut cursor = empty.data_blocks().unwrap().unterminated();
    assert_eq!(cursor.next(), None);
    assert_eq!(cursor.next(), None);
}

#[test]
fn stuffed_dots_stay_as_they_are() {
    let resp = read(b"215 list follows\r\n..\r\n.x\r\n.\r\n", None).unwrap();
    assert_eq!(content_lines(&resp), vec![b"..".to_vec(), b".x".to_vec()]);
}

#[test]
fn the_caller_decides_where_it_says_so() {
    // a code that the table takes for a single line, read as multi-line
    let resp = read(b"211 2 1 2 misc.test list follows\r\n1\r\n2\r\n.\r\n", Some(true)).unwrap();
    assert_eq!(content_lines(&resp), vec![b"1".to_vec(), b"2".to_vec()]);
    // a code that the table does not hold, read as multi-line
    let resp = read(b"290 feature\r\nx\r\n.\r\n", Some(true)).unwrap();
    assert_eq!(resp.code(), ResponseCode::Unknown(290));
    assert!(resp.has_data_blocks());
    // a code that the table takes for multi-line, read as a single line
    let mut conn = NntpConnection::new(ConnectionConfig::new());
    let mut stream = ByteStream::new(b"215 list follows\r\nx\r\n.\r\n");
    let resp = conn.read_response(&mut stream, Some(false)).unwrap();
    assert!(!resp.has_data_blocks());
    assert_eq!(stream.rest(), b"x\r\n.\r\n");
    // the table decides where the caller does not
    assert!(!read(b"211 2 1 2 misc.test\r\n", None).unwrap().has_data_blocks());
    assert!(!read(b"290 feature\r\n", None).unwrap().has_data_blocks());
}

#[test]
fn no_response_sees_what_another_left() {
    let mut conn = NntpConnection::new(ConnectionConfig::new());
    let mut long = b"215 a long list follows with a long status line\r\n".to_vec();
    for i in 0..2000 {
        long.extend_from_slice(format!("group.number.{} 10 1 y\r\n", i).as_bytes());
    }
    long.extend_from_slice(b".\r\n");
    let mut wire = long.clone();
    wire.extend_from_slice(b"200 ok\r\n");
    wire.extend_from_slice(b"101 capabilities\r\nVERSION 2\r\n.\r\n");
    wire.extend_from_slice(b"205 bye\r\n");
    let mut stream = ByteStream::new(&wire);

    let first = conn.read_response_auto(&mut stream).unwrap();
    assert_eq!(first.first_line(), &long[..49]);
    assert_eq!(first.data_blocks().unwrap().payload(), &long[49..]);
    assert_eq!(first.data_blocks().unwrap().lines_len(), 2001);

    let second = conn.read_response_auto(&mut stream).unwrap();
    assert_eq!(second.first_line(), b"200 ok\r\n");
    assert!(second.data_blocks().is_none());

    let third = conn.read_response_auto(&mut stream).unwrap();
    assert_eq!(third.first_line(), b"101 capabilities\r\n");
    assert_eq!(third.data_blocks().unwrap().payload(), b"VERSION 2\r\n.\r\n");
    assert_eq!(content_lines(&third), vec![b"VERSION 2".to_vec()]);

    let fourth = conn.read_response_auto(&mut stream).unwrap();
    assert_eq!(fourth.first_line(), b"205 bye\r\n");
    assert_eq!(stream.rest(), b"");

    // the same bytes read by a fresh connection give the same responses
    assert_eq!(read(b"200 ok\r\n", None).unwrap(), second);
    assert_eq!(read(b"101 capabilities\r\nVERSION 2\r\n.\r\n", None).unwrap(), third);
    // and an error leaves nothing behind either
    assert_eq!(conn.read_response_auto(&mut ByteStream::new(b"215 x\r\nabc")), Err(Error::Parse));
    assert_eq!(conn.read_response_auto(&mut ByteStream::new(b"200 ok\r\n")).unwrap(), second);
}

#[test]
fn malformed_framing_is_a_parse_error() {
    assert_eq!(read(b"", None), Err(Error::Parse));
    assert_eq!(read(b"200 hello", None), Err(Error::Parse));
    assert_eq!(read(b"200 hello\n", None), Err(Error::Parse));
    assert_eq!(read(b"20 hello\r\n", None), Err(Error::Parse));
    assert_eq!(read(b"2000 hello\r\n", None), Err(Error::Parse));
    assert_eq!(read(b"600 hello\r\n", None), Err(Error::Parse));
    assert_eq!(read(b"hello\r\n", None), Err(Error::Parse));
    // the section ends before its terminator line
    assert_eq!(read(b"215 list\r\n", None), Err(Error::Parse));
    assert_eq!(read(b"215 list\r\na\r\n", None), Err(Error::Parse));
    assert_eq!(read(b"215 list\r\na\r\n.", None), Err(Error::Parse));
    // a line that ends with a bare line feed
    assert_eq!(read(b"215 list\r\na\n.\r\n", None), Err(Error::Parse));
    let mut conn = NntpConnection::new(ConnectionConfig::new());
    let mut stream = ByteStream::new(b"215 list\r\na\nb\r\n.\r\n");
    assert_eq!(conn.read_response_auto(&mut stream), Err(Error::Parse));
    assert_eq!(stream.rest(), b"b\r\n.\r\n");
}

#[test]
fn test_compressed() {
    let plain_resp = b"1\tsubject one\tposter\r\n2\tsubject two\tposter\r\n3\tthree\tposter\r\n.\r\n";
    let first_line = b"224 xover information follows [COMPRESS=GZIP]\r\n";
    let mut compressed_resp = first_line.to_vec();
    compressed_resp.extend_from_slice(&zlib(plain_resp));

    assert!(Compression::XFeature.use_decoder(first_line));

    let (plain, used) = Compression::XFeature.decode(&compressed_resp[first_line.len()..]).unwrap();
    assert_eq!(plain, plain_resp.to_vec());
    assert_eq!(used, compressed_resp.len() - first_line.len());

    let mut stream = ByteStream::new(&compressed_resp);
    let through_decoder = compressing().read_response_auto(&mut stream).unwrap();
    assert_eq!(stream.rest(), b"");

    let mut plain_wire = first_line.to_vec();
    plain_wire.extend_from_slice(plain_resp);
    let passed_through = read(&plain_wire, None).unwrap();

    assert_eq!(through_decoder.data_blocks().unwrap().payload(), plain_resp);
    assert_eq!(through_decoder, passed_through);
    assert_eq!(content_lines(&through_decoder).len(), 3);
}

#[test]
fn compression_takes_the_marker_and_the_setting() {
    let plain = b"1\tsubject\r\n.\r\n";
    // no marker: the section is read as it stands
    let mut wire = b"224 xover information follows\r\n".to_vec();
    wire.extend_from_slice(plain);
    let resp = compressing().read_response_auto(&mut ByteStream::new(&wire)).unwrap();
    assert_eq!(resp.data_blocks().unwrap().payload(), plain);
    // a marker that does not end the line is none
    assert!(!Compression::XFeature.use_decoder(b"224 [COMPRESS=GZIP] follows\r\n"));
    assert!(!Compression::XFeature.use_decoder(b"\r\n"));
    assert!(Compression::XFeature.use_decoder(b"[COMPRESS=GZIP]\r\n"));
    // a marker, but no compression configured: the bytes are taken as lines
    let mut wire = b"224 xover information follows [COMPRESS=GZIP]\r\n".to_vec();
    wire.extend_from_slice(&zlib(plain));
    assert_eq!(read(&wire, None), Err(Error::Parse));
    // what follows the compressed section stays in the stream
    wire.extend_from_slice(b"200 next\r\n");
    let mut stream = ByteStream::new(&wire);
    let mut conn = compressing();
    let resp = conn.read_response_auto(&mut stream).unwrap();
    assert_eq!(resp.data_blocks().unwrap().payload(), plain);
    assert_eq!(stream.rest(), b"200 next\r\n");
    assert_eq!(conn.read_response_auto(&mut stream).unwrap().first_line(), b"200 next\r\n");
}

#[test]
fn what_cannot_be_inflated_is_an_io_error() {
    let mut wire = b"224 xover information follows [COMPRESS=GZIP]\r\n".to_vec();
    wire.extend_from_slice(b"this is no zlib stream");
    let mut stream = ByteStream::new(&wire);
    assert!(matches!(compressing().read_response_auto(&mut stream), Err(Error::Io(_))));
    assert_eq!(stream.rest(), b"this is no zlib stream");
    assert!(matches!(Compression::XFeature.decode(b""), Err(Error::Io(_))));
    // plain bytes that inflate, but hold no section
    let mut wire = b"224 xover information follows [COMPRESS=GZIP]\r\n".to_vec();
    wire.extend_from_slice(&zlib(b"no terminator\r\n"));
    assert_eq!(compressing().read_response_auto(&mut ByteStream::new(&wire)), Err(Error::Parse));
}

#[test]
fn line_by_line() {
    let mut conn = NntpConnection::new(ConnectionConfig::new());
    match conn.accept_first_line(b"200 hello\r\n", None).unwrap() {
        FirstLine::Complete(resp) => assert_eq!(resp, read(b"200 hello\r\n", None).unwrap()),
        FirstLine::DataBlocksFollow { .. } => panic!("no data blocks follow"),
    }
    assert_eq!(conn.accept_first_line(b"200 hello", None).unwrap_err(), Error::Parse);
    assert_eq!(conn.accept_first_line(b"200 hello\r\nx", None).unwrap_err(), Error::Parse);

    // the same connection reads one response after the other
    for _ in 0..3 {
        let mut pending = match conn.accept_first_line(b"215 list\r\n", None).unwrap() {
            FirstLine::DataBlocksFollow { pending, compressed } => {
                assert!(!compressed);
                pending
            }
            FirstLine::Complete(_) => panic!("data blocks follow"),
        };
        for line in [&b"a\r\n"[..], &b"bb\r\n"[..]] {
            pending = match conn.accept_data_block_line(pending, line).unwrap() {
                Progress::More(pending) => pending,
                Progress::Done(_) => panic!("more lines follow"),
            };
        }
        match conn.accept_data_block_line(pending, b".\r\n").unwrap() {
            Progress::Done(resp) => {
                assert_eq!(resp, read(b"215 list\r\na\r\nbb\r\n.\r\n", None).unwrap())
            }
            Progress::More(_) => panic!("the terminator line ends the section"),
        }
        match conn.accept_first_line(b"205 bye\r\n", None).unwrap() {
            FirstLine::Complete(resp) => assert_eq!(resp.first_line(), b"205 bye\r\n"),
            FirstLine::DataBlocksFollow { .. } => panic!("no data blocks follow"),
        }
    }

    let pending = match conn.accept_first_line(b"215 list\r\n", None).unwrap() {
        FirstLine::DataBlocksFollow { pending, .. } => pending,
        FirstLine::Complete(_) => panic!("data blocks follow"),
    };
    assert_eq!(conn.accept_data_block_line(pending, b"a\n").unwrap_err(), Error::Parse);
    let pending = match conn.accept_first_line(b"215 list\r\n", None).unwrap() {
        FirstLine::DataBlocksFollow { pending, .. } => pending,
        FirstLine::Complete(_) => panic!("data blocks follow"),
    };
    assert_eq!(conn.accept_data_block_line(pending, b"a\r\nb\r\n").unwrap_err(), Error::Parse);
    // a section that was given up leaves nothing behind
    let pending = match conn.accept_first_line(b"215 list\r\n", None).unwrap() {
        FirstLine::DataBlocksFollow { pending, .. } => pending,
        FirstLine::Complete(_) => panic!("data blocks follow"),
    };
    let _ = conn.accept_data_block_line(pending, b"stale\r\n").unwrap();
    let pending = match conn.accept_first_line(b"215 list\r\n", None).unwrap() {
        FirstLine::DataBlocksFollow { pending, .. } => pending,
        FirstLine::Complete(_) => panic!("data blocks follow"),
    };
    match conn.accept_data_block_line(pending, b".\r\n").unwrap() {
        Progress::Done(resp) => assert_eq!(resp.data_blocks().unwrap().payload(), b".\r\n"),
        Progress::More(_) => panic!("the terminator line ends the section"),
    }

    match compressing()
        .accept_first_line(b"224 xover information follows [COMPRESS=GZIP]\r\n", None)
        .unwrap()
    {
        FirstLine::DataBlocksFollow { compressed, .. } => assert!(compressed),
        FirstLine::Complete(_) => panic!("data blocks follow"),
    }
    match conn.accept_first_line(b"215 list\r\n", Some(false)).unwrap() {
        FirstLine::Complete(resp) => assert!(!resp.has_data_blocks()),
        FirstLine::DataBlocksFollow { .. } => panic!("the caller said that none follow"),
    }
}

#[test]
fn reading_into_buffers() {
    let mut stream = ByteStream::new(b"211 5 10 20 misc.test\r\nrest");
    let mut buffer = b"stale".to_vec();
    assert_eq!(
        read_initial_response(&mut stream, &mut buffer),
        Ok(ResponseCode::Known(Kind::GroupSelected))
    );
    assert_eq!(buffer, b"211 5 10 20 misc.test\r\n");
    assert_eq!(stream.rest(), b"rest");
    assert_eq!(read_initial_response(&mut stream, &mut buffer), Err(Error::Parse));
    assert_eq!(buffer, b"rest");

    let mut stream = ByteStream::new(b"a\r\nbb\r\n.\r\nnext");
    let mut buffer = b"stale".to_vec();
    let mut boundaries = vec![(7, 9)];
    assert_eq!(read_data_blocks(&mut stream, &mut buffer, &mut boundaries), Ok(()));
    assert_eq!(buffer, b"a\r\nbb\r\n.\r\n");
    assert_eq!(boundaries, vec![(0, 3), (3, 7), (7, 10)]);
    assert_eq!(stream.rest(), b"next");
    assert_eq!(read_data_blocks(&mut stream, &mut buffer, &mut boundaries), Err(Error::Parse));
    assert_eq!(buffer, b"next");

    assert_eq!(status_line_code(b"381 password\r\n"), Ok(ResponseCode::Known(Kind::PasswordRequired)));
    assert_eq!(status_line_code(b"599 strange\r\n"), Ok(ResponseCode::Unknown(599)));
    assert_eq!(status_line_code(b"381 password"), Err(Error::Parse));
    assert!(is_one_block_line(b"a\r\n"));
    assert!(is_one_block_line(b"\r\n"));
    assert!(!is_one_block_line(b"a\n"));
    assert!(!is_one_block_line(b"a\nb\r\n"));
    assert!(!is_one_block_line(b"a\r\nb\r\n"));
    assert!(!is_one_block_line(b"a"));
    assert!(!is_one_block_line(b""));
}

#[test]
fn streams() {
    let mut stream = ByteStream::new(b"ab\ncd\n\nef");
    let mut buf = b"x".to_vec();
    assert_eq!(stream.read_until(b'\n', &mut buf), 3);
    assert_eq!(buf, b"xab\n");
    assert_eq!(stream.take_until(b'\n'), b"cd\n");
    assert_eq!(stream.take_until(b'\n'), b"\n");
    assert_eq!(stream.rest(), b"ef");
    assert_eq!(stream.take_until(b'\n'), b"ef");
    assert_eq!(stream.take_until(b'\n'), b"");
    assert_eq!(stream.read_until(b'\n', &mut buf), 0);
    assert_eq!(buf, b"xab\n");
    let mut stream = ByteStream::new(b"abcdef");
    stream.consume(2);
    assert_eq!(stream.rest(), b"cdef");
    stream.consume(10);
    assert_eq!(stream.rest(), b"");
}

#[test]
fn commands_end_with_the_line_terminator() {
    let conn = NntpConnection::new(ConnectionConfig::new());
    assert_eq!(conn.send(&Group("misc.test".to_string())), b"GROUP misc.test\r\n".to_vec());
    assert_eq!(conn.send_bytes(b"LISTGROUP misc.test 1-2"), b"LISTGROUP misc.test 1-2\r\n".to_vec());
    assert_eq!(conn.send_bytes(b""), b"\r\n".to_vec());
}

#[test]
fn settings() {
    let config = ConnectionConfig::new();
    assert_eq!(config.get_compression(), None);
    assert!(config.get_tls_config().is_none());
    assert_eq!(config.get_read_timeout(), None);
    assert_eq!(config.get_write_timeout(), None);
    let default_config: ConnectionConfig = Default::default();
    assert_eq!(default_config.get_compression(), None);

    let mut config = ConnectionConfig::new();
    config
        .compression(Some(Compression::XFeature))
        .read_timeout(Some(Duration::from_secs(5)))
        .first_line_buf_size(16)
        .data_blocks_buf_size(32);
    assert_eq!(config.get_compression(), Some(Compression::XFeature));
    assert_eq!(config.get_read_timeout(), Some(Duration::from_secs(5)));
    config.compression(None).tls_config(None);
    assert_eq!(config.get_compression(), None);
    let conn = NntpConnection::new(config);
    assert_eq!(conn.config().get_read_timeout(), Some(Duration::from_secs(5)));

    // small buffers do not cut responses short
    let mut config = ConnectionConfig::new();
    config.first_line_buf_size(0).data_blocks_buf_size(0);
    let mut conn = NntpConnection::new(config);
    let wire = b"215 list follows\r\nmisc.test 10 1 y\r\n.\r\n";
    for _ in 0..3 {
        let resp = conn.read_response_auto(&mut ByteStream::new(wire)).unwrap();
        assert_eq!(resp.first_line(), &wire[..18]);
        assert_eq!(resp.data_blocks().unwrap().payload(), &wire[18..]);
    }
}

#[test]
fn tls_settings_keep_the_domain() {
    if let Ok(tls) = TlsConfig::default_connector("news.example.com") {
        assert_eq!(tls.domain(), "news.example.com");
        let again = TlsConfig::new("other.example.com".to_string(), tls.connector().clone());
        assert_eq!(again.domain(), "other.example.com");
        let mut config = ConnectionConfig::new();
        config.tls_config(Some(again));
        assert_eq!(config.get_tls_config().unwrap().domain(), "other.example.com");
    }
    let mut config = ConnectionConfig::new();
    match config.default_tls("news.example.com") {
        Ok(config) => assert_eq!(config.get_tls_config().unwrap().domain(), "news.example.com"),
        Err(e) => assert!(matches!(e, Error::Tls(_))),
    }
}

#[test]
fn errors_say_what_went_wrong() {
    assert_eq!(Error::Parse.to_string(), "Failed to parse response");
    assert_eq!(Error::Io("broken pipe".to_string()).to_string(), "IO broken pipe");
    assert_eq!(Error::Tls("bad certificate".to_string()).to_string(), "TLS Error -- bad certificate");
    assert_eq!(
        Error::TlsHandshake("refused".to_string()).to_string(),
        "TLS Handshake Error -- refused"
    );
}
