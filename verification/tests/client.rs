use brokaw::client::check_auth_pass;
use brokaw::client::check_auth_user;
use brokaw::client::get_capabilities;
use brokaw::client::select_group;
use brokaw::client::ClientConfig;
use brokaw::client::Handshake;
use brokaw::client::HandshakeStep;
use brokaw::client::NntpClient;
use brokaw::client::Request;
use brokaw::error::Error;
use brokaw::raw::connection::ConnectionConfig;
use brokaw::raw::connection::NntpConnection;
use brokaw::raw::response::RawResponse;
use brokaw::raw::stream::ByteStream;
use brokaw::response_code::Kind;
use brokaw::response_code::ResponseCode;
use brokaw::types::command::Encode;
use brokaw::types::response::Group;
use brokaw::types::response::Stat;
use std::time::Duration;

fn read(bytes: &[u8]) -> RawResponse {
    let mut conn = NntpConnection::new(ConnectionConfig::new());
    let mut stream = ByteStream::new(bytes);
    conn.read_response(&mut stream, None).unwrap()
}

fn failure(bytes: &[u8], msg: Option<&str>) -> Error {
    let resp = read(bytes);
    Error::Failure { code: resp.code(), resp, msg: msg.map(|m| m.to_string()) }
}

const CAPABILITIES: &[u8] = b"101 Capability list:\r\nVERSION 2\r\nREADER\r\n.\r\n";

fn started(config: ClientConfig, answers: &[&[u8]]) -> (Vec<Vec<u8>>, Result<NntpClient, Error>) {
    let (mut handshake, mut request) = Handshake::begin(config);
    let mut sent = Vec::new();
    for answer in answers {
        sent.push(request.encode());
        match handshake.advance(read(answer)) {
            Ok(HandshakeStep::Send { handshake: next, request: command }) => {
                handshake = next;
                request = command;
            }
            Ok(HandshakeStep::Ready(client)) => return (sent, Ok(client)),
            Err(e) => return (sent, Err(e)),
        }
    }
    panic!("the session has not started, the next command is {:?}", request)
}

#[test]
fn a_session_without_credentials_or_group() {
    let (sent, client) = started(ClientConfig::new(), &[CAPABILITIES]);
    assert_eq!(sent, vec![b"CAPABILITIES".to_vec()]);
    let client = client.unwrap();
    assert!(client.group().is_none());
    assert!(client.capabilities().get("READER").is_some());
    assert_eq!(client.config().get_read_timeout(), None);
}

#[test]
fn a_session_with_credentials_and_group() {
    let mut config = ClientConfig::new();
    config
        .authinfo_user_pass("reader".to_string(), "secret".to_string())
        .group(Some("misc.test"))
        .read_timeout(Some(Duration::from_secs(3)));
    let (sent, client) = started(
        config,
        &[
            b"381 password required\r\n",
            b"281 welcome\r\n",
            CAPABILITIES,
            b"211 5 10 20 misc.test\r\n",
        ],
    );
    assert_eq!(
        sent,
        vec![
            b"AUTHINFO USER reader".to_vec(),
            b"AUTHINFO PASS secret".to_vec(),
            b"CAPABILITIES".to_vec(),
            b"GROUP misc.test".to_vec(),
        ]
    );
    let client = client.unwrap();
    assert_eq!(
        client.group(),
        Some(&Group { number: 5, low: 10, high: 20, name: "misc.test".to_string() })
    );
    assert_eq!(client.capabilities().get("VERSION").unwrap().args, Some(vec!["2".to_string()]));
    assert_eq!(client.config().get_read_timeout(), Some(Duration::from_secs(3)));
    assert_eq!(client.config().get_authinfo(), Some(("reader", "secret")));
    assert_eq!(client.config().get_group(), Some("misc.test"));
    assert_eq!(ClientConfig::new().get_authinfo(), None);
    assert_eq!(ClientConfig::new().get_group(), None);
}

#[test]
fn a_session_that_does_not_start() {
    let mut config = ClientConfig::new();
    config.authinfo_user_pass("reader".to_string(), "secret".to_string()).group(Some("misc.test"));

    let (sent, client) = started(config.clone(), &[b"481 no\r\n"]);
    assert_eq!(sent.len(), 1);
    assert_eq!(client.unwrap_err(), failure(b"481 no\r\n", Some("AUTHINFO USER failed")));

    let (sent, client) = started(config.clone(), &[b"381 password required\r\n", b"481 no\r\n"]);
    assert_eq!(sent.len(), 2);
    assert_eq!(client.unwrap_err(), failure(b"481 no\r\n", Some("AUTHINFO PASS failed")));

    let (sent, client) =
        started(config.clone(), &[b"381 password required\r\n", b"281 ok\r\n", b"500 what\r\n"]);
    assert_eq!(sent.len(), 3);
    assert_eq!(client.unwrap_err(), failure(b"500 what\r\n", None));

    let (sent, client) = started(
        config.clone(),
        &[b"381 password required\r\n", b"281 ok\r\n", CAPABILITIES, b"411 no such group\r\n"],
    );
    assert_eq!(sent.len(), 4);
    assert_eq!(client.unwrap_err(), failure(b"411 no such group\r\n", None));

    let (_, client) = started(
        config,
        &[b"381 password required\r\n", b"281 ok\r\n", CAPABILITIES, b"211 5 ten 20 misc.test\r\n"],
    );
    assert_eq!(client.unwrap_err(), Error::Deserialization("Could not parse field `low`".to_string()));
}

#[test]
fn the_first_command() {
    let (_, request) = Handshake::begin(ClientConfig::default());
    assert!(matches!(request, Request::Capabilities));
    let mut config = ClientConfig::new();
    config.group(Some("misc.test"));
    let (_, request) = Handshake::begin(config.clone());
    assert!(matches!(request, Request::Capabilities));
    config.authinfo_user_pass("reader".to_string(), "secret".to_string()).group(None);
    let (_, request) = Handshake::begin(config);
    assert_eq!(request.encode(), b"AUTHINFO USER reader".to_vec());
    assert_eq!(Request::Group("misc.test".to_string()).encode(), b"GROUP misc.test".to_vec());
}

#[test]
fn answers_to_credentials() {
    assert_eq!(check_auth_user(read(b"381 password required\r\n")), Ok(()));
    assert_eq!(
        check_auth_user(read(b"281 ok\r\n")),
        Err(failure(b"281 ok\r\n", Some("AUTHINFO USER failed")))
    );
    assert_eq!(check_auth_pass(read(b"281 ok\r\n")), Ok(()));
    assert_eq!(
        check_auth_pass(read(b"381 password required\r\n")),
        Err(failure(b"381 password required\r\n", Some("AUTHINFO PASS failed")))
    );
}

#[test]
fn answers_to_the_selection_of_a_group() {
    assert_eq!(
        select_group(read(b"211 5 10 20 misc.test\r\n")),
        Ok(Group { number: 5, low: 10, high: 20, name: "misc.test".to_string() })
    );
    assert_eq!(
        select_group(read(b"411 no such group\r\n")),
        Err(failure(b"411 no such group\r\n", None))
    );
    assert_eq!(
        select_group(read(b"400 busy\r\n")),
        Err(failure(b"400 busy\r\n", Some("400 busy\r\n")))
    );
    assert_eq!(
        select_group(read(b"211 5\r\n")),
        Err(Error::Deserialization("Missing field `low`".to_string()))
    );
    assert!(get_capabilities(read(CAPABILITIES)).is_ok());
    assert_eq!(get_capabilities(read(b"200 hello\r\n")), Err(failure(b"200 hello\r\n", None)));
}

#[test]
fn the_state_of_a_session() {
    let (_, client) = started(ClientConfig::new(), &[CAPABILITIES]);
    let mut client = client.unwrap();

    assert_eq!(client.select_group(read(b"411 no such group\r\n")).unwrap_err(), failure(b"411 no such group\r\n", None));
    assert!(client.group().is_none());
    let group = client.select_group(read(b"211 5 10 20 misc.test\r\n")).unwrap();
    assert_eq!(client.group(), Some(&group));
    assert!(client.select_group(read(b"400 busy\r\n")).is_err());
    assert_eq!(client.group(), Some(&group));

    assert_eq!(
        client.update_capabilities(read(b"200 hello\r\n")),
        Err(failure(b"200 hello\r\n", None))
    );
    assert!(client.capabilities().get("READER").is_some());
    assert_eq!(client.update_capabilities(read(b"101 list\r\nPOST\r\n.\r\n")), Ok(()));
    assert!(client.capabilities().get("READER").is_none());
    assert!(client.capabilities().get("POST").is_some());

    assert_eq!(
        client.stat(read(b"223 7 <id@x>\r\n")),
        Ok(Some(Stat { number: 7, message_id: "<id@x>".to_string() }))
    );
    assert_eq!(client.stat(read(b"430 no such article\r\n")), Ok(None));
    assert_eq!(client.stat(read(b"420 no current article\r\n")), Ok(None));
    assert_eq!(client.stat(read(b"423 no article with that number\r\n")), Ok(None));
    assert_eq!(client.stat(read(b"412 no group\r\n")), Err(failure(b"412 no group\r\n", None)));
    assert_eq!(
        client.stat(read(b"223 seven\r\n")),
        Err(Error::Deserialization("Could not parse field `article-number`".to_string()))
    );

    let article = client.article(read(b"220 7 <id@x>\r\nA: b\r\n\r\nhello\r\n.\r\n")).unwrap();
    assert_eq!(article.number(), 7);
    assert_eq!(
        client.article(read(b"430 no such article\r\n")),
        Err(failure(b"430 no such article\r\n", None))
    );
    let head = client.head(read(b"221 7 <id@x>\r\nA: b\r\n\r\n.\r\n")).unwrap();
    assert_eq!(head.headers.len(), 1);
    assert_eq!(
        client.head(read(b"220 7 <id@x>\r\nA: b\r\n\r\n.\r\n")),
        Err(failure(b"220 7 <id@x>\r\nA: b\r\n\r\n.\r\n", None))
    );
    let body = client.body(read(b"222 7 <id@x>\r\nhello\r\n.\r\n")).unwrap();
    assert_eq!(body.body(), b"hello\r\n.\r\n");
    assert_eq!(
        client.body(read(b"430 no such article\r\n")),
        Err(failure(b"430 no such article\r\n", None))
    );
    assert_eq!(client.close(read(b"205 bye\r\n")), Ok(read(b"205 bye\r\n")));
    assert_eq!(client.close(read(b"200 hello\r\n")), Err(failure(b"200 hello\r\n", None)));
    assert_eq!(ResponseCode::from(205), ResponseCode::Known(Kind::ConnectionClosing));
}

#[test]
fn client_settings() {
    let mut config = ClientConfig::new();
    assert!(config.get_tls_config().is_none());
    match config.default_tls("news.example.com".to_string()) {
        Ok(config) => assert_eq!(config.get_tls_config().unwrap().domain(), "news.example.com"),
        Err(e) => assert!(matches!(e, Error::Connection(brokaw::raw::error::Error::Tls(_)))),
    }
    if let Some(tls) = config.get_tls_config() {
        let tls = tls.clone();
        let mut other = ClientConfig::new();
        other.tls_config(tls);
        assert_eq!(other.get_tls_config().unwrap().domain(), "news.example.com");
    }
}
