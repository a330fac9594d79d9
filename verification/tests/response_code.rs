use brokaw::response_code::Kind;
use brokaw::response_code::ResponseCode;

const KINDS: [(Kind, u16, bool); 46] = [
    (Kind::Help, 100, true),
    (Kind::Capabilities, 101, true),
    (Kind::Date, 111, false),
    (Kind::PostingAllowed, 200, false),
    (Kind::PostingNotPermitted, 201, false),
    (Kind::ConnectionClosing, 205, false),
    (Kind::GroupSelected, 211, false),
    (Kind::List, 215, true),
    (Kind::Article, 220, true),
    (Kind::Head, 221, true),
    (Kind::Body, 222, true),
    (Kind::ArticleExists, 223, false),
    (Kind::Overview, 224, true),
    (Kind::Headers, 225, true),
    (Kind::NewNews, 230, true),
    (Kind::NewGroups, 231, true),
    (Kind::ArticleTransferredOk, 235, false),
    (Kind::ArticleReceivedOk, 240, false),
    (Kind::AuthenticationAccepted, 281, false),
    (Kind::SendArticleTransfer, 335, false),
    (Kind::SendArticlePost, 340, false),
    (Kind::PasswordRequired, 381, false),
    (Kind::TemporarilyUnavailable, 400, false),
    (Kind::WrongMode, 401, false),
    (Kind::InternalFault, 403, false),
    (Kind::NoSuchNewsgroup, 411, false),
    (Kind::NoNewsgroupSelected, 412, false),
    (Kind::InvalidCurrentArticleNumber, 420, false),
    (Kind::NoNextArticle, 421, false),
    (Kind::NoPreviousArticle, 422, false),
    (Kind::NoArticleWithNumber, 423, false),
    (Kind::NoArticleWithMessageId, 430, false),
    (Kind::ArticleNotWanted, 435, false),
    (Kind::TransferFailed, 436, false),
    (Kind::TransferRejected, 437, false),
    (Kind::PostingProhibited, 440, false),
    (Kind::PostingFailed, 441, false),
    (Kind::AuthenticationRequired, 480, false),
    (Kind::AuthenticationFailed, 481, false),
    (Kind::AuthenticationOutOfSequence, 482, false),
    (Kind::EncryptionRequired, 483, false),
    (Kind::UnknownCommand, 500, false),
    (Kind::SyntaxError, 501, false),
    (Kind::PermanentlyUnavailable, 502, false),
    (Kind::FeatureNotSupported, 503, false),
    (Kind::Base64Error, 504, false),
];

#[test]
fn every_kind_has_its_code() {
    for (kind, code, multiline) in KINDS {
        assert_eq!(kind.code(), code);
        assert_eq!(Kind::from_code(code), Some(kind));
        assert_eq!(kind.is_multiline(), multiline);
        assert_eq!(ResponseCode::from(code), ResponseCode::Known(kind));
        assert_eq!(ResponseCode::from(kind), ResponseCode::Known(kind));
        assert_eq!(ResponseCode::Known(kind).is_multiline(), multiline);
        assert_eq!(u16::from(ResponseCode::Known(kind)), code);
    }
}

#[test]
fn every_number_round_trips() {
    let mut code: u16 = 0;
    loop {
        let response_code = ResponseCode::from(code);
        assert_eq!(u16::from(response_code), code);
        assert_eq!(response_code.number(), code);
        let known = KINDS.iter().any(|(_, c, _)| *c == code);
        match response_code {
            ResponseCode::Known(kind) => {
                assert!(known);
                assert_eq!(kind.code(), code);
            }
            ResponseCode::Unknown(n) => {
                assert!(!known);
                assert_eq!(n, code);
                assert!(!response_code.is_multiline());
                assert_eq!(Kind::from_code(code), None);
            }
        }
        if code == u16::MAX {
            break;
        }
        code += 1;
    }
}

#[test]
fn unknown_codes_are_kept() {
    assert_eq!(ResponseCode::from(290), ResponseCode::Unknown(290));
    assert_eq!(ResponseCode::from(599), ResponseCode::Unknown(599));
    assert_eq!(ResponseCode::from(0), ResponseCode::Unknown(0));
    assert_eq!(ResponseCode::Unknown(290).number(), 290);
}
