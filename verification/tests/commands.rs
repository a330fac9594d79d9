use brokaw::types::command::Article;
use brokaw::types::command::AuthInfo;
use brokaw::types::command::Body;
use brokaw::types::command::Capabilities;
use brokaw::types::command::Date;
use brokaw::types::command::Encode;
use brokaw::types::command::Group;
use brokaw::types::command::Hdr;
use brokaw::types::command::Head;
use brokaw::types::command::Help;
use brokaw::types::command::IHave;
use brokaw::types::command::Last;
use brokaw::types::command::List;
use brokaw::types::command::ModeReader;
use brokaw::types::command::NewGroups;
use brokaw::types::command::Next;
use brokaw::types::command::NntpCommand;
use brokaw::types::command::Over;
use brokaw::types::command::Post;
use brokaw::types::command::PostArticle;
use brokaw::types::command::Quit;
use brokaw::types::command::Stat;
use brokaw::types::command::XFeatureCompress;
use brokaw::types::command::XHdr;
use brokaw::types::command::XOver;

fn wire<C: NntpCommand>(command: &C) -> Vec<u8> {
    command.encode()
}

#[test]
fn articles_and_their_parts() {
    assert_eq!(Article::MessageId("<id@x>".to_string()).to_string(), "ARTICLE <id@x>");
    assert_eq!(Article::Number(47661).to_string(), "ARTICLE 47661");
    assert_eq!(Article::Number(0).to_string(), "ARTICLE 0");
    assert_eq!(Article::Number(u64::MAX).to_string(), "ARTICLE 18446744073709551615");
    assert_eq!(Article::Current.to_string(), "ARTICLE");
    assert_eq!(Body::MessageId("<id@x>".to_string()).to_string(), "BODY <id@x>");
    assert_eq!(Body::Number(7).to_string(), "BODY 7");
    assert_eq!(Body::Current.to_string(), "BODY");
    assert_eq!(Head::MessageId("<id@x>".to_string()).to_string(), "HEAD <id@x>");
    assert_eq!(Head::Number(7).to_string(), "HEAD 7");
    assert_eq!(Head::Current.to_string(), "HEAD");
    assert_eq!(Stat::MessageId("<id@x>".to_string()).to_string(), "STAT <id@x>");
    assert_eq!(Stat::Number(7).to_string(), "STAT 7");
    assert_eq!(Stat::Current.to_string(), "STAT");
    assert_eq!(wire(&Article::Number(47661)), b"ARTICLE 47661".to_vec());
    assert_eq!(wire(&Body::Current), b"BODY".to_vec());
    assert_eq!(wire(&Head::Number(1)), b"HEAD 1".to_vec());
    assert_eq!(wire(&Stat::MessageId("<\u{e9}@x>".to_string())), "STAT <\u{e9}@x>".as_bytes().to_vec());
}

#[test]
fn commands_without_arguments() {
    assert_eq!(Capabilities.to_string(), "CAPABILITIES");
    assert_eq!(Date.to_string(), "DATE");
    assert_eq!(Help.to_string(), "HELP");
    assert_eq!(Last.to_string(), "LAST");
    assert_eq!(ModeReader.to_string(), "MODE READER");
    assert_eq!(Next.to_string(), "NEXT");
    assert_eq!(Quit.to_string(), "QUIT");
    assert_eq!(Post.to_string(), "POST");
    assert_eq!(XFeatureCompress.to_string(), "XFEATURE COMPRESS GZIP TERMINATOR");
    assert_eq!(wire(&Capabilities), b"CAPABILITIES".to_vec());
    assert_eq!(wire(&Date), b"DATE".to_vec());
    assert_eq!(wire(&Help), b"HELP".to_vec());
    assert_eq!(wire(&Last), b"LAST".to_vec());
    assert_eq!(wire(&ModeReader), b"MODE READER".to_vec());
    assert_eq!(wire(&Next), b"NEXT".to_vec());
    assert_eq!(wire(&Quit), b"QUIT".to_vec());
    assert_eq!(wire(&Post), b"POST".to_vec());
    assert_eq!(wire(&XFeatureCompress), b"XFEATURE COMPRESS GZIP TERMINATOR".to_vec());
}

#[test]
fn commands_with_arguments() {
    assert_eq!(Group("misc.test".to_string()).to_string(), "GROUP misc.test");
    assert_eq!(wire(&Group("misc.test".to_string())), b"GROUP misc.test".to_vec());
    assert_eq!(IHave("<id@x>".to_string()).to_string(), "IHAVE <id@x>");
    assert_eq!(wire(&IHave("<id@x>".to_string())), b"IHAVE <id@x>".to_vec());
    assert_eq!(AuthInfo::User("reader".to_string()).to_string(), "AUTHINFO USER reader");
    assert_eq!(AuthInfo::Pass("secret".to_string()).to_string(), "AUTHINFO PASS secret");
    assert_eq!(wire(&AuthInfo::Pass("secret".to_string())), b"AUTHINFO PASS secret".to_vec());
    assert_eq!(
        Hdr::MessageId { field: "Subject".to_string(), id: "<id@x>".to_string() }.to_string(),
        "HDR Subject <id@x>"
    );
    assert_eq!(
        Hdr::Range { field: "Subject".to_string(), low: 10, high: 20 }.to_string(),
        "HDR Subject 10-20"
    );
    assert_eq!(Hdr::Current { field: "Subject".to_string() }.to_string(), "HDR Subject");
    assert_eq!(wire(&Hdr::Current { field: "Subject".to_string() }), b"HDR Subject".to_vec());
    assert_eq!(
        XHdr::MessageId { header: "Subject".to_string(), id: "<id@x>".to_string() }.to_string(),
        "XHDR Subject <id@x>"
    );
    assert_eq!(
        XHdr::Range { header: "Subject".to_string(), low: 10, high: 20 }.to_string(),
        "XHDR Subject 10-20"
    );
    assert_eq!(
        wire(&XHdr::Range { header: "Subject".to_string(), low: 1, high: 2 }),
        b"XHDR Subject 1-2".to_vec()
    );
    assert_eq!(Over::MessageId("<id@x>".to_string()).to_string(), "OVER <id@x>");
    assert_eq!(Over::Range { low: 3000238, high: 3000248 }.to_string(), "OVER 3000238-3000248");
    assert_eq!(Over::Current.to_string(), "OVER");
    assert_eq!(wire(&Over::Range { low: 1, high: 2 }), b"OVER 1-2".to_vec());
    assert_eq!(XOver::Range { low: 0, high: 100 }.to_string(), "XOVER 0-100");
    assert_eq!(XOver::Current.to_string(), "XOVER");
    assert_eq!(wire(&XOver::Range { low: 0, high: 100 }), b"XOVER 0-100".to_vec());
}

#[test]
fn lists() {
    assert_eq!(List::Active { wildmat: None }.to_string(), "LIST ACTIVE");
    assert_eq!(List::Active { wildmat: Some("misc.*".to_string()) }.to_string(), "LIST ACTIVE misc.*");
    assert_eq!(List::ActiveTimes { wildmat: None }.to_string(), "LIST ACTIVE TIMES");
    assert_eq!(
        List::ActiveTimes { wildmat: Some("misc.*".to_string()) }.to_string(),
        "LIST ACTIVE TIMES misc.*"
    );
    assert_eq!(List::Newsgroups { wildmat: None }.to_string(), "LIST NEWSGROUPS");
    assert_eq!(
        List::Newsgroups { wildmat: Some("misc.*".to_string()) }.to_string(),
        "LIST NEWSGROUPS misc.*"
    );
    assert_ne!(
        List::Newsgroups { wildmat: None }.to_string(),
        List::ActiveTimes { wildmat: None }.to_string()
    );
    assert_eq!(wire(&List::Newsgroups { wildmat: None }), b"LIST NEWSGROUPS".to_vec());
    assert_eq!(List::DistribPats.to_string(), "LIST DISTRIB.PATS");
    assert_eq!(List::OverviewFmt.to_string(), "LIST OVERVIEW.FMT");
    assert_eq!(wire(&List::OverviewFmt), b"LIST OVERVIEW.FMT".to_vec());
}

#[test]
fn new_groups() {
    let since = NewGroups {
        date: "20200605".to_string(),
        time: "101341".to_string(),
        distributions: Some("GMT".to_string()),
    };
    assert_eq!(since.to_string(), "NEWGROUPS 20200605 101341 GMT");
    let since = NewGroups {
        date: "20200605".to_string(),
        time: "101341".to_string(),
        distributions: None,
    };
    assert_eq!(since.to_string(), "NEWGROUPS 20200605 101341 ");
    assert_eq!(wire(&since), b"NEWGROUPS 20200605 101341 ".to_vec());
}

#[test]
fn posted_articles() {
    let article = PostArticle {
        headers: vec![
            ("From".to_string(), "a@example.com".to_string()),
            ("Newsgroups".to_string(), "misc.test".to_string()),
            ("X-Tag".to_string(), "one".to_string()),
            ("X-Tag".to_string(), "two".to_string()),
            ("Subject".to_string(), "a  value that is\tnot folded or checked: \u{e9}".to_string()),
        ],
        body: b"hello\r\nworld".to_vec(),
    };
    assert_eq!(
        wire(&article),
        "From: a@example.com\r\nNewsgroups: misc.test\r\nX-Tag: one\r\nX-Tag: two\r\n\
Subject: a  value that is\tnot folded or checked: \u{e9}\r\n\r\nhello\r\nworld\r\n."
            .as_bytes()
            .to_vec()
    );
    let empty = PostArticle { headers: Vec::new(), body: Vec::new() };
    assert_eq!(wire(&empty), b"\r\n\r\n.".to_vec());
    let binary = PostArticle { headers: Vec::new(), body: vec![0xff, 0x00] };
    assert_eq!(wire(&binary), vec![0x0d, 0x0a, 0xff, 0x00, 0x0d, 0x0a, 0x2e]);
}
