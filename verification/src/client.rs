use crate::error::Error;
use crate::raw::connection::TlsConfig;
use crate::raw::response::RawResponse;
use crate::response_code::response_code_of;
use crate::response_code::Kind;
use crate::response_code::ResponseCode;
use crate::text::text_of;
use crate::types::command::AuthInfo;
use crate::types::command::Encode;
use crate::types::command::NntpCommand;
use crate::types::response::BinaryArticle;
use crate::types::response::Body;
use crate::types::response::Capabilities;
use crate::types::response::Group;
use crate::types::response::Head;
use crate::types::response::Stat;
use std::time::Duration;
use vstd::prelude::*;
use vstd::string::StringExecFns;

verus! {

/// The settings of a client.
#[derive(Clone, Debug)]
pub struct ClientConfig {
    tls_config: Option<TlsConfig>,
    authinfo: Option<(String, String)>,
    group: Option<String>,
    read_timeout: Option<Duration>,
}

/// The settings of a client, as plain values.
pub struct ClientConfigView {
    /// The TLS settings, where the client uses TLS
    pub tls_config: Option<TlsConfig>,
    /// The user name and the password, where the client authenticates
    pub authinfo: Option<(Seq<char>, Seq<char>)>,
    /// The group that is selected when the session starts
    pub group: Option<Seq<char>>,
    /// The time after which a read fails
    pub read_timeout: Option<Duration>,
}

impl View for ClientConfig {
    type V = ClientConfigView;

    closed spec fn view(&self) -> ClientConfigView {
        ClientConfigView {
            tls_config: self.tls_config,
            authinfo: match self.authinfo {
                Some((user, pass)) => Some((user@, pass@)),
                None => None,
            },
            group: match self.group {
                Some(name) => Some(name@),
                None => None,
            },
            read_timeout: self.read_timeout,
        }
    }
}

/// The settings of a client that nobody has changed: no TLS, no credentials,
/// no group, no timeout.
pub open spec fn default_client_config() -> ClientConfigView {
    ClientConfigView { tls_config: None, authinfo: None, group: None, read_timeout: None }
}

impl Default for ClientConfig {
    fn default() -> (config: Self)
        ensures
            config@ == default_client_config(),
    {
        ClientConfig { tls_config: None, authinfo: None, group: None, read_timeout: None }
    }
}

impl ClientConfig {
    /// The default settings.
    pub fn new() -> (config: ClientConfig)
        ensures
            config@ == default_client_config(),
    {
        ClientConfig { tls_config: None, authinfo: None, group: None, read_timeout: None }
    }

    /// Authenticate with a user name and a password when the session starts.
    pub fn authinfo_user_pass(&mut self, username: String, password: String) -> (r: &mut Self)
        ensures
            r@ == (ClientConfigView { authinfo: Some((username@, password@)), ..old(self)@ }),
            *final(self) == *final(r),
    {
        self.authinfo = Some((username, password));
        self
    }

    /// Use TLS with these settings.
    pub fn tls_config(&mut self, config: TlsConfig) -> (r: &mut Self)
        ensures
            r@ == (ClientConfigView { tls_config: Some(config), ..old(self)@ }),
            *final(self) == *final(r),
    {
        self.tls_config = Some(config);
        self
    }

    /// Use TLS with the default settings of the machine, with `domain` as the
    /// name that the server's certificate has to bear. Where the machine's TLS
    /// backend cannot make a connector, the settings stay as they are and the
    /// TLS error is returned as an error of the connection.
    pub fn default_tls(&mut self, domain: String) -> (r: Result<&mut Self, Error>)
        ensures
            match r {
                Ok(config) => {
                    &&& config@.tls_config matches Some(tls)
                    &&& tls.spec_domain() == domain@
                    &&& config@ == (ClientConfigView {
                        tls_config: config@.tls_config,
                        ..old(self)@
                    })
                    &&& *final(self) == *final(config)
                },
                Err(e) => e matches Error::Connection(c) && c is Tls && final(self)@ == old(self)@,
            },
    {
        match TlsConfig::default_connector(domain.as_str()) {
            Ok(tls) => {
                self.tls_config = Some(tls);
                Ok(self)
            },
            Err(e) => Err(Error::Connection(e)),
        }
    }

    /// Select this group when the session starts; with `None`, no group is
    /// selected then.
    pub fn group(&mut self, name: Option<&str>) -> (r: &mut Self)
        ensures
            r@ == (ClientConfigView {
                group: match name {
                    Some(n) => Some(n@),
                    None => None,
                },
                ..old(self)@
            }),
            *final(self) == *final(r),
    {
        self.group = match name {
            Some(n) => Some(String::from_str(n)),
            None => None,
        };
        self
    }

    /// Sets the time after which a read fails; `None` is no limit.
    pub fn read_timeout(&mut self, duration: Option<Duration>) -> (r: &mut Self)
        ensures
            r@ == (ClientConfigView { read_timeout: duration, ..old(self)@ }),
            *final(self) == *final(r),
    {
        self.read_timeout = duration;
        self
    }

    /// The TLS settings, where the client uses TLS.
    pub fn get_tls_config(&self) -> (tls: Option<&TlsConfig>)
        ensures
            match tls {
                Some(t) => self@.tls_config == Some(*t),
                None => self@.tls_config is None,
            },
    {
        self.tls_config.as_ref()
    }

    /// The user name and the password, where the client authenticates.
    pub fn get_authinfo(&self) -> (authinfo: Option<(&str, &str)>)
        ensures
            match authinfo {
                Some((user, pass)) => self@.authinfo == Some((user@, pass@)),
                None => self@.authinfo is None,
            },
    {
        match &self.authinfo {
            Some((user, pass)) => Some((user.as_str(), pass.as_str())),
            None => None,
        }
    }

    /// The group that is selected when the session starts.
    pub fn get_group(&self) -> (group: Option<&str>)
        ensures
            match group {
                Some(name) => self@.group == Some(name@),
                None => self@.group is None,
            },
    {
        match &self.group {
            Some(name) => Some(name.as_str()),
            None => None,
        }
    }

    /// The time after which a read fails.
    pub fn get_read_timeout(&self) -> (dur: Option<Duration>)
        ensures
            dur == self@.read_timeout,
    {
        self.read_timeout
    }
}

/// What the server's answer to the user name of the credentials means: the
/// exchange goes on where the code asks for the password, and has failed with
/// any other code.
pub open spec fn user_accepted(resp: RawResponse, r: Result<(), Error>) -> bool {
    if resp.spec_code() == response_code_of(381) {
        r is Ok
    } else {
        r matches Err(e) && e.is_failure(resp, Some("AUTHINFO USER failed"@))
    }
}

/// What the server's answer to the password of the credentials means: the
/// client is authenticated where the code says so, and the exchange has failed
/// with any other code.
pub open spec fn pass_accepted(resp: RawResponse, r: Result<(), Error>) -> bool {
    if resp.spec_code() == ResponseCode::Known(Kind::AuthenticationAccepted) {
        r is Ok
    } else {
        r matches Err(e) && e.is_failure(resp, Some("AUTHINFO PASS failed"@))
    }
}

/// Judges the server's answer to the user name of the credentials.
pub fn check_auth_user(resp: RawResponse) -> (r: Result<(), Error>)
    ensures
        user_accepted(resp, r),
{
    if resp.code() != ResponseCode::from(381) {
        Err(
            Error::Failure {
                code: resp.code(),
                resp,
                msg: Some(String::from_str("AUTHINFO USER failed")),
            },
        )
    } else {
        Ok(())
    }
}

/// Judges the server's answer to the password of the credentials.
pub fn check_auth_pass(resp: RawResponse) -> (r: Result<(), Error>)
    ensures
        pass_accepted(resp, r),
{
    if resp.code() != ResponseCode::Known(Kind::AuthenticationAccepted) {
        Err(
            Error::Failure {
                code: resp.code(),
                resp,
                msg: Some(String::from_str("AUTHINFO PASS failed")),
            },
        )
    } else {
        Ok(())
    }
}

/// What the server's answer to a request for its capabilities means: the
/// capabilities that the response holds where its code says that they follow,
/// and a failure with any other code.
pub open spec fn capabilities_got(resp: RawResponse, r: Result<Capabilities, Error>) -> bool {
    if resp.spec_code() != ResponseCode::Known(Kind::Capabilities) {
        r matches Err(e) && e.is_failure(resp, None)
    } else {
        Capabilities::decoded(resp, r)
    }
}

/// Judges the server's answer to a request for its capabilities.
pub fn get_capabilities(resp: RawResponse) -> (r: Result<Capabilities, Error>)
    ensures
        capabilities_got(resp, r),
{
    if resp.code() != ResponseCode::Known(Kind::Capabilities) {
        Err(Error::failure(resp))
    } else {
        Capabilities::try_from(&resp)
    }
}

/// What the server's answer to the selection of a group means: the group
/// that the status line holds where the code says that the group is selected;
/// a failure without a message where the code says that there is no such
/// group; and with any other code a failure whose message is the status line.
pub open spec fn group_selected(resp: RawResponse, r: Result<Group, Error>) -> bool {
    if resp.spec_code() == ResponseCode::Known(Kind::GroupSelected) {
        Group::decoded(resp, r)
    } else if resp.spec_code() == ResponseCode::Known(Kind::NoSuchNewsgroup) {
        r matches Err(e) && e.is_failure(resp, None)
    } else {
        r matches Err(e) && e.is_failure(resp, Some(text_of(resp.spec_first_line())))
    }
}

/// Judges the server's answer to the selection of a group.
pub fn select_group(resp: RawResponse) -> (r: Result<Group, Error>)
    ensures
        group_selected(resp, r),
{
    let code = resp.code();
    if code == ResponseCode::Known(Kind::GroupSelected) {
        Group::try_from(&resp)
    } else if code == ResponseCode::Known(Kind::NoSuchNewsgroup) {
        Err(Error::failure(resp))
    } else {
        let msg = resp.first_line_to_utf8_lossy();
        Err(Error::Failure { code, resp, msg: Some(msg) })
    }
}

/// What the server's answer to a question for an article means: the status of
/// the article where the code says that it exists; `None` where the code says
/// that there is no such article; and a failure with any other code.
pub open spec fn stat_got(resp: RawResponse, r: Result<Option<Stat>, Error>) -> bool {
    let code = resp.spec_code();
    if code == ResponseCode::Known(Kind::ArticleExists) {
        match r {
            Ok(Some(stat)) => Stat::decoded(resp, Ok(stat)),
            Ok(None) => false,
            Err(e) => Stat::decoded(resp, Err(e)),
        }
    } else if code == ResponseCode::Known(Kind::NoArticleWithMessageId) || code
        == ResponseCode::Known(Kind::InvalidCurrentArticleNumber) || code == ResponseCode::Known(
        Kind::NoArticleWithNumber,
    ) {
        r matches Ok(None)
    } else {
        r matches Err(e) && e.is_failure(resp, None)
    }
}

/// What a typed decoder makes of a response whose code is checked first: a
/// failure where the code is not that of `kind`, and else what the decoder
/// gives.
pub open spec fn kind_or_failure<T>(
    resp: RawResponse,
    kind: Kind,
    r: Result<T, Error>,
    decoded: bool,
) -> bool {
    if resp.spec_code() != ResponseCode::Known(kind) {
        r matches Err(e) && e.is_failure(resp, None)
    } else {
        decoded
    }
}

/// The command that the client sends next while its session starts.
#[derive(Clone, Debug)]
pub enum Request {
    /// The user name or the password of the credentials
    Auth(AuthInfo),
    /// The request for the capabilities of the server
    Capabilities,
    /// The selection of the group with this name
    Group(String),
}

impl Encode for Request {
    open spec fn wire(&self) -> Seq<u8> {
        match self {
            Request::Auth(auth) => auth.wire(),
            Request::Capabilities => crate::types::command::Capabilities.wire(),
            Request::Group(name) => crate::types::command::Group(*name).wire(),
        }
    }

    fn encode(&self) -> (bytes: Vec<u8>) {
        match self {
            Request::Auth(auth) => auth.encode(),
            Request::Capabilities => crate::types::command::Capabilities.encode(),
            Request::Group(name) => crate::types::command::Group(name.clone()).encode(),
        }
    }
}

impl NntpCommand for Request {

}

/// The answer that the start of a session waits for.
#[derive(Clone, Copy, Debug, PartialEq, Eq, Structural)]
pub enum Stage {
    /// The answer to the user name
    AwaitUser,
    /// The answer to the password
    AwaitPass,
    /// The answer to the request for the capabilities
    AwaitCapabilities,
    /// The answer to the selection of the group
    AwaitGroup,
}

/// The start of a session, after the greeting of the server: the credentials
/// are sent where the settings hold any, then the capabilities are asked for,
/// then the group is selected where the settings name one.
#[derive(Debug)]
pub struct Handshake {
    config: ClientConfig,
    stage: Stage,
    capabilities: Option<Capabilities>,
}

/// How the start of a session goes on after an answer.
#[derive(Debug)]
pub enum HandshakeStep {
    /// The next command is to be sent, and its answer handed to the handshake
    Send { handshake: Handshake, request: Request },
    /// The session has started
    Ready(NntpClient),
}

impl Handshake {
    /// The settings of the client.
    pub closed spec fn spec_config(&self) -> ClientConfig {
        self.config
    }

    /// The answer that the handshake waits for.
    pub closed spec fn spec_stage(&self) -> Stage {
        self.stage
    }

    /// The capabilities, once the server has sent them.
    pub closed spec fn spec_capabilities(&self) -> Option<Capabilities> {
        self.capabilities
    }

    /// The handshake is well formed: it holds the capabilities just when it
    /// waits for the answer to the selection of the group, and waits for an
    /// answer to credentials or to the selection of a group only where the
    /// settings hold them.
    pub open spec fn wf(&self) -> bool {
        &&& self.spec_capabilities() is Some <==> self.spec_stage() is AwaitGroup
        &&& self.spec_stage() is AwaitUser || self.spec_stage() is AwaitPass
            ==> self.spec_config()@.authinfo is Some
        &&& self.spec_stage() is AwaitGroup ==> self.spec_config()@.group is Some
    }

    #[verifier::type_invariant]
    spec fn inv(&self) -> bool {
        self.wf()
    }

    /// `request` is the command whose answer the stage `stage` waits for,
    /// with the user name, the password or the group of the settings.
    pub open spec fn asks(stage: Stage, request: Request, config: ClientConfigView) -> bool {
        match stage {
            Stage::AwaitUser => {
                &&& request matches Request::Auth(AuthInfo::User(user))
                &&& config.authinfo matches Some((wanted, _))
                &&& user@ == wanted
            },
            Stage::AwaitPass => {
                &&& request matches Request::Auth(AuthInfo::Pass(pass))
                &&& config.authinfo matches Some((_, wanted))
                &&& pass@ == wanted
            },
            Stage::AwaitCapabilities => request is Capabilities,
            Stage::AwaitGroup => request matches Request::Group(name) && config.group == Some(
                name@,
            ),
        }
    }

    /// Starts a session with the settings `config`, after the greeting of the
    /// server has been read. The first command is the user name where the
    /// settings hold credentials, and else the request for the capabilities.
    pub fn begin(config: ClientConfig) -> (r: (Handshake, Request))
        ensures
            r.0.wf(),
            r.0.spec_config() == config,
            r.0.spec_stage() == if config@.authinfo is Some {
                Stage::AwaitUser
            } else {
                Stage::AwaitCapabilities
            },
            Handshake::asks(r.0.spec_stage(), r.1, config@),
    {
        let first = match &config.authinfo {
            Some((user, _)) => Some(user.clone()),
            None => None,
        };
        match first {
            Some(user) => (
                Handshake { config, stage: Stage::AwaitUser, capabilities: None },
                Request::Auth(AuthInfo::User(user)),
            ),
            None => (
                Handshake { config, stage: Stage::AwaitCapabilities, capabilities: None },
                Request::Capabilities,
            ),
        }
    }

    /// What the handshake makes of the answer `resp` to its last command.
    pub open spec fn advanced(self, resp: RawResponse, r: Result<HandshakeStep, Error>) -> bool {
        let config = self.spec_config();
        match self.spec_stage() {
            Stage::AwaitUser => if resp.spec_code() == response_code_of(381) {
                &&& r matches Ok(HandshakeStep::Send { handshake, request })
                &&& handshake.spec_config() == config
                &&& handshake.spec_stage() == Stage::AwaitPass
                &&& Handshake::asks(Stage::AwaitPass, request, config@)
            } else {
                r matches Err(e) && user_accepted(resp, Err(e))
            },
            Stage::AwaitPass => if resp.spec_code() == ResponseCode::Known(
                Kind::AuthenticationAccepted,
            ) {
                &&& r matches Ok(HandshakeStep::Send { handshake, request })
                &&& handshake.spec_config() == config
                &&& handshake.spec_stage() == Stage::AwaitCapabilities
                &&& Handshake::asks(Stage::AwaitCapabilities, request, config@)
            } else {
                r matches Err(e) && pass_accepted(resp, Err(e))
            },
            Stage::AwaitCapabilities => match r {
                Err(e) => capabilities_got(resp, Err(e)),
                Ok(HandshakeStep::Send { handshake, request }) => {
                    &&& config@.group is Some
                    &&& handshake.spec_config() == config
                    &&& handshake.spec_stage() == Stage::AwaitGroup
                    &&& handshake.spec_capabilities() matches Some(c)
                    &&& capabilities_got(resp, Ok(c))
                    &&& Handshake::asks(Stage::AwaitGroup, request, config@)
                },
                Ok(HandshakeStep::Ready(client)) => {
                    &&& config@.group is None
                    &&& client.spec_config() == config
                    &&& client.spec_group() is None
                    &&& capabilities_got(resp, Ok(client.spec_capabilities()))
                },
            },
            Stage::AwaitGroup => match r {
                Err(e) => group_selected(resp, Err(e)),
                Ok(HandshakeStep::Send { handshake, request }) => false,
                Ok(HandshakeStep::Ready(client)) => {
                    &&& client.spec_config() == config
                    &&& Some(client.spec_capabilities()) == self.spec_capabilities()
                    &&& client.spec_group() matches Some(g)
                    &&& group_selected(resp, Ok(g))
                },
            },
        }
    }

    /// Takes the answer to the last command. Gives the next command to send,
    /// or the client when the session has started, or the error that ends the
    /// attempt.
    pub fn advance(self, resp: RawResponse) -> (r: Result<HandshakeStep, Error>)
        ensures
            self.advanced(resp, r),
            r matches Ok(HandshakeStep::Send { handshake, request }) ==> handshake.wf(),
    {
        proof {
            use_type_invariant(&self);
        }
        let Handshake { config, stage, capabilities } = self;
        match stage {
            Stage::AwaitUser => {
                match check_auth_user(resp) {
                    Ok(()) => {},
                    Err(e) => {
                        return Err(e);
                    },
                }
                let pass = match &config.authinfo {
                    Some((_, pass)) => pass.clone(),
                    None => String::new(),
                };
                Ok(
                    HandshakeStep::Send {
                        handshake: Handshake { config, stage: Stage::AwaitPass, capabilities: None },
                        request: Request::Auth(AuthInfo::Pass(pass)),
                    },
                )
            },
            Stage::AwaitPass => {
                match check_auth_pass(resp) {
                    Ok(()) => {},
                    Err(e) => {
                        return Err(e);
                    },
                }
                Ok(
                    HandshakeStep::Send {
                        handshake: Handshake {
                            config,
                            stage: Stage::AwaitCapabilities,
                            capabilities: None,
                        },
                        request: Request::Capabilities,
                    },
                )
            },
            Stage::AwaitCapabilities => {
                let found = match get_capabilities(resp) {
                    Ok(found) => found,
                    Err(e) => {
                        return Err(e);
                    },
                };
                let name = match &config.group {
                    Some(name) => Some(name.clone()),
                    None => None,
                };
                match name {
                    Some(name) => Ok(
                        HandshakeStep::Send {
                            handshake: Handshake {
                                config,
                                stage: Stage::AwaitGroup,
                                capabilities: Some(found),
                            },
                            request: Request::Group(name),
                        },
                    ),
                    None => Ok(
                        HandshakeStep::Ready(NntpClient { config, capabilities: found, group: None }),
                    ),
                }
            },
            Stage::AwaitGroup => {
                let group = match select_group(resp) {
                    Ok(group) => group,
                    Err(e) => {
                        return Err(e);
                    },
                };
                match capabilities {
                    Some(found) => Ok(
                        HandshakeStep::Ready(
                            NntpClient { config, capabilities: found, group: Some(group) },
                        ),
                    ),
                    None => Err(Error::de("Missing capabilities")),
                }
            },
        }
    }
}

/// The state of a session: the settings, the capabilities that the server has
/// advertised, and the group that was selected last. The one who holds the
/// connection sends the commands and hands the answers to this state.
#[derive(Debug)]
pub struct NntpClient {
    config: ClientConfig,
    capabilities: Capabilities,
    group: Option<Group>,
}

/// A copy of `g`.
pub fn clone_group(g: &Group) -> (copy: Group)
    ensures
        copy.number == g.number,
        copy.low == g.low,
        copy.high == g.high,
        copy.name@ == g.name@,
{
    Group { number: g.number, low: g.low, high: g.high, name: g.name.clone() }
}

impl NntpClient {
    /// The settings of the client.
    pub closed spec fn spec_config(&self) -> ClientConfig {
        self.config
    }

    /// The capabilities that the server has advertised.
    pub closed spec fn spec_capabilities(&self) -> Capabilities {
        self.capabilities
    }

    /// The group that was selected last.
    pub closed spec fn spec_group(&self) -> Option<Group> {
        self.group
    }

    /// The settings of the client.
    pub fn config(&self) -> (config: &ClientConfig)
        ensures
            *config == self.spec_config(),
    {
        &self.config
    }

    /// The group that was selected last.
    pub fn group(&self) -> (group: Option<&Group>)
        ensures
            match group {
                Some(g) => self.spec_group() == Some(*g),
                None => self.spec_group() is None,
            },
    {
        self.group.as_ref()
    }

    /// The capabilities that are kept in the client.
    pub fn capabilities(&self) -> (capabilities: &Capabilities)
        ensures
            *capabilities == self.spec_capabilities(),
    {
        &self.capabilities
    }

    /// Takes the answer to the selection of a group. Where the group is
    /// selected, it is kept as the group that was selected last; else the
    /// state stays as it is.
    pub fn select_group(&mut self, resp: RawResponse) -> (r: Result<Group, Error>)
        ensures
            group_selected(resp, r),
            final(self).spec_config() == old(self).spec_config(),
            final(self).spec_capabilities() == old(self).spec_capabilities(),
            match r {
                Ok(group) => final(self).spec_group() matches Some(kept) && kept.number
                    == group.number && kept.low == group.low && kept.high == group.high
                    && kept.name@ == group.name@,
                Err(_) => final(self).spec_group() == old(self).spec_group(),
            },
    {
        match select_group(resp) {
            Ok(group) => {
                self.group = Some(clone_group(&group));
                Ok(group)
            },
            Err(e) => Err(e),
        }
    }

    /// Takes the answer to a request for the capabilities. Where the response
    /// holds them, they take the place of those that were kept; else the state
    /// stays as it is.
    pub fn update_capabilities(&mut self, resp: RawResponse) -> (r: Result<(), Error>)
        ensures
            final(self).spec_config() == old(self).spec_config(),
            final(self).spec_group() == old(self).spec_group(),
            match r {
                Ok(()) => capabilities_got(resp, Ok(final(self).spec_capabilities())),
                Err(e) => capabilities_got(resp, Err(e)) && final(self).spec_capabilities() == old(
                    self,
                ).spec_capabilities(),
            },
    {
        match get_capabilities(resp) {
            Ok(found) => {
                self.capabilities = found;
                Ok(())
            },
            Err(e) => Err(e),
        }
    }

    /// Takes the answer to a request for an article: a failure unless the code
    /// says that an article follows, and else the article that is decoded from
    /// the response.
    pub fn article(&self, resp: RawResponse) -> (r: Result<BinaryArticle, Error>)
        ensures
            kind_or_failure(resp, Kind::Article, r, BinaryArticle::decoded(resp, r)),
    {
        match resp.fail_unless(Kind::Article) {
            Ok(resp) => BinaryArticle::try_from(&resp),
            Err(e) => Err(e),
        }
    }

    /// Takes the answer to a request for the body of an article: a failure
    /// unless the code says that a body follows, and else the body that is
    /// decoded from the response.
    pub fn body(&self, resp: RawResponse) -> (r: Result<Body, Error>)
        ensures
            kind_or_failure(resp, Kind::Body, r, Body::decoded(resp, r)),
    {
        match resp.fail_unless(Kind::Body) {
            Ok(resp) => Body::try_from(&resp),
            Err(e) => Err(e),
        }
    }

    /// Takes the answer to a request for the headers of an article: a failure
    /// unless the code says that headers follow, and else the headers that are
    /// decoded from the response.
    pub fn head(&self, resp: RawResponse) -> (r: Result<Head, Error>)
        ensures
            kind_or_failure(resp, Kind::Head, r, Head::decoded(resp, r)),
    {
        match resp.fail_unless(Kind::Head) {
            Ok(resp) => Head::try_from(&resp),
            Err(e) => Err(e),
        }
    }

    /// Takes the answer to a question for an article.
    pub fn stat(&self, resp: RawResponse) -> (r: Result<Option<Stat>, Error>)
        ensures
            stat_got(resp, r),
    {
        let code = resp.code();
        if code == ResponseCode::Known(Kind::ArticleExists) {
            match Stat::try_from(&resp) {
                Ok(stat) => Ok(Some(stat)),
                Err(e) => Err(e),
            }
        } else if code == ResponseCode::Known(Kind::NoArticleWithMessageId) || code
            == ResponseCode::Known(Kind::InvalidCurrentArticleNumber) || code
            == ResponseCode::Known(Kind::NoArticleWithNumber) {
            Ok(None)
        } else {
            Err(Error::failure(resp))
        }
    }

    /// Takes the answer to the command that closes the connection: the
    /// response where its code says that the connection is closing, and else a
    /// failure.
    pub fn close(&self, resp: RawResponse) -> (r: Result<RawResponse, Error>)
        ensures
            match r {
                Ok(closing) => resp.spec_code() == ResponseCode::Known(Kind::ConnectionClosing)
                    && closing == resp,
                Err(e) => resp.spec_code() != ResponseCode::Known(Kind::ConnectionClosing)
                    && e.is_failure(resp, None),
            },
    {
        resp.fail_unless(Kind::ConnectionClosing)
    }
}

} // verus!
