use crate::raw::compression::zlib_inflated;
use crate::raw::compression::Compression;
use crate::raw::error::Error;
use crate::raw::parse::is_end_of_datablock;
use crate::raw::parse::is_first_line;
use crate::raw::parse::is_line;
use crate::raw::parse::parse_data_block_line;
use crate::raw::parse::parse_first_line;
use crate::raw::parse::CR;
use crate::raw::parse::LF;
use crate::raw::response::all_block_lines;
use crate::raw::response::boundaries_tile;
use crate::raw::response::first_line_code;
use crate::raw::response::is_block_line;
use crate::raw::response::is_data_block_section;
use crate::raw::response::line_of;
use crate::raw::response::terminator_line;
use crate::raw::response::DataBlocks;
use crate::raw::response::RawResponse;
use crate::raw::stream::lemma_until_len;
use crate::raw::stream::until_len;
use crate::raw::stream::ByteStream;
use crate::response_code::response_code_is_multiline;
use crate::response_code::ResponseCode;
use crate::types::command::NntpCommand;
use std::time::Duration;
use vstd::prelude::*;
use vstd::slice::slice_to_vec;
use vstd::string::StringExecFns;

verus! {

/// `Vec::shrink_to_fit`: the contents stay as they are.
#[verifier::external_body]
fn shrink_to_fit(v: &mut Vec<u8>)
    ensures
        final(v)@ == old(v)@,
{
    v.shrink_to_fit()
}

/// TLS configuration of a connection: the connector, and the domain against
/// which the server's certificate is validated.
#[derive(Clone, Debug)]
pub struct TlsConfig {
    connector: native_tls::TlsConnector,
    domain: String,
}

impl TlsConfig {
    /// The domain against which the server's certificate is validated.
    pub closed spec fn spec_domain(&self) -> Seq<char> {
        self.domain@
    }

    /// The connector of the configuration.
    pub closed spec fn spec_connector(&self) -> native_tls::TlsConnector {
        self.connector
    }

    /// A configuration with the given connector.
    pub fn new(domain: String, connector: native_tls::TlsConnector) -> (config: Self)
        ensures
            config.spec_domain() == domain@,
            config.spec_connector() == connector,
    {
        TlsConfig { connector, domain }
    }

    /// A configuration with the default TLS settings of the machine. Fails
    /// with a TLS error where the machine's TLS backend cannot make a
    /// connector.
    pub fn default_connector(domain: &str) -> (r: Result<Self, Error>)
        ensures
            match r {
                Ok(config) => config.spec_domain() == domain@,
                Err(e) => e is Tls,
            },
    {
        match crate::raw::tls::new_tls_connector() {
            Ok(connector) => Ok(TlsConfig { connector, domain: String::from_str(domain) }),
            Err(msg) => Err(Error::Tls(msg)),
        }
    }

    /// The connector of the configuration.
    pub fn connector(&self) -> (connector: &native_tls::TlsConnector)
        ensures
            *connector == self.spec_connector(),
    {
        &self.connector
    }

    /// The domain against which the server's certificate is validated.
    pub fn domain(&self) -> (domain: &str)
        ensures
            domain@ == self.spec_domain(),
    {
        self.domain.as_str()
    }
}

/// The settings of a connection.
#[derive(Clone, Debug)]
pub struct ConnectionConfig {
    pub(crate) compression: Option<Compression>,
    pub(crate) tls_config: Option<TlsConfig>,
    pub(crate) read_timeout: Option<Duration>,
    pub(crate) write_timeout: Option<Duration>,
    pub(crate) first_line_buf_size: usize,
    pub(crate) data_blocks_buf_size: usize,
}

/// The settings of a connection, as plain values.
pub struct ConnectionConfigView {
    /// The kind of compression that the connection looks for
    pub compression: Option<Compression>,
    /// The TLS settings, where the connection uses TLS
    pub tls_config: Option<TlsConfig>,
    /// The time after which a read fails
    pub read_timeout: Option<Duration>,
    /// The time after which a write fails
    pub write_timeout: Option<Duration>,
    /// The size to which the buffer of the first line is cut back
    pub first_line_buf_size: usize,
    /// The size to which the buffer of the data blocks is cut back
    pub data_blocks_buf_size: usize,
}

impl View for ConnectionConfig {
    type V = ConnectionConfigView;

    closed spec fn view(&self) -> ConnectionConfigView {
        ConnectionConfigView {
            compression: self.compression,
            tls_config: self.tls_config,
            read_timeout: self.read_timeout,
            write_timeout: self.write_timeout,
            first_line_buf_size: self.first_line_buf_size,
            data_blocks_buf_size: self.data_blocks_buf_size,
        }
    }
}

/// The settings of a connection that nobody has changed: no compression, no
/// TLS, no timeouts, 128 bytes for the first line and 16 KiB for data blocks.
pub open spec fn default_connection_config() -> ConnectionConfigView {
    ConnectionConfigView {
        compression: None,
        tls_config: None,
        read_timeout: None,
        write_timeout: None,
        first_line_buf_size: 128,
        data_blocks_buf_size: 16384,
    }
}

impl Default for ConnectionConfig {
    fn default() -> (config: Self)
        ensures
            config@ == default_connection_config(),
    {
        ConnectionConfig {
            compression: None,
            tls_config: None,
            read_timeout: None,
            write_timeout: None,
            first_line_buf_size: 128,
            data_blocks_buf_size: 16 * 1024,
        }
    }
}

impl ConnectionConfig {
    /// The default settings.
    pub fn new() -> (config: ConnectionConfig)
        ensures
            config@ == default_connection_config(),
    {
        ConnectionConfig {
            compression: None,
            tls_config: None,
            read_timeout: None,
            write_timeout: None,
            first_line_buf_size: 128,
            data_blocks_buf_size: 16 * 1024,
        }
    }

    /// Sets the kind of compression that the connection looks for.
    pub fn compression(&mut self, compression: Option<Compression>) -> (r: &mut Self)
        ensures
            r@ == (ConnectionConfigView { compression, ..old(self)@ }),
            *final(self) == *final(r),
    {
        self.compression = compression;
        self
    }

    /// Sets the TLS settings; `None` is a connection without TLS.
    pub fn tls_config(&mut self, config: Option<TlsConfig>) -> (r: &mut Self)
        ensures
            r@ == (ConnectionConfigView { tls_config: config, ..old(self)@ }),
            *final(self) == *final(r),
    {
        self.tls_config = config;
        self
    }

    /// Sets the TLS settings to the defaults of the machine, with `domain` as
    /// the name that the server's certificate has to bear. Where the machine's
    /// TLS backend cannot make a connector, the settings stay as they are and
    /// the TLS error is returned.
    pub fn default_tls(&mut self, domain: &str) -> (r: Result<&mut Self, Error>)
        ensures
            match r {
                Ok(config) => {
                    &&& config@.tls_config matches Some(tls)
                    &&& tls.spec_domain() == domain@
                    &&& config@ == (ConnectionConfigView {
                        tls_config: config@.tls_config,
                        ..old(self)@
                    })
                    &&& *final(self) == *final(config)
                },
                Err(e) => e is Tls && final(self)@ == old(self)@,
            },
    {
        match TlsConfig::default_connector(domain) {
            Ok(tls) => {
                self.tls_config = Some(tls);
                Ok(self)
            },
            Err(e) => Err(e),
        }
    }

    /// Sets the time after which a read fails; `None` is no limit.
    pub fn read_timeout(&mut self, dur: Option<Duration>) -> (r: &mut Self)
        ensures
            r@ == (ConnectionConfigView { read_timeout: dur, ..old(self)@ }),
            *final(self) == *final(r),
    {
        self.read_timeout = dur;
        self
    }

    /// Sets the size to which the buffer of the first line is cut back after
    /// every response.
    pub fn first_line_buf_size(&mut self, s: usize) -> (r: &mut Self)
        ensures
            r@ == (ConnectionConfigView { first_line_buf_size: s, ..old(self)@ }),
            *final(self) == *final(r),
    {
        self.first_line_buf_size = s;
        self
    }

    /// Sets the size to which the buffer of the data blocks is cut back after
    /// every response.
    pub fn data_blocks_buf_size(&mut self, s: usize) -> (r: &mut Self)
        ensures
            r@ == (ConnectionConfigView { data_blocks_buf_size: s, ..old(self)@ }),
            *final(self) == *final(r),
    {
        self.data_blocks_buf_size = s;
        self
    }

    /// The kind of compression that the connection looks for.
    pub fn get_compression(&self) -> (compression: Option<Compression>)
        ensures
            compression == self@.compression,
    {
        self.compression
    }

    /// The TLS settings, where the connection uses TLS.
    pub fn get_tls_config(&self) -> (tls: Option<&TlsConfig>)
        ensures
            match tls {
                Some(t) => self@.tls_config == Some(*t),
                None => self@.tls_config is None,
            },
    {
        self.tls_config.as_ref()
    }

    /// The time after which a read fails.
    pub fn get_read_timeout(&self) -> (dur: Option<Duration>)
        ensures
            dur == self@.read_timeout,
    {
        self.read_timeout
    }

    /// The time after which a write fails.
    pub fn get_write_timeout(&self) -> (dur: Option<Duration>)
        ensures
            dur == self@.write_timeout,
    {
        self.write_timeout
    }
}

/// Reading a data-block section from the front of `s`, line by line: whether a
/// whole section was found, and the number of bytes that were read, which end
/// with the terminator line or with the first line that broke the grammar.
pub open spec fn read_section(s: Seq<u8>) -> (bool, int)
    decreases s.len(),
{
    let n = until_len(s, LF);
    let line = s.subrange(0, n);
    if !is_line(line) {
        (false, n)
    } else if line == terminator_line() {
        (true, n)
    } else {
        proof {
            lemma_until_len(s, LF);
        }
        let (found, m) = read_section(s.subrange(n, s.len() as int));
        (found, n + m)
    }
}

/// The lines recorded so far of a section that is being read: they tile the
/// payload, each is one line as read, and none is the terminator line.
pub open spec fn is_partial_section(payload: Seq<u8>, bounds: Seq<(usize, usize)>) -> bool {
    &&& boundaries_tile(payload, bounds, 0)
    &&& all_block_lines(payload, bounds)
    &&& forall|i: int|
        0 <= i < bounds.len() ==> #[trigger] line_of(payload, bounds[i]) != terminator_line()
}

/// A line that was read up to the first line feed is one line of the grammar
/// just when it is one line as read.
pub proof fn lemma_line_as_read(s: Seq<u8>)
    ensures
        is_line(s.subrange(0, until_len(s, LF))) <==> is_block_line(
            s.subrange(0, until_len(s, LF)),
        ),
{
    lemma_until_len(s, LF);
    let l = s.subrange(0, until_len(s, LF));
    if is_block_line(l) {
        assert forall|j: int| 0 <= j < l.len() - 2 implies !crate::raw::parse::crlf_at(l, j) by {
            assert(l[j + 1] != LF);
        }
    }
    if is_line(l) {
        assert(crate::raw::parse::crlf_at(l, l.len() - 2));
    }
}

/// Adding one line as read to the lines recorded so far gives a whole section
/// where the line is the terminator line, and else the lines recorded so far
/// of a longer section.
pub proof fn lemma_push_line(payload: Seq<u8>, bounds: Seq<(usize, usize)>, line: Seq<u8>)
    requires
        is_partial_section(payload, bounds),
        is_block_line(line),
        payload.len() + line.len() <= usize::MAX,
    ensures
        ({
            let longer = payload + line;
            let marks = bounds.push((payload.len() as usize, (payload.len() + line.len()) as usize));
            &&& line == terminator_line() ==> is_data_block_section(longer, marks)
            &&& line != terminator_line() ==> is_partial_section(longer, marks)
        }),
{
    let longer = payload + line;
    let marks = bounds.push((payload.len() as usize, (payload.len() + line.len()) as usize));
    let last = bounds.len() as int;
    assert(line_of(longer, marks[last]) =~= line);
    assert forall|i: int| 0 <= i < bounds.len() implies line_of(longer, #[trigger] marks[i])
        == line_of(payload, bounds[i]) by {
        crate::raw::response::lemma_tile_in_range(payload, bounds, 0, i);
    }
    assert forall|i: int| 0 <= i < marks.len() implies is_block_line(
        #[trigger] line_of(longer, marks[i]),
    ) by {
        if i < last {
            assert(is_block_line(line_of(payload, bounds[i])));
        }
    }
    assert forall|i: int| 0 <= i < marks.len() - 1 implies (#[trigger] marks[i]).1 == marks[i
        + 1].0 by {
        if i < last - 1 {
            assert(bounds[i].1 == bounds[i + 1].0);
        }
    }
    assert forall|i: int| 0 <= i < marks.len() implies ((#[trigger] line_of(longer, marks[i])
        == terminator_line()) <==> (i == last && line == terminator_line())) by {
        if i < last {
            assert(line_of(payload, bounds[i]) != terminator_line());
        }
    }
}

/// Reads the first line of a response from `stream` into `buffer`, which is
/// emptied first, and gives the response code that the line carries. A line
/// that is no status line is a parse error.
pub fn read_initial_response(stream: &mut ByteStream<'_>, buffer: &mut Vec<u8>) -> (r: Result<
    ResponseCode,
    Error,
>)
    ensures
        final(buffer)@ == old(stream).remaining().subrange(
            0,
            until_len(old(stream).remaining(), LF),
        ),
        final(stream).remaining() == old(stream).remaining().subrange(
            until_len(old(stream).remaining(), LF),
            old(stream).remaining().len() as int,
        ),
        match r {
            Ok(code) => is_first_line(final(buffer)@) && code == first_line_code(final(buffer)@),
            Err(e) => !is_first_line(final(buffer)@) && e is Parse,
        },
{
    buffer.clear();
    stream.read_until(LF, buffer);
    status_line_code(buffer.as_slice())
}

/// The response code that the status line `line` carries; a parse error where
/// `line` is no status line.
pub fn status_line_code(line: &[u8]) -> (r: Result<ResponseCode, Error>)
    ensures
        match r {
            Ok(code) => is_first_line(line@) && code == first_line_code(line@),
            Err(e) => !is_first_line(line@) && e is Parse,
        },
{
    match parse_first_line(line) {
        Err(_) => Err(Error::Parse),
        Ok((_, parsed)) => {
            let hundreds: u16 = (parsed.code[0] - 0x30) as u16;
            let tens: u16 = (parsed.code[1] - 0x30) as u16;
            let units: u16 = (parsed.code[2] - 0x30) as u16;
            Ok(ResponseCode::from(hundreds * 100 + tens * 10 + units))
        },
    }
}

/// Reads a data-block section from `stream` into `buffer` and records in
/// `line_boundaries` where each line starts and ends. Both are emptied first.
/// Reading stops behind the terminator line, or behind the first line that is
/// not one terminated line, which is a parse error.
pub fn read_data_blocks(
    stream: &mut ByteStream<'_>,
    buffer: &mut Vec<u8>,
    line_boundaries: &mut Vec<(usize, usize)>,
) -> (r: Result<(), Error>)
    ensures
        final(buffer)@ == old(stream).remaining().subrange(
            0,
            read_section(old(stream).remaining()).1,
        ),
        final(stream).remaining() == old(stream).remaining().subrange(
            read_section(old(stream).remaining()).1,
            old(stream).remaining().len() as int,
        ),
        0 <= read_section(old(stream).remaining()).1 <= old(stream).remaining().len(),
        match r {
            Ok(()) => {
                &&& read_section(old(stream).remaining()).0
                &&& is_data_block_section(final(buffer)@, final(line_boundaries)@)
            },
            Err(e) => !read_section(old(stream).remaining()).0 && e is Parse,
        },
{
    buffer.clear();
    line_boundaries.clear();
    let ghost s = stream.remaining();
    let mut read_head: usize = 0;
    loop
        invariant
            s == old(stream).remaining(),
            read_head == buffer@.len(),
            read_head <= s.len(),
            buffer@ == s.subrange(0, read_head as int),
            stream.remaining() == s.subrange(read_head as int, s.len() as int),
            is_partial_section(buffer@, line_boundaries@),
            read_section(s) == (
                read_section(stream.remaining()).0,
                read_head + read_section(stream.remaining()).1,
            ),
        decreases s.len() - read_head + 1,
    {
        let ghost rest = stream.remaining();
        let ghost before = buffer@;
        let ghost marks = line_boundaries@;
        proof {
            lemma_until_len(rest, LF);
            lemma_line_as_read(rest);
        }
        let line = stream.take_until(LF);
        let bytes_read: usize = line.len();
        buffer.extend_from_slice(line);
        let end: usize = buffer.len();
        proof {
            assert(stream.remaining() =~= s.subrange(read_head + bytes_read, s.len() as int));
        }
        match parse_data_block_line(line) {
            Err(_) => {
                return Err(Error::Parse);
            },
            Ok((_, content)) => {
                line_boundaries.push((read_head, end));
                proof {
                    assert(line@ == rest.subrange(0, until_len(rest, LF)));
                    assert(is_block_line(line@));
                    lemma_push_line(before, marks, line@);
                    assert(buffer@ =~= before + line@);
                }
                read_head = end;
                if is_end_of_datablock(content) {
                    proof {
                        assert(content@.len() == 1);
                        assert(content@[0] == line@[0]);
                        assert(line@ =~= terminator_line());
                    }
                    return Ok(());
                }
                proof {
                    assert(line@ != terminator_line()) by {
                        if line@ == terminator_line() {
                            assert(content@ =~= seq![0x2eu8]);
                        }
                    }
                }
            },
        }
    }
}

/// Whether a data-block section follows a status line: as the caller says
/// where it says so, and else as the table says of the response code.
pub open spec fn expects_data_blocks(is_multiline: Option<bool>, code: ResponseCode) -> bool {
    match is_multiline {
        Some(multiline) => multiline,
        None => response_code_is_multiline(code),
    }
}

/// Whether the data-block section after the status line `line` is read through
/// the decoder: where a kind of compression is configured and the line ends
/// with its marker.
pub open spec fn reads_compressed(compression: Option<Compression>, line: Seq<u8>) -> bool {
    compression matches Some(c) && c.spec_use_decoder(line)
}

/// How the front of a stream of bytes is framed as one response.
pub enum Framing {
    /// A whole response: its first line, the payload of its data-block section
    /// where it has one, and the number of bytes of the stream that held it
    Response { first_line: Seq<u8>, payload: Option<Seq<u8>>, consumed: int },
    /// A line broke the wire grammar after `consumed` bytes had been read
    Malformed { consumed: int },
    /// The compressed section could not be inflated
    Undecodable { consumed: int },
}

/// How the front of the stream `s` is framed as one response.
pub open spec fn framing(
    s: Seq<u8>,
    is_multiline: Option<bool>,
    compression: Option<Compression>,
) -> Framing {
    let n = until_len(s, LF);
    let line = s.subrange(0, n);
    let after = s.subrange(n, s.len() as int);
    if !is_first_line(line) {
        Framing::Malformed { consumed: n }
    } else if !expects_data_blocks(is_multiline, first_line_code(line)) {
        Framing::Response { first_line: line, payload: None, consumed: n }
    } else if reads_compressed(compression, line) {
        match zlib_inflated(after) {
            None => Framing::Undecodable { consumed: n },
            Some((plain, used)) => {
                let (found, m) = read_section(plain);
                if found {
                    Framing::Response {
                        first_line: line,
                        payload: Some(plain.subrange(0, m)),
                        consumed: n + used,
                    }
                } else {
                    Framing::Malformed { consumed: n + used }
                }
            },
        }
    } else {
        let (found, m) = read_section(after);
        if found {
            Framing::Response {
                first_line: line,
                payload: Some(after.subrange(0, m)),
                consumed: n + m,
            }
        } else {
            Framing::Malformed { consumed: n + m }
        }
    }
}

/// One line as read is one line of the grammar, and reading up to the line
/// feed from bytes that start with it takes just the line.
pub proof fn lemma_block_line_is_read(line: Seq<u8>, rest: Seq<u8>)
    requires
        is_block_line(line),
    ensures
        is_line(line),
        until_len(line + rest, LF) == line.len(),
        (line + rest).subrange(0, line.len() as int) == line,
        (line + rest).subrange(line.len() as int, (line + rest).len() as int) == rest,
{
    let s = line + rest;
    crate::raw::stream::lemma_until_len_is(s, LF, line.len() as int);
    assert forall|j: int| 0 <= j < line.len() - 2 implies !crate::raw::parse::crlf_at(line, j) by {
        assert(line[j + 1] != LF);
    }
}

/// Reading a section from bytes that start with the lines of a section from
/// index `k` on takes just these lines.
pub proof fn lemma_read_section_of_lines(
    payload: Seq<u8>,
    bounds: Seq<(usize, usize)>,
    rest: Seq<u8>,
    k: int,
)
    requires
        is_data_block_section(payload, bounds),
        0 <= k < bounds.len(),
    ensures
        read_section(payload.subrange(bounds[k].0 as int, payload.len() as int) + rest) == (
            true,
            payload.len() - bounds[k].0,
        ),
    decreases bounds.len() - k,
{
    crate::raw::response::lemma_tile_in_range(payload, bounds, 0, k);
    let start = bounds[k].0 as int;
    let end = bounds[k].1 as int;
    let line = line_of(payload, bounds[k]);
    let tail = payload.subrange(end, payload.len() as int) + rest;
    let s = payload.subrange(start, payload.len() as int) + rest;
    assert(s =~= line + tail);
    lemma_block_line_is_read(line, tail);
    if k < bounds.len() - 1 {
        lemma_read_section_of_lines(payload, bounds, rest, k + 1);
    } else {
        assert(end == payload.len());
    }
}

/// A status line, the lines of a section and whatever follows them frame as
/// the response with that status line and with the section as its payload,
/// where a section is expected and no compression is configured. So the
/// response that is read at once from the bytes is the response that is read
/// from them line by line.
pub proof fn lemma_framing_of_section(
    line: Seq<u8>,
    payload: Seq<u8>,
    bounds: Seq<(usize, usize)>,
    rest: Seq<u8>,
    is_multiline: Option<bool>,
)
    requires
        is_first_line(line),
        is_block_line(line),
        expects_data_blocks(is_multiline, first_line_code(line)),
        is_data_block_section(payload, bounds),
    ensures
        framing(line + payload + rest, is_multiline, None) == (Framing::Response {
            first_line: line,
            payload: Some(payload),
            consumed: (line.len() + payload.len()) as int,
        }),
{
    let s = line + payload + rest;
    assert(s =~= line + (payload + rest));
    lemma_block_line_is_read(line, payload + rest);
    lemma_read_section_of_lines(payload, bounds, rest, 0);
    assert(payload.subrange(0, payload.len() as int) =~= payload);
    assert((payload + rest).subrange(0, payload.len() as int) =~= payload);
}

/// A status line and whatever follows it frame as the response with that
/// status line and without a section, where no section is expected.
pub proof fn lemma_framing_of_single_line(
    line: Seq<u8>,
    rest: Seq<u8>,
    is_multiline: Option<bool>,
    compression: Option<Compression>,
)
    requires
        is_first_line(line),
        is_block_line(line),
        !expects_data_blocks(is_multiline, first_line_code(line)),
    ensures
        framing(line + rest, is_multiline, compression) == (Framing::Response {
            first_line: line,
            payload: None,
            consumed: line.len() as int,
        }),
{
    lemma_block_line_is_read(line, rest);
}

/// The payload that a framing holds, where it is a response with a data-block
/// section.
pub open spec fn framed_payload(framed: Framing) -> Option<Seq<u8>> {
    match framed {
        Framing::Response { first_line, payload, consumed } => payload,
        _ => None,
    }
}

/// A compressed data-block section is read as the plain one: where the status
/// line ends with the marker of the configured compression, and what follows
/// it inflates to the plain bytes, the response holds the payload that it
/// holds when the plain bytes follow the same status line and no compression
/// is configured.
pub proof fn lemma_compressed_reads_as_plain(
    line: Seq<u8>,
    compressed: Seq<u8>,
    plain: Seq<u8>,
    used: int,
    compression: Compression,
    is_multiline: Option<bool>,
)
    requires
        is_block_line(line),
        is_first_line(line),
        compression.spec_use_decoder(line),
        expects_data_blocks(is_multiline, first_line_code(line)),
        zlib_inflated(compressed) == Some((plain, used)),
    ensures
        framed_payload(framing(line + compressed, is_multiline, Some(compression)))
            == framed_payload(framing(line + plain, is_multiline, None)),
        framing(line + compressed, is_multiline, Some(compression)) is Response <==> framing(
            line + plain,
            is_multiline,
            None,
        ) is Response,
{
    let n = line.len() as int;
    let s1 = line + compressed;
    let s2 = line + plain;
    crate::raw::stream::lemma_until_len_is(s1, LF, n);
    crate::raw::stream::lemma_until_len_is(s2, LF, n);
    assert(s1.subrange(0, n) =~= line);
    assert(s1.subrange(n, s1.len() as int) =~= compressed);
    assert(s2.subrange(n, s2.len() as int) =~= plain);
}

/// The reading half of the connection engine. It owns the two buffers that
/// are used again for every response, and frames the bytes it is given as
/// responses.
#[derive(Debug)]
pub struct NntpConnection {
    first_line_buf: Vec<u8>,
    data_blocks_buf: Vec<u8>,
    config: ConnectionConfig,
}

/// A response whose status line has been read and whose data-block section is
/// being read, line by line. It holds the two buffers of the engine while the
/// section is read; the engine takes them back with the last line.
#[derive(Debug)]
pub struct PendingResponse {
    code: ResponseCode,
    first_line: Vec<u8>,
    payload: Vec<u8>,
    line_boundaries: Vec<(usize, usize)>,
}

/// What the engine asks for after a status line.
#[derive(Debug)]
pub enum FirstLine {
    /// The response is complete: no data-block section follows
    Complete(RawResponse),
    /// A data-block section follows; its lines are read through the decoder
    /// where `compressed` is set
    DataBlocksFollow { pending: PendingResponse, compressed: bool },
}

/// What the engine asks for after a line of a data-block section.
#[derive(Debug)]
pub enum Progress {
    /// More lines are to come
    More(PendingResponse),
    /// The line was the terminator line: the response is complete
    Done(RawResponse),
}

/// `resp` holds the first line and the payload given.
pub open spec fn response_holds(
    resp: RawResponse,
    first_line: Seq<u8>,
    payload: Option<Seq<u8>>,
) -> bool {
    &&& resp.wf()
    &&& resp.spec_first_line() == first_line
    &&& match payload {
        Some(bytes) => resp.spec_data_blocks() matches Some(db) && db.spec_payload() == bytes,
        None => resp.spec_data_blocks() is None,
    }
}

impl PendingResponse {
    #[verifier::type_invariant]
    spec fn inv(&self) -> bool {
        &&& is_first_line(self.first_line@)
        &&& self.code == first_line_code(self.first_line@)
        &&& is_partial_section(self.payload@, self.line_boundaries@)
    }

    /// The status line of the response.
    pub closed spec fn spec_first_line(&self) -> Seq<u8> {
        self.first_line@
    }

    /// The bytes read so far of the data-block section.
    pub closed spec fn spec_payload(&self) -> Seq<u8> {
        self.payload@
    }
}

impl NntpConnection {
    /// The settings of the connection.
    pub closed spec fn spec_config(&self) -> ConnectionConfig {
        self.config
    }

    /// The kind of compression that the engine looks for.
    pub open spec fn spec_compression(&self) -> Option<Compression> {
        self.spec_config()@.compression
    }

    /// The number of bytes that the two buffers hold: that of the first line,
    /// and that of the data blocks.
    pub closed spec fn buffered(&self) -> (nat, nat) {
        (self.first_line_buf@.len(), self.data_blocks_buf@.len())
    }

    /// The buffers hold no more bytes than the settings allow them to keep
    /// between responses.
    pub open spec fn buffers_cut_back(&self) -> bool {
        &&& self.buffered().0 <= self.spec_config()@.first_line_buf_size
        &&& self.buffered().1 <= self.spec_config()@.data_blocks_buf_size
    }

    /// An engine with the settings `config`, its two buffers empty and of the
    /// configured sizes.
    pub fn new(config: ConnectionConfig) -> (conn: Self)
        ensures
            conn.spec_config() == config,
            conn.buffered() == (0nat, 0nat),
    {
        NntpConnection {
            first_line_buf: Vec::with_capacity(config.first_line_buf_size),
            data_blocks_buf: Vec::with_capacity(config.data_blocks_buf_size),
            config,
        }
    }

    /// The settings of the connection.
    pub fn config(&self) -> (config: &ConnectionConfig)
        ensures
            *config == self.spec_config(),
    {
        &self.config
    }

    /// The bytes to write for a command: the command as it renders, and the
    /// line terminator.
    pub fn send<C: NntpCommand>(&self, command: &C) -> (bytes: Vec<u8>)
        ensures
            bytes@ == command.wire() + seq![CR, LF],
    {
        let encoded = command.encode();
        self.send_bytes(encoded.as_slice())
    }

    /// The bytes to write for a command that is given as bytes, which do not
    /// hold the line terminator: the command, and the line terminator.
    pub fn send_bytes(&self, command: &[u8]) -> (bytes: Vec<u8>)
        ensures
            bytes@ == command@ + seq![CR, LF],
    {
        let mut bytes: Vec<u8> = Vec::with_capacity(0);
        bytes.extend_from_slice(command);
        bytes.push(CR);
        bytes.push(LF);
        bytes
    }

    /// Cuts the buffers back to their configured sizes, so that one large
    /// response does not keep its memory for good.
    pub fn reset_buffers(&mut self)
        ensures
            final(self).spec_config() == old(self).spec_config(),
            final(self).buffers_cut_back(),
    {
        self.first_line_buf.truncate(self.config.first_line_buf_size);
        shrink_to_fit(&mut self.first_line_buf);
        self.data_blocks_buf.truncate(self.config.data_blocks_buf_size);
        shrink_to_fit(&mut self.data_blocks_buf);
    }

    /// Reads one response from `stream`, deciding by the response code whether
    /// a data-block section follows.
    pub fn read_response_auto(&mut self, stream: &mut ByteStream<'_>) -> (r: Result<
        RawResponse,
        Error,
    >)
        ensures
            final(self).spec_config() == old(self).spec_config(),
            r is Ok ==> final(self).buffers_cut_back(),
            read_outcome(
                r,
                framing(old(stream).remaining(), None, old(self).spec_compression()),
                old(stream).remaining(),
                final(stream).remaining(),
            ),
    {
        self.read_response(stream, None)
    }

    /// Reads one response from `stream`. Whether a data-block section follows
    /// the status line is as `is_multiline` says; where it is `None`, the table
    /// of response codes decides. Nothing that an earlier response left in the
    /// buffers is seen: both are emptied first.
    pub fn read_response(&mut self, stream: &mut ByteStream<'_>, is_multiline: Option<bool>) -> (r:
        Result<RawResponse, Error>)
        ensures
            final(self).spec_config() == old(self).spec_config(),
            r is Ok ==> final(self).buffers_cut_back(),
            read_outcome(
                r,
                framing(old(stream).remaining(), is_multiline, old(self).spec_compression()),
                old(stream).remaining(),
                final(stream).remaining(),
            ),
    {
        let ghost s = stream.remaining();
        proof {
            lemma_until_len(s, LF);
        }
        self.first_line_buf.truncate(0);
        self.data_blocks_buf.truncate(0);
        let code = match read_initial_response(stream, &mut self.first_line_buf) {
            Ok(code) => code,
            Err(e) => {
                return Err(e);
            },
        };
        let ghost n = until_len(s, LF);
        let ghost after = s.subrange(n, s.len() as int);
        let expects = match is_multiline {
            Some(multiline) => multiline,
            None => code.is_multiline(),
        };
        let data_blocks = if expects {
            let mut line_boundaries: Vec<(usize, usize)> = Vec::with_capacity(10);
            let compressed = match self.config.compression {
                Some(c) => c.use_decoder(self.first_line_buf.as_slice()),
                None => false,
            };
            if compressed {
                let plain = match self.config.compression {
                    Some(c) => match c.decode(stream.rest()) {
                        Ok((plain, used)) => {
                            stream.consume(used);
                            plain
                        },
                        Err(e) => {
                            return Err(e);
                        },
                    },
                    None => Vec::new(),
                };
                proof {
                    let inflated = zlib_inflated(after)->0;
                    let used = inflated.1;
                    assert(after.subrange(used, after.len() as int) =~= s.subrange(
                        n + used,
                        s.len() as int,
                    ));
                }
                let mut inner = ByteStream::new(plain.as_slice());
                match read_data_blocks(&mut inner, &mut self.data_blocks_buf, &mut line_boundaries) {
                    Ok(()) => {},
                    Err(e) => {
                        return Err(e);
                    },
                }
            } else {
                let r = read_data_blocks(stream, &mut self.data_blocks_buf, &mut line_boundaries);
                proof {
                    let m = read_section(after).1;
                    assert(after.subrange(m, after.len() as int) =~= s.subrange(
                        n + m,
                        s.len() as int,
                    ));
                }
                match r {
                    Ok(()) => {},
                    Err(e) => {
                        return Err(e);
                    },
                }
            }
            Some(DataBlocks::from_parts(slice_to_vec(self.data_blocks_buf.as_slice()), line_boundaries))
        } else {
            None
        };
        let resp = RawResponse::from_parts(
            code,
            slice_to_vec(self.first_line_buf.as_slice()),
            data_blocks,
        );
        self.reset_buffers();
        Ok(resp)
    }

    /// Takes the status line of a response, as it was read from the peer up to
    /// and including its line feed. Whether a data-block section follows is as
    /// `is_multiline` says; where it is `None`, the table of response codes
    /// decides. A line that is no status line is a parse error. Both buffers
    /// are emptied first; where a section follows, they go with the pending
    /// response until its last line.
    pub fn accept_first_line(&mut self, line: &[u8], is_multiline: Option<bool>) -> (r: Result<
        FirstLine,
        Error,
    >)
        ensures
            final(self).spec_config() == old(self).spec_config(),
            match r {
                Ok(FirstLine::Complete(resp)) => {
                    &&& is_first_line(line@)
                    &&& !expects_data_blocks(is_multiline, first_line_code(line@))
                    &&& response_holds(resp, line@, None)
                    &&& final(self).buffers_cut_back()
                },
                Ok(FirstLine::DataBlocksFollow { pending, compressed }) => {
                    &&& is_first_line(line@)
                    &&& expects_data_blocks(is_multiline, first_line_code(line@))
                    &&& compressed == reads_compressed(old(self).spec_compression(), line@)
                    &&& pending.spec_first_line() == line@
                    &&& pending.spec_payload() == Seq::<u8>::empty()
                    &&& final(self).buffered() == (0nat, 0nat)
                },
                Err(e) => !is_first_line(line@) && e is Parse,
            },
    {
        self.first_line_buf.truncate(0);
        self.data_blocks_buf.truncate(0);
        self.first_line_buf.extend_from_slice(line);
        assert(self.first_line_buf@ =~= line@);
        let code = match status_line_code(self.first_line_buf.as_slice()) {
            Ok(code) => code,
            Err(e) => {
                return Err(e);
            },
        };
        let expects = match is_multiline {
            Some(multiline) => multiline,
            None => code.is_multiline(),
        };
        if expects {
            let compressed = match self.config.compression {
                Some(c) => c.use_decoder(line),
                None => false,
            };
            let mut first_line: Vec<u8> = Vec::new();
            let mut payload: Vec<u8> = Vec::new();
            core::mem::swap(&mut self.first_line_buf, &mut first_line);
            core::mem::swap(&mut self.data_blocks_buf, &mut payload);
            let pending = PendingResponse {
                code,
                first_line,
                payload,
                line_boundaries: Vec::with_capacity(10),
            };
            Ok(FirstLine::DataBlocksFollow { pending, compressed })
        } else {
            let resp = RawResponse::from_parts(
                code,
                slice_to_vec(self.first_line_buf.as_slice()),
                None,
            );
            self.reset_buffers();
            Ok(FirstLine::Complete(resp))
        }
    }

    /// Takes the next line of the data-block section that is being read, as it
    /// was read from the peer up to and including its line feed. Gives the
    /// whole response when the line is the terminator line, and else the
    /// pending response with one line more. A line that is not one terminated
    /// line is a parse error. With the last line, and with an error, the
    /// engine takes its buffers back: the response holds copies of what they
    /// held, and the buffers are cut back to their configured sizes.
    pub fn accept_data_block_line(&mut self, pending: PendingResponse, line: &[u8]) -> (r: Result<
        Progress,
        Error,
    >)
        ensures
            final(self).spec_config() == old(self).spec_config(),
            match r {
                Ok(Progress::Done(resp)) => {
                    &&& line@ == terminator_line()
                    &&& response_holds(
                        resp,
                        pending.spec_first_line(),
                        Some(pending.spec_payload() + line@),
                    )
                    &&& final(self).buffers_cut_back()
                },
                Ok(Progress::More(longer)) => {
                    &&& is_block_line(line@)
                    &&& line@ != terminator_line()
                    &&& longer.spec_first_line() == pending.spec_first_line()
                    &&& longer.spec_payload() == pending.spec_payload() + line@
                    &&& final(self).buffered() == old(self).buffered()
                },
                Err(e) => e is Parse && !is_block_line(line@) && final(self).buffers_cut_back(),
            },
    {
        proof {
            use_type_invariant(&pending);
        }
        let PendingResponse { code, first_line, mut payload, mut line_boundaries } = pending;
        if !is_one_block_line(line) {
            self.first_line_buf = first_line;
            self.data_blocks_buf = payload;
            self.reset_buffers();
            return Err(Error::Parse);
        }
        let ghost before = payload@;
        let ghost marks = line_boundaries@;
        let start: usize = payload.len();
        payload.extend_from_slice(line);
        let end: usize = payload.len();
        line_boundaries.push((start, end));
        proof {
            lemma_push_line(before, marks, line@);
            assert(payload@ =~= before + line@);
        }
        if crate::raw::response::is_terminator_line(line) {
            let blocks = DataBlocks::from_parts(slice_to_vec(payload.as_slice()), line_boundaries);
            let resp = RawResponse::from_parts(
                code,
                slice_to_vec(first_line.as_slice()),
                Some(blocks),
            );
            self.first_line_buf = first_line;
            self.data_blocks_buf = payload;
            self.reset_buffers();
            Ok(Progress::Done(resp))
        } else {
            Ok(Progress::More(PendingResponse { code, first_line, payload, line_boundaries }))
        }
    }
}

/// Whether `line` is one line as read: it ends with the line terminator and
/// holds no line feed before that.
pub fn is_one_block_line(line: &[u8]) -> (r: bool)
    ensures
        r == is_block_line(line@),
{
    let n: usize = line.len();
    if n < 2 || line[n - 2] != CR || line[n - 1] != LF {
        return false;
    }
    let mut i: usize = 0;
    while i < n - 1
        invariant
            n == line@.len(),
            n >= 2,
            i <= n - 1,
            forall|j: int| 0 <= j < i ==> line@[j] != LF,
        decreases n - i,
    {
        if line[i] == LF {
            return false;
        }
        i = i + 1;
    }
    true
}

/// What reading one response gave, held against the framing of the stream:
/// the response with the first line and the payload of the framing, or the
/// error that goes with it, and the stream advanced by what the framing
/// consumed.
pub open spec fn read_outcome(
    r: Result<RawResponse, Error>,
    framed: Framing,
    before: Seq<u8>,
    after: Seq<u8>,
) -> bool {
    match framed {
        Framing::Response { first_line, payload, consumed } => {
            &&& r matches Ok(resp) && response_holds(resp, first_line, payload)
            &&& 0 <= consumed <= before.len()
            &&& after == before.subrange(consumed, before.len() as int)
        },
        Framing::Malformed { consumed } => {
            &&& r matches Err(e) && e is Parse
            &&& 0 <= consumed <= before.len()
            &&& after == before.subrange(consumed, before.len() as int)
        },
        Framing::Undecodable { consumed } => {
            &&& r matches Err(e) && e is Io
            &&& 0 <= consumed <= before.len()
            &&& after == before.subrange(consumed, before.len() as int)
        },
    }
}

} // verus!
