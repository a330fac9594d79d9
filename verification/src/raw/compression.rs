use crate::raw::error::Error;
use vstd::prelude::*;
use vstd::string::StringSliceAdditionalSpecFns;

verus! {

/// A kind of compression that the server may apply to data blocks.
#[derive(Copy, Clone, Debug, PartialEq, Eq, Structural)]
pub enum Compression {
    /// Compression in the style of Giganews: a zlib stream, announced at the
    /// end of the status line
    XFeature,
}

/// The end of a status line that announces a compressed data-block section.
pub open spec fn compression_marker() -> Seq<u8> {
    "[COMPRESS=GZIP]\r\n".spec_bytes()
}

/// `line` ends with `suffix`.
pub open spec fn ends_with(line: Seq<u8>, suffix: Seq<u8>) -> bool {
    line.len() >= suffix.len() && line.subrange(line.len() - suffix.len(), line.len() as int)
        == suffix
}

/// What inflating the zlib stream at the front of `input` gives: the plain
/// bytes and the number of bytes of `input` that the stream took, or `None`
/// where `input` does not start with a whole zlib stream.
pub uninterp spec fn zlib_inflated(input: Seq<u8>) -> Option<(Seq<u8>, int)>;

/// Runs `flate2::bufread::ZlibDecoder` over `input` until the decoder reports
/// the end of its output. The result is named by `zlib_inflated`; the count is
/// the decoder's `total_in`, which never exceeds what it was given.
#[verifier::external_body]
fn zlib_inflate(input: &[u8]) -> (r: Result<(Vec<u8>, usize), String>)
    ensures
        match r {
            Ok((plain, used)) => zlib_inflated(input@) == Some((plain@, used as int)) && used
                <= input@.len(),
            Err(_) => zlib_inflated(input@) is None,
        },
{
    let mut decoder = flate2::bufread::ZlibDecoder::new(input);
    let mut plain = Vec::new();
    match std::io::Read::read_to_end(&mut decoder, &mut plain) {
        Ok(_) => Ok((plain, decoder.total_in() as usize)),
        Err(e) => Err(e.to_string()),
    }
}

/// Whether `line` ends with `suffix`.
pub fn slice_ends_with(line: &[u8], suffix: &[u8]) -> (r: bool)
    ensures
        r == ends_with(line@, suffix@),
{
    let n: usize = line.len();
    let m: usize = suffix.len();
    if n < m {
        return false;
    }
    let base: usize = n - m;
    let mut i: usize = 0;
    while i < m
        invariant
            n == line@.len(),
            m == suffix@.len(),
            base == n - m,
            i <= m,
            forall|j: int| 0 <= j < i ==> line@[base + j] == suffix@[j],
        decreases m - i,
    {
        if line[base + i] != suffix[i] {
            return false;
        }
        i = i + 1;
    }
    assert(line@.subrange(n - m, n as int) =~= suffix@);
    true
}

impl Compression {
    /// Whether the data-block section that follows the status line
    /// `first_line` is compressed: whether the line ends with the marker.
    pub open spec fn spec_use_decoder(&self, first_line: Seq<u8>) -> bool {
        ends_with(first_line, compression_marker())
    }

    /// Whether the data-block section that follows the status line
    /// `first_line` is compressed.
    pub fn use_decoder(&self, first_line: &[u8]) -> (compressed: bool)
        ensures
            compressed == self.spec_use_decoder(first_line@),
    {
        match self {
            Compression::XFeature => slice_ends_with(
                first_line,
                "[COMPRESS=GZIP]\r\n".as_bytes(),
            ),
        }
    }

    /// Inflates the compressed data at the front of `input`. Gives the plain
    /// bytes and the number of bytes of `input` that held them, or an I/O error
    /// where `input` does not start with a whole compressed stream.
    pub fn decode(&self, input: &[u8]) -> (r: Result<(Vec<u8>, usize), Error>)
        ensures
            match r {
                Ok((plain, used)) => zlib_inflated(input@) == Some((plain@, used as int)) && used
                    <= input@.len(),
                Err(e) => zlib_inflated(input@) is None && e is Io,
            },
    {
        match self {
            Compression::XFeature => match zlib_inflate(input) {
                Ok(found) => Ok(found),
                Err(msg) => Err(Error::Io(msg)),
            },
        }
    }
}

} // verus!
