use crate::types::command::Encode;
use crate::types::command::NntpCommand;
use vstd::prelude::*;
use vstd::string::StrSliceExecFns;
use vstd::string::StringExecFns;
use vstd::utf8::encode_utf8;

verus! {

/// Ask the server to compress the data blocks of overview responses.
#[derive(Clone, Copy, Debug)]
pub struct XFeatureCompress;

impl XFeatureCompress {
    /// The text of the command.
    pub open spec fn text(&self) -> Seq<char> {
        "XFEATURE COMPRESS GZIP TERMINATOR"@
    }

    /// The text of the command.
    pub fn to_string(&self) -> (s: String)
        ensures
            s@ == self.text(),
    {
        String::from_str("XFEATURE COMPRESS GZIP TERMINATOR")
    }
}

impl Encode for XFeatureCompress {
    open spec fn wire(&self) -> Seq<u8> {
        encode_utf8(self.text())
    }

    fn encode(&self) -> (bytes: Vec<u8>) {
        self.to_string().as_str().as_bytes_vec()
    }
}

impl NntpCommand for XFeatureCompress {

}

} // verus!
