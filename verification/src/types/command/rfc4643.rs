use crate::types::command::verb_arg;
use crate::types::command::with_arg;
use crate::types::command::Encode;
use crate::types::command::NntpCommand;
use vstd::prelude::*;
use vstd::string::StrSliceExecFns;
use vstd::string::StringExecFns;
use vstd::utf8::encode_utf8;

verus! {

/// Authenticate with a user name and a password. The two are sent one after
/// the other; the server answers each.
#[derive(Clone, Debug)]
pub enum AuthInfo {
    /// The user name
    User(String),
    /// The password
    Pass(String),
}

impl AuthInfo {
    /// The text of the command.
    pub open spec fn text(&self) -> Seq<char> {
        match self {
            AuthInfo::User(username) => with_arg("AUTHINFO USER"@, username@),
            AuthInfo::Pass(password) => with_arg("AUTHINFO PASS"@, password@),
        }
    }

    /// The text of the command.
    pub fn to_string(&self) -> (s: String)
        ensures
            s@ == self.text(),
    {
        match self {
            AuthInfo::User(username) => verb_arg("AUTHINFO USER", username.as_str()),
            AuthInfo::Pass(password) => verb_arg("AUTHINFO PASS", password.as_str()),
        }
    }
}

impl Encode for AuthInfo {
    open spec fn wire(&self) -> Seq<u8> {
        encode_utf8(self.text())
    }

    fn encode(&self) -> (bytes: Vec<u8>) {
        self.to_string().as_str().as_bytes_vec()
    }
}

impl NntpCommand for AuthInfo {

}

} // verus!
