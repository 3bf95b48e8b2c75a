use vstd::prelude::*;
use vstd::string::*;

verus! {

/// The standard base64 encoding, padded, of the UTF-8 bytes of `text`.
pub uninterp spec fn base64_of(text: Seq<char>) -> Seq<char>;

/// Relies on base64::encode_config_buf with base64::STANDARD: it appends the
/// padded standard encoding of the input's bytes to the buffer, which here
/// starts empty.
#[verifier::external_body]
fn encode_base64(text: &str) -> (r: String)
    ensures
        r@ == base64_of(text@),
{
    let mut out = String::new();
    base64::encode_config_buf(text, base64::STANDARD, &mut out);
    out
}

/// What the process is configured with.
#[derive(Debug)]
pub struct Options {
    /// Turns off message output.
    pub quiet: bool,
    /// How many times more verbose than the default the log is.
    pub verbose: usize,
    /// The name of the SQLite database file.
    pub database_path: String,
    /// The host to serve on.
    pub host: String,
    /// The port to serve on.
    pub port: u16,
    /// The password to require for auth.
    pub password: String,
    /// The username to require for auth.
    pub username: String,
}

/// `username:password`, the text that basic authentication encodes.
pub open spec fn credentials_of(username: Seq<char>, password: Seq<char>) -> Seq<char> {
    username + ":"@ + password
}

/// The `Authorization` header value for basic authentication whose encoded
/// credentials are `encoded`.
pub open spec fn basic_header(encoded: Seq<char>) -> Seq<char> {
    "Basic "@ + encoded
}

/// The `Authorization` header value that carries `encoded`, the base64 form
/// of the credentials.
pub fn basic_authorization(encoded: &str) -> (r: String)
    ensures
        r@ == basic_header(encoded@),
{
    String::from_str("Basic ").concat(encoded)
}

impl Options {
    /// `username:password`.
    pub fn credentials(&self) -> (r: String)
        ensures
            r@ == credentials_of(self.username@, self.password@),
    {
        self.username.clone().concat(":").concat(self.password.as_str())
    }

    /// Gets the `Authorization` header to accept.
    pub fn authorization(&self) -> (r: String)
        ensures
            r@ == basic_header(base64_of(credentials_of(self.username@, self.password@))),
    {
        let creds = self.credentials();
        let encoded = encode_base64(creds.as_str());
        basic_authorization(encoded.as_str())
    }

    /// The log verbosity: two levels above the least, plus one for each `-v`.
    pub fn verbosity(&self) -> (r: usize)
        requires
            self.verbose <= usize::MAX - 2,
        ensures
            r == self.verbose + 2,
    {
        self.verbose + 2
    }
}

} // verus!
