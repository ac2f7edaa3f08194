//! The exchange contract shared by all mechanisms: a `Client` and a
//! `Server` trade byte buffers until the server reports completion or
//! either side aborts with a `SaslError`.

use vstd::prelude::*;
use vstd::string::StringExecFns;

verus! {

/// Every way an exchange can abort. Protocol violations are fatal and
/// end the exchange immediately; `AuthenticationFailed` carries the
/// message of a credential check that was rejected.
#[derive(Debug, Clone, PartialEq, Eq)]
pub enum SaslError {
    /// The server received a response after the exchange was over.
    UnexpectedClientResponse,
    /// The client received a challenge it has no answer for.
    UnexpectedServerChallenge,
    /// A field that must be text was not valid UTF-8.
    InvalidUtf8,
    /// An EXTERNAL identity contained an embedded NUL byte.
    IdentityContainsNul,
    /// A PLAIN response had fewer than two NUL separators.
    MissingUsername,
    /// A PLAIN response had fewer than two NUL separators.
    MissingPassword,
    /// A challenge that should carry a JSON error object did not parse.
    InvalidJson,
    /// An OAUTHBEARER failure acknowledgment was not the single byte 0x01.
    UnexpectedResponse,
    /// A credential check was rejected; the message describes why.
    AuthenticationFailed(String),
}

impl SaslError {
    /// The text of this error, as a caller would log it.
    pub open spec fn spec_description(&self) -> Seq<char> {
        match self {
            SaslError::UnexpectedClientResponse => "sasl: unexpected client response"@,
            SaslError::UnexpectedServerChallenge => "sasl: unexpected server challenge"@,
            SaslError::InvalidUtf8 => "sasl: invalid UTF-8"@,
            SaslError::IdentityContainsNul => "identity contains a NUL character"@,
            SaslError::MissingUsername => "sasl: missing username"@,
            SaslError::MissingPassword => "sasl: missing password"@,
            SaslError::InvalidJson => "sasl: malformed JSON challenge"@,
            SaslError::UnexpectedResponse => "unexpected response"@,
            SaslError::AuthenticationFailed(m) => m@,
        }
    }

    /// The text of this error, as a caller would log it.
    pub fn description(&self) -> (r: String)
        ensures
            r@ == self.spec_description(),
    {
        match self {
            SaslError::UnexpectedClientResponse => String::from_str("sasl: unexpected client response"),
            SaslError::UnexpectedServerChallenge => String::from_str("sasl: unexpected server challenge"),
            SaslError::InvalidUtf8 => String::from_str("sasl: invalid UTF-8"),
            SaslError::IdentityContainsNul => String::from_str("identity contains a NUL character"),
            SaslError::MissingUsername => String::from_str("sasl: missing username"),
            SaslError::MissingPassword => String::from_str("sasl: missing password"),
            SaslError::InvalidJson => String::from_str("sasl: malformed JSON challenge"),
            SaslError::UnexpectedResponse => String::from_str("unexpected response"),
            SaslError::AuthenticationFailed(m) => m.clone(),
        }
    }
}

/// The client half of one challenge-response exchange. `start` yields
/// the mechanism name to advertise together with the initial response,
/// if the mechanism has one; `next` answers one server challenge.
/// Contracts live on each implementation.
pub trait Client {
    /// Begin the exchange: the mechanism name and the initial response.
    fn start(&mut self) -> Result<(String, Vec<u8>), SaslError>;

    /// Answer one server challenge.
    fn next(&mut self, challenge: &[u8]) -> Result<Vec<u8>, SaslError>;
}

/// The server half of one challenge-response exchange. The first call
/// passes `None` when the client supplied no initial response; every
/// later call passes `Some` bytes. The returned flag is true exactly
/// when authentication finished successfully; a fatal outcome is an
/// error, never a flag. Contracts live on each implementation.
pub trait Server {
    /// Consume one client response and produce the next challenge.
    fn next(&mut self, response: Option<&[u8]>) -> Result<(Vec<u8>, bool), SaslError>;
}

} // verus!
