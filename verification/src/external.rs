//! The EXTERNAL mechanism (RFC 4422): the client asserts an identity
//! established out of band (for instance by transport credentials);
//! the server validates it through an application-supplied callback.

use vstd::prelude::*;
use vstd::string::{StrSliceExecFns, StringExecFns};
use vstd::utf8::{decode_utf8, encode_utf8, valid_utf8};

use crate::sasl::{Client, SaslError, Server};
use crate::text::{contains_byte, utf8_to_string};

verus! {

/// Validates an identity asserted out of band. A blank identity asks
/// to act as whatever identity the external credentials establish.
/// Implementations come from the application; the contract says the
/// verdict and the rejection message depend on the authenticator's
/// state and the identity alone.
pub trait ExternalAuthenticator {
    /// Whether this authenticator accepts the given identity.
    spec fn auth_ok(&self, identity: Seq<char>) -> bool;

    /// The message with which this authenticator rejects the given identity.
    spec fn auth_err(&self, identity: Seq<char>) -> Seq<char>;

    /// Check one identity.
    fn authenticate(&mut self, identity: &str) -> (r: Result<(), String>)
        ensures
            r is Ok <==> old(self).auth_ok(identity@),
            r matches Err(m) ==> m@ == old(self).auth_err(identity@);
}

/// A client of the EXTERNAL mechanism: it presents an authorization
/// identity, possibly empty, and expects no challenge at all.
pub struct ExternalClient {
    identity: String,
}

impl ExternalClient {
    /// The identity this client presents.
    pub closed spec fn identity_view(&self) -> Seq<char> {
        self.identity@
    }

    /// A client that will present `identity`; blank means "the
    /// identity of the external credentials".
    pub fn new(identity: String) -> (r: Self)
        ensures
            r.identity_view() == identity@,
    {
        ExternalClient { identity }
    }
}

impl Client for ExternalClient {
    /// The mechanism name and the identity as initial response.
    fn start(&mut self) -> (r: Result<(String, Vec<u8>), SaslError>)
        ensures
            r matches Ok(p) && p.0@ == "EXTERNAL"@ && p.1@ == encode_utf8(
                old(self).identity_view(),
            ),
            *final(self) == *old(self),
    {
        Ok((String::from_str("EXTERNAL"), self.identity.as_str().as_bytes_vec()))
    }

    /// No challenge is ever legal for this mechanism.
    fn next(&mut self, challenge: &[u8]) -> (r: Result<Vec<u8>, SaslError>)
        ensures
            r matches Err(e) && e == SaslError::UnexpectedServerChallenge,
            *final(self) == *old(self),
    {
        Err(SaslError::UnexpectedServerChallenge)
    }
}

/// A server of the EXTERNAL mechanism: a two-state machine that takes
/// one identity, rejects embedded NUL bytes, hands the text to the
/// authenticator, and is then done.
pub struct ExternalServer<A: ExternalAuthenticator> {
    done: bool,
    authenticator: A,
}

impl<A: ExternalAuthenticator> ExternalServer<A> {
    /// Whether the exchange is over; once set, every call fails.
    pub closed spec fn is_done(&self) -> bool {
        self.done
    }

    /// The authenticator this server consults.
    pub closed spec fn auth(&self) -> A {
        self.authenticator
    }

    /// A fresh server around `authenticator`.
    pub fn new(authenticator: A) -> (r: Self)
        ensures
            !r.is_done(),
            r.auth() == authenticator,
    {
        ExternalServer { done: false, authenticator }
    }
}

impl<A: ExternalAuthenticator> Server for ExternalServer<A> {
    /// One step: an empty challenge until a response arrives, then one
    /// authenticator verdict on the NUL-free, UTF-8 decoded identity,
    /// then done.
    fn next(&mut self, response: Option<&[u8]>) -> (r: Result<(Vec<u8>, bool), SaslError>)
        ensures
            old(self).is_done() ==> (r matches Err(e) && e
                == SaslError::UnexpectedClientResponse) && *final(self) == *old(self),
            !old(self).is_done() && response is None ==> (r matches Ok(p) && p.0@ == Seq::<
                u8,
            >::empty() && p.1 == false) && *final(self) == *old(self),
            !old(self).is_done() && response is Some ==> {
                let b = response.unwrap();
                &&& final(self).is_done()
                &&& b@.contains(0u8) ==> (r matches Err(e) && e
                    == SaslError::IdentityContainsNul)
                &&& !b@.contains(0u8) && !valid_utf8(b@) ==> (r matches Err(e) && e
                    == SaslError::InvalidUtf8)
                &&& !b@.contains(0u8) && valid_utf8(b@) ==> {
                    let identity = decode_utf8(b@);
                    &&& r is Ok <==> old(self).auth().auth_ok(identity)
                    &&& r matches Ok(p) ==> p.0@ == Seq::<u8>::empty() && p.1 == true
                    &&& r matches Err(e) ==> (e matches SaslError::AuthenticationFailed(m)
                        && m@ == old(self).auth().auth_err(identity))
                }
            },
    {
        if self.done {
            return Err(SaslError::UnexpectedClientResponse);
        }
        match response {
            None => Ok((Vec::new(), false)),
            Some(b) => {
                self.done = true;
                if contains_byte(b, 0) {
                    return Err(SaslError::IdentityContainsNul);
                }
                match utf8_to_string(b) {
                    None => Err(SaslError::InvalidUtf8),
                    Some(s) => match self.authenticator.authenticate(s.as_str()) {
                        Ok(()) => Ok((Vec::new(), true)),
                        Err(m) => Err(SaslError::AuthenticationFailed(m)),
                    },
                }
            }
        }
    }
}

} // verus!
