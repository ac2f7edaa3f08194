//! The ANONYMOUS mechanism (RFC 4505): the client identifies itself
//! only by a free-text trace, which the server hands to an
//! application-supplied authenticator.

use vstd::prelude::*;
use vstd::string::{StrSliceExecFns, StringExecFns};
use vstd::utf8::{decode_utf8, encode_utf8, valid_utf8};

use crate::sasl::{Client, SaslError, Server};
use crate::text::utf8_to_string;

verus! {

/// Receives the trace text of a client logging in anonymously.
/// Implementations come from the application; the contract says the
/// verdict and the rejection message depend on the authenticator's
/// state and the trace alone.
pub trait AnonymousAuthenticator {
    /// Whether this authenticator accepts the given trace.
    spec fn auth_ok(&self, trace: Seq<char>) -> bool;

    /// The message with which this authenticator rejects the given trace.
    spec fn auth_err(&self, trace: Seq<char>) -> Seq<char>;

    /// Record or check one trace.
    fn authenticate(&mut self, trace: &str) -> (r: Result<(), String>)
        ensures
            r is Ok <==> old(self).auth_ok(trace@),
            r matches Err(m) ==> m@ == old(self).auth_err(trace@);
}

/// A client of the ANONYMOUS mechanism: it presents a trace and
/// expects no challenge at all.
pub struct AnonymousClient {
    trace: String,
}

impl AnonymousClient {
    /// The trace text this client presents.
    pub closed spec fn trace_view(&self) -> Seq<char> {
        self.trace@
    }

    /// A client that will present `trace`.
    pub fn new(trace: String) -> (r: Self)
        ensures
            r.trace_view() == trace@,
    {
        AnonymousClient { trace }
    }
}

impl Client for AnonymousClient {
    /// The mechanism name and the trace as initial response.
    fn start(&mut self) -> (r: Result<(String, Vec<u8>), SaslError>)
        ensures
            r matches Ok(p) && p.0@ == "ANONYMOUS"@ && p.1@ == encode_utf8(
                old(self).trace_view(),
            ),
            *final(self) == *old(self),
    {
        Ok((String::from_str("ANONYMOUS"), self.trace.as_str().as_bytes_vec()))
    }

    /// No challenge is ever legal for this mechanism.
    fn next(&mut self, challenge: &[u8]) -> (r: Result<Vec<u8>, SaslError>)
        ensures
            r matches Err(e) && e == SaslError::UnexpectedServerChallenge,
            *final(self) == *old(self),
    {
        Err(SaslError::UnexpectedServerChallenge)
    }
}

/// A server of the ANONYMOUS mechanism: a two-state machine that takes
/// one trace, hands it to the authenticator, and is then done.
pub struct AnonymousServer<A: AnonymousAuthenticator> {
    done: bool,
    authenticator: A,
}

impl<A: AnonymousAuthenticator> AnonymousServer<A> {
    /// Whether the exchange is over; once set, every call fails.
    pub closed spec fn is_done(&self) -> bool {
        self.done
    }

    /// The authenticator this server consults.
    pub closed spec fn auth(&self) -> A {
        self.authenticator
    }

    /// A fresh server around `authenticator`.
    pub fn new(authenticator: A) -> (r: Self)
        ensures
            !r.is_done(),
            r.auth() == authenticator,
    {
        AnonymousServer { done: false, authenticator }
    }
}

impl<A: AnonymousAuthenticator> Server for AnonymousServer<A> {
    /// One step: an empty challenge until a response arrives, then one
    /// authenticator verdict on the UTF-8 decoded trace, then done.
    fn next(&mut self, response: Option<&[u8]>) -> (r: Result<(Vec<u8>, bool), SaslError>)
        ensures
            old(self).is_done() ==> (r matches Err(e) && e
                == SaslError::UnexpectedClientResponse) && *final(self) == *old(self),
            !old(self).is_done() && response is None ==> (r matches Ok(p) && p.0@ == Seq::<
                u8,
            >::empty() && p.1 == false) && *final(self) == *old(self),
            !old(self).is_done() && response is Some ==> {
                let b = response.unwrap();
                &&& final(self).is_done()
                &&& !valid_utf8(b@) ==> (r matches Err(e) && e == SaslError::InvalidUtf8)
                &&& valid_utf8(b@) ==> {
                    let trace = decode_utf8(b@);
                    &&& r is Ok <==> old(self).auth().auth_ok(trace)
                    &&& r matches Ok(p) ==> p.0@ == Seq::<u8>::empty() && p.1 == true
                    &&& r matches Err(e) ==> (e matches SaslError::AuthenticationFailed(m)
                        && m@ == old(self).auth().auth_err(trace))
                }
            },
    {
        if self.done {
            return Err(SaslError::UnexpectedClientResponse);
        }
        match response {
            None => Ok((Vec::new(), false)),
            Some(b) => {
                self.done = true;
                match utf8_to_string(b) {
                    None => Err(SaslError::InvalidUtf8),
                    Some(s) => match self.authenticator.authenticate(s.as_str()) {
                        Ok(()) => Ok((Vec::new(), true)),
                        Err(m) => Err(SaslError::AuthenticationFailed(m)),
                    },
                }
            }
        }
    }
}

} // verus!
