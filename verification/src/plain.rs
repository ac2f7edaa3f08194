//! The PLAIN mechanism (RFC 4616): a single NUL-delimited message
//! carrying authorization identity, username and password.

use vstd::prelude::*;
use vstd::string::{StrSliceExecFns, StringExecFns};
use vstd::utf8::{decode_utf8, encode_utf8, valid_utf8};

use crate::sasl::{Client, SaslError, Server};
use crate::text::{find_byte_from, lemma_encode_utf8_no_nul, lemma_find_byte_absent, lemma_find_byte_at, spec_find_byte, utf8_to_string};

verus! {

/// The initial response PLAIN sends: identity, username and password,
/// each UTF-8 encoded, joined by single NUL bytes.
pub open spec fn spec_plain_message(
    identity: Seq<char>,
    username: Seq<char>,
    password: Seq<char>,
) -> Seq<u8> {
    encode_utf8(identity) + seq![0u8] + encode_utf8(username) + seq![0u8] + encode_utf8(password)
}

/// How a PLAIN server reads one response: split on NUL into at least
/// three fields (content after a third NUL is ignored), then decode
/// each field as UTF-8.
pub enum PlainParse {
    /// No NUL at all: the username field is missing.
    MissingUsername,
    /// Only one NUL: the password field is missing.
    MissingPassword,
    /// Some field is not valid UTF-8.
    NotText,
    /// Identity, username and password, in that order.
    Credentials(Seq<char>, Seq<char>, Seq<char>),
}

/// The three NUL-separated fields of `resp`, decoded as UTF-8.
pub open spec fn spec_parse_plain(resp: Seq<u8>) -> PlainParse {
    match spec_find_byte(resp, 0) {
        None => PlainParse::MissingUsername,
        Some(c1) => match spec_find_byte(resp.skip(c1 + 1), 0) {
            None => PlainParse::MissingPassword,
            Some(d) => {
                let identity = resp.take(c1);
                let username = resp.subrange(c1 + 1, c1 + 1 + d);
                let rest = resp.skip(c1 + 2 + d);
                let password = match spec_find_byte(rest, 0) {
                    None => rest,
                    Some(e) => rest.take(e),
                };
                if valid_utf8(identity) && valid_utf8(username) && valid_utf8(password) {
                    PlainParse::Credentials(
                        decode_utf8(identity),
                        decode_utf8(username),
                        decode_utf8(password),
                    )
                } else {
                    PlainParse::NotText
                }
            },
        },
    }
}

/// PLAIN round trip: a server that reads the very message a client
/// builds recovers exactly the identity, username and password the
/// client was given, provided none of the three holds a NUL
/// character.
pub proof fn lemma_plain_round_trip(
    identity: Seq<char>,
    username: Seq<char>,
    password: Seq<char>,
)
    requires
        forall|i: int| 0 <= i < identity.len() ==> identity[i] != '\0',
        forall|i: int| 0 <= i < username.len() ==> username[i] != '\0',
        forall|i: int| 0 <= i < password.len() ==> password[i] != '\0',
    ensures
        spec_parse_plain(spec_plain_message(identity, username, password))
            == PlainParse::Credentials(identity, username, password),
{
    broadcast use vstd::utf8::encode_utf8_valid_utf8;
    broadcast use vstd::utf8::encode_utf8_decode_utf8;

    let ei = encode_utf8(identity);
    let eu = encode_utf8(username);
    let ep = encode_utf8(password);
    let msg = spec_plain_message(identity, username, password);
    lemma_encode_utf8_no_nul(identity);
    lemma_encode_utf8_no_nul(username);
    lemma_encode_utf8_no_nul(password);
    let c1 = ei.len() as int;
    assert(msg[c1] == 0u8);
    assert forall|j: int| 0 <= j < c1 implies msg[j] != 0u8 by {
        assert(msg[j] == ei[j]);
    }
    lemma_find_byte_at(msg, 0u8, c1);
    let rest1 = msg.skip(c1 + 1);
    assert(rest1 =~= eu + seq![0u8] + ep);
    let d = eu.len() as int;
    assert(rest1[d] == 0u8);
    assert forall|j: int| 0 <= j < d implies rest1[j] != 0u8 by {
        assert(rest1[j] == eu[j]);
    }
    lemma_find_byte_at(rest1, 0u8, d);
    let rest2 = msg.skip(c1 + 2 + d);
    assert(rest2 =~= ep);
    assert forall|j: int| 0 <= j < rest2.len() implies #[trigger] rest2[j] != 0u8 by {
        assert(rest2[j] == ep[j]);
    }
    lemma_find_byte_absent(rest2, 0u8);
    assert(msg.take(c1) =~= ei);
    assert(msg.subrange(c1 + 1, c1 + 1 + d) =~= eu);
}

/// Checks an identity, username and password. A blank identity asks to
/// act as the username itself. Implementations come from the
/// application; the contract says the verdict and the rejection
/// message depend on the authenticator's state and the three fields
/// alone.
pub trait PlainAuthenticator {
    /// Whether this authenticator accepts the given credentials.
    spec fn auth_ok(&self, identity: Seq<char>, username: Seq<char>, password: Seq<char>) -> bool;

    /// The message with which this authenticator rejects the given credentials.
    spec fn auth_err(
        &self,
        identity: Seq<char>,
        username: Seq<char>,
        password: Seq<char>,
    ) -> Seq<char>;

    /// Check one set of credentials.
    fn authenticate(&mut self, identity: &str, username: &str, password: &str) -> (r: Result<
        (),
        String,
    >)
        ensures
            r is Ok <==> old(self).auth_ok(identity@, username@, password@),
            r matches Err(m) ==> m@ == old(self).auth_err(identity@, username@, password@);
}

/// A client of the PLAIN mechanism: it sends the NUL-joined
/// credentials as its initial response and expects no challenge.
pub struct PlainClient {
    identity: String,
    username: String,
    password: String,
}

impl PlainClient {
    /// The authorization identity this client presents.
    pub closed spec fn identity_view(&self) -> Seq<char> {
        self.identity@
    }

    /// The username this client presents.
    pub closed spec fn username_view(&self) -> Seq<char> {
        self.username@
    }

    /// The password this client presents.
    pub closed spec fn password_view(&self) -> Seq<char> {
        self.password@
    }

    /// A client for the given credentials; a blank identity means
    /// "same as the username".
    pub fn new(identity: String, username: String, password: String) -> (r: Self)
        ensures
            r.identity_view() == identity@,
            r.username_view() == username@,
            r.password_view() == password@,
    {
        PlainClient { identity, username, password }
    }
}

impl Client for PlainClient {
    /// The mechanism name and the NUL-delimited credentials.
    fn start(&mut self) -> (r: Result<(String, Vec<u8>), SaslError>)
        ensures
            r matches Ok(p) && p.0@ == "PLAIN"@ && p.1@ == spec_plain_message(
                old(self).identity_view(),
                old(self).username_view(),
                old(self).password_view(),
            ),
            *final(self) == *old(self),
    {
        let mut buf: Vec<u8> = Vec::new();
        let mut part = self.identity.as_str().as_bytes_vec();
        buf.append(&mut part);
        buf.push(0);
        let mut part = self.username.as_str().as_bytes_vec();
        buf.append(&mut part);
        buf.push(0);
        let mut part = self.password.as_str().as_bytes_vec();
        buf.append(&mut part);
        proof {
            assert(buf@ =~= spec_plain_message(self.identity@, self.username@, self.password@));
        }
        Ok((String::from_str("PLAIN"), buf))
    }

    /// No challenge is ever legal for this mechanism.
    fn next(&mut self, challenge: &[u8]) -> (r: Result<Vec<u8>, SaslError>)
        ensures
            r matches Err(e) && e == SaslError::UnexpectedServerChallenge,
            *final(self) == *old(self),
    {
        Err(SaslError::UnexpectedServerChallenge)
    }
}

/// A server of the PLAIN mechanism: a two-state machine that takes one
/// NUL-delimited response, hands the decoded credentials to the
/// authenticator, and is done exactly when that verdict is positive.
pub struct PlainServer<A: PlainAuthenticator> {
    done: bool,
    authenticator: A,
}

impl<A: PlainAuthenticator> PlainServer<A> {
    /// Whether the exchange finished successfully; once set, every
    /// call fails.
    pub closed spec fn is_done(&self) -> bool {
        self.done
    }

    /// The authenticator this server consults.
    pub closed spec fn auth(&self) -> A {
        self.authenticator
    }

    /// A fresh server around `authenticator`.
    pub fn new(authenticator: A) -> (r: Self)
        ensures
            !r.is_done(),
            r.auth() == authenticator,
    {
        PlainServer { done: false, authenticator }
    }
}

impl<A: PlainAuthenticator> Server for PlainServer<A> {
    /// One step: an empty challenge until a response arrives, then one
    /// authenticator verdict on the parsed credentials; parse errors
    /// are fatal and reported before the authenticator is consulted.
    fn next(&mut self, response: Option<&[u8]>) -> (r: Result<(Vec<u8>, bool), SaslError>)
        ensures
            old(self).is_done() ==> (r matches Err(e) && e
                == SaslError::UnexpectedClientResponse) && *final(self) == *old(self),
            !old(self).is_done() && response is None ==> (r matches Ok(p) && p.0@ == Seq::<
                u8,
            >::empty() && p.1 == false) && *final(self) == *old(self),
            !old(self).is_done() && response is Some ==> {
                let b = response.unwrap();
                match spec_parse_plain(b@) {
                    PlainParse::MissingUsername => (r matches Err(e) && e
                        == SaslError::MissingUsername) && *final(self) == *old(self),
                    PlainParse::MissingPassword => (r matches Err(e) && e
                        == SaslError::MissingPassword) && *final(self) == *old(self),
                    PlainParse::NotText => (r matches Err(e) && e == SaslError::InvalidUtf8)
                        && *final(self) == *old(self),
                    PlainParse::Credentials(identity, username, password) => {
                        &&& r is Ok <==> old(self).auth().auth_ok(identity, username, password)
                        &&& r matches Ok(p) ==> p.0@ == Seq::<u8>::empty() && p.1 == true
                            && final(self).is_done()
                        &&& r matches Err(e) ==> (e matches SaslError::AuthenticationFailed(m)
                            && m@ == old(self).auth().auth_err(identity, username, password))
                            && !final(self).is_done()
                    },
                }
            },
    {
        if self.done {
            return Err(SaslError::UnexpectedClientResponse);
        }
        let b = match response {
            None => {
                return Ok((Vec::new(), false));
            },
            Some(b) => b,
        };
        let n = b.len();
        let c1 = match find_byte_from(b, 0, 0) {
            None => {
                proof {
                    lemma_find_byte_absent(b@, 0);
                }
                return Err(SaslError::MissingUsername);
            },
            Some(i) => i,
        };
        proof {
            lemma_find_byte_at(b@, 0, c1 as int);
        }
        assert(c1 < n);
        let c2 = match find_byte_from(b, c1 + 1, 0) {
            None => {
                proof {
                    assert forall|j: int| 0 <= j < b@.skip(c1 + 1).len() implies #[trigger] b@.skip(c1 + 1)[j] != 0u8 by {
                        assert(b@.skip(c1 + 1)[j] == b@[j + c1 + 1]);
                    }
                    lemma_find_byte_absent(b@.skip(c1 + 1), 0);
                }
                return Err(SaslError::MissingPassword);
            },
            Some(i) => i,
        };
        proof {
            assert(b@.skip(c1 + 1)[c2 - c1 - 1] == b@[c2 as int]);
            assert forall|j: int| 0 <= j < c2 - c1 - 1 implies #[trigger] b@.skip(c1 + 1)[j] != 0u8 by {
                assert(b@.skip(c1 + 1)[j] == b@[j + c1 + 1]);
            }
            lemma_find_byte_at(b@.skip(c1 + 1), 0, c2 - c1 - 1);
        }
        assert(c2 < n);
        let pw_end = match find_byte_from(b, c2 + 1, 0) {
            None => {
                proof {
                    assert forall|j: int| 0 <= j < b@.skip(c2 + 1).len() implies #[trigger] b@.skip(c2 + 1)[j] != 0u8 by {
                        assert(b@.skip(c2 + 1)[j] == b@[j + c2 + 1]);
                    }
                    lemma_find_byte_absent(b@.skip(c2 + 1), 0);
                }
                b.len()
            },
            Some(i) => {
                proof {
                    assert(b@.skip(c2 + 1)[i - c2 - 1] == b@[i as int]);
                    assert forall|j: int| 0 <= j < i - c2 - 1 implies #[trigger] b@.skip(c2 + 1)[j] != 0u8 by {
                        assert(b@.skip(c2 + 1)[j] == b@[j + c2 + 1]);
                    }
                    lemma_find_byte_at(b@.skip(c2 + 1), 0, i - c2 - 1);
                    assert(b@.skip(c2 + 1).take(i - c2 - 1) =~= b@.subrange(c2 + 1, i as int));
                }
                i
            },
        };
        let identity_bytes = &b[0..c1];
        let username_bytes = &b[c1 + 1..c2];
        let password_bytes = &b[c2 + 1..pw_end];
        proof {
            assert(b@.subrange(0, c1 as int) =~= b@.take(c1 as int));
            assert(b@.subrange(c1 + 1, c2 as int) =~= b@.subrange(
                c1 + 1,
                c1 + 1 + (c2 - c1 - 1),
            ));
            if pw_end == b@.len() {
                assert(b@.subrange(c2 + 1, pw_end as int) =~= b@.skip(c2 + 1));
            }
        }
        let identity = match utf8_to_string(identity_bytes) {
            None => {
                return Err(SaslError::InvalidUtf8);
            },
            Some(s) => s,
        };
        let username = match utf8_to_string(username_bytes) {
            None => {
                return Err(SaslError::InvalidUtf8);
            },
            Some(s) => s,
        };
        let password = match utf8_to_string(password_bytes) {
            None => {
                return Err(SaslError::InvalidUtf8);
            },
            Some(s) => s,
        };
        match self.authenticator.authenticate(identity.as_str(), username.as_str(), password.as_str()) {
            Ok(()) => {
                self.done = true;
                Ok((Vec::new(), true))
            },
            Err(m) => Err(SaslError::AuthenticationFailed(m)),
        }
    }
}

} // verus!
