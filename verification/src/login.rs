//! The LOGIN mechanism (draft-murchison-sasl-login): a legacy two-step
//! username/password prompt sequence. Obsolete; prefer PLAIN where the
//! peer supports it.

use vstd::prelude::*;
use vstd::string::{StrSliceExecFns, StringExecFns};
use vstd::utf8::{decode_utf8, encode_utf8, valid_utf8};

use crate::sasl::{Client, SaslError, Server};
use crate::text::{bytes_eq, utf8_to_string};

verus! {

/// The bytes of the literal `Username:` prompt.
pub open spec fn spec_username_prompt() -> Seq<u8> {
    seq![85u8, 115u8, 101u8, 114u8, 110u8, 97u8, 109u8, 101u8, 58u8]
}

/// The bytes of the literal `Password:` prompt.
pub open spec fn spec_password_prompt() -> Seq<u8> {
    seq![80u8, 97u8, 115u8, 115u8, 119u8, 111u8, 114u8, 100u8, 58u8]
}

/// The `Username:` prompt a LOGIN server sends.
fn username_prompt() -> (r: Vec<u8>)
    ensures
        r@ == spec_username_prompt(),
{
    let mut v: Vec<u8> = Vec::new();
    v.push(85);
    v.push(115);
    v.push(101);
    v.push(114);
    v.push(110);
    v.push(97);
    v.push(109);
    v.push(101);
    v.push(58);
    proof {
        assert(v@ =~= spec_username_prompt());
    }
    v
}

/// The `Password:` prompt a LOGIN server sends.
fn password_prompt() -> (r: Vec<u8>)
    ensures
        r@ == spec_password_prompt(),
{
    let mut v: Vec<u8> = Vec::new();
    v.push(80);
    v.push(97);
    v.push(115);
    v.push(115);
    v.push(119);
    v.push(111);
    v.push(114);
    v.push(100);
    v.push(58);
    proof {
        assert(v@ =~= spec_password_prompt());
    }
    v
}

/// Checks a username and password. Implementations come from the
/// application; the contract says the verdict and the rejection
/// message depend on the authenticator's state and the two fields
/// alone.
pub trait LoginAuthenticator {
    /// Whether this authenticator accepts the given credentials.
    spec fn auth_ok(&self, username: Seq<char>, password: Seq<char>) -> bool;

    /// The message with which this authenticator rejects the given credentials.
    spec fn auth_err(&self, username: Seq<char>, password: Seq<char>) -> Seq<char>;

    /// Check one username and password.
    fn authenticate(&mut self, username: &str, password: &str) -> (r: Result<(), String>)
        ensures
            r is Ok <==> old(self).auth_ok(username@, password@),
            r matches Err(m) ==> m@ == old(self).auth_err(username@, password@);
}

/// A client of the LOGIN mechanism: it offers the username as initial
/// response and answers the literal `Password:` prompt with the
/// password; any other challenge is an error.
pub struct LoginClient {
    username: String,
    password: String,
}

impl LoginClient {
    /// The username this client presents.
    pub closed spec fn username_view(&self) -> Seq<char> {
        self.username@
    }

    /// The password this client presents.
    pub closed spec fn password_view(&self) -> Seq<char> {
        self.password@
    }

    /// A client for the given username and password.
    pub fn new(username: String, password: String) -> (r: Self)
        ensures
            r.username_view() == username@,
            r.password_view() == password@,
    {
        LoginClient { username, password }
    }
}

impl Client for LoginClient {
    /// The mechanism name and the username as initial response.
    fn start(&mut self) -> (r: Result<(String, Vec<u8>), SaslError>)
        ensures
            r matches Ok(p) && p.0@ == "LOGIN"@ && p.1@ == encode_utf8(old(self).username_view()),
            *final(self) == *old(self),
    {
        Ok((String::from_str("LOGIN"), self.username.as_str().as_bytes_vec()))
    }

    /// The password, exactly when the challenge is the literal
    /// `Password:` prompt.
    fn next(&mut self, challenge: &[u8]) -> (r: Result<Vec<u8>, SaslError>)
        ensures
            challenge@ == spec_password_prompt() ==> (r matches Ok(v) && v@ == encode_utf8(
                old(self).password_view(),
            )),
            challenge@ != spec_password_prompt() ==> (r matches Err(e) && e
                == SaslError::UnexpectedServerChallenge),
            *final(self) == *old(self),
    {
        let prompt = password_prompt();
        if bytes_eq(challenge, prompt.as_slice()) {
            Ok(self.password.as_str().as_bytes_vec())
        } else {
            Err(SaslError::UnexpectedServerChallenge)
        }
    }
}

/// Where a LOGIN server stands in its prompt sequence.
pub enum LoginState {
    /// Nothing received yet.
    NotStarted,
    /// The `Username:` prompt is out.
    WaitingUsername,
    /// The `Password:` prompt is out.
    WaitingPassword,
}

/// A server of the LOGIN mechanism: it prompts for a username unless
/// one arrives as the initial response, then for a password, then asks
/// the authenticator. On success it returns to its starting state, as
/// the mechanism prescribes; a caller must nevertheless discard it.
pub struct LoginServer<A: LoginAuthenticator> {
    state: LoginState,
    username: String,
    authenticator: A,
}

impl<A: LoginAuthenticator> LoginServer<A> {
    /// Where this server stands in its prompt sequence.
    pub closed spec fn state_view(&self) -> LoginState {
        self.state
    }

    /// The username recorded so far.
    pub closed spec fn username_view(&self) -> Seq<char> {
        self.username@
    }

    /// The authenticator this server consults.
    pub closed spec fn auth(&self) -> A {
        self.authenticator
    }

    /// A fresh server around `authenticator`.
    pub fn new(authenticator: A) -> (r: Self)
        ensures
            r.state_view() is NotStarted,
            r.auth() == authenticator,
    {
        LoginServer { state: LoginState::NotStarted, username: String::new(), authenticator }
    }
}

impl<A: LoginAuthenticator> Server for LoginServer<A> {
    /// One step of the prompt sequence. A missing response counts as
    /// empty bytes once the sequence is under way.
    fn next(&mut self, response: Option<&[u8]>) -> (r: Result<(Vec<u8>, bool), SaslError>)
        ensures
            ({
                let b = if response is Some {
                    response.unwrap()@
                } else {
                    Seq::<u8>::empty()
                };
                match old(self).state_view() {
                    LoginState::NotStarted => {
                        &&& response is None ==> (r matches Ok(p) && p.0@
                            == spec_username_prompt() && p.1 == false) && final(self).state_view()
                            is WaitingUsername && final(self).username_view() == old(
                            self,
                        ).username_view() && final(self).auth() == old(self).auth()
                        &&& response is Some ==> spec_after_username(*old(self), *final(self), b, r)
                    },
                    LoginState::WaitingUsername => spec_after_username(
                        *old(self),
                        *final(self),
                        b,
                        r,
                    ),
                    LoginState::WaitingPassword => {
                        &&& !valid_utf8(b) ==> (r matches Err(e) && e == SaslError::InvalidUtf8)
                        &&& valid_utf8(b) ==> {
                            let password = decode_utf8(b);
                            let username = old(self).username_view();
                            &&& r is Ok <==> old(self).auth().auth_ok(username, password)
                            &&& r matches Ok(p) ==> p.0@ == Seq::<u8>::empty() && p.1 == true
                                && final(self).state_view() is NotStarted
                            &&& r matches Err(e) ==> (e matches SaslError::AuthenticationFailed(m)
                                && m@ == old(self).auth().auth_err(username, password))
                        }
                    },
                }
            }),
    {
        let empty: Vec<u8> = Vec::new();
        match self.state {
            LoginState::NotStarted => {
                match response {
                    None => {
                        self.state = LoginState::WaitingUsername;
                        Ok((username_prompt(), false))
                    },
                    Some(b) => self.take_username(b),
                }
            },
            LoginState::WaitingUsername => {
                let b = match response {
                    None => empty.as_slice(),
                    Some(b) => b,
                };
                self.take_username(b)
            },
            LoginState::WaitingPassword => {
                let b = match response {
                    None => empty.as_slice(),
                    Some(b) => b,
                };
                match utf8_to_string(b) {
                    None => Err(SaslError::InvalidUtf8),
                    Some(password) => {
                        match self.authenticator.authenticate(
                            self.username.as_str(),
                            password.as_str(),
                        ) {
                            Ok(()) => {
                                self.state = LoginState::NotStarted;
                                Ok((Vec::new(), true))
                            },
                            Err(m) => Err(SaslError::AuthenticationFailed(m)),
                        }
                    },
                }
            },
        }
    }
}

/// After a username arrives: it is recorded if it decodes as UTF-8,
/// and the `Password:` prompt goes out.
pub open spec fn spec_after_username<A: LoginAuthenticator>(
    pre: LoginServer<A>,
    post: LoginServer<A>,
    b: Seq<u8>,
    r: Result<(Vec<u8>, bool), SaslError>,
) -> bool {
    &&& !valid_utf8(b) ==> (r matches Err(e) && e == SaslError::InvalidUtf8)
    &&& valid_utf8(b) ==> (r matches Ok(p) && p.0@ == spec_password_prompt() && p.1 == false)
        && post.state_view() is WaitingPassword && post.username_view() == decode_utf8(b)
        && post.auth() == pre.auth()
}

impl<A: LoginAuthenticator> LoginServer<A> {
    /// Record one username and move on to the password prompt.
    fn take_username(&mut self, b: &[u8]) -> (r: Result<(Vec<u8>, bool), SaslError>)
        ensures
            spec_after_username(*old(self), *final(self), b@, r),
    {
        match utf8_to_string(b) {
            None => Err(SaslError::InvalidUtf8),
            Some(username) => {
                self.username = username;
                self.state = LoginState::WaitingPassword;
                Ok((password_prompt(), false))
            },
        }
    }
}

} // verus!
