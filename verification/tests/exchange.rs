use std::cell::RefCell;
use std::rc::Rc;

use sasl::anonymous::{AnonymousAuthenticator, AnonymousClient, AnonymousServer};
use sasl::external::{ExternalAuthenticator, ExternalClient, ExternalServer};
use sasl::login::{LoginAuthenticator, LoginClient, LoginServer};
use sasl::oauthbearer::{
    OAuthBearerAuthenticator, OAuthBearerClinet, OAuthBearerError, OAuthBearerOptions,
    OAuthBearerServer,
};
use sasl::plain::{PlainAuthenticator, PlainClient, PlainServer};
use sasl::sasl::{Client, SaslError, Server};

struct TraceAuth {
    calls: Rc<RefCell<Vec<String>>>,
    fail_with: Option<String>,
}

impl AnonymousAuthenticator for TraceAuth {
    fn auth_ok(&self, _trace: vstd::seq::Seq<char>) -> bool {
        unreachable!()
    }

    fn auth_err(&self, _trace: vstd::seq::Seq<char>) -> vstd::seq::Seq<char> {
        unreachable!()
    }

    fn authenticate(&mut self, trace: &str) -> Result<(), String> {
        self.calls.borrow_mut().push(trace.to_string());
        match &self.fail_with {
            None => Ok(()),
            Some(m) => Err(m.clone()),
        }
    }
}

impl ExternalAuthenticator for TraceAuth {
    fn auth_ok(&self, _identity: vstd::seq::Seq<char>) -> bool {
        unreachable!()
    }

    fn auth_err(&self, _identity: vstd::seq::Seq<char>) -> vstd::seq::Seq<char> {
        unreachable!()
    }

    fn authenticate(&mut self, identity: &str) -> Result<(), String> {
        self.calls.borrow_mut().push(identity.to_string());
        match &self.fail_with {
            None => Ok(()),
            Some(m) => Err(m.clone()),
        }
    }
}

struct UserPassAuth {
    calls: Rc<RefCell<Vec<(String, String)>>>,
    fail_with: Option<String>,
}

impl LoginAuthenticator for UserPassAuth {
    fn auth_ok(&self, _username: vstd::seq::Seq<char>, _password: vstd::seq::Seq<char>) -> bool {
        unreachable!()
    }

    fn auth_err(
        &self,
        _username: vstd::seq::Seq<char>,
        _password: vstd::seq::Seq<char>,
    ) -> vstd::seq::Seq<char> {
        unreachable!()
    }

    fn authenticate(&mut self, username: &str, password: &str) -> Result<(), String> {
        self.calls.borrow_mut().push((username.to_string(), password.to_string()));
        match &self.fail_with {
            None => Ok(()),
            Some(m) => Err(m.clone()),
        }
    }
}

struct CredsAuth {
    calls: Rc<RefCell<Vec<(String, String, String)>>>,
    fail_with: Option<String>,
}

impl PlainAuthenticator for CredsAuth {
    fn auth_ok(
        &self,
        _identity: vstd::seq::Seq<char>,
        _username: vstd::seq::Seq<char>,
        _password: vstd::seq::Seq<char>,
    ) -> bool {
        unreachable!()
    }

    fn auth_err(
        &self,
        _identity: vstd::seq::Seq<char>,
        _username: vstd::seq::Seq<char>,
        _password: vstd::seq::Seq<char>,
    ) -> vstd::seq::Seq<char> {
        unreachable!()
    }

    fn authenticate(&mut self, identity: &str, username: &str, password: &str) -> Result<(), String> {
        self.calls.borrow_mut().push((
            identity.to_string(),
            username.to_string(),
            password.to_string(),
        ));
        match &self.fail_with {
            None => Ok(()),
            Some(m) => Err(m.clone()),
        }
    }
}

struct BearerAuth {
    calls: Rc<RefCell<Vec<(String, String, String, u16)>>>,
    fail_with: Option<OAuthBearerError>,
}

impl OAuthBearerAuthenticator for BearerAuth {
    fn auth_ok(&self, _opts: sasl::oauthbearer::OAuthBearerOptionsView) -> bool {
        unreachable!()
    }

    fn auth_err(
        &self,
        _opts: sasl::oauthbearer::OAuthBearerOptionsView,
    ) -> sasl::oauthbearer::OAuthBearerErrorView {
        unreachable!()
    }

    fn authenticate(&mut self, opts: &OAuthBearerOptions) -> Result<(), OAuthBearerError> {
        self.calls.borrow_mut().push((
            opts.username.clone(),
            opts.token.clone(),
            opts.host.clone(),
            opts.port,
        ));
        match &self.fail_with {
            None => Ok(()),
            Some(e) => Err(e.clone()),
        }
    }
}

fn trace_auth(fail_with: Option<&str>) -> (TraceAuth, Rc<RefCell<Vec<String>>>) {
    let calls = Rc::new(RefCell::new(Vec::new()));
    (TraceAuth { calls: calls.clone(), fail_with: fail_with.map(|m| m.to_string()) }, calls)
}

fn bearer_auth(
    fail_with: Option<OAuthBearerError>,
) -> (BearerAuth, Rc<RefCell<Vec<(String, String, String, u16)>>>) {
    let calls = Rc::new(RefCell::new(Vec::new()));
    (BearerAuth { calls: calls.clone(), fail_with }, calls)
}

#[test]
fn test_new_plain_client() {
    let mut c = PlainClient::new(
        "identity".to_string(),
        "username".to_string(),
        "password".to_string(),
    );

    let (mech, ir) = c.start().map_err(|e| e.description()).unwrap();
    assert_eq!(mech, "PLAIN");

    let expected = vec![
        105, 100, 101, 110, 116, 105, 116, 121, 0, 117, 115, 101, 114, 110, 97, 109, 101, 0, 112,
        97, 115, 115, 119, 111, 114, 100,
    ];
    assert_eq!(ir, expected);
}

#[test]
fn plain_round_trip() {
    let mut c = PlainClient::new("i".to_string(), "u".to_string(), "p".to_string());
    let (mech, ir) = c.start().unwrap();
    assert_eq!(mech, "PLAIN");
    assert_eq!(ir, b"i\x00u\x00p".to_vec());

    let calls = Rc::new(RefCell::new(Vec::new()));
    let auth = CredsAuth { calls: calls.clone(), fail_with: None };
    let mut s = PlainServer::new(auth);
    let (challenge, done) = s.next(Some(&ir)).unwrap();
    assert!(challenge.is_empty());
    assert!(done);
    assert_eq!(
        calls.borrow().as_slice(),
        &[("i".to_string(), "u".to_string(), "p".to_string())]
    );
}

#[test]
fn plain_two_fields_is_parse_error() {
    let calls = Rc::new(RefCell::new(Vec::new()));
    let auth = CredsAuth { calls: calls.clone(), fail_with: None };
    let mut s = PlainServer::new(auth);
    let err = s.next(Some(b"only\x00two")).unwrap_err();
    assert_eq!(err, SaslError::MissingPassword);
    assert!(calls.borrow().is_empty());
}

#[test]
fn plain_no_nul_is_parse_error() {
    let calls = Rc::new(RefCell::new(Vec::new()));
    let auth = CredsAuth { calls: calls.clone(), fail_with: None };
    let mut s = PlainServer::new(auth);
    let err = s.next(Some(b"bare")).unwrap_err();
    assert_eq!(err, SaslError::MissingUsername);
    assert!(calls.borrow().is_empty());
}

#[test]
fn plain_extra_nul_content_is_ignored() {
    let calls = Rc::new(RefCell::new(Vec::new()));
    let auth = CredsAuth { calls: calls.clone(), fail_with: None };
    let mut s = PlainServer::new(auth);
    let (_, done) = s.next(Some(b"i\x00u\x00p\x00extra")).unwrap();
    assert!(done);
    assert_eq!(
        calls.borrow().as_slice(),
        &[("i".to_string(), "u".to_string(), "p".to_string())]
    );
}

#[test]
fn plain_invalid_utf8_is_fatal() {
    let calls = Rc::new(RefCell::new(Vec::new()));
    let auth = CredsAuth { calls: calls.clone(), fail_with: None };
    let mut s = PlainServer::new(auth);
    let err = s.next(Some(b"i\x00u\xff\x00p")).unwrap_err();
    assert_eq!(err, SaslError::InvalidUtf8);
    assert!(calls.borrow().is_empty());
}

#[test]
fn plain_auth_failure_propagates() {
    let calls = Rc::new(RefCell::new(Vec::new()));
    let auth = CredsAuth { calls: calls.clone(), fail_with: Some("no such user".to_string()) };
    let mut s = PlainServer::new(auth);
    let err = s.next(Some(b"i\x00u\x00p")).unwrap_err();
    assert_eq!(err, SaslError::AuthenticationFailed("no such user".to_string()));
}

#[test]
fn plain_server_rejects_after_done() {
    let calls = Rc::new(RefCell::new(Vec::new()));
    let auth = CredsAuth { calls, fail_with: None };
    let mut s = PlainServer::new(auth);
    let (challenge, done) = s.next(None).unwrap();
    assert!(challenge.is_empty());
    assert!(!done);
    let (_, done) = s.next(Some(b"i\x00u\x00p")).unwrap();
    assert!(done);
    let err = s.next(Some(b"again")).unwrap_err();
    assert_eq!(err, SaslError::UnexpectedClientResponse);
}

#[test]
fn plain_client_next_always_fails() {
    let mut c = PlainClient::new("i".to_string(), "u".to_string(), "p".to_string());
    assert_eq!(c.next(b"anything").unwrap_err(), SaslError::UnexpectedServerChallenge);
    assert_eq!(c.next(b"").unwrap_err(), SaslError::UnexpectedServerChallenge);
}

#[test]
fn login_prompt_sequence() {
    let calls = Rc::new(RefCell::new(Vec::new()));
    let auth = UserPassAuth { calls: calls.clone(), fail_with: None };
    let mut s = LoginServer::new(auth);

    let (challenge, done) = s.next(None).unwrap();
    assert_eq!(challenge, b"Username:".to_vec());
    assert!(!done);

    let (challenge, done) = s.next(Some(b"alice")).unwrap();
    assert_eq!(challenge, b"Password:".to_vec());
    assert!(!done);

    let (challenge, done) = s.next(Some(b"secret")).unwrap();
    assert!(challenge.is_empty());
    assert!(done);

    assert_eq!(calls.borrow().as_slice(), &[("alice".to_string(), "secret".to_string())]);
}

#[test]
fn login_username_as_initial_response() {
    let calls = Rc::new(RefCell::new(Vec::new()));
    let auth = UserPassAuth { calls: calls.clone(), fail_with: None };
    let mut s = LoginServer::new(auth);

    let (challenge, done) = s.next(Some(b"bob")).unwrap();
    assert_eq!(challenge, b"Password:".to_vec());
    assert!(!done);

    let (_, done) = s.next(Some(b"hunter2")).unwrap();
    assert!(done);
    assert_eq!(calls.borrow().as_slice(), &[("bob".to_string(), "hunter2".to_string())]);
}

#[test]
fn login_client_answers_password_prompt() {
    let mut c = LoginClient::new("alice".to_string(), "secret".to_string());
    let (mech, ir) = c.start().unwrap();
    assert_eq!(mech, "LOGIN");
    assert_eq!(ir, b"alice".to_vec());

    let response = c.next(b"Password:").unwrap();
    assert_eq!(response, b"secret".to_vec());

    let err = c.next(b"Something:").unwrap_err();
    assert_eq!(err, SaslError::UnexpectedServerChallenge);
}

#[test]
fn login_server_resets_after_success() {
    let calls = Rc::new(RefCell::new(Vec::new()));
    let auth = UserPassAuth { calls, fail_with: None };
    let mut s = LoginServer::new(auth);
    s.next(Some(b"alice")).unwrap();
    let (_, done) = s.next(Some(b"secret")).unwrap();
    assert!(done);
    let (challenge, done) = s.next(Some(b"carol")).unwrap();
    assert_eq!(challenge, b"Password:".to_vec());
    assert!(!done);
}

#[test]
fn login_auth_failure_propagates() {
    let calls = Rc::new(RefCell::new(Vec::new()));
    let auth = UserPassAuth { calls, fail_with: Some("bad password".to_string()) };
    let mut s = LoginServer::new(auth);
    s.next(Some(b"alice")).unwrap();
    let err = s.next(Some(b"wrong")).unwrap_err();
    assert_eq!(err, SaslError::AuthenticationFailed("bad password".to_string()));
}

#[test]
fn anonymous_round_trip() {
    let mut c = AnonymousClient::new("someone@example.org".to_string());
    let (mech, ir) = c.start().unwrap();
    assert_eq!(mech, "ANONYMOUS");
    assert_eq!(ir, b"someone@example.org".to_vec());

    let (auth, calls) = trace_auth(None);
    let mut s = AnonymousServer::new(auth);
    let (challenge, done) = s.next(None).unwrap();
    assert!(challenge.is_empty());
    assert!(!done);
    let (challenge, done) = s.next(Some(&ir)).unwrap();
    assert!(challenge.is_empty());
    assert!(done);
    assert_eq!(calls.borrow().as_slice(), &["someone@example.org".to_string()]);
}

#[test]
fn anonymous_server_rejects_after_done() {
    let (auth, _) = trace_auth(None);
    let mut s = AnonymousServer::new(auth);
    let (_, done) = s.next(Some(b"trace")).unwrap();
    assert!(done);
    assert_eq!(s.next(Some(b"more")).unwrap_err(), SaslError::UnexpectedClientResponse);
}

#[test]
fn anonymous_client_next_always_fails() {
    let mut c = AnonymousClient::new("t".to_string());
    assert_eq!(c.next(b"whatever").unwrap_err(), SaslError::UnexpectedServerChallenge);
    assert_eq!(c.next(b"").unwrap_err(), SaslError::UnexpectedServerChallenge);
}

#[test]
fn external_round_trip() {
    let mut c = ExternalClient::new("admin".to_string());
    let (mech, ir) = c.start().unwrap();
    assert_eq!(mech, "EXTERNAL");
    assert_eq!(ir, b"admin".to_vec());

    let (auth, calls) = trace_auth(None);
    let mut s = ExternalServer::new(auth);
    let (challenge, done) = s.next(Some(&ir)).unwrap();
    assert!(challenge.is_empty());
    assert!(done);
    assert_eq!(calls.borrow().as_slice(), &["admin".to_string()]);
}

#[test]
fn external_nul_identity_rejected() {
    let (auth, calls) = trace_auth(None);
    let mut s = ExternalServer::new(auth);
    let err = s.next(Some(b"ad\x00min")).unwrap_err();
    assert_eq!(err, SaslError::IdentityContainsNul);
    assert!(calls.borrow().is_empty());
}

#[test]
fn external_server_rejects_after_done() {
    let (auth, _) = trace_auth(Some("unknown identity"));
    let mut s = ExternalServer::new(auth);
    let err = s.next(Some(b"someone")).unwrap_err();
    assert_eq!(err, SaslError::AuthenticationFailed("unknown identity".to_string()));
    assert_eq!(s.next(Some(b"again")).unwrap_err(), SaslError::UnexpectedClientResponse);
}

#[test]
fn external_client_next_always_fails() {
    let mut c = ExternalClient::new(String::new());
    assert_eq!(c.next(b"x").unwrap_err(), SaslError::UnexpectedServerChallenge);
}

fn options(username: &str, token: &str, host: &str, port: u16) -> OAuthBearerOptions {
    OAuthBearerOptions {
        username: username.to_string(),
        token: token.to_string(),
        host: host.to_string(),
        port,
    }
}

#[test]
fn oauth_client_message_layout() {
    let mut c = OAuthBearerClinet::new(options("user", "tok", "h", 993));
    let (mech, ir) = c.start().unwrap();
    assert_eq!(mech, "OAUTHBEARER");
    assert_eq!(ir, b"n,a=user,\x01host=h\x01port=993\x01auth=Bearer tok\x01\x01".to_vec());
}

#[test]
fn oauth_client_message_omits_unset_fields() {
    let mut c = OAuthBearerClinet::new(options("", "tok", "", 0));
    let (_, ir) = c.start().unwrap();
    assert_eq!(ir, b"n,,\x01auth=Bearer tok\x01\x01".to_vec());
}

#[test]
fn oauth_happy_path() {
    let mut c = OAuthBearerClinet::new(options("user", "tok", "h", 993));
    let (_, ir) = c.start().unwrap();

    let (auth, calls) = bearer_auth(None);
    let mut s = OAuthBearerServer::new(auth);
    let (challenge, done) = s.next(Some(&ir)).unwrap();
    assert!(challenge.is_empty());
    assert!(done);
    assert_eq!(
        calls.borrow().as_slice(),
        &[("user".to_string(), "tok".to_string(), "h".to_string(), 993)]
    );
}

#[test]
fn oauth_empty_challenge_solicits_initial_response() {
    let (auth, _) = bearer_auth(None);
    let mut s = OAuthBearerServer::new(auth);
    let (challenge, done) = s.next(None).unwrap();
    assert!(challenge.is_empty());
    assert!(!done);
}

#[test]
fn oauth_server_rejects_after_done() {
    let (auth, _) = bearer_auth(None);
    let mut s = OAuthBearerServer::new(auth);
    let (_, done) = s.next(Some(b"n,,\x01auth=Bearer tok\x01\x01")).unwrap();
    assert!(done);
    assert_eq!(s.next(Some(b"more")).unwrap_err(), SaslError::UnexpectedClientResponse);
}

#[test]
fn oauth_failure_round_trip() {
    let rejected = OAuthBearerError {
        status: "invalid_token".to_string(),
        schemes: "bearer".to_string(),
        scope: String::new(),
    };
    let (auth, _) = bearer_auth(Some(rejected));
    let mut s = OAuthBearerServer::new(auth);

    let (challenge, done) = s.next(Some(b"n,,\x01auth=Bearer bad\x01\x01")).unwrap();
    assert!(!done);
    assert!(!challenge.is_empty());

    let err = s.next(Some(&[0x01])).unwrap_err();
    assert_eq!(
        err,
        SaslError::AuthenticationFailed("OAUTHBEARER authentication error invalid_token".to_string())
    );
}

#[test]
fn oauth_wrong_ack_keeps_stored_error() {
    let rejected = OAuthBearerError {
        status: "invalid_token".to_string(),
        schemes: "bearer".to_string(),
        scope: String::new(),
    };
    let (auth, _) = bearer_auth(Some(rejected));
    let mut s = OAuthBearerServer::new(auth);
    s.next(Some(b"n,,\x01auth=Bearer bad\x01\x01")).unwrap();

    let err = s.next(Some(&[0x02])).unwrap_err();
    assert_eq!(err, SaslError::UnexpectedResponse);
    let err = s.next(None).unwrap_err();
    assert_eq!(err, SaslError::UnexpectedResponse);

    let err = s.next(Some(&[0x01])).unwrap_err();
    assert_eq!(
        err,
        SaslError::AuthenticationFailed("OAUTHBEARER authentication error invalid_token".to_string())
    );
}

#[test]
fn oauth_failure_challenge_is_generic_json() {
    let rejected = OAuthBearerError {
        status: "invalid_token".to_string(),
        schemes: "bearer".to_string(),
        scope: "chat".to_string(),
    };
    let (auth, _) = bearer_auth(Some(rejected));
    let mut s = OAuthBearerServer::new(auth);
    let (challenge, done) = s.next(Some(b"n,,\x01auth=Bearer bad\x01\x01")).unwrap();
    assert!(!done);

    let v: serde_json::Value = serde_json::from_slice(&challenge).unwrap();
    assert_eq!(v.get("status").and_then(|x| x.as_str()), Some("invalid_request"));
    assert_eq!(v.get("schemes").and_then(|x| x.as_str()), Some("bearer"));
    assert_eq!(v.get("scope").and_then(|x| x.as_str()), Some(""));
}

#[test]
fn oauth_client_reads_error_challenge() {
    let (auth, _) = bearer_auth(Some(OAuthBearerError {
        status: "invalid_token".to_string(),
        schemes: "bearer".to_string(),
        scope: String::new(),
    }));
    let mut s = OAuthBearerServer::new(auth);
    let (challenge, _) = s.next(Some(b"n,,\x01auth=Bearer bad\x01\x01")).unwrap();

    let mut c = OAuthBearerClinet::new(options("", "bad", "", 0));
    let err = c.next(&challenge).unwrap_err();
    assert_eq!(
        err,
        SaslError::AuthenticationFailed(
            "OAUTHBEARER authentication error invalid_request".to_string()
        )
    );
}

#[test]
fn oauth_client_rejects_malformed_json() {
    let mut c = OAuthBearerClinet::new(options("", "t", "", 0));
    assert_eq!(c.next(b"not json").unwrap_err(), SaslError::InvalidJson);
    assert_eq!(c.next(b"{\"status\":3}").unwrap_err(), SaslError::InvalidJson);
}

fn drive_to_stored_failure(message: &[u8]) -> String {
    let (auth, calls) = bearer_auth(None);
    let mut s = OAuthBearerServer::new(auth);
    let (_, done) = s.next(Some(message)).unwrap();
    assert!(!done);
    assert!(calls.borrow().is_empty());
    let err = s.next(Some(&[0x01])).unwrap_err();
    match err {
        SaslError::AuthenticationFailed(m) => m,
        other => panic!("expected a stored failure, got {:?}", other),
    }
}

#[test]
fn oauth_unknown_parameter_is_structured_failure() {
    let m = drive_to_stored_failure(b"n,,\x01foo=bar\x01auth=Bearer tok\x01\x01");
    assert_eq!(m, "Invalid response, unknown parameter: foo");
}

#[test]
fn oauth_single_comma_is_invalid_response() {
    let m = drive_to_stored_failure(b"n,a=user");
    assert_eq!(m, "Invalid response");
}

#[test]
fn oauth_missing_gs2_flag() {
    let m = drive_to_stored_failure(b"y,,\x01auth=Bearer tok\x01\x01");
    assert_eq!(m, "Invalid response, missing 'n' in gs2-cb-flag");
}

#[test]
fn oauth_missing_authzid_prefix() {
    let m = drive_to_stored_failure(b"n,b=user,\x01auth=Bearer tok\x01\x01");
    assert_eq!(m, "Invalid response, missing 'a=' in gs2-authzid");
}

#[test]
fn oauth_missing_equals_in_segment() {
    let m = drive_to_stored_failure(b"n,,\x01auth\x01\x01");
    assert_eq!(m, "Invalid response, missing '='");
}

#[test]
fn oauth_malformed_port() {
    let m = drive_to_stored_failure(b"n,,\x01host=h\x01port=12ab\x01auth=Bearer tok\x01\x01");
    assert_eq!(m, "Invalid response, malformed 'port' value");
}

#[test]
fn oauth_port_overflow_is_malformed() {
    let m = drive_to_stored_failure(b"n,,\x01port=70000\x01auth=Bearer tok\x01\x01");
    assert_eq!(m, "Invalid response, malformed 'port' value");
}

#[test]
fn oauth_port_accepts_leading_plus() {
    let (auth, calls) = bearer_auth(None);
    let mut s = OAuthBearerServer::new(auth);
    let (_, done) = s.next(Some(b"n,,\x01port=+993\x01auth=Bearer tok\x01\x01")).unwrap();
    assert!(done);
    assert_eq!(
        calls.borrow().as_slice(),
        &[(String::new(), "tok".to_string(), String::new(), 993)]
    );
}

#[test]
fn oauth_unsupported_token_type() {
    let m = drive_to_stored_failure(b"n,,\x01auth=Basic dXNlcg==\x01\x01");
    assert_eq!(m, "Unsupported token type");
}

#[test]
fn oauth_token_is_case_folded() {
    let (auth, calls) = bearer_auth(None);
    let mut s = OAuthBearerServer::new(auth);
    let (_, done) = s.next(Some(b"n,a=User,\x01auth=BEARER Tok\x01\x01")).unwrap();
    assert!(done);
    assert_eq!(
        calls.borrow().as_slice(),
        &[("User".to_string(), "tok".to_string(), String::new(), 0)]
    );
}

#[test]
fn oauth_invalid_utf8_field_is_fatal() {
    let (auth, calls) = bearer_auth(None);
    let mut s = OAuthBearerServer::new(auth);
    let err = s.next(Some(b"n,a=us\xffer,\x01auth=Bearer tok\x01\x01")).unwrap_err();
    assert_eq!(err, SaslError::InvalidUtf8);
    assert!(calls.borrow().is_empty());
    assert_eq!(s.next(Some(b"again")).unwrap_err(), SaslError::UnexpectedClientResponse);
}

#[test]
fn error_descriptions() {
    assert_eq!(
        SaslError::UnexpectedClientResponse.description(),
        "sasl: unexpected client response"
    );
    assert_eq!(
        SaslError::UnexpectedServerChallenge.description(),
        "sasl: unexpected server challenge"
    );
    assert_eq!(SaslError::UnexpectedResponse.description(), "unexpected response");
    assert_eq!(
        SaslError::IdentityContainsNul.description(),
        "identity contains a NUL character"
    );
    assert_eq!(
        SaslError::AuthenticationFailed("boom".to_string()).description(),
        "boom"
    );
}
