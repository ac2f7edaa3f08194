//! The OAUTHBEARER mechanism (RFC 7628): a GS2-framed bearer-token
//! exchange. Failures are not reported at once: the server answers
//! with a JSON error object and releases the real error only after
//! the client acknowledges it with a single 0x01 byte.

use vstd::prelude::*;
use vstd::string::{StrSliceExecFns, StringExecFns};
use vstd::utf8::{decode_utf8, encode_utf8, valid_utf8};

use crate::sasl::{Client, SaslError, Server};
use crate::text::{
    bytes_eq, find_byte_from, lemma_find_byte_absent, lemma_find_byte_at, lower_of, parse_u16,
    spec_decimal_bytes, spec_find_byte, spec_parse_u16, push_decimal, to_lowercase,
    utf8_to_string,
};

verus! {

/// The structured error a server reports: it is sent over the wire as
/// a JSON object with the fields `status`, `schemes` and `scope`.
#[derive(Debug, Clone, PartialEq, Eq)]
pub struct OAuthBearerError {
    /// Why the request failed, for instance `invalid_request`.
    pub status: String,
    /// The authentication schemes the server supports.
    pub schemes: String,
    /// The scope the server would have required.
    pub scope: String,
}

/// The three fields of an `OAuthBearerError`, as character sequences.
pub struct OAuthBearerErrorView {
    /// Why the request failed.
    pub status: Seq<char>,
    /// The authentication schemes the server supports.
    pub schemes: Seq<char>,
    /// The scope the server would have required.
    pub scope: Seq<char>,
}

impl View for OAuthBearerError {
    type V = OAuthBearerErrorView;

    open spec fn view(&self) -> OAuthBearerErrorView {
        OAuthBearerErrorView { status: self.status@, schemes: self.schemes@, scope: self.scope@ }
    }
}

/// The message an error surfaces as: the mechanism name and the status.
pub open spec fn spec_auth_error_message(status: Seq<char>) -> Seq<char> {
    "OAUTHBEARER authentication error "@ + status
}

impl OAuthBearerError {
    /// The text of this error, as a caller would log it.
    pub fn message(&self) -> (r: String)
        ensures
            r@ == spec_auth_error_message(self.status@),
    {
        let mut m = String::from_str("OAUTHBEARER authentication error ");
        m.append(self.status.as_str());
        m
    }
}

/// The parsed fields of a client's initial message: an optional
/// authorization identity, the bearer token, and the host and port the
/// client believes it is talking to (port zero meaning "unset").
pub struct OAuthBearerOptions {
    /// The authorization identity, empty when none was sent.
    pub username: String,
    /// The bearer token, with its `Bearer ` prefix stripped and the
    /// whole value case-folded.
    pub token: String,
    /// The host the client addressed, empty when none was sent.
    pub host: String,
    /// The port the client addressed, zero when none was sent.
    pub port: u16,
}

/// The fields of an `OAuthBearerOptions`, as character sequences.
pub struct OAuthBearerOptionsView {
    /// The authorization identity, empty when none was sent.
    pub username: Seq<char>,
    /// The case-folded bearer token.
    pub token: Seq<char>,
    /// The host the client addressed.
    pub host: Seq<char>,
    /// The port the client addressed, zero when none was sent.
    pub port: u16,
}

impl View for OAuthBearerOptions {
    type V = OAuthBearerOptionsView;

    open spec fn view(&self) -> OAuthBearerOptionsView {
        OAuthBearerOptionsView {
            username: self.username@,
            token: self.token@,
            host: self.host@,
            port: self.port,
        }
    }
}

/// What `serde_json::to_vec` produces for an error object with the
/// given field values: a function of those values alone.
pub uninterp spec fn spec_error_json(
    status: Seq<char>,
    schemes: Seq<char>,
    scope: Seq<char>,
) -> Seq<u8>;

/// Relies on `serde_json::to_vec`: it renders a JSON object of three
/// string members, deterministically in the member values.
#[verifier::external_body]
fn error_to_json(e: &OAuthBearerError) -> (r: Vec<u8>)
    ensures
        r@ == spec_error_json(e.status@, e.schemes@, e.scope@),
{
    let mut m = serde_json::Map::new();
    m.insert("status".to_string(), serde_json::Value::String(e.status.clone()));
    m.insert("schemes".to_string(), serde_json::Value::String(e.schemes.clone()));
    m.insert("scope".to_string(), serde_json::Value::String(e.scope.clone()));
    serde_json::to_vec(&serde_json::Value::Object(m)).unwrap()
}

/// What reading an error object out of the given bytes yields: the
/// three string members, or nothing when the bytes are not a JSON
/// object carrying them. A function of the bytes alone.
pub uninterp spec fn spec_json_error_fields(bytes: Seq<u8>) -> Option<
    (Seq<char>, Seq<char>, Seq<char>),
>;

/// Relies on `serde_json::from_slice` and the `serde_json::Value`
/// accessors: parsing succeeds exactly when the bytes are a JSON
/// object whose members `status`, `schemes` and `scope` are strings,
/// and what it returns depends on the bytes alone.
#[verifier::external_body]
fn json_to_error(bytes: &[u8]) -> (r: Option<OAuthBearerError>)
    ensures
        r is Some <==> spec_json_error_fields(bytes@) is Some,
        r matches Some(e) ==> spec_json_error_fields(bytes@) == Some(
            (e.status@, e.schemes@, e.scope@),
        ),
{
    let v: serde_json::Value = serde_json::from_slice(bytes).ok()?;
    let status = v.get("status")?.as_str()?.to_string();
    let schemes = v.get("schemes")?.as_str()?.to_string();
    let scope = v.get("scope")?.as_str()?.to_string();
    Some(OAuthBearerError { status, schemes, scope })
}

/// The `a=username` part of the initial message, absent when no
/// username is set.
pub open spec fn spec_authzid_part(username: Seq<char>) -> Seq<u8> {
    if username.len() > 0 {
        seq![97u8, 61u8] + encode_utf8(username)
    } else {
        Seq::<u8>::empty()
    }
}

/// The `^Ahost=h` part of the initial message, absent when no host is
/// set; `^A` is the byte 0x01.
pub open spec fn spec_host_part(host: Seq<char>) -> Seq<u8> {
    if host.len() > 0 {
        seq![1u8, 104u8, 111u8, 115u8, 116u8, 61u8] + encode_utf8(host)
    } else {
        Seq::<u8>::empty()
    }
}

/// The `^Aport=p` part of the initial message, absent when the port
/// is zero.
pub open spec fn spec_port_part(port: u16) -> Seq<u8> {
    if port != 0 {
        seq![1u8, 112u8, 111u8, 114u8, 116u8, 61u8] + spec_decimal_bytes(port as int)
    } else {
        Seq::<u8>::empty()
    }
}

/// The closing `^Aauth=Bearer token^A^A` part of the initial message.
pub open spec fn spec_auth_part(token: Seq<char>) -> Seq<u8> {
    seq![1u8, 97u8, 117u8, 116u8, 104u8, 61u8, 66u8, 101u8, 97u8, 114u8, 101u8, 114u8, 32u8]
        + encode_utf8(token) + seq![1u8, 1u8]
}

/// The initial message a client sends for the given options:
/// `n,[a=username],[^Ahost=h][^Aport=p]^Aauth=Bearer token^A^A`,
/// where `^A` is the byte 0x01 and the bracketed parts are omitted
/// when unset.
pub open spec fn spec_client_message(o: OAuthBearerOptionsView) -> Seq<u8> {
    seq![110u8, 44u8] + spec_authzid_part(o.username) + seq![44u8] + spec_host_part(o.host)
        + spec_port_part(o.port) + spec_auth_part(o.token)
}

/// A client of the OAUTHBEARER mechanism: it sends one GS2-framed
/// message and treats any challenge as a JSON error object.
pub struct OAuthBearerClinet {
    options: OAuthBearerOptions,
}

impl OAuthBearerClinet {
    /// The options this client will send.
    pub closed spec fn options_view(&self) -> OAuthBearerOptionsView {
        self.options@
    }

    /// A client that will send `options`.
    pub fn new(options: OAuthBearerOptions) -> (r: Self)
        ensures
            r.options_view() == options@,
    {
        OAuthBearerClinet { options }
    }
}

/// Append the `a=username` part of the initial message.
fn push_authzid(buf: &mut Vec<u8>, username: &String)
    ensures
        final(buf)@ == old(buf)@ + spec_authzid_part(username@),
{
    if !username.as_str().is_empty() {
        buf.push(97);
        buf.push(61);
        let mut part = username.as_str().as_bytes_vec();
        buf.append(&mut part);
        proof {
            assert(buf@ =~= old(buf)@ + spec_authzid_part(username@));
        }
    } else {
        proof {
            assert(buf@ =~= old(buf)@ + spec_authzid_part(username@));
        }
    }
}

/// Append the `^Ahost=h` part of the initial message.
fn push_host(buf: &mut Vec<u8>, host: &String)
    ensures
        final(buf)@ == old(buf)@ + spec_host_part(host@),
{
    if !host.as_str().is_empty() {
        buf.push(1);
        buf.push(104);
        buf.push(111);
        buf.push(115);
        buf.push(116);
        buf.push(61);
        let mut part = host.as_str().as_bytes_vec();
        buf.append(&mut part);
        proof {
            assert(buf@ =~= old(buf)@ + spec_host_part(host@));
        }
    } else {
        proof {
            assert(buf@ =~= old(buf)@ + spec_host_part(host@));
        }
    }
}

/// Append the `^Aport=p` part of the initial message.
fn push_port(buf: &mut Vec<u8>, port: u16)
    ensures
        final(buf)@ == old(buf)@ + spec_port_part(port),
{
    if port != 0 {
        buf.push(1);
        buf.push(112);
        buf.push(111);
        buf.push(114);
        buf.push(116);
        buf.push(61);
        push_decimal(buf, port);
        proof {
            assert(buf@ =~= old(buf)@ + spec_port_part(port));
        }
    } else {
        proof {
            assert(buf@ =~= old(buf)@ + spec_port_part(port));
        }
    }
}

/// Append the closing `^Aauth=Bearer token^A^A` part of the initial
/// message.
fn push_auth(buf: &mut Vec<u8>, token: &String)
    ensures
        final(buf)@ == old(buf)@ + spec_auth_part(token@),
{
    buf.push(1);
    buf.push(97);
    buf.push(117);
    buf.push(116);
    buf.push(104);
    buf.push(61);
    buf.push(66);
    buf.push(101);
    buf.push(97);
    buf.push(114);
    buf.push(101);
    buf.push(114);
    buf.push(32);
    let mut part = token.as_str().as_bytes_vec();
    buf.append(&mut part);
    buf.push(1);
    buf.push(1);
    proof {
        assert(buf@ =~= old(buf)@ + spec_auth_part(token@));
    }
}

/// Build the GS2-framed initial message for `o`.
fn build_client_message(o: &OAuthBearerOptions) -> (r: Vec<u8>)
    ensures
        r@ == spec_client_message(o@),
{
    let mut buf: Vec<u8> = Vec::new();
    buf.push(110);
    buf.push(44);
    proof {
        assert(buf@ =~= seq![110u8, 44u8]);
    }
    push_authzid(&mut buf, &o.username);
    buf.push(44);
    proof {
        assert(buf@ =~= seq![110u8, 44u8] + spec_authzid_part(o.username@) + seq![44u8]);
    }
    push_host(&mut buf, &o.host);
    push_port(&mut buf, o.port);
    push_auth(&mut buf, &o.token);
    buf
}

impl Client for OAuthBearerClinet {
    /// The mechanism name and the GS2-framed initial message.
    fn start(&mut self) -> (r: Result<(String, Vec<u8>), SaslError>)
        ensures
            r matches Ok(p) && p.0@ == "OAUTHBEARER"@ && p.1@ == spec_client_message(
                old(self).options_view(),
            ),
            *final(self) == *old(self),
    {
        let buf = build_client_message(&self.options);
        Ok((String::from_str("OAUTHBEARER"), buf))
    }

    /// Read the challenge as a JSON error object and fail with its
    /// status; a challenge that is no such object is a parse error.
    fn next(&mut self, challenge: &[u8]) -> (r: Result<Vec<u8>, SaslError>)
        ensures
            spec_json_error_fields(challenge@) is None ==> (r matches Err(e) && e
                == SaslError::InvalidJson),
            spec_json_error_fields(challenge@) matches Some(f) ==> (r matches Err(e) && (
            e matches SaslError::AuthenticationFailed(m) && m@ == spec_auth_error_message(f.0))),
            *final(self) == *old(self),
    {
        match json_to_error(challenge) {
            None => Err(SaslError::InvalidJson),
            Some(e) => Err(SaslError::AuthenticationFailed(e.message())),
        }
    }
}

/// The outcome of reading one initial message.
pub enum OAuthBearerParse {
    /// The message parsed into these fields.
    Parsed(OAuthBearerOptionsView),
    /// The message is ill-formed in a way the mechanism reports as a
    /// structured failure, with this description.
    Failed(Seq<char>),
    /// A field that must be text is not valid UTF-8; fatal.
    NotText,
}

/// Read one `key=value` segment into the options. The keys `host`,
/// `port` and `auth` are recognized; any other key is a structured
/// failure naming it.
pub open spec fn spec_handle_param(seg: Seq<u8>, o: OAuthBearerOptionsView) -> Result<
    OAuthBearerOptionsView,
    OAuthBearerParse,
> {
    match spec_find_byte(seg, 61) {
        None => Err(OAuthBearerParse::Failed("Invalid response, missing '='"@)),
        Some(eq) => {
            let key = seg.take(eq);
            let value = seg.skip(eq + 1);
            if key == seq![104u8, 111u8, 115u8, 116u8] {
                if valid_utf8(value) {
                    Ok(
                        OAuthBearerOptionsView {
                            username: o.username,
                            token: o.token,
                            host: decode_utf8(value),
                            port: o.port,
                        },
                    )
                } else {
                    Err(OAuthBearerParse::NotText)
                }
            } else if key == seq![112u8, 111u8, 114u8, 116u8] {
                if !valid_utf8(value) {
                    Err(OAuthBearerParse::NotText)
                } else {
                    match spec_parse_u16(decode_utf8(value)) {
                        Some(p) => Ok(
                            OAuthBearerOptionsView {
                                username: o.username,
                                token: o.token,
                                host: o.host,
                                port: p,
                            },
                        ),
                        None => Err(
                            OAuthBearerParse::Failed("Invalid response, malformed 'port' value"@),
                        ),
                    }
                }
            } else if key == seq![97u8, 117u8, 116u8, 104u8] {
                if !valid_utf8(value) {
                    Err(OAuthBearerParse::NotText)
                } else {
                    let low = lower_of(decode_utf8(value));
                    if low.len() >= 7 && low.take(7) == "bearer "@ {
                        Ok(
                            OAuthBearerOptionsView {
                                username: o.username,
                                token: low.skip(7),
                                host: o.host,
                                port: o.port,
                            },
                        )
                    } else {
                        Err(OAuthBearerParse::Failed("Unsupported token type"@))
                    }
                }
            } else {
                if valid_utf8(key) {
                    Err(
                        OAuthBearerParse::Failed(
                            "Invalid response, unknown parameter: "@ + decode_utf8(key),
                        ),
                    )
                } else {
                    Err(OAuthBearerParse::NotText)
                }
            }
        },
    }
}

/// Read the `\x01`-separated `key=value` segments of `rest` into the
/// options, skipping empty segments; the first offending segment
/// decides the outcome.
pub open spec fn spec_parse_params(rest: Seq<u8>, o: OAuthBearerOptionsView) -> OAuthBearerParse
    decreases rest.len(),
    via spec_parse_params_decreases
{
    if rest.len() == 0 {
        OAuthBearerParse::Parsed(o)
    } else {
        match spec_find_byte(rest, 1) {
            None => match spec_handle_param(rest, o) {
                Ok(o2) => OAuthBearerParse::Parsed(o2),
                Err(f) => f,
            },
            Some(i) => {
                if i == 0 {
                    spec_parse_params(rest.skip(1), o)
                } else {
                    match spec_handle_param(rest.take(i), o) {
                        Ok(o2) => spec_parse_params(rest.skip(i + 1), o2),
                        Err(f) => f,
                    }
                }
            },
        }
    }
}

#[via_fn]
proof fn spec_parse_params_decreases(rest: Seq<u8>, o: OAuthBearerOptionsView) {
    crate::text::lemma_find_byte(rest, 1);
}

/// The options before any segment is read: the username taken from
/// the authorization identity, everything else unset.
pub open spec fn spec_initial_options(authzid: Seq<u8>) -> OAuthBearerOptionsView {
    OAuthBearerOptionsView {
        username: if authzid.len() > 0 {
            decode_utf8(authzid.skip(2))
        } else {
            Seq::empty()
        },
        token: Seq::empty(),
        host: Seq::empty(),
        port: 0,
    }
}

/// Read the three comma-separated parts of a message: the GS2
/// channel-binding flag, the authorization identity, and the
/// `key=value` segments.
pub open spec fn spec_parse_parts(
    flag: Seq<u8>,
    authzid: Seq<u8>,
    rest: Seq<u8>,
) -> OAuthBearerParse {
    if !(flag.len() >= 1 && flag[0] == 110) {
        OAuthBearerParse::Failed("Invalid response, missing 'n' in gs2-cb-flag"@)
    } else if authzid.len() > 0 && !(authzid.len() >= 2 && authzid[0] == 97 && authzid[1] == 61) {
        OAuthBearerParse::Failed("Invalid response, missing 'a=' in gs2-authzid"@)
    } else if authzid.len() > 0 && !valid_utf8(authzid.skip(2)) {
        OAuthBearerParse::NotText
    } else {
        spec_parse_params(rest, spec_initial_options(authzid))
    }
}

/// How a server reads one initial message: split on the first two
/// commas, then read the parts; fewer than two commas is a structured
/// failure.
pub open spec fn spec_parse_response(resp: Seq<u8>) -> OAuthBearerParse {
    match spec_find_byte(resp, 44) {
        None => OAuthBearerParse::Failed("Invalid response"@),
        Some(c1) => match spec_find_byte(resp.skip(c1 + 1), 44) {
            None => OAuthBearerParse::Failed("Invalid response"@),
            Some(d) => spec_parse_parts(
                resp.take(c1),
                resp.subrange(c1 + 1, c1 + 1 + d),
                resp.skip(c1 + 2 + d),
            ),
        },
    }
}

/// Checks a parsed set of options. Implementations come from the
/// application; the contract says the verdict and the reported error
/// depend on the authenticator's state and the options alone.
pub trait OAuthBearerAuthenticator {
    /// Whether this authenticator accepts the given options.
    spec fn auth_ok(&self, opts: OAuthBearerOptionsView) -> bool;

    /// The error with which this authenticator rejects the given options.
    spec fn auth_err(&self, opts: OAuthBearerOptionsView) -> OAuthBearerErrorView;

    /// Check one set of options.
    fn authenticate(&mut self, opts: &OAuthBearerOptions) -> (r: Result<(), OAuthBearerError>)
        ensures
            r is Ok <==> old(self).auth_ok(opts@),
            r matches Err(e) ==> e@ == old(self).auth_err(opts@);
}

/// Where an OAUTHBEARER server stands.
pub enum OAuthBearerState {
    /// Nothing received yet.
    NotStarted,
    /// The exchange is over; every further call fails.
    Done,
    /// A failure with this description waits for the client's
    /// one-byte acknowledgment before it is released.
    FailurePending(String),
}

/// Whether `response` is the single-byte 0x01 acknowledgment that GS2
/// prescribes for aborting after a failure challenge.
pub open spec fn spec_is_ack(response: Option<&[u8]>) -> bool {
    match response {
        Some(b) => b@ == seq![1u8],
        None => false,
    }
}

/// The bytes of the `host` key.
fn host_key() -> (r: Vec<u8>)
    ensures
        r@ == seq![104u8, 111u8, 115u8, 116u8],
{
    let mut v: Vec<u8> = Vec::new();
    v.push(104);
    v.push(111);
    v.push(115);
    v.push(116);
    proof {
        assert(v@ =~= seq![104u8, 111u8, 115u8, 116u8]);
    }
    v
}

/// The bytes of the `port` key.
fn port_key() -> (r: Vec<u8>)
    ensures
        r@ == seq![112u8, 111u8, 114u8, 116u8],
{
    let mut v: Vec<u8> = Vec::new();
    v.push(112);
    v.push(111);
    v.push(114);
    v.push(116);
    proof {
        assert(v@ =~= seq![112u8, 111u8, 114u8, 116u8]);
    }
    v
}

/// The bytes of the `auth` key.
fn auth_key() -> (r: Vec<u8>)
    ensures
        r@ == seq![97u8, 117u8, 116u8, 104u8],
{
    let mut v: Vec<u8> = Vec::new();
    v.push(97);
    v.push(117);
    v.push(116);
    v.push(104);
    proof {
        assert(v@ =~= seq![97u8, 117u8, 116u8, 104u8]);
    }
    v
}

/// The token of `low`, with its `bearer ` prefix stripped; nothing
/// when `low` does not start with that prefix.
fn strip_bearer(low: &String) -> (r: Option<String>)
    ensures
        r is Some <==> low@.len() >= 7 && low@.take(7) == "bearer "@,
        r matches Some(t) ==> t@ == low@.skip(7),
{
    let n = low.as_str().unicode_len();
    if n < 7 {
        return None;
    }
    let head = String::from_str(low.as_str().substring_char(0, 7));
    let expected = String::from_str("bearer ");
    proof {
        assert(low@.subrange(0, 7) =~= low@.take(7));
        assert(low@.subrange(7, n as int) =~= low@.skip(7));
    }
    if head == expected {
        Some(String::from_str(low.as_str().substring_char(7, n)))
    } else {
        None
    }
}

/// A server of the OAUTHBEARER mechanism: it reads one GS2-framed
/// message, consults the authenticator, and reports any failure as a
/// JSON challenge whose real error is released only after the
/// client's one-byte acknowledgment.
pub struct OAuthBearerServer<A: OAuthBearerAuthenticator> {
    state: OAuthBearerState,
    authenticator: A,
}

impl<A: OAuthBearerAuthenticator> OAuthBearerServer<A> {
    /// Where this server stands.
    pub closed spec fn state_view(&self) -> OAuthBearerState {
        self.state
    }

    /// The authenticator this server consults.
    pub closed spec fn auth(&self) -> A {
        self.authenticator
    }

    /// A fresh server around `authenticator`.
    pub fn new(authenticator: A) -> (r: Self)
        ensures
            r.state_view() is NotStarted,
            r.auth() == authenticator,
    {
        OAuthBearerServer { state: OAuthBearerState::NotStarted, authenticator }
    }

    /// Enter the failure-pending state carrying `descr` and build the
    /// generic JSON error challenge the protocol asks for.
    fn fail(&mut self, descr: String) -> (r: Result<(Vec<u8>, bool), SaslError>)
        ensures
            final(self).state_view() matches OAuthBearerState::FailurePending(m) && m == descr,
            final(self).auth() == old(self).auth(),
            r matches Ok(p) && p.0@ == spec_error_json("invalid_request"@, "bearer"@, ""@) && p.1
                == false,
    {
        self.state = OAuthBearerState::FailurePending(descr);
        let generic = OAuthBearerError {
            status: String::from_str("invalid_request"),
            schemes: String::from_str("bearer"),
            scope: String::from_str(""),
        };
        Ok((error_to_json(&generic), false))
    }
}

impl<A: OAuthBearerAuthenticator> Server for OAuthBearerServer<A> {
    /// One step: solicit the initial message, read it, consult the
    /// authenticator, and drive the failure-acknowledgment round trip.
    #[verifier::loop_isolation(false)]
    #[verifier::rlimit(100)]
    fn next(&mut self, response: Option<&[u8]>) -> (r: Result<(Vec<u8>, bool), SaslError>)
        ensures
            match old(self).state_view() {
                OAuthBearerState::Done => (r matches Err(e) && e
                    == SaslError::UnexpectedClientResponse) && *final(self) == *old(self),
                OAuthBearerState::FailurePending(msg) => {
                    &&& spec_is_ack(response) ==> (r matches Err(e) && (
                    e matches SaslError::AuthenticationFailed(m) && m == msg))
                        && final(self).state_view() is Done
                        && final(self).auth() == old(self).auth()
                    &&& !spec_is_ack(response) ==> (r matches Err(e) && e
                        == SaslError::UnexpectedResponse) && *final(self) == *old(self)
                },
                OAuthBearerState::NotStarted => {
                    &&& response is None ==> (r matches Ok(p) && p.0@ == Seq::<u8>::empty() && p.1
                        == false) && *final(self) == *old(self)
                    &&& response is Some ==> match spec_parse_response(response.unwrap()@) {
                        OAuthBearerParse::NotText => (r matches Err(e) && e
                            == SaslError::InvalidUtf8) && final(self).state_view() is Done,
                        OAuthBearerParse::Failed(msg) => (r matches Ok(p) && p.0@
                            == spec_error_json("invalid_request"@, "bearer"@, ""@) && p.1 == false)
                            && (final(self).state_view()
                            matches OAuthBearerState::FailurePending(m) && m@ == msg),
                        OAuthBearerParse::Parsed(o) => {
                            &&& old(self).auth().auth_ok(o) ==> (r matches Ok(p) && p.0@ == Seq::<
                                u8,
                            >::empty() && p.1 == true) && final(self).state_view() is Done
                            &&& !old(self).auth().auth_ok(o) ==> (r matches Ok(p) && p.0@
                                == spec_error_json("invalid_request"@, "bearer"@, ""@) && p.1
                                == false) && (final(self).state_view()
                                matches OAuthBearerState::FailurePending(m) && m@
                                == spec_auth_error_message(old(self).auth().auth_err(o).status))
                        },
                    }
                },
            },
    {
        let pending = match &self.state {
            OAuthBearerState::FailurePending(m) => Some(m.clone()),
            _ => None,
        };
        match pending {
            Some(msg) => {
                let ok_ack = match response {
                    Some(b) => b.len() == 1 && b[0] == 1,
                    None => false,
                };
                if ok_ack {
                    proof {
                        assert(response.unwrap()@ =~= seq![1u8]);
                    }
                    self.state = OAuthBearerState::Done;
                    return Err(SaslError::AuthenticationFailed(msg));
                }
                proof {
                    if response is Some && response.unwrap()@ == seq![1u8] {
                        assert(response.unwrap()@.len() == 1);
                        assert(response.unwrap()@[0] == 1u8);
                    }
                }
                return Err(SaslError::UnexpectedResponse);
            },
            None => {},
        }
        match &self.state {
            OAuthBearerState::Done => {
                return Err(SaslError::UnexpectedClientResponse);
            },
            _ => {},
        }
        let b = match response {
            None => {
                return Ok((Vec::new(), false));
            },
            Some(b) => b,
        };
        self.state = OAuthBearerState::Done;
        let n = b.len();
        let c1 = match find_byte_from(b, 0, 44) {
            None => {
                proof {
                    lemma_find_byte_absent(b@, 44);
                }
                return self.fail(String::from_str("Invalid response"));
            },
            Some(i) => i,
        };
        proof {
            lemma_find_byte_at(b@, 44, c1 as int);
        }
        assert(c1 < n);
        let c2 = match find_byte_from(b, c1 + 1, 44) {
            None => {
                proof {
                    assert forall|j: int| 0 <= j < b@.skip(c1 + 1).len() implies #[trigger] b@.skip(
                        c1 + 1,
                    )[j] != 44u8 by {
                        assert(b@.skip(c1 + 1)[j] == b@[j + c1 + 1]);
                    }
                    lemma_find_byte_absent(b@.skip(c1 + 1), 44);
                }
                return self.fail(String::from_str("Invalid response"));
            },
            Some(i) => i,
        };
        proof {
            assert(b@.skip(c1 + 1)[c2 - c1 - 1] == b@[c2 as int]);
            assert forall|j: int| 0 <= j < c2 - c1 - 1 implies #[trigger] b@.skip(c1 + 1)[j]
                != 44u8 by {
                assert(b@.skip(c1 + 1)[j] == b@[j + c1 + 1]);
            }
            lemma_find_byte_at(b@.skip(c1 + 1), 44, c2 - c1 - 1);
        }
        assert(c2 < n);
        let ghost flag_s = b@.take(c1 as int);
        let ghost authzid_s = b@.subrange(c1 + 1, c2 as int);
        let ghost rest_s = b@.skip(c2 + 1);
        proof {
            assert(b@.subrange(c1 + 1, c1 + 1 + (c2 - c1 - 1)) =~= authzid_s);
            assert(b@.skip(c1 + 2 + (c2 - c1 - 1)) =~= rest_s);
            assert(spec_parse_response(b@) == spec_parse_parts(flag_s, authzid_s, rest_s));
        }
        if c1 == 0 || b[0] != 110 {
            return self.fail(String::from_str("Invalid response, missing 'n' in gs2-cb-flag"));
        }
        let username: String;
        if c2 - c1 - 1 > 0 {
            if c2 - c1 - 1 < 2 || b[c1 + 1] != 97 || b[c1 + 2] != 61 {
                return self.fail(
                    String::from_str("Invalid response, missing 'a=' in gs2-authzid"),
                );
            }
            let uname_bytes = &b[c1 + 3..c2];
            proof {
                assert(authzid_s.skip(2) =~= b@.subrange(c1 + 3, c2 as int));
            }
            match utf8_to_string(uname_bytes) {
                None => {
                    return Err(SaslError::InvalidUtf8);
                },
                Some(u) => {
                    username = u;
                },
            }
        } else {
            username = String::new();
        }
        let mut opts = OAuthBearerOptions {
            username,
            token: String::new(),
            host: String::new(),
            port: 0,
        };
        proof {
            assert(opts@ == spec_initial_options(authzid_s));
            assert(spec_parse_response(b@) == spec_parse_params(rest_s, opts@));
        }
        let mut pos: usize = c2 + 1;
        while pos < n
            invariant
                c2 + 1 <= pos <= n,
                self.state_view() is Done,
                self.auth() == old(self).auth(),
                spec_parse_params(b@.skip(pos as int), opts@) == spec_parse_response(b@),
            decreases n - pos,
        {
            let ghost rem = b@.skip(pos as int);
            let send = match find_byte_from(b, pos, 1) {
                Some(i) => {
                    proof {
                        assert(rem[i - pos] == b@[i as int]);
                        assert forall|j: int| 0 <= j < i - pos implies #[trigger] rem[j]
                            != 1u8 by {
                            assert(rem[j] == b@[j + pos]);
                        }
                        lemma_find_byte_at(rem, 1, i - pos);
                    }
                    i
                },
                None => {
                    proof {
                        assert forall|j: int| 0 <= j < rem.len() implies #[trigger] rem[j]
                            != 1u8 by {
                            assert(rem[j] == b@[j + pos]);
                        }
                        lemma_find_byte_absent(rem, 1);
                    }
                    n
                },
            };
            if send == pos {
                proof {
                    assert(rem.skip(1) =~= b@.skip(pos + 1));
                }
                pos = pos + 1;
            } else {
                let seg = &b[pos..send];
                proof {
                    assert(seg@ =~= rem.take(send - pos));
                    if send == n {
                        assert(seg@ =~= rem);
                    }
                }
                let ghost opts_before = opts@;
                let eq = match find_byte_from(seg, 0, 61) {
                    None => {
                        proof {
                            lemma_find_byte_absent(seg@, 61);
                        }
                        return self.fail(String::from_str("Invalid response, missing '='"));
                    },
                    Some(i) => i,
                };
                proof {
                    lemma_find_byte_at(seg@, 61, eq as int);
                }
                let slen = seg.len();
                let key = &seg[0..eq];
                let value = &seg[eq + 1..slen];
                proof {
                    assert(key@ =~= seg@.take(eq as int));
                    assert(value@ =~= seg@.skip(eq + 1));
                }
                let hostk = host_key();
                let portk = port_key();
                let authk = auth_key();
                if bytes_eq(key, hostk.as_slice()) {
                    match utf8_to_string(value) {
                        None => {
                            return Err(SaslError::InvalidUtf8);
                        },
                        Some(h) => {
                            opts.host = h;
                        },
                    }
                } else if bytes_eq(key, portk.as_slice()) {
                    match utf8_to_string(value) {
                        None => {
                            return Err(SaslError::InvalidUtf8);
                        },
                        Some(pstr) => {
                            match parse_u16(pstr.as_str()) {
                                None => {
                                    return self.fail(
                                        String::from_str(
                                            "Invalid response, malformed 'port' value",
                                        ),
                                    );
                                },
                                Some(p) => {
                                    opts.port = p;
                                },
                            }
                        },
                    }
                } else if bytes_eq(key, authk.as_slice()) {
                    match utf8_to_string(value) {
                        None => {
                            return Err(SaslError::InvalidUtf8);
                        },
                        Some(v) => {
                            let low = to_lowercase(v.as_str());
                            match strip_bearer(&low) {
                                None => {
                                    return self.fail(String::from_str("Unsupported token type"));
                                },
                                Some(tok) => {
                                    opts.token = tok;
                                },
                            }
                        },
                    }
                } else {
                    match utf8_to_string(key) {
                        None => {
                            return Err(SaslError::InvalidUtf8);
                        },
                        Some(k) => {
                            let mut m = String::from_str("Invalid response, unknown parameter: ");
                            m.append(k.as_str());
                            return self.fail(m);
                        },
                    }
                }
                proof {
                    assert(spec_handle_param(seg@, opts_before) == Ok::<
                        OAuthBearerOptionsView,
                        OAuthBearerParse,
                    >(opts@));
                    if send < n {
                        assert(rem.skip(send - pos + 1) =~= b@.skip(send + 1));
                    } else {
                        assert(b@.skip(n as int) =~= Seq::<u8>::empty());
                    }
                }
                if send < n {
                    pos = send + 1;
                } else {
                    pos = n;
                }
            }
        }
        proof {
            assert(b@.skip(n as int) =~= Seq::<u8>::empty());
            assert(spec_parse_response(b@) == OAuthBearerParse::Parsed(opts@));
        }
        match self.authenticator.authenticate(&opts) {
            Ok(()) => Ok((Vec::new(), true)),
            Err(e) => {
                let msg = e.message();
                self.fail(msg)
            },
        }
    }
}

} // verus!
