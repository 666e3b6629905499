//! The authorization flow controller: one login attempt as a state machine.
//!
//! The controller decides; the surrounding program performs.  `begin` draws
//! fresh PKCE material and builds the authorization URL for the port the
//! listener bound; `on_callback` accepts the one redirect, insisting the
//! echoed state match the attempt's nonce; `exchange_body` is the exact form
//! POSTed to the token endpoint; `token_response` turns the endpoint's
//! answer into a credential record or the exact error owed for it.  A failed
//! attempt is abandoned whole: a new attempt starts over with fresh
//! material, never reusing a verifier.

use vstd::prelude::*;
use vstd::string::StringSliceAdditionalSpecFns;

use crate::callback::{callback_param, code_key, parse_callback, state_key};
use crate::urlenc::chars_of_bytes;
use crate::errors::AuthError;
use crate::json::{get_field, lookup, parse_flat_object, parse_object_spec, JsonVal, JsonValue};
use crate::pkce::{bytes_of_chars, is_b64url_char, new_random_pkce, new_random_state,
    pkce_challenge_of};
use crate::token::{access_token_key, refresh_token_key, SavedToken};
use crate::urlenc::{auth_url_chars, authorize_url, redirect_uri_for_port, token_request_body,
    token_request_chars};

verus! {

/// The UTF-8 bytes of a string's characters; for `&str` this is exactly
/// `spec_bytes`.
pub open spec fn utf8_of(s: Seq<char>) -> Seq<u8> {
    vstd::utf8::encode_utf8(s)
}

/// The one mailbox scope this client asks for.
pub open spec fn scope_chars() -> Seq<char> {
    "https://mail.google.com/"@
}

/// Where an attempt stands.
#[derive(Debug, Clone, Copy, PartialEq, Eq, Structural)]
pub enum FlowStage {
    AwaitingCallback,
    CodeReceived,
    Failed,
}

/// One login attempt: its fixed parameters, its fresh secrets, and where it
/// stands.  The callback is accepted at most once per attempt.
pub struct LoginFlow {
    pub client_id: String,
    pub client_secret: Option<String>,
    pub redirect_uri: String,
    pub verifier: String,
    pub challenge: String,
    pub csrf_state: String,
    pub auth_url: String,
    pub stage: FlowStage,
}

impl LoginFlow {
    /// The fields a callback may not disturb.
    pub open spec fn same_setup(&self, other: &LoginFlow) -> bool {
        &&& self.client_id == other.client_id
        &&& self.client_secret == other.client_secret
        &&& self.redirect_uri == other.redirect_uri
        &&& self.verifier == other.verifier
        &&& self.challenge == other.challenge
        &&& self.csrf_state == other.csrf_state
        &&& self.auth_url == other.auth_url
    }

    /// Starts one attempt against the listener's bound port: fresh verifier,
    /// challenge and state nonce, and the full authorization URL.  An empty
    /// secret means a public client.
    pub fn begin(client_id: &str, client_secret: &str, port: u16) -> (r: LoginFlow)
        ensures
            r.stage == FlowStage::AwaitingCallback,
            r.client_id@ == client_id@,
            client_secret@.len() == 0 ==> r.client_secret is None,
            client_secret@.len() > 0 ==> (r.client_secret matches Some(s) && s@
                == client_secret@),
            r.redirect_uri@ == "http://127.0.0.1:"@ + crate::json::dec_digits(port as nat)
                + "/"@,
            r.verifier@.len() == 43,
            forall|i: int| 0 <= i < r.verifier@.len() ==> is_b64url_char(#[trigger] r.verifier@[i]),
            r.challenge@ == pkce_challenge_of(bytes_of_chars(r.verifier@)),
            r.csrf_state@.len() == 22,
            r.auth_url@ == auth_url_chars(
                utf8_of(client_id@),
                utf8_of(r.redirect_uri@),
                utf8_of(scope_chars()),
                utf8_of(r.csrf_state@),
                utf8_of(r.challenge@),
            ),
    {
        let (verifier, challenge) = new_random_pkce();
        let csrf_state = new_random_state();
        let redirect_uri = redirect_uri_for_port(port);
        let auth_url = authorize_url(
            client_id,
            redirect_uri.as_str(),
            "https://mail.google.com/",
            csrf_state.as_str(),
            challenge.as_str(),
        );
        let client_secret_opt = if client_secret.is_empty() {
            None
        } else {
            Some(client_secret.to_owned())
        };
        LoginFlow {
            client_id: client_id.to_owned(),
            client_secret: client_secret_opt,
            redirect_uri,
            verifier,
            challenge,
            csrf_state,
            auth_url,
            stage: FlowStage::AwaitingCallback,
        }
    }

    /// Accepts the redirect.  Exactly once: any later call is refused.  The
    /// code must be present and the echoed state must equal this attempt's
    /// nonce; otherwise the attempt fails.
    pub fn on_callback(&mut self, target: &str) -> (r: Result<String, AuthError>)
        ensures
            final(self).same_setup(old(self)),
            old(self).stage != FlowStage::AwaitingCallback ==> (r matches Err(e)
                && e matches AuthError::CallbackFailure { .. }
                && final(self).stage == old(self).stage),
            old(self).stage == FlowStage::AwaitingCallback && !vstd::string::is_ascii(target)
                ==> (r matches Err(e) && e matches AuthError::CallbackFailure { .. }
                && final(self).stage == FlowStage::Failed),
            old(self).stage == FlowStage::AwaitingCallback && vstd::string::is_ascii(target)
                ==> match callback_param(target.spec_bytes(), code_key()) {
                None => r matches Err(e) && e matches AuthError::CallbackFailure { .. }
                    && final(self).stage == FlowStage::Failed,
                Some(c) => {
                    let received = match callback_param(target.spec_bytes(), state_key()) {
                        Some(s) => s,
                        None => Seq::empty(),
                    };
                    if chars_of_bytes(received) == old(self).csrf_state@ {
                        r matches Ok(code) && code@ == chars_of_bytes(c)
                            && final(self).stage == FlowStage::CodeReceived
                    } else {
                        r matches Err(e) && e matches AuthError::CallbackFailure { .. }
                            && final(self).stage == FlowStage::Failed
                    }
                },
            },
    {
        match self.stage {
            FlowStage::AwaitingCallback => {},
            _ => {
                return Err(
                    AuthError::CallbackFailure { detail: "callback already handled".to_owned() },
                );
            },
        }
        match parse_callback(target) {
            Err(e) => {
                self.stage = FlowStage::Failed;
                Err(e)
            },
            Ok(a) => {
                if crate::json::str_eq(a.received_state.as_str(), self.csrf_state.as_str()) {
                    self.stage = FlowStage::CodeReceived;
                    Ok(a.code)
                } else {
                    self.stage = FlowStage::Failed;
                    Err(
                        AuthError::CallbackFailure {
                            detail: "state mismatch in callback".to_owned(),
                        },
                    )
                }
            },
        }
    }

    /// The exact form body for exchanging `code`, bound to this attempt's
    /// verifier, client and redirect target.
    pub fn exchange_body(&self, code: &str) -> (r: String)
        ensures
            r@ == token_request_chars(
                utf8_of(code@),
                utf8_of(self.redirect_uri@),
                utf8_of(self.client_id@),
                utf8_of(self.verifier@),
                match self.client_secret {
                    Some(s) => Some(utf8_of(s@)),
                    None => None,
                },
        ),
    {
        let secret: Option<&str> = match &self.client_secret {
            Some(s) => Some(s.as_str()),
            None => None,
        };
        token_request_body(
            code,
            self.redirect_uri.as_str(),
            self.client_id.as_str(),
            self.verifier.as_str(),
            secret,
        )
    }
}

pub open spec fn expires_in_key() -> Seq<char> {
    seq!['e', 'x', 'p', 'i', 'r', 'e', 's', '_', 'i', 'n']
}

fn expires_in_name() -> (r: &'static str)
    ensures
        r@ == expires_in_key(),
{
    proof {
        reveal_strlit("expires_in");
    }
    "expires_in"
}

fn access_token_name() -> (r: &'static str)
    ensures
        r@ == access_token_key(),
{
    proof {
        reveal_strlit("access_token");
    }
    "access_token"
}

fn refresh_token_name() -> (r: &'static str)
    ensures
        r@ == refresh_token_key(),
{
    proof {
        reveal_strlit("refresh_token");
    }
    "refresh_token"
}

/// What the token endpoint's answer yields.  A non-2xx answer is a
/// `ProtocolFailure` carrying the exact status and body and never a record;
/// a 2xx answer must parse and carry `access_token`; `expires_in`, when
/// present, turns into `now_unix + expires_in`, dropped if it cannot be
/// represented.
///
/// The body is read by this crate's escape-free JSON subset: a string
/// member holding `"` or `\` is a `ParseFailure`.  That is deliberate —
/// OAuth tokens are URL-safe ASCII and never need an escape.
pub fn token_response(status: u16, body: &str, now_unix: i64) -> (r: Result<
    SavedToken,
    AuthError,
>)
    ensures
        !(200 <= status < 300) ==> (r matches Err(e) && e matches AuthError::ProtocolFailure {
            status: s,
            body: b,
        } && s == status && b@ == body@),
        200 <= status < 300 ==> match parse_object_spec(body@) {
            None => r matches Err(e) && e matches AuthError::ParseFailure { .. },
            Some(ps) => match lookup(ps, access_token_key()) {
                Some(JsonVal::Text(a)) => r matches Ok(tok) && tok.access_token@ == a
                    && (match lookup(ps, refresh_token_key()) {
                    Some(JsonVal::Text(rt)) => tok.refresh_token matches Some(x) && x@ == rt,
                    _ => tok.refresh_token is None,
                }) && (match lookup(ps, expires_in_key()) {
                    Some(JsonVal::Num(e)) => {
                        if -0x8000_0000_0000_0000 <= now_unix + e <= 0x7fff_ffff_ffff_ffff {
                            tok.expires_at_unix matches Some(x) && x == now_unix + e
                        } else {
                            tok.expires_at_unix is None
                        }
                    },
                    _ => tok.expires_at_unix is None,
                }),
                _ => r matches Err(e) && e matches AuthError::ParseFailure { .. },
            },
        },
{
    if !(200 <= status && status < 300) {
        return Err(AuthError::ProtocolFailure { status, body: body.to_owned() });
    }
    let ps = match parse_flat_object(body) {
        Some(ps) => ps,
        None => {
            return Err(
                AuthError::ParseFailure { detail: "malformed token endpoint answer".to_owned() },
            );
        },
    };
    let access: String = match get_field(&ps, access_token_name()) {
        Some(v) => match v {
            JsonValue::Text(a) => a.clone(),
            _ => {
                return Err(
                    AuthError::ParseFailure {
                        detail: "token endpoint answer without access_token".to_owned(),
                    },
                );
            },
        },
        None => {
            return Err(
                AuthError::ParseFailure {
                    detail: "token endpoint answer without access_token".to_owned(),
                },
            );
        },
    };
    let refresh: Option<String> = match get_field(&ps, refresh_token_name()) {
        Some(v) => match v {
            JsonValue::Text(rt) => Some(rt.clone()),
            _ => None,
        },
        None => None,
    };
    let expires: Option<i64> = match get_field(&ps, expires_in_name()) {
        Some(v) => match v {
            JsonValue::Num(e) => now_unix.checked_add(*e),
            _ => None,
        },
        None => None,
    };
    Ok(SavedToken { access_token: access, refresh_token: refresh, expires_at_unix: expires })
}

/// Authenticating an IMAP session over XOAUTH2 is not implemented; the call
/// has no effect and always reports exactly that.
pub fn connect_oauth(email: &str, access_token: &str) -> (r: Result<(), AuthError>)
    ensures
        r matches Err(e) && e matches AuthError::NetworkFailure { detail } && detail@
            == "not implemented: XOAUTH2 authenticate"@,
{
    let _ = email;
    let _ = access_token;
    Err(AuthError::NetworkFailure { detail: "not implemented: XOAUTH2 authenticate".to_owned() })
}

} // verus!
