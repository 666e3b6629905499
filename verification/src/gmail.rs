//! The provider endpoints: the exact request URLs of the list and get
//! calls, the success test on their answers, and the framing of an outgoing
//! message — base64url body inside the JSON envelope the send endpoint
//! expects.  The HTTP transport itself lives outside.

use vstd::prelude::*;
use vstd::string::StringSliceAdditionalSpecFns;

use crate::json::{object_chars, object_to_string, pairs_view, JsonVal, JsonValue};
use crate::pkce::b64url_chars;

verus! {

/// The list URL for the newest `max_results` inbox messages.
pub fn list_url(max_results: usize) -> (r: String)
    ensures
        r@ == "https://gmail.googleapis.com/gmail/v1/users/me/messages?labelIds=INBOX&maxResults="@
            + crate::json::dec_digits(max_results as nat),
{
    let mut r =
        "https://gmail.googleapis.com/gmail/v1/users/me/messages?labelIds=INBOX&maxResults=".to_owned();
    let digits = crate::json::u64_to_string(max_results as u64);
    r.append(digits.as_str());
    r
}

/// The full-message URL for one identifier.
pub fn message_url(id: &str) -> (r: String)
    ensures
        r@ == "https://gmail.googleapis.com/gmail/v1/users/me/messages/"@ + id@ + "?format=full"@,
{
    let mut r = "https://gmail.googleapis.com/gmail/v1/users/me/messages/".to_owned();
    r.append(id);
    r.append("?format=full");
    r
}

/// The send endpoint.
pub fn send_url() -> (r: &'static str)
    ensures
        r@ == "https://gmail.googleapis.com/gmail/v1/users/me/messages/send"@,
{
    "https://gmail.googleapis.com/gmail/v1/users/me/messages/send"
}

/// Whether an HTTP status reports success.
pub fn is_success(status: u16) -> (r: bool)
    ensures
        r == (200 <= status < 300),
{
    200 <= status && status < 300
}

pub open spec fn raw_key() -> Seq<char> {
    seq!['r', 'a', 'w']
}

/// The send endpoint's body: a JSON object whose one member `raw` holds the
/// base64url-encoded (unpadded) message bytes.
pub fn send_request_body(raw_rfc822: &str) -> (r: String)
    ensures
        r@ == object_chars(
            seq![(raw_key(), JsonVal::Text(b64url_chars(raw_rfc822.spec_bytes())))],
        ),
{
    let encoded = crate::pkce::b64url_nopad(raw_rfc822.as_bytes());
    let mut ps: Vec<(String, JsonValue)> = Vec::new();
    let name = raw_name();
    ps.push((name.to_owned(), JsonValue::Text(encoded)));
    proof {
        assert(pairs_view(ps@) =~= seq![
            (raw_key(), JsonVal::Text(b64url_chars(raw_rfc822.spec_bytes()))),
        ]);
    }
    object_to_string(&ps)
}

fn raw_name() -> (r: &'static str)
    ensures
        r@ == raw_key(),
{
    proof {
        reveal_strlit("raw");
    }
    "raw"
}

/// A minimal outgoing message: recipient, subject, plain-text body.
pub fn build_rfc2822(to: &str, subject: &str, body: &str) -> (r: String)
    ensures
        r@ == "To: "@ + to@ + "\r\nSubject: "@ + subject@
            + "\r\nContent-Type: text/plain; charset=utf-8\r\n\r\n"@ + body@,
{
    let mut r = "To: ".to_owned();
    r.append(to);
    r.append("\r\nSubject: ");
    r.append(subject);
    r.append("\r\nContent-Type: text/plain; charset=utf-8\r\n\r\n");
    r.append(body);
    r
}

} // verus!
