//! Percent-encoding and the exact texts of the two OAuth requests: the
//! authorization URL the browser opens, and the form body POSTed to the
//! token endpoint.

use vstd::prelude::*;
use vstd::string::StringSliceAdditionalSpecFns;

verus! {

/// Bytes that stand for themselves in a query component: ASCII letters,
/// digits, `-`, `.`, `_`, `~`.
pub open spec fn is_unreserved_byte(b: u8) -> bool {
    (48 <= b <= 57) || (65 <= b <= 90) || (97 <= b <= 122) || b == 45 || b == 46 || b == 95 || b
        == 126
}

/// The upper-case hex digit of `d`, as a byte.
pub open spec fn hex_byte(d: int) -> u8
    recommends
        0 <= d < 16,
{
    if d < 10 {
        (48 + d) as u8
    } else {
        (55 + d) as u8
    }
}

/// Percent-encoding of a byte sequence: unreserved bytes stand, every other
/// byte becomes `%` and two upper-case hex digits.
pub open spec fn pct_bytes(bs: Seq<u8>) -> Seq<u8>
    decreases bs.len(),
{
    if bs.len() == 0 {
        Seq::empty()
    } else {
        let b = bs[0];
        (if is_unreserved_byte(b) {
            seq![b]
        } else {
            seq![37u8, hex_byte(b as int / 16), hex_byte(b as int % 16)]
        }) + pct_bytes(bs.drop_first())
    }
}

/// ASCII bytes read as characters.
pub open spec fn chars_of_bytes(bs: Seq<u8>) -> Seq<char> {
    bs.map(|i: int, b: u8| b as char)
}

/// The percent-encoding of a byte sequence, as text.
pub open spec fn enc(bs: Seq<u8>) -> Seq<char> {
    chars_of_bytes(pct_bytes(bs))
}

proof fn lemma_pct_bytes_snoc(bs: Seq<u8>, b: u8)
    ensures
        pct_bytes(bs.push(b)) == pct_bytes(bs) + (if is_unreserved_byte(b) {
            seq![b]
        } else {
            seq![37u8, hex_byte(b as int / 16), hex_byte(b as int % 16)]
        }),
    decreases bs.len(),
{
    if bs.len() == 0 {
        assert(bs.push(b)[0] == b);
        assert(bs.push(b).drop_first() =~= Seq::<u8>::empty());
        assert(pct_bytes(Seq::<u8>::empty()) == Seq::<u8>::empty());
        assert(pct_bytes(bs.push(b)) =~= pct_bytes(bs) + (if is_unreserved_byte(b) {
            seq![b]
        } else {
            seq![37u8, hex_byte(b as int / 16), hex_byte(b as int % 16)]
        }));
    } else {
        assert(bs.push(b)[0] == bs[0]);
        assert(bs.push(b).drop_first() =~= bs.drop_first().push(b));
        lemma_pct_bytes_snoc(bs.drop_first(), b);
        assert(pct_bytes(bs.push(b)) =~= pct_bytes(bs) + (if is_unreserved_byte(b) {
            seq![b]
        } else {
            seq![37u8, hex_byte(b as int / 16), hex_byte(b as int % 16)]
        }));
    }
}

pub proof fn lemma_pct_bytes_ascii(bs: Seq<u8>)
    ensures
        forall|i: int| 0 <= i < pct_bytes(bs).len() ==> #[trigger] pct_bytes(bs)[i] < 128,
    decreases bs.len(),
{
    if bs.len() > 0 {
        lemma_pct_bytes_ascii(bs.drop_first());
        let b = bs[0];
        let u = if is_unreserved_byte(b) {
            seq![b]
        } else {
            seq![37u8, hex_byte(b as int / 16), hex_byte(b as int % 16)]
        };
        assert(pct_bytes(bs) == u + pct_bytes(bs.drop_first()));
        assert forall|i: int| 0 <= i < pct_bytes(bs).len() implies #[trigger] pct_bytes(bs)[i]
            < 128 by {
            if i < u.len() {
                assert(pct_bytes(bs)[i] == u[i]);
            } else {
                assert(pct_bytes(bs)[i] == pct_bytes(bs.drop_first())[i - u.len()]);
            }
        };
    }
}

/// Relies on `String::from_utf8`: a sequence of ASCII bytes decodes to the
/// string whose characters are exactly those bytes.
#[verifier::external_body]
pub(crate) fn ascii_string(bytes: Vec<u8>) -> (r: String)
    requires
        forall|i: int| 0 <= i < bytes@.len() ==> bytes@[i] < 128,
    ensures
        r@ == chars_of_bytes(bytes@),
{
    String::from_utf8(bytes).unwrap_or_default()
}

fn hex_byte_exec(d: u8) -> (r: u8)
    requires
        d < 16,
    ensures
        r == hex_byte(d as int),
{
    if d < 10 {
        48 + d
    } else {
        55 + d
    }
}

fn is_unreserved_exec(b: u8) -> (r: bool)
    ensures
        r == is_unreserved_byte(b),
{
    (48 <= b && b <= 57) || (65 <= b && b <= 90) || (97 <= b && b <= 122) || b == 45 || b == 46
        || b == 95 || b == 126
}

/// Percent-encodes the bytes of `s` for use in a query component.
pub fn percent_encode(s: &str) -> (r: String)
    ensures
        r@ == enc(s.spec_bytes()),
{
    let bs = s.as_bytes_vec();
    let mut out: Vec<u8> = Vec::new();
    let mut i: usize = 0;
    proof {
        assert(bs@.take(0) =~= Seq::<u8>::empty());
    }
    while i < bs.len()
        invariant
            i <= bs.len(),
            bs@ == s.spec_bytes(),
            out@ == pct_bytes(bs@.take(i as int)),
        decreases bs.len() - i,
    {
        let b = bs[i];
        if is_unreserved_exec(b) {
            out.push(b);
        } else {
            out.push(37);
            out.push(hex_byte_exec(b / 16));
            out.push(hex_byte_exec(b % 16));
        }
        proof {
            lemma_pct_bytes_snoc(bs@.take(i as int), b);
            assert(bs@.take(i as int + 1) =~= bs@.take(i as int).push(b));
            assert(out@ =~= pct_bytes(bs@.take(i as int + 1)));
        }
        i = i + 1;
    }
    proof {
        assert(bs@.take(bs@.len() as int) =~= bs@);
        lemma_pct_bytes_ascii(bs@);
    }
    ascii_string(out)
}

/// The authorization URL, exactly: endpoint, client, redirect target bound
/// to the loopback port, mailbox scope, CSRF state, PKCE challenge and
/// method, and the parameters asking for offline access and fresh consent.
pub open spec fn auth_url_chars(
    client_id: Seq<u8>,
    redirect_uri: Seq<u8>,
    scope: Seq<u8>,
    state: Seq<u8>,
    challenge: Seq<u8>,
) -> Seq<char> {
    "https://accounts.google.com/o/oauth2/v2/auth?client_id="@ + enc(client_id)
        + "&redirect_uri="@ + enc(redirect_uri) + "&scope="@ + enc(scope)
        + "&response_type=code&state="@ + enc(state) + "&code_challenge="@ + enc(challenge)
        + "&code_challenge_method=S256&access_type=offline&prompt=consent"@
}

/// Builds the authorization URL.
pub fn authorize_url(
    client_id: &str,
    redirect_uri: &str,
    scope: &str,
    state: &str,
    challenge: &str,
) -> (r: String)
    ensures
        r@ == auth_url_chars(
            client_id.spec_bytes(),
            redirect_uri.spec_bytes(),
            scope.spec_bytes(),
            state.spec_bytes(),
            challenge.spec_bytes(),
        ),
{
    let mut r = "https://accounts.google.com/o/oauth2/v2/auth?client_id=".to_owned();
    r.append(percent_encode(client_id).as_str());
    r.append("&redirect_uri=");
    r.append(percent_encode(redirect_uri).as_str());
    r.append("&scope=");
    r.append(percent_encode(scope).as_str());
    r.append("&response_type=code&state=");
    r.append(percent_encode(state).as_str());
    r.append("&code_challenge=");
    r.append(percent_encode(challenge).as_str());
    r.append("&code_challenge_method=S256&access_type=offline&prompt=consent");
    r
}

/// The form body POSTed to the token endpoint, exactly; the client secret
/// member appears only for a confidential client.
pub open spec fn token_request_chars(
    code: Seq<u8>,
    redirect_uri: Seq<u8>,
    client_id: Seq<u8>,
    verifier: Seq<u8>,
    client_secret: Option<Seq<u8>>,
) -> Seq<char> {
    "grant_type=authorization_code&code="@ + enc(code) + "&redirect_uri="@ + enc(redirect_uri)
        + "&client_id="@ + enc(client_id) + "&code_verifier="@ + enc(verifier) + (
    match client_secret {
        Some(s) => "&client_secret="@ + enc(s),
        None => Seq::empty(),
    })
}

/// Builds the token-exchange form body.
pub fn token_request_body(
    code: &str,
    redirect_uri: &str,
    client_id: &str,
    verifier: &str,
    client_secret: Option<&str>,
) -> (r: String)
    ensures
        r@ == token_request_chars(
            code.spec_bytes(),
            redirect_uri.spec_bytes(),
            client_id.spec_bytes(),
            verifier.spec_bytes(),
            match client_secret {
                Some(s) => Some(s.spec_bytes()),
                None => None,
            },
        ),
{
    let mut r = "grant_type=authorization_code&code=".to_owned();
    r.append(percent_encode(code).as_str());
    r.append("&redirect_uri=");
    r.append(percent_encode(redirect_uri).as_str());
    r.append("&client_id=");
    r.append(percent_encode(client_id).as_str());
    r.append("&code_verifier=");
    r.append(percent_encode(verifier).as_str());
    match client_secret {
        Some(s) => {
            r.append("&client_secret=");
            r.append(percent_encode(s).as_str());
        },
        None => {},
    }
    r
}

/// The redirect target: the loopback address carrying exactly the bound
/// port.
pub fn redirect_uri_for_port(port: u16) -> (r: String)
    ensures
        r@ == "http://127.0.0.1:"@ + crate::json::dec_digits(port as nat) + "/"@,
{
    let mut r = "http://127.0.0.1:".to_owned();
    let digits = crate::json::u64_to_string(port as u64);
    r.append(digits.as_str());
    r.append("/");
    r
}

} // verus!
