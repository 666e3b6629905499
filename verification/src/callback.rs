//! The loopback callback: parsing the one redirect request's target, and the
//! single-use bookkeeping of the listener that serves it.
//!
//! The redirect target is ASCII (an HTTP request-target always is); anything
//! else is rejected.  Query values are percent-decoded; escapes at or above
//! 0x80 stand as written, which never touches an authorization code or state
//! — both are URL-safe ASCII.

use vstd::prelude::*;
use vstd::string::StringSliceAdditionalSpecFns;

use crate::errors::AuthError;
use crate::urlenc::{ascii_string, chars_of_bytes};

verus! {

/// First index at or after `i` holding `b`, or the length.
pub open spec fn index_of(bs: Seq<u8>, i: int, b: u8) -> int
    decreases bs.len() - i,
{
    if 0 <= i < bs.len() {
        if bs[i] == b {
            i
        } else {
            index_of(bs, i + 1, b)
        }
    } else {
        bs.len() as int
    }
}

pub proof fn lemma_index_of_range(bs: Seq<u8>, i: int, b: u8)
    requires
        0 <= i <= bs.len(),
    ensures
        i <= index_of(bs, i, b) <= bs.len(),
        index_of(bs, i, b) < bs.len() ==> bs[index_of(bs, i, b)] == b,
    decreases bs.len() - i,
{
    if i < bs.len() && bs[i] != b {
        lemma_index_of_range(bs, i + 1, b);
    }
}

pub open spec fn is_hex_byte(b: u8) -> bool {
    (48 <= b <= 57) || (65 <= b <= 70) || (97 <= b <= 102)
}

pub open spec fn hex_val(b: u8) -> int {
    if 48 <= b <= 57 {
        b - 48
    } else if 65 <= b <= 70 {
        b - 55
    } else {
        b - 87
    }
}

/// Percent-decoding of a query component: `%XX` below 0x80 becomes the
/// byte, `+` becomes a space, everything else stands.
pub open spec fn pct_decode(bs: Seq<u8>) -> Seq<u8>
    decreases bs.len(),
{
    if bs.len() == 0 {
        Seq::empty()
    } else if bs[0] == 37 && bs.len() >= 3 && is_hex_byte(bs[1]) && is_hex_byte(bs[2]) && hex_val(
        bs[1],
    ) * 16 + hex_val(bs[2]) < 128 {
        seq![(hex_val(bs[1]) * 16 + hex_val(bs[2])) as u8] + pct_decode(bs.skip(3))
    } else if bs[0] == 43 {
        seq![32u8] + pct_decode(bs.skip(1))
    } else {
        seq![bs[0]] + pct_decode(bs.skip(1))
    }
}

pub proof fn lemma_pct_decode_ascii(bs: Seq<u8>)
    requires
        forall|i: int| 0 <= i < bs.len() ==> bs[i] < 128,
    ensures
        forall|i: int| 0 <= i < pct_decode(bs).len() ==> #[trigger] pct_decode(bs)[i] < 128,
    decreases bs.len(),
{
    if bs.len() == 0 {
    } else {
        let escape = bs[0] == 37 && bs.len() >= 3 && is_hex_byte(bs[1]) && is_hex_byte(bs[2])
            && hex_val(bs[1]) * 16 + hex_val(bs[2]) < 128;
        let u: Seq<u8> = if escape {
            seq![(hex_val(bs[1]) * 16 + hex_val(bs[2])) as u8]
        } else if bs[0] == 43 {
            seq![32u8]
        } else {
            seq![bs[0]]
        };
        let rest = if escape {
            bs.skip(3)
        } else {
            bs.skip(1)
        };
        lemma_pct_decode_ascii(rest);
        assert(pct_decode(bs) == u + pct_decode(rest));
        assert forall|i: int| 0 <= i < pct_decode(bs).len() implies #[trigger] pct_decode(bs)[i]
            < 128 by {
            if i < 1 {
                assert(pct_decode(bs)[i] == u[i]);
            } else {
                assert(pct_decode(bs)[i] == pct_decode(rest)[i - 1]);
            }
        };
    }
}

/// The bytes after the first `?`, or nothing when there is none.
pub open spec fn query_of(t: Seq<u8>) -> Seq<u8> {
    let q = index_of(t, 0, 63);
    if q == t.len() {
        Seq::empty()
    } else {
        t.subrange(q + 1, t.len() as int)
    }
}

/// The raw (still encoded) value of the first parameter named `key` at or
/// after `i`: the bytes between its `=` and the next `&`, or nothing for a
/// bare key.
pub open spec fn param_value(q: Seq<u8>, i: int, key: Seq<u8>) -> Option<Seq<u8>>
    decreases q.len() - i,
    when 0 <= i <= q.len()
    via param_value_decreases
{
    if i >= q.len() {
        None
    } else {
        let amp = index_of(q, i, 38);
        let eq = index_of(q, i, 61);
        let key_end = if eq < amp {
            eq
        } else {
            amp
        };
        if q.subrange(i, key_end) == key {
            if eq < amp {
                Some(q.subrange(eq + 1, amp))
            } else {
                Some(Seq::empty())
            }
        } else if amp < q.len() {
            param_value(q, amp + 1, key)
        } else {
            None
        }
    }
}

#[via_fn]
proof fn param_value_decreases(q: Seq<u8>, i: int, key: Seq<u8>) {
    if i < q.len() {
        lemma_index_of_range(q, i, 38);
        lemma_index_of_range(q, i, 61);
    }
}

/// The decoded value of the first `key` parameter of the target's query.
pub open spec fn callback_param(t: Seq<u8>, key: Seq<u8>) -> Option<Seq<u8>> {
    match param_value(query_of(t), 0, key) {
        Some(v) => Some(pct_decode(v)),
        None => None,
    }
}

pub open spec fn code_key() -> Seq<u8> {
    seq![99u8, 111u8, 100u8, 101u8]
}

pub open spec fn state_key() -> Seq<u8> {
    seq![115u8, 116u8, 97u8, 116u8, 101u8]
}

fn index_of_exec(bs: &Vec<u8>, i: usize, b: u8) -> (r: usize)
    requires
        i <= bs@.len(),
    ensures
        r as int == index_of(bs@, i as int, b),
        i <= r <= bs@.len(),
{
    let mut j = i;
    while j < bs.len() && bs[j] != b
        invariant
            i <= j <= bs@.len(),
            index_of(bs@, i as int, b) == index_of(bs@, j as int, b),
        decreases bs@.len() - j,
    {
        j = j + 1;
    }
    j
}

fn is_hex_exec(b: u8) -> (r: bool)
    ensures
        r == is_hex_byte(b),
{
    (48 <= b && b <= 57) || (65 <= b && b <= 70) || (97 <= b && b <= 102)
}

fn hex_val_exec(b: u8) -> (r: u8)
    requires
        is_hex_byte(b),
    ensures
        r as int == hex_val(b),
        r < 16,
{
    if 48 <= b && b <= 57 {
        b - 48
    } else if 65 <= b && b <= 70 {
        b - 55
    } else {
        b - 87
    }
}

/// Decodes `bs[from..to)`.
fn pct_decode_exec(bs: &Vec<u8>, from: usize, to: usize) -> (r: Vec<u8>)
    requires
        from <= to <= bs@.len(),
    ensures
        r@ == pct_decode(bs@.subrange(from as int, to as int)),
{
    let mut out: Vec<u8> = Vec::new();
    let mut i = from;
    while i < to
        invariant
            from <= i <= to <= bs@.len(),
            pct_decode(bs@.subrange(from as int, to as int)) == out@ + pct_decode(
                bs@.subrange(i as int, to as int),
            ),
        decreases to - i,
    {
        let ghost rem = bs@.subrange(i as int, to as int);
        proof {
            assert(rem[0] == bs@[i as int]);
        }
        let b = bs[i];
        if b == 37 && to - i >= 3 && is_hex_exec(bs[i + 1]) && is_hex_exec(bs[i + 2]) && hex_val_exec(
            bs[i + 1],
        ) * 16 + hex_val_exec(bs[i + 2]) < 128 {
            proof {
                assert(rem.len() >= 3);
                assert(rem[1] == bs@[i as int + 1]);
                assert(rem[2] == bs@[i as int + 2]);
                assert(rem.skip(3) =~= bs@.subrange(i as int + 3, to as int));
            }
            out.push(hex_val_exec(bs[i + 1]) * 16 + hex_val_exec(bs[i + 2]));
            i = i + 3;
        } else {
            proof {
                if rem[0] == 37 && rem.len() >= 3 {
                    assert(rem[1] == bs@[i as int + 1]);
                    assert(rem[2] == bs@[i as int + 2]);
                }
                assert(rem.skip(1) =~= bs@.subrange(i as int + 1, to as int));
            }
            if b == 43 {
                out.push(32);
            } else {
                out.push(b);
            }
            i = i + 1;
        }
    }
    proof {
        assert(bs@.subrange(i as int, to as int) =~= Seq::<u8>::empty());
        assert(pct_decode(Seq::<u8>::empty()) == Seq::<u8>::empty());
        assert(out@ =~= pct_decode(bs@.subrange(from as int, to as int)));
    }
    out
}

/// Compares `bs[i..j)` with `key`.
fn range_eq(bs: &Vec<u8>, i: usize, j: usize, key: &Vec<u8>) -> (r: bool)
    requires
        i <= j <= bs@.len(),
    ensures
        r == (bs@.subrange(i as int, j as int) == key@),
{
    if j - i != key.len() {
        proof {
            assert(bs@.subrange(i as int, j as int).len() == j - i);
        }
        return false;
    }
    let mut k: usize = 0;
    while k < key.len()
        invariant
            k <= key@.len(),
            i + key@.len() == j,
            j <= bs@.len(),
            forall|m: int| 0 <= m < k ==> bs@[i + m] == key@[m],
        decreases key@.len() - k,
    {
        if bs[i + k] != key[k] {
            proof {
                assert(bs@.subrange(i as int, j as int)[k as int] == bs@[i + k as int]);
            }
            return false;
        }
        k = k + 1;
    }
    proof {
        assert(bs@.subrange(i as int, j as int) =~= key@);
    }
    true
}

/// Finds and decodes the first `key` parameter at or after `i`.
fn find_param_at(bs: &Vec<u8>, i: usize, key: &Vec<u8>) -> (r: Option<Vec<u8>>)
    requires
        i <= bs@.len(),
    ensures
        match param_value(bs@, i as int, key@) {
            Some(v) => r matches Some(out) && out@ == pct_decode(v),
            None => r is None,
        },
    decreases bs@.len() - i,
{
    if i >= bs.len() {
        return None;
    }
    let amp = index_of_exec(bs, i, 38);
    let eq = index_of_exec(bs, i, 61);
    let key_end = if eq < amp {
        eq
    } else {
        amp
    };
    if range_eq(bs, i, key_end, key) {
        if eq < amp {
            Some(pct_decode_exec(bs, eq + 1, amp))
        } else {
            proof {
                assert(pct_decode(Seq::<u8>::empty()) == Seq::<u8>::empty());
            }
            let empty: Vec<u8> = Vec::new();
            Some(empty)
        }
    } else if amp < bs.len() {
        find_param_at(bs, amp + 1, key)
    } else {
        None
    }
}

fn code_key_vec() -> (r: Vec<u8>)
    ensures
        r@ == code_key(),
{
    let mut v: Vec<u8> = Vec::new();
    v.push(99);
    v.push(111);
    v.push(100);
    v.push(101);
    proof {
        assert(v@ =~= code_key());
    }
    v
}

fn state_key_vec() -> (r: Vec<u8>)
    ensures
        r@ == state_key(),
{
    let mut v: Vec<u8> = Vec::new();
    v.push(115);
    v.push(116);
    v.push(97);
    v.push(116);
    v.push(101);
    proof {
        assert(v@ =~= state_key());
    }
    v
}

/// What the one accepted callback carried.
#[derive(Debug, Clone)]
pub struct AuthorizationResult {
    pub code: String,
    pub received_state: String,
}

/// Extracts the authorization code and the echoed state from the request
/// target.  A missing `code` parameter, or a non-ASCII target, is a
/// `CallbackFailure`; a missing `state` reads as empty.
pub fn parse_callback(target: &str) -> (r: Result<AuthorizationResult, AuthError>)
    ensures
        !vstd::string::is_ascii(target) ==> (r matches Err(e)
            && e matches AuthError::CallbackFailure { .. }),
        vstd::string::is_ascii(target) ==> match callback_param(target.spec_bytes(), code_key()) {
            None => r matches Err(e) && e matches AuthError::CallbackFailure { .. },
            Some(c) => r matches Ok(a) && a.code@ == chars_of_bytes(c) && a.received_state@
                == chars_of_bytes(
                match callback_param(target.spec_bytes(), state_key()) {
                    Some(s) => s,
                    None => Seq::empty(),
                },
            ),
        },
{
    if !target.is_ascii() {
        return Err(
            AuthError::CallbackFailure { detail: "malformed callback request".to_owned() },
        );
    }
    let bs = target.as_bytes_vec();
    proof {
        vstd::string::is_ascii_spec_bytes(target);
        lemma_index_of_range(bs@, 0, 63);
    }
    let qstart = index_of_exec(&bs, 0, 63);
    let query: Vec<u8> = if qstart == bs.len() {
        Vec::new()
    } else {
        vstd::slice::slice_to_vec(vstd::slice::slice_subrange(bs.as_slice(), qstart + 1, bs.len()))
    };
    proof {
        assert(query@ =~= query_of(target.spec_bytes()));
    }
    let code_bytes = match find_param_at(&query, 0, &code_key_vec()) {
        Some(c) => c,
        None => {
            return Err(
                AuthError::CallbackFailure { detail: "no code in callback query".to_owned() },
            );
        },
    };
    let state_bytes = match find_param_at(&query, 0, &state_key_vec()) {
        Some(s) => s,
        None => Vec::new(),
    };
    proof {
        lemma_query_ascii(target.spec_bytes());
        let q = query_of(target.spec_bytes());
        match param_value(q, 0, code_key()) {
            Some(v) => {
                lemma_param_value_sub(q, 0, code_key(), v);
                lemma_pct_decode_ascii(v);
            },
            None => {},
        }
        match param_value(q, 0, state_key()) {
            Some(v) => {
                lemma_param_value_sub(q, 0, state_key(), v);
                lemma_pct_decode_ascii(v);
            },
            None => {},
        }
    }
    let code = ascii_string(code_bytes);
    let received_state = ascii_string(state_bytes);
    Ok(AuthorizationResult { code, received_state })
}

/// Every byte of the query is a byte of the ASCII target.
proof fn lemma_query_ascii(t: Seq<u8>)
    requires
        forall|i: int| 0 <= i < t.len() ==> t[i] < 128,
    ensures
        forall|i: int| 0 <= i < query_of(t).len() ==> #[trigger] query_of(t)[i] < 128,
{
    let q = index_of(t, 0, 63);
    lemma_index_of_range(t, 0, 63);
    if q != t.len() {
        assert forall|i: int| 0 <= i < query_of(t).len() implies #[trigger] query_of(t)[i]
            < 128 by {
            assert(query_of(t)[i] == t[q + 1 + i]);
        };
    }
}

proof fn lemma_param_value_sub(q: Seq<u8>, i: int, key: Seq<u8>, v: Seq<u8>)
    requires
        forall|m: int| 0 <= m < q.len() ==> q[m] < 128,
        0 <= i <= q.len(),
        param_value(q, i, key) == Some(v),
    ensures
        forall|m: int| 0 <= m < v.len() ==> v[m] < 128,
    decreases q.len() - i,
{
    if i < q.len() {
        let amp = index_of(q, i, 38);
        let eq = index_of(q, i, 61);
        lemma_index_of_range(q, i, 38);
        lemma_index_of_range(q, i, 61);
        let key_end = if eq < amp {
            eq
        } else {
            amp
        };
        if q.subrange(i, key_end) == key {
            if eq < amp {
                assert forall|m: int| 0 <= m < v.len() implies v[m] < 128 by {
                    assert(v[m] == q[eq + 1 + m]);
                };
            }
        } else if amp < q.len() {
            lemma_param_value_sub(q, amp + 1, key, v);
        }
    }
}

/// The stages of the single-use listener.
#[derive(Debug, Clone, Copy, PartialEq, Eq, Structural)]
pub enum ListenerStage {
    Listening,
    Fulfilled,
    Closed,
}

/// The listener's bookkeeping: the bound port and whether the one request
/// has been taken.  The socket itself lives outside; it feeds targets in
/// through `take_request`.
pub struct CallbackListener {
    pub port: u16,
    pub stage: ListenerStage,
}

impl CallbackListener {
    /// A listener freshly bound to `port`.
    pub fn start(port: u16) -> (r: CallbackListener)
        ensures
            r.port == port,
            r.stage == ListenerStage::Listening,
    {
        CallbackListener { port, stage: ListenerStage::Listening }
    }

    /// Hands in one inbound request.  Only the first is processed: it
    /// fulfils the listener, and every later request is ignored.
    pub fn take_request(&mut self, target: &str) -> (r: Option<
        Result<AuthorizationResult, AuthError>,
    >)
        ensures
            final(self).port == old(self).port,
            old(self).stage != ListenerStage::Listening ==> r is None && final(self).stage == old(
                self,
            ).stage,
            old(self).stage == ListenerStage::Listening ==> final(self).stage
                == ListenerStage::Fulfilled && r is Some,
            old(self).stage == ListenerStage::Listening && vstd::string::is_ascii(target) ==> match
                callback_param(target.spec_bytes(), code_key()) {
                None => r matches Some(x) && x matches Err(e)
                    && e matches AuthError::CallbackFailure { .. },
                Some(c) => r matches Some(x) && x matches Ok(a) && a.code@ == chars_of_bytes(c),
            },
    {
        match self.stage {
            ListenerStage::Listening => {
                self.stage = ListenerStage::Fulfilled;
                Some(parse_callback(target))
            },
            _ => None,
        }
    }

    /// Stops accepting anything.
    pub fn close(&mut self)
        ensures
            final(self).port == old(self).port,
            final(self).stage == ListenerStage::Closed,
    {
        self.stage = ListenerStage::Closed;
    }
}

/// The page shown to the browser before the listener closes.  Its content
/// carries no protocol meaning; only that an answer is sent matters.
pub fn confirmation_page() -> (r: &'static str)
    ensures
        r@.len() > 0,
{
    proof {
        reveal_strlit(
            "<!doctype html><html><head><meta charset=\"utf-8\"/><title>Sign-in complete</title></head><body><h1>Sign-in complete</h1><p>You can close this window and return to the terminal.</p></body></html>",
        );
    }
    "<!doctype html><html><head><meta charset=\"utf-8\"/><title>Sign-in complete</title></head><body><h1>Sign-in complete</h1><p>You can close this window and return to the terminal.</p></body></html>"
}

} // verus!
