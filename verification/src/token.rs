//! The persisted credential record and its canonical JSON form.
//!
//! A login leaves exactly one record on disk: the access token, an optional
//! refresh token, and an optional absolute expiry time.  The record is always
//! written wholesale and read wholesale; this module proves that reading back
//! a written record yields the record unchanged.

use vstd::prelude::*;

use crate::errors::AuthError;
use crate::json::{
    all_plain, lookup, object_chars, object_to_string, pairs_view, parse_flat_object,
    parse_object_spec, get_field, JsonVal, JsonValue,
};

verus! {

/// The one credential record this client persists.
#[derive(Debug, Clone)]
pub struct SavedToken {
    pub access_token: String,
    pub refresh_token: Option<String>,
    pub expires_at_unix: Option<i64>,
}

/// The mathematical shape of a `SavedToken`.
pub struct SavedTokenView {
    pub access_token: Seq<char>,
    pub refresh_token: Option<Seq<char>>,
    pub expires_at_unix: Option<int>,
}

impl View for SavedToken {
    type V = SavedTokenView;

    open spec fn view(&self) -> SavedTokenView {
        SavedTokenView {
            access_token: self.access_token@,
            refresh_token: match self.refresh_token {
                Some(ref r) => Some(r@),
                None => None,
            },
            expires_at_unix: match self.expires_at_unix {
                Some(e) => Some(e as int),
                None => None,
            },
        }
    }
}

/// A record the canonical printer can persist: token strings made of
/// printable ASCII without quotes or backslashes, and an expiry within `i64`.
pub open spec fn wf_token(t: SavedTokenView) -> bool {
    &&& all_plain(t.access_token)
    &&& (t.refresh_token matches Some(r) ==> all_plain(r))
    &&& (t.expires_at_unix matches Some(e) ==> -0x8000_0000_0000_0000 <= e
        <= 0x7fff_ffff_ffff_ffff)
}

pub open spec fn access_token_key() -> Seq<char> {
    seq!['a', 'c', 'c', 'e', 's', 's', '_', 't', 'o', 'k', 'e', 'n']
}

pub open spec fn refresh_token_key() -> Seq<char> {
    seq!['r', 'e', 'f', 'r', 'e', 's', 'h', '_', 't', 'o', 'k', 'e', 'n']
}

pub open spec fn expires_at_key() -> Seq<char> {
    seq!['e', 'x', 'p', 'i', 'r', 'e', 's', '_', 'a', 't', '_', 'u', 'n', 'i', 'x']
}

/// The members of the persisted object, in their fixed order; absent optional
/// fields are omitted rather than written as `null`.
pub open spec fn token_pairs(t: SavedTokenView) -> Seq<(Seq<char>, JsonVal)> {
    seq![(access_token_key(), JsonVal::Text(t.access_token))] + (match t.refresh_token {
        Some(r) => seq![(refresh_token_key(), JsonVal::Text(r))],
        None => Seq::empty(),
    }) + (match t.expires_at_unix {
        Some(e) => seq![(expires_at_key(), JsonVal::Num(e))],
        None => Seq::empty(),
    })
}

/// The full canonical text of the persisted record.
pub open spec fn token_json(t: SavedTokenView) -> Seq<char> {
    object_chars(token_pairs(t))
}

/// Reads a record out of parsed members: `access_token` must be a string;
/// the optional fields may be absent or `null`; a field of the wrong shape
/// is an error.
pub open spec fn token_of_pairs(ps: Seq<(Seq<char>, JsonVal)>) -> Option<SavedTokenView> {
    match lookup(ps, access_token_key()) {
        Some(JsonVal::Text(a)) => {
            let refresh = match lookup(ps, refresh_token_key()) {
                Some(JsonVal::Text(r)) => Some(Some(r)),
                Some(JsonVal::Null) => Some(None),
                None => Some(None),
                Some(JsonVal::Num(_)) => None,
            };
            let expires = match lookup(ps, expires_at_key()) {
                Some(JsonVal::Num(e)) => Some(Some(e)),
                Some(JsonVal::Null) => Some(None),
                None => Some(None),
                Some(JsonVal::Text(_)) => None,
            };
            match (refresh, expires) {
                (Some(r), Some(e)) => Some(
                    SavedTokenView { access_token: a, refresh_token: r, expires_at_unix: e },
                ),
                _ => None,
            }
        },
        _ => None,
    }
}

/// What loading makes of a file's text.
pub open spec fn parse_token(s: Seq<char>) -> Option<SavedTokenView> {
    match parse_object_spec(s) {
        Some(ps) => token_of_pairs(ps),
        None => None,
    }
}

fn access_token_name() -> (r: &'static str)
    ensures
        r@ == access_token_key(),
{
    proof {
        reveal_strlit("access_token");
    }
    "access_token"
}

fn refresh_token_name() -> (r: &'static str)
    ensures
        r@ == refresh_token_key(),
{
    proof {
        reveal_strlit("refresh_token");
    }
    "refresh_token"
}

fn expires_at_name() -> (r: &'static str)
    ensures
        r@ == expires_at_key(),
{
    proof {
        reveal_strlit("expires_at_unix");
    }
    "expires_at_unix"
}

/// Serializes the record to its canonical JSON text.
pub fn token_to_json(t: &SavedToken) -> (r: String)
    ensures
        r@ == token_json(t@),
{
    let mut ps: Vec<(String, JsonValue)> = Vec::new();
    ps.push((access_token_name().to_owned(), JsonValue::Text(t.access_token.clone())));
    match &t.refresh_token {
        Some(r) => {
            ps.push((refresh_token_name().to_owned(), JsonValue::Text(r.clone())));
        },
        None => {},
    }
    match t.expires_at_unix {
        Some(e) => {
            ps.push((expires_at_name().to_owned(), JsonValue::Num(e)));
        },
        None => {},
    }
    proof {
        assert(pairs_view(ps@) =~= token_pairs(t@));
    }
    object_to_string(&ps)
}

/// Deserializes a record; malformed text is a `ParseFailure`, never a
/// panic.  The file is read by this crate's escape-free JSON subset: a
/// string member holding `"` or `\` is rejected, which no record this
/// client writes can contain (`wf_token`).
pub fn token_from_json(s: &str) -> (r: Result<SavedToken, AuthError>)
    ensures
        match parse_token(s@) {
            Some(t) => r matches Ok(tok) && tok@ == t,
            None => r matches Err(e) && e matches AuthError::ParseFailure { .. },
        },
{
    let ps = match parse_flat_object(s) {
        Some(ps) => ps,
        None => {
            return Err(parse_failure());
        },
    };
    let access: String = match get_field(&ps, access_token_name()) {
        Some(v) => match v {
            JsonValue::Text(a) => a.clone(),
            _ => {
                return Err(parse_failure());
            },
        },
        None => {
            return Err(parse_failure());
        },
    };
    let refresh: Option<String> = match get_field(&ps, refresh_token_name()) {
        Some(v) => match v {
            JsonValue::Text(rt) => Some(rt.clone()),
            JsonValue::Null => None,
            JsonValue::Num(_) => {
                return Err(parse_failure());
            },
        },
        None => None,
    };
    let expires: Option<i64> = match get_field(&ps, expires_at_name()) {
        Some(v) => match v {
            JsonValue::Num(e) => Some(*e),
            JsonValue::Null => None,
            JsonValue::Text(_) => {
                return Err(parse_failure());
            },
        },
        None => None,
    };
    Ok(SavedToken { access_token: access, refresh_token: refresh, expires_at_unix: expires })
}

fn parse_failure() -> (r: AuthError)
    ensures
        r matches AuthError::ParseFailure { .. },
{
    AuthError::ParseFailure { detail: "malformed token record".to_owned() }
}

/// The token file's name under the per-user configuration directory.
pub fn token_file(config_dir: &str) -> (r: String)
    ensures
        r@ == config_dir@ + seq!['/', 't', 'o', 'k', 'e', 'n', '.', 'j', 's', 'o', 'n'],
{
    proof {
        reveal_strlit("/token.json");
    }
    let mut r = config_dir.to_owned();
    r.append("/token.json");
    r
}

/// Round trip: loading the canonical print of any well-formed record yields
/// exactly that record; a crash-free save followed by a load can never hand
/// back a different credential.
#[verifier::rlimit(100)]
pub proof fn lemma_token_round_trip(t: SavedTokenView)
    requires
        wf_token(t),
    ensures
        parse_token(token_json(t)) == Some(t),
{
    let ps = token_pairs(t);
    let pa = (access_token_key(), JsonVal::Text(t.access_token));
    assert(access_token_key().len() == 12);
    assert(refresh_token_key().len() == 13);
    assert(expires_at_key().len() == 15);
    crate::json::lemma_parse_object_print(ps);
    match (t.refresh_token, t.expires_at_unix) {
        (Some(r), Some(e)) => {
            let pr = (refresh_token_key(), JsonVal::Text(r));
            let pe = (expires_at_key(), JsonVal::Num(e));
            assert(ps =~= seq![pa, pr, pe]);
            assert(ps.drop_first() =~= seq![pr, pe]);
            assert(seq![pr, pe].drop_first() =~= seq![pe]);
            assert(lookup(ps, access_token_key()) == Some(JsonVal::Text(t.access_token)));
            assert(lookup(ps, refresh_token_key()) == lookup(seq![pr, pe], refresh_token_key()));
            assert(lookup(ps, refresh_token_key()) == Some(JsonVal::Text(r)));
            assert(lookup(ps, expires_at_key()) == lookup(seq![pr, pe], expires_at_key()));
            assert(lookup(seq![pr, pe], expires_at_key()) == lookup(seq![pe], expires_at_key()));
            assert(lookup(ps, expires_at_key()) == Some(JsonVal::Num(e)));
        },
        (Some(r), None) => {
            let pr = (refresh_token_key(), JsonVal::Text(r));
            assert(ps =~= seq![pa, pr]);
            assert(ps.drop_first() =~= seq![pr]);
            assert(seq![pr].drop_first() =~= Seq::<(Seq<char>, JsonVal)>::empty());
            assert(lookup(ps, access_token_key()) == Some(JsonVal::Text(t.access_token)));
            assert(lookup(ps, refresh_token_key()) == lookup(seq![pr], refresh_token_key()));
            assert(lookup(ps, refresh_token_key()) == Some(JsonVal::Text(r)));
            assert(lookup(ps, expires_at_key()) == lookup(seq![pr], expires_at_key()));
            assert(lookup(seq![pr], expires_at_key()) == lookup(
                Seq::<(Seq<char>, JsonVal)>::empty(),
                expires_at_key(),
            ));
            assert(lookup(ps, expires_at_key()) is None);
        },
        (None, Some(e)) => {
            let pe = (expires_at_key(), JsonVal::Num(e));
            assert(ps =~= seq![pa, pe]);
            assert(ps.drop_first() =~= seq![pe]);
            assert(seq![pe].drop_first() =~= Seq::<(Seq<char>, JsonVal)>::empty());
            assert(lookup(ps, access_token_key()) == Some(JsonVal::Text(t.access_token)));
            assert(lookup(ps, refresh_token_key()) == lookup(seq![pe], refresh_token_key()));
            assert(lookup(seq![pe], refresh_token_key()) == lookup(
                Seq::<(Seq<char>, JsonVal)>::empty(),
                refresh_token_key(),
            ));
            assert(lookup(ps, refresh_token_key()) is None);
            assert(lookup(ps, expires_at_key()) == lookup(seq![pe], expires_at_key()));
            assert(lookup(ps, expires_at_key()) == Some(JsonVal::Num(e)));
        },
        (None, None) => {
            assert(ps =~= seq![pa]);
            assert(ps.drop_first() =~= Seq::<(Seq<char>, JsonVal)>::empty());
            assert(lookup(ps, access_token_key()) == Some(JsonVal::Text(t.access_token)));
            assert(lookup(ps, refresh_token_key()) is None);
            assert(lookup(ps, expires_at_key()) is None);
        },
    }
    assert(token_of_pairs(ps) == Some(t));
}

} // verus!
