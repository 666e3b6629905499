//! The write-protocol of the token store, as a verified model.
//!
//! The store never rewrites the canonical file in place: a save serializes
//! the whole record to a temporary file in the same directory and then
//! renames it over the canonical path.  This module models the two files and
//! the protocol's steps — including a crash at any point between them — and
//! proves that the canonical file only ever holds a complete record: a load
//! sees the old record or the new one, never a torn mix.  The actual
//! directory creation, file writes and rename are performed outside by thin
//! adapters that follow exactly these steps.

use vstd::prelude::*;

use crate::errors::AuthError;
use crate::token::{
    parse_token, token_from_json, token_json, token_to_json, wf_token, SavedToken, SavedTokenView,
};

verus! {

/// The two on-disk files the protocol touches.
pub struct StoreDisk {
    pub canonical: Option<String>,
    pub temp: Option<String>,
}

impl StoreDisk {
    /// Every file the protocol has written holds the complete canonical
    /// serialization of some well-formed record.
    pub open spec fn inv(&self) -> bool {
        &&& (self.canonical matches Some(s) ==> exists|t: SavedTokenView|
            wf_token(t) && s@ == token_json(t))
        &&& (self.temp matches Some(s) ==> exists|t: SavedTokenView|
            wf_token(t) && s@ == token_json(t))
    }

    /// A fresh store: no record persisted yet.
    pub fn new() -> (r: StoreDisk)
        ensures
            r.inv(),
            r.canonical is None,
            r.temp is None,
    {
        StoreDisk { canonical: None, temp: None }
    }

    /// Step one of a save: the whole record goes to the temporary file; the
    /// canonical file is untouched.
    pub fn write_temp(&mut self, t: &SavedToken)
        requires
            old(self).inv(),
            wf_token(t@),
        ensures
            final(self).inv(),
            final(self).canonical == old(self).canonical,
            final(self).temp matches Some(s) && s@ == token_json(t@),
    {
        let data = token_to_json(t);
        self.temp = Some(data);
    }

    /// Step two of a save: the rename.  Atomic: the canonical file changes
    /// from its old content to the full temporary content in one step.
    pub fn commit_rename(&mut self)
        requires
            old(self).inv(),
            old(self).temp is Some,
        ensures
            final(self).inv(),
            final(self).canonical == old(self).temp,
            final(self).temp is None,
    {
        self.canonical = self.temp.take();
    }

    /// A crash at any point between the steps: the temporary file may be
    /// lost, the canonical file keeps whatever complete record it had.
    pub fn crash(&mut self)
        requires
            old(self).inv(),
        ensures
            final(self).inv(),
            final(self).canonical == old(self).canonical,
            final(self).temp is None,
    {
        self.temp = None;
    }

    /// A whole save: temp write, then rename.
    pub fn save_token(&mut self, t: &SavedToken)
        requires
            old(self).inv(),
            wf_token(t@),
        ensures
            final(self).inv(),
            final(self).canonical matches Some(s) && s@ == token_json(t@),
            final(self).temp is None,
    {
        self.write_temp(t);
        self.commit_rename();
    }

    /// A load: absence of the file is an error (the caller treats it as "not
    /// logged in"); a present file always yields the complete record whose
    /// serialization it is.
    pub fn load_token(&self) -> (r: Result<SavedToken, AuthError>)
        requires
            self.inv(),
        ensures
            self.canonical matches Some(s) ==> (r matches Ok(tok) && s@ == token_json(tok@)
                && wf_token(tok@)),
            self.canonical is None ==> (r matches Err(e)
                && e matches AuthError::PersistenceFailure { .. }),
    {
        match &self.canonical {
            None => Err(
                AuthError::PersistenceFailure { detail: "no token record present".to_owned() },
            ),
            Some(s) => {
                proof {
                    let t = choose|t: SavedTokenView| wf_token(t) && s@ == token_json(t);
                    crate::token::lemma_token_round_trip(t);
                }
                match token_from_json(s.as_str()) {
                    Ok(tok) => {
                        proof {
                            let t = choose|t: SavedTokenView| wf_token(t) && s@ == token_json(t);
                            assert(tok@ == t);
                        }
                        Ok(tok)
                    },
                    Err(e) => {
                        proof {
                            assert(false);
                        }
                        Err(e)
                    },
                }
            },
        }
    }
}

/// The canonical file is never torn: under the store's invariant it always
/// parses as one complete record, whichever of the competing saves wrote it
/// and wherever a crash cut the protocol short.
pub proof fn lemma_store_never_torn(d: StoreDisk)
    requires
        d.inv(),
    ensures
        d.canonical matches Some(s) ==> parse_token(s@) is Some,
{
    match d.canonical {
        None => {},
        Some(s) => {
            let t = choose|t: SavedTokenView| wf_token(t) && s@ == token_json(t);
            crate::token::lemma_token_round_trip(t);
        },
    }
}

/// Serialization is injective: two records with the same canonical text are
/// the same record, so a load after a save can only hand back the record
/// that was saved.
pub proof fn lemma_token_json_injective(a: SavedTokenView, b: SavedTokenView)
    requires
        wf_token(a),
        wf_token(b),
        token_json(a) == token_json(b),
    ensures
        a == b,
{
    crate::token::lemma_token_round_trip(a);
    crate::token::lemma_token_round_trip(b);
}

} // verus!
