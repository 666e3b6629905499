//! The shared inbox state and the shaping of fetched messages.
//!
//! The background fetch replaces the whole message list in one step; readers
//! only ever see a complete list, old or new.  The mutual exclusion around
//! the container is the caller's one lock; every operation here is a single
//! whole-value read or write, so no reader can observe a partial replace.

use vstd::prelude::*;

verus! {

/// One fetched message, reduced to its display fields.
#[derive(Debug, Clone)]
pub struct SimpleMail {
    pub id: String,
    pub subject: Option<String>,
    pub from: Option<String>,
    pub date: Option<String>,
    pub snippet: Option<String>,
}

/// The latest fetched message list, replaced wholesale and read wholesale.
pub struct InboxState {
    pub messages: Vec<SimpleMail>,
}

impl InboxState {
    /// Starts empty.
    pub fn new() -> (r: InboxState)
        ensures
            r.messages@.len() == 0,
    {
        InboxState { messages: Vec::new() }
    }

    /// Replaces the entire list: afterwards the state holds exactly the new
    /// messages, in the order given, and nothing of the old ones.
    pub fn set_messages(&mut self, msgs: Vec<SimpleMail>)
        ensures
            final(self).messages@ == msgs@,
    {
        self.messages = msgs;
    }

    /// The whole current list.
    pub fn snapshot(&self) -> (r: &Vec<SimpleMail>)
        ensures
            r@ == self.messages@,
    {
        &self.messages
    }

    /// How many messages the state holds; an inbox that has fetched nothing
    /// reports zero.  A view that shows placeholder rows instead counts
    /// those on its own side.
    pub fn message_count(&self) -> (r: usize)
        ensures
            r == self.messages@.len(),
    {
        self.messages.len()
    }
}

/// The placeholder rows shown before any fetch: sender, subject, read flag,
/// sent time.
pub fn sample_messages() -> (r: Vec<(String, String, bool, String)>)
    ensures
        r@.len() == 3,
        r@[0].0@ == "Alice"@ && r@[0].1@ == "Meeting tomorrow"@ && r@[0].2 == false && r@[0].3@
            == "09:12"@,
        r@[1].0@ == "Bob"@ && r@[1].1@ == "Rust project update"@ && r@[1].2 == true && r@[1].3@
            == "13:45"@,
        r@[2].0@ == "Charlie"@ && r@[2].1@ == "Flight booking"@ && r@[2].2 == false && r@[2].3@
            == "Yesterday"@,
{
    let mut v: Vec<(String, String, bool, String)> = Vec::new();
    v.push(("Alice".to_owned(), "Meeting tomorrow".to_owned(), false, "09:12".to_owned()));
    v.push(("Bob".to_owned(), "Rust project update".to_owned(), true, "13:45".to_owned()));
    v.push(("Charlie".to_owned(), "Flight booking".to_owned(), false, "Yesterday".to_owned()));
    v
}

/// ASCII lower-casing of one character.
pub open spec fn lower_char(c: char) -> char {
    if 'A' <= c && c <= 'Z' {
        ((c as u8) + 32) as char
    } else {
        c
    }
}

pub open spec fn lower_chars(s: Seq<char>) -> Seq<char> {
    s.map(|i: int, c: char| lower_char(c))
}

fn lower_exec(c: char) -> (r: char)
    ensures
        r == lower_char(c),
{
    if 'A' <= c && c <= 'Z' {
        ((c as u8) + 32) as char
    } else {
        c
    }
}

/// Case-insensitive (ASCII) equality of two strings.
pub fn str_eq_ignore_case(a: &str, b: &str) -> (r: bool)
    ensures
        r == (lower_chars(a@) == lower_chars(b@)),
{
    let na = a.unicode_len();
    let nb = b.unicode_len();
    if na != nb {
        proof {
            assert(lower_chars(a@).len() != lower_chars(b@).len());
        }
        return false;
    }
    let mut i: usize = 0;
    while i < na
        invariant
            i <= na,
            na == a@.len(),
            na == b@.len(),
            forall|k: int| 0 <= k < i ==> lower_char(a@[k]) == lower_char(b@[k]),
        decreases na - i,
    {
        if lower_exec(a.get_char(i)) != lower_exec(b.get_char(i)) {
            proof {
                assert(lower_chars(a@)[i as int] != lower_chars(b@)[i as int]);
            }
            return false;
        }
        i = i + 1;
    }
    proof {
        assert(lower_chars(a@) =~= lower_chars(b@));
    }
    true
}

/// The views of a header list.
pub open spec fn headers_view(hs: Seq<(String, String)>) -> Seq<(Seq<char>, Seq<char>)> {
    hs.map(|i: int, h: (String, String)| (h.0@, h.1@))
}

/// The first header whose name equals `name` up to ASCII case.
pub open spec fn header_lookup(hs: Seq<(Seq<char>, Seq<char>)>, name: Seq<char>) -> Option<
    Seq<char>,
>
    decreases hs.len(),
{
    if hs.len() == 0 {
        None
    } else if lower_chars(hs[0].0) == lower_chars(name) {
        Some(hs[0].1)
    } else {
        header_lookup(hs.drop_first(), name)
    }
}

/// Finds a header by name, ignoring ASCII case.
pub fn header_value(headers: &Vec<(String, String)>, name: &str) -> (r: Option<String>)
    ensures
        match header_lookup(headers_view(headers@), name@) {
            Some(v) => r matches Some(s) && s@ == v,
            None => r is None,
        },
{
    let mut j: usize = 0;
    proof {
        assert(headers_view(headers@).skip(0) =~= headers_view(headers@));
    }
    while j < headers.len()
        invariant
            j <= headers.len(),
            header_lookup(headers_view(headers@), name@) == header_lookup(
                headers_view(headers@).skip(j as int),
                name@,
            ),
        decreases headers.len() - j,
    {
        proof {
            assert(headers_view(headers@).skip(j as int)[0] == (
                headers@[j as int].0@,
                headers@[j as int].1@,
            ));
            assert(headers_view(headers@).skip(j as int).drop_first() =~= headers_view(
                headers@,
            ).skip(j as int + 1));
        }
        if str_eq_ignore_case(headers[j].0.as_str(), name) {
            return Some(headers[j].1.clone());
        }
        j = j + 1;
    }
    proof {
        assert(headers_view(headers@).skip(j as int).len() == 0);
    }
    None
}

/// Shapes one fetched message from its identifier, snippet and headers:
/// subject, sender and date are the `Subject`, `From` and `Date` headers.
pub fn build_message(
    id: String,
    snippet: Option<String>,
    headers: &Vec<(String, String)>,
) -> (r: SimpleMail)
    ensures
        r.id == id,
        r.snippet == snippet,
        match header_lookup(headers_view(headers@), "Subject"@) {
            Some(v) => r.subject matches Some(s) && s@ == v,
            None => r.subject is None,
        },
        match header_lookup(headers_view(headers@), "From"@) {
            Some(v) => r.from matches Some(s) && s@ == v,
            None => r.from is None,
        },
        match header_lookup(headers_view(headers@), "Date"@) {
            Some(v) => r.date matches Some(s) && s@ == v,
            None => r.date is None,
        },
{
    let subject = header_value(headers, "Subject");
    let from = header_value(headers, "From");
    let date = header_value(headers, "Date");
    SimpleMail { id, subject, from, date, snippet }
}

} // verus!
