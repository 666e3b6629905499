//! A small JSON subset, printed and parsed by verified code.
//!
//! The token file and the token endpoint's answer are flat JSON objects whose
//! values are strings, integers or `null`.  This module prints such objects
//! canonically and parses them back (tolerating whitespace), and proves that
//! parsing inverts printing.  Strings are restricted to printable ASCII
//! without `"` or `\`, which covers every credential and header this client
//! handles; anything else is a parse error, never a panic.

use vstd::prelude::*;

verus! {

/// A flat JSON value: a string, an integer, or `null`.
#[derive(Debug, Clone)]
pub enum JsonValue {
    Null,
    Num(i64),
    Text(String),
}

/// The mathematical shape of a `JsonValue`.
pub enum JsonVal {
    Null,
    Num(int),
    Text(Seq<char>),
}

impl View for JsonValue {
    type V = JsonVal;

    open spec fn view(&self) -> JsonVal {
        match self {
            JsonValue::Null => JsonVal::Null,
            JsonValue::Num(n) => JsonVal::Num(*n as int),
            JsonValue::Text(s) => JsonVal::Text(s@),
        }
    }
}

/// Characters that may stand inside a quoted string unescaped: printable
/// ASCII except the quote and the backslash.
pub open spec fn is_plain_char(c: char) -> bool {
    ' ' <= c && c <= '~' && c != '"' && c != '\\'
}

pub open spec fn all_plain(s: Seq<char>) -> bool {
    forall|i: int| 0 <= i < s.len() ==> is_plain_char(#[trigger] s[i])
}

pub open spec fn is_digit_char(c: char) -> bool {
    '0' <= c && c <= '9'
}

pub open spec fn digit_char(d: int) -> char
    recommends
        0 <= d < 10,
{
    seq!['0', '1', '2', '3', '4', '5', '6', '7', '8', '9'][d]
}

pub open spec fn digit_val(c: char) -> int {
    c as int - '0' as int
}

/// The decimal digits of `n`, most significant first.
pub open spec fn dec_digits(n: nat) -> Seq<char>
    decreases n,
{
    if n < 10 {
        seq![digit_char(n as int)]
    } else {
        dec_digits(n / 10).push(digit_char((n % 10) as int))
    }
}

/// The canonical rendering of an integer: an optional minus sign, then digits.
pub open spec fn int_chars(i: int) -> Seq<char> {
    if i < 0 {
        seq!['-'] + dec_digits((-i) as nat)
    } else {
        dec_digits(i as nat)
    }
}

pub proof fn lemma_dec_digits_shape(n: nat)
    ensures
        dec_digits(n).len() >= 1,
        forall|k: int|
            0 <= k < dec_digits(n).len() ==> is_digit_char(#[trigger] dec_digits(n)[k]),
    decreases n,
{
    if n >= 10 {
        lemma_dec_digits_shape(n / 10);
    }
}

/// Renders `n` in decimal.
pub fn u64_to_string(n: u64) -> (r: String)
    ensures
        r@ == dec_digits(n as nat),
    decreases n,
{
    if n < 10 {
        let d = digit_str(n as u8);
        proof {
            assert(d@ == dec_digits(n as nat));
        }
        d.to_owned()
    } else {
        let mut r = u64_to_string(n / 10);
        let d = digit_str((n % 10) as u8);
        r.append(d);
        proof {
            assert(r@ == dec_digits(n as nat));
        }
        r
    }
}

/// The single digit `d` as a string slice.
fn digit_str(d: u8) -> (r: &'static str)
    requires
        d < 10,
    ensures
        r@ == seq![digit_char(d as int)],
{
    proof {
        reveal_strlit("0");
        reveal_strlit("1");
        reveal_strlit("2");
        reveal_strlit("3");
        reveal_strlit("4");
        reveal_strlit("5");
        reveal_strlit("6");
        reveal_strlit("7");
        reveal_strlit("8");
        reveal_strlit("9");
    }
    match d {
        0 => "0",
        1 => "1",
        2 => "2",
        3 => "3",
        4 => "4",
        5 => "5",
        6 => "6",
        7 => "7",
        8 => "8",
        _ => "9",
    }
}

/// Renders `i` in decimal, with a leading minus sign when negative.
pub fn i64_to_string(i: i64) -> (r: String)
    ensures
        r@ == int_chars(i as int),
{
    if i >= 0 {
        u64_to_string(i as u64)
    } else {
        let magnitude: u64 = ((-(i as i128)) as u64);
        proof {
            assert(magnitude == -(i as int));
        }
        let mut r = minus_str().to_owned();
        let digits = u64_to_string(magnitude);
        r.append(digits.as_str());
        proof {
            assert(r@ == int_chars(i as int));
        }
        r
    }
}

fn minus_str() -> (r: &'static str)
    ensures
        r@ == seq!['-'],
{
    proof {
        reveal_strlit("-");
    }
    "-"
}

/// A string value as printed: quoted, with no escapes.
pub open spec fn quote_chars(s: Seq<char>) -> Seq<char> {
    seq!['"'] + s + seq!['"']
}

/// The canonical rendering of one value.
pub open spec fn val_chars(v: JsonVal) -> Seq<char> {
    match v {
        JsonVal::Null => seq!['n', 'u', 'l', 'l'],
        JsonVal::Num(n) => int_chars(n),
        JsonVal::Text(s) => quote_chars(s),
    }
}

/// One `"key":value` member.
pub open spec fn pair_chars(p: (Seq<char>, JsonVal)) -> Seq<char> {
    quote_chars(p.0) + seq![':'] + val_chars(p.1)
}

/// The members of an object, comma-separated.
pub open spec fn pairs_chars(ps: Seq<(Seq<char>, JsonVal)>) -> Seq<char>
    decreases ps.len(),
{
    if ps.len() == 0 {
        Seq::empty()
    } else if ps.len() == 1 {
        pair_chars(ps[0])
    } else {
        pair_chars(ps[0]) + seq![','] + pairs_chars(ps.drop_first())
    }
}

/// The canonical rendering of a whole flat object.
pub open spec fn object_chars(ps: Seq<(Seq<char>, JsonVal)>) -> Seq<char> {
    seq!['{'] + pairs_chars(ps) + seq!['}']
}

/// The view of an exec pair list.
pub open spec fn pairs_view(ps: Seq<(String, JsonValue)>) -> Seq<(Seq<char>, JsonVal)> {
    ps.map(|i: int, p: (String, JsonValue)| (p.0@, p.1@))
}

fn quote_str() -> (r: &'static str)
    ensures
        r@ == seq!['"'],
{
    proof {
        reveal_strlit("\"");
    }
    "\""
}

fn null_str() -> (r: &'static str)
    ensures
        r@ == seq!['n', 'u', 'l', 'l'],
{
    proof {
        reveal_strlit("null");
    }
    "null"
}

/// Appends the rendering of `v` to `out`.
fn append_value(out: &mut String, v: &JsonValue)
    ensures
        final(out)@ == old(out)@ + val_chars(v@),
{
    match v {
        JsonValue::Null => {
            out.append(null_str());
        },
        JsonValue::Num(n) => {
            let digits = i64_to_string(*n);
            out.append(digits.as_str());
        },
        JsonValue::Text(s) => {
            out.append(quote_str());
            out.append(s.as_str());
            out.append(quote_str());
            proof {
                assert(final(out)@ =~= old(out)@ + val_chars(v@));
            }
        },
    }
}

/// Prints a flat object canonically: no whitespace, members in the order
/// given.
pub fn object_to_string(ps: &Vec<(String, JsonValue)>) -> (r: String)
    ensures
        r@ == object_chars(pairs_view(ps@)),
{
    let mut out = lbrace_str().to_owned();
    let ghost all = pairs_view(ps@);
    let mut k: usize = 0;
    while k < ps.len()
        invariant
            k <= ps.len(),
            all == pairs_view(ps@),
            all.len() == ps.len(),
            out@ == seq!['{'] + pairs_chars(all.take(k as int)),
        decreases ps.len() - k,
    {
        if k > 0 {
            out.append(comma_str());
        }
        out.append(quote_str());
        out.append(ps[k].0.as_str());
        out.append(quote_str());
        out.append(colon_str());
        append_value(&mut out, &ps[k].1);
        proof {
            lemma_pairs_chars_take_step(all, k as int);
            assert(out@ =~= seq!['{'] + pairs_chars(all.take(k as int + 1)));
        }
        k = k + 1;
    }
    out.append(rbrace_str());
    proof {
        assert(all.take(ps@.len() as int) =~= all);
        assert(out@ =~= object_chars(pairs_view(ps@)));
    }
    out
}

/// Printing one more member appends a comma (after the first) and the member.
proof fn lemma_pairs_chars_take_step(ps: Seq<(Seq<char>, JsonVal)>, k: int)
    requires
        0 <= k < ps.len(),
    ensures
        k == 0 ==> pairs_chars(ps.take(k + 1)) =~= pair_chars(ps[0]),
        k > 0 ==> pairs_chars(ps.take(k + 1)) =~= pairs_chars(ps.take(k)) + seq![',']
            + pair_chars(ps[k]),
    decreases k,
{
    if k == 0 {
        assert(ps.take(1).len() == 1);
        assert(ps.take(1)[0] == ps[0]);
    } else {
        lemma_pairs_chars_take_step(ps.drop_first(), k - 1);
        assert(ps.take(k + 1).drop_first() =~= ps.drop_first().take(k));
        assert(ps.take(k).drop_first() =~= ps.drop_first().take(k - 1));
        assert(ps.take(k + 1)[0] == ps[0]);
        assert(ps.take(k)[0] == ps[0]);
        assert(ps.drop_first()[k - 1] == ps[k]);
        if k == 1 {
            assert(pairs_chars(ps.take(2)) == pair_chars(ps[0]) + seq![',']
                + pairs_chars(ps.take(2).drop_first()));
            assert(pairs_chars(ps.drop_first().take(1)) == pair_chars(ps[1]));
            assert(pairs_chars(ps.take(1)) == pair_chars(ps[0]));
        } else {
            assert(pairs_chars(ps.take(k + 1)) == pair_chars(ps[0]) + seq![',']
                + pairs_chars(ps.drop_first().take(k)));
            assert(pairs_chars(ps.take(k)) == pair_chars(ps[0]) + seq![',']
                + pairs_chars(ps.drop_first().take(k - 1)));
        }
    }
}

fn lbrace_str() -> (r: &'static str)
    ensures
        r@ == seq!['{'],
{
    proof {
        reveal_strlit("{");
    }
    "{"
}

fn rbrace_str() -> (r: &'static str)
    ensures
        r@ == seq!['}'],
{
    proof {
        reveal_strlit("}");
    }
    "}"
}

fn comma_str() -> (r: &'static str)
    ensures
        r@ == seq![','],
{
    proof {
        reveal_strlit(",");
    }
    ","
}

fn colon_str() -> (r: &'static str)
    ensures
        r@ == seq![':'],
{
    proof {
        reveal_strlit(":");
    }
    ":"
}

pub open spec fn is_ws_char(c: char) -> bool {
    c == ' ' || c == '\t' || c == '\n' || c == '\r'
}

/// First index at or after `i` that does not hold whitespace.
pub open spec fn skip_ws(s: Seq<char>, i: int) -> int
    decreases s.len() - i,
{
    if 0 <= i < s.len() && is_ws_char(s[i]) {
        skip_ws(s, i + 1)
    } else {
        i
    }
}

/// First index at or after `i` that does not hold a plain string character.
pub open spec fn scan_text(s: Seq<char>, i: int) -> int
    decreases s.len() - i,
{
    if 0 <= i < s.len() && is_plain_char(s[i]) {
        scan_text(s, i + 1)
    } else {
        i
    }
}

/// First index at or after `i` that does not hold a decimal digit.
pub open spec fn scan_digits(s: Seq<char>, i: int) -> int
    decreases s.len() - i,
{
    if 0 <= i < s.len() && is_digit_char(s[i]) {
        scan_digits(s, i + 1)
    } else {
        i
    }
}

/// The value of the digit run `s[i..j)`, most significant digit first.
pub open spec fn digits_value(s: Seq<char>, i: int, j: int) -> int
    decreases j - i,
{
    if i < j {
        digits_value(s, i, j - 1) * 10 + digit_val(s[j - 1])
    } else {
        0
    }
}

pub proof fn lemma_skip_ws_range(s: Seq<char>, i: int)
    requires
        0 <= i <= s.len(),
    ensures
        i <= skip_ws(s, i) <= s.len(),
        skip_ws(s, i) < s.len() ==> !is_ws_char(s[skip_ws(s, i)]),
        skip_ws(s, i) == s.len() || !is_ws_char(s[skip_ws(s, i)]),
    decreases s.len() - i,
{
    if i < s.len() && is_ws_char(s[i]) {
        lemma_skip_ws_range(s, i + 1);
    }
}

pub proof fn lemma_scan_text_range(s: Seq<char>, i: int)
    requires
        0 <= i <= s.len(),
    ensures
        i <= scan_text(s, i) <= s.len(),
    decreases s.len() - i,
{
    if i < s.len() && is_plain_char(s[i]) {
        lemma_scan_text_range(s, i + 1);
    }
}

pub proof fn lemma_scan_digits_range(s: Seq<char>, i: int)
    requires
        0 <= i <= s.len(),
    ensures
        i <= scan_digits(s, i) <= s.len(),
        forall|k: int| i <= k < scan_digits(s, i) ==> is_digit_char(#[trigger] s[k]),
    decreases s.len() - i,
{
    if i < s.len() && is_digit_char(s[i]) {
        lemma_scan_digits_range(s, i + 1);
    }
}

/// A parsed string: the characters between the quotes, and the index after
/// the closing quote.
pub open spec fn parse_string_spec(s: Seq<char>, i: int) -> Option<(Seq<char>, int)> {
    if 0 <= i < s.len() && s[i] == '"' {
        let j = scan_text(s, i + 1);
        if j < s.len() && s[j] == '"' {
            Some((s.subrange(i + 1, j), j + 1))
        } else {
            None
        }
    } else {
        None
    }
}

/// A parsed integer: an optional minus sign and at most 19 digits, within
/// the bounds of `i64`.
pub open spec fn parse_number_spec(s: Seq<char>, i: int) -> Option<(int, int)> {
    if 0 <= i < s.len() {
        let neg = s[i] == '-';
        let d0 = if neg {
            i + 1
        } else {
            i
        };
        let j = scan_digits(s, d0);
        if j == d0 || j - d0 > 19 {
            None
        } else {
            let m = digits_value(s, d0, j);
            let v = if neg {
                -m
            } else {
                m
            };
            if -0x8000_0000_0000_0000 <= v <= 0x7fff_ffff_ffff_ffff {
                Some((v, j))
            } else {
                None
            }
        }
    } else {
        None
    }
}

/// A parsed value: a string, a number, or the word `null`.
pub open spec fn parse_value_spec(s: Seq<char>, i: int) -> Option<(JsonVal, int)> {
    if !(0 <= i < s.len()) {
        None
    } else if s[i] == '"' {
        match parse_string_spec(s, i) {
            Some((t, j)) => Some((JsonVal::Text(t), j)),
            None => None,
        }
    } else if s[i] == '-' || is_digit_char(s[i]) {
        match parse_number_spec(s, i) {
            Some((n, j)) => Some((JsonVal::Num(n), j)),
            None => None,
        }
    } else if i + 4 <= s.len() && s.subrange(i, i + 4) == seq!['n', 'u', 'l', 'l'] {
        Some((JsonVal::Null, i + 4))
    } else {
        None
    }
}

pub proof fn lemma_parse_string_range(s: Seq<char>, i: int)
    requires
        0 <= i <= s.len(),
    ensures
        parse_string_spec(s, i) matches Some(r) ==> i + 2 <= r.1 <= s.len(),
{
    if i < s.len() && s[i] == '"' {
        lemma_scan_text_range(s, i + 1);
    }
}

pub proof fn lemma_parse_number_range(s: Seq<char>, i: int)
    requires
        0 <= i <= s.len(),
    ensures
        parse_number_spec(s, i) matches Some(r) ==> i + 1 <= r.1 <= s.len(),
{
    if i < s.len() {
        if s[i] == '-' {
            if i + 1 <= s.len() {
                lemma_scan_digits_range(s, i + 1);
            }
        } else {
            lemma_scan_digits_range(s, i);
        }
    }
}

pub proof fn lemma_parse_value_range(s: Seq<char>, i: int)
    requires
        0 <= i <= s.len(),
    ensures
        parse_value_spec(s, i) matches Some(r) ==> i + 1 <= r.1 <= s.len(),
{
    lemma_parse_string_range(s, i);
    lemma_parse_number_range(s, i);
}

/// Parses `member (',' member)* '}'`, returning the members and the index
/// after the closing brace.
pub open spec fn parse_pairs_spec(s: Seq<char>, i: int) -> Option<
    (Seq<(Seq<char>, JsonVal)>, int),
>
    decreases s.len() - i,
    when 0 <= i <= s.len()
    via parse_pairs_spec_decreases
{
    match parse_string_spec(s, i) {
        None => None,
        Some((k, i2)) => {
            let i3 = skip_ws(s, i2);
            if i3 < s.len() && s[i3] == ':' {
                let i4 = skip_ws(s, i3 + 1);
                match parse_value_spec(s, i4) {
                    None => None,
                    Some((v, i5)) => {
                        let i6 = skip_ws(s, i5);
                        if i6 < s.len() && s[i6] == ',' {
                            let i7 = skip_ws(s, i6 + 1);
                            match parse_pairs_spec(s, i7) {
                                None => None,
                                Some((rest, i8)) => Some((seq![(k, v)] + rest, i8)),
                            }
                        } else if i6 < s.len() && s[i6] == '}' {
                            Some((seq![(k, v)], i6 + 1))
                        } else {
                            None
                        }
                    },
                }
            } else {
                None
            }
        },
    }
}

#[via_fn]
proof fn parse_pairs_spec_decreases(s: Seq<char>, i: int) {
    lemma_parse_string_range(s, i);
    match parse_string_spec(s, i) {
        None => {},
        Some((k, i2)) => {
            lemma_skip_ws_range(s, i2);
            let i3 = skip_ws(s, i2);
            if i3 < s.len() && s[i3] == ':' {
                lemma_skip_ws_range(s, i3 + 1);
                let i4 = skip_ws(s, i3 + 1);
                lemma_parse_value_range(s, i4);
                match parse_value_spec(s, i4) {
                    None => {},
                    Some((v, i5)) => {
                        lemma_skip_ws_range(s, i5);
                        let i6 = skip_ws(s, i5);
                        if i6 < s.len() && s[i6] == ',' {
                            lemma_skip_ws_range(s, i6 + 1);
                        }
                    },
                }
            }
        },
    }
}

pub open spec fn pow10(n: nat) -> int
    decreases n,
{
    if n == 0 {
        1
    } else {
        10 * pow10((n - 1) as nat)
    }
}

pub proof fn lemma_pow10_mono(m: nat, n: nat)
    requires
        m <= n,
    ensures
        1 <= pow10(m) <= pow10(n),
    decreases n,
{
    if n > 0 {
        if m < n {
            lemma_pow10_mono(m, (n - 1) as nat);
        } else {
            lemma_pow10_mono((m - 1) as nat, (n - 1) as nat);
        }
    }
}

pub proof fn lemma_pow10_19()
    ensures
        pow10(19) == 10_000_000_000_000_000_000,
{
    assert(pow10(0) == 1);
    assert(pow10(1) == 10);
    assert(pow10(2) == 100);
    assert(pow10(3) == 1000);
    assert(pow10(4) == 10000);
    assert(pow10(5) == 100000);
    assert(pow10(6) == 1000000);
    assert(pow10(7) == 10000000);
    assert(pow10(8) == 100000000);
    assert(pow10(9) == 1000000000);
    assert(pow10(10) == 10000000000);
    assert(pow10(11) == 100000000000);
    assert(pow10(12) == 1000000000000);
    assert(pow10(13) == 10000000000000);
    assert(pow10(14) == 100000000000000);
    assert(pow10(15) == 1000000000000000);
    assert(pow10(16) == 10000000000000000);
    assert(pow10(17) == 100000000000000000);
    assert(pow10(18) == 1000000000000000000);
    assert(pow10(19) == 10000000000000000000);
}

pub proof fn lemma_digits_value_bound(s: Seq<char>, i: int, j: int)
    requires
        0 <= i <= j <= s.len(),
        forall|k: int| i <= k < j ==> is_digit_char(#[trigger] s[k]),
    ensures
        0 <= digits_value(s, i, j) < pow10((j - i) as nat),
    decreases j - i,
{
    if i < j {
        lemma_digits_value_bound(s, i, j - 1);
        assert(is_digit_char(s[j - 1]));
        assert('0' as int == 48 && '9' as int == 57);
        assert(0 <= digit_val(s[j - 1]) <= 9);
    }
}

fn is_ws_exec(c: char) -> (r: bool)
    ensures
        r == is_ws_char(c),
{
    c == ' ' || c == '\t' || c == '\n' || c == '\r'
}

fn is_plain_exec(c: char) -> (r: bool)
    ensures
        r == is_plain_char(c),
{
    ' ' <= c && c <= '~' && c != '"' && c != '\\'
}

fn is_digit_exec(c: char) -> (r: bool)
    ensures
        r == is_digit_char(c),
{
    '0' <= c && c <= '9'
}

fn skip_ws_at(s: &str, n: usize, i: usize) -> (r: usize)
    requires
        n == s@.len(),
        i <= n,
    ensures
        r as int == skip_ws(s@, i as int),
        i <= r <= n,
{
    let mut j = i;
    while j < n && is_ws_exec(s.get_char(j))
        invariant
            i <= j <= n,
            n == s@.len(),
            skip_ws(s@, i as int) == skip_ws(s@, j as int),
        decreases n - j,
    {
        j = j + 1;
    }
    j
}

fn scan_text_at(s: &str, n: usize, i: usize) -> (r: usize)
    requires
        n == s@.len(),
        i <= n,
    ensures
        r as int == scan_text(s@, i as int),
        i <= r <= n,
{
    let mut j = i;
    while j < n && is_plain_exec(s.get_char(j))
        invariant
            i <= j <= n,
            n == s@.len(),
            scan_text(s@, i as int) == scan_text(s@, j as int),
        decreases n - j,
    {
        j = j + 1;
    }
    j
}

fn scan_digits_at(s: &str, n: usize, i: usize) -> (r: usize)
    requires
        n == s@.len(),
        i <= n,
    ensures
        r as int == scan_digits(s@, i as int),
        i <= r <= n,
{
    let mut j = i;
    while j < n && is_digit_exec(s.get_char(j))
        invariant
            i <= j <= n,
            n == s@.len(),
            scan_digits(s@, i as int) == scan_digits(s@, j as int),
        decreases n - j,
    {
        j = j + 1;
    }
    j
}

fn parse_string_at(s: &str, n: usize, i: usize) -> (r: Option<(String, usize)>)
    requires
        n == s@.len(),
        i <= n,
    ensures
        match parse_string_spec(s@, i as int) {
            Some(p) => r matches Some(q) && q.0@ == p.0 && q.1 as int == p.1,
            None => r is None,
        },
{
    if i < n && s.get_char(i) == '"' {
        let j = scan_text_at(s, n, i + 1);
        if j < n && s.get_char(j) == '"' {
            let t = s.substring_char(i + 1, j);
            Some((t.to_owned(), j + 1))
        } else {
            None
        }
    } else {
        None
    }
}

fn parse_number_at(s: &str, n: usize, i: usize) -> (r: Option<(i64, usize)>)
    requires
        n == s@.len(),
        i <= n,
    ensures
        match parse_number_spec(s@, i as int) {
            Some(p) => r matches Some(q) && q.0 as int == p.0 && q.1 as int == p.1,
            None => r is None,
        },
{
    if i >= n {
        return None;
    }
    let neg = s.get_char(i) == '-';
    let d0 = if neg {
        i + 1
    } else {
        i
    };
    if d0 > n {
        return None;
    }
    let j = scan_digits_at(s, n, d0);
    if j == d0 || j - d0 > 19 {
        return None;
    }
    proof {
        lemma_scan_digits_range(s@, d0 as int);
        lemma_pow10_19();
    }
    let mut acc: u128 = 0;
    let mut k = d0;
    while k < j
        invariant
            d0 <= k <= j <= n,
            j - d0 <= 19,
            n == s@.len(),
            j as int == scan_digits(s@, d0 as int),
            forall|t: int| d0 <= t < j ==> is_digit_char(#[trigger] s@[t]),
            acc as int == digits_value(s@, d0 as int, k as int),
            acc < 10_000_000_000_000_000_000u128,
        decreases j - k,
    {
        let c = s.get_char(k);
        proof {
            assert(is_digit_char(s@[k as int]));
            assert('0' as int == 48 && '9' as int == 57);
        }
        let d = (c as u32 - 48) as u128;
        acc = acc * 10 + d;
        k = k + 1;
        proof {
            lemma_digits_value_bound(s@, d0 as int, k as int);
            lemma_pow10_mono((k - d0) as nat, 19);
            lemma_pow10_19();
        }
    }
    let v: i64 = if neg {
        if acc > 0x8000_0000_0000_0000u128 {
            return None;
        }
        (-(acc as i128)) as i64
    } else {
        if acc > 0x7fff_ffff_ffff_ffffu128 {
            return None;
        }
        acc as i64
    };
    Some((v, j))
}

fn parse_value_at(s: &str, n: usize, i: usize) -> (r: Option<(JsonValue, usize)>)
    requires
        n == s@.len(),
        i <= n,
    ensures
        match parse_value_spec(s@, i as int) {
            Some(p) => r matches Some(q) && q.0@ == p.0 && q.1 as int == p.1,
            None => r is None,
        },
{
    if i >= n {
        return None;
    }
    let c = s.get_char(i);
    if c == '"' {
        match parse_string_at(s, n, i) {
            Some((t, j)) => Some((JsonValue::Text(t), j)),
            None => None,
        }
    } else if c == '-' || is_digit_exec(c) {
        match parse_number_at(s, n, i) {
            Some((v, j)) => Some((JsonValue::Num(v), j)),
            None => None,
        }
    } else if n - i >= 4 && c == 'n' && s.get_char(i + 1) == 'u' && s.get_char(i + 2) == 'l'
        && s.get_char(i + 3) == 'l' {
        proof {
            assert(s@.subrange(i as int, i as int + 4) =~= seq!['n', 'u', 'l', 'l']);
        }
        Some((JsonValue::Null, i + 4))
    } else {
        proof {
            if i + 4 <= n && s@.subrange(i as int, i as int + 4) == seq!['n', 'u', 'l', 'l'] {
                assert(s@[i as int] == 'n');
                assert(s@[i as int + 1] == 'u');
                assert(s@[i as int + 2] == 'l');
                assert(s@[i as int + 3] == 'l');
            }
        }
        None
    }
}

fn parse_pairs_at(s: &str, n: usize, i: usize) -> (r: Option<(Vec<(String, JsonValue)>, usize)>)
    requires
        n == s@.len(),
        i <= n,
    ensures
        match parse_pairs_spec(s@, i as int) {
            Some(p) => r matches Some(q) && pairs_view(q.0@) == p.0 && q.1 as int == p.1,
            None => r is None,
        },
        r matches Some(q) ==> q.1 <= n,
    decreases n - i,
{
    let key = match parse_string_at(s, n, i) {
        Some(kq) => kq,
        None => {
            return None;
        },
    };
    proof {
        lemma_parse_string_range(s@, i as int);
    }
    let (k, i2) = key;
    let i3 = skip_ws_at(s, n, i2);
    if !(i3 < n) {
        return None;
    }
    if s.get_char(i3) != ':' {
        return None;
    }
    let i4 = skip_ws_at(s, n, i3 + 1);
    let value = match parse_value_at(s, n, i4) {
        Some(vq) => vq,
        None => {
            return None;
        },
    };
    proof {
        lemma_parse_value_range(s@, i4 as int);
    }
    let (v, i5) = value;
    let i6 = skip_ws_at(s, n, i5);
    if i6 < n && s.get_char(i6) == ',' {
        let i7 = skip_ws_at(s, n, i6 + 1);
        match parse_pairs_at(s, n, i7) {
            Some((mut rest, i8)) => {
                rest.insert(0, (k, v));
                proof {
                    assert(pairs_view(rest@) =~= parse_pairs_spec(s@, i as int).unwrap().0);
                }
                Some((rest, i8))
            },
            None => None,
        }
    } else if i6 < n && s.get_char(i6) == '}' {
        let mut one: Vec<(String, JsonValue)> = Vec::new();
        one.push((k, v));
        proof {
            assert(pairs_view(one@) =~= parse_pairs_spec(s@, i as int).unwrap().0);
        }
        Some((one, i6 + 1))
    } else {
        None
    }
}

/// Parses a flat JSON object: string keys, with string, integer or `null`
/// values, arbitrary whitespace between tokens, nothing but whitespace after
/// the closing brace.  Returns the members in source order, or `None` on any
/// malformed input.
pub fn parse_flat_object(s: &str) -> (r: Option<Vec<(String, JsonValue)>>)
    ensures
        match parse_object_spec(s@) {
            Some(ps) => r matches Some(v) && pairs_view(v@) == ps,
            None => r is None,
        },
{
    let n = s.unicode_len();
    let i0 = skip_ws_at(s, n, 0);
    if !(i0 < n) {
        return None;
    }
    if s.get_char(i0) != '{' {
        return None;
    }
    let i1 = skip_ws_at(s, n, i0 + 1);
    if i1 < n && s.get_char(i1) == '}' {
        if skip_ws_at(s, n, i1 + 1) == n {
            let empty: Vec<(String, JsonValue)> = Vec::new();
            proof {
                assert(pairs_view(empty@) =~= Seq::<(Seq<char>, JsonVal)>::empty());
            }
            Some(empty)
        } else {
            None
        }
    } else {
        match parse_pairs_at(s, n, i1) {
            Some((ps, j)) => {
                if skip_ws_at(s, n, j) == n {
                    Some(ps)
                } else {
                    None
                }
            },
            None => None,
        }
    }
}

/// Parses a whole flat object, requiring nothing but whitespace after it.
pub open spec fn parse_object_spec(s: Seq<char>) -> Option<Seq<(Seq<char>, JsonVal)>> {
    let i0 = skip_ws(s, 0);
    if i0 < s.len() && s[i0] == '{' {
        let i1 = skip_ws(s, i0 + 1);
        if i1 < s.len() && s[i1] == '}' {
            if skip_ws(s, i1 + 1) == s.len() {
                Some(Seq::empty())
            } else {
                None
            }
        } else {
            match parse_pairs_spec(s, i1) {
                None => None,
                Some((ps, j)) => {
                    if skip_ws(s, j) == s.len() {
                        Some(ps)
                    } else {
                        None
                    }
                },
            }
        }
    } else {
        None
    }
}

/// Values the canonical printer handles: any `i64`-ranged number, any
/// escape-free printable string, and `null`.
pub open spec fn wf_val(v: JsonVal) -> bool {
    match v {
        JsonVal::Null => true,
        JsonVal::Num(n) => -0x8000_0000_0000_0000 <= n <= 0x7fff_ffff_ffff_ffff,
        JsonVal::Text(t) => all_plain(t),
    }
}

pub open spec fn wf_pairs(ps: Seq<(Seq<char>, JsonVal)>) -> bool {
    forall|i: int|
        0 <= i < ps.len() ==> all_plain(#[trigger] ps[i].0) && wf_val(ps[i].1)
}

proof fn lemma_digit_char_val(d: int)
    requires
        0 <= d < 10,
    ensures
        is_digit_char(digit_char(d)),
        digit_val(digit_char(d)) == d,
        !is_ws_char(digit_char(d)),
        digit_char(d) != '-',
{
}

/// From `s[i..i+t.len()) == t`: one character of `s` read through `t`.
proof fn lemma_index_part(s: Seq<char>, i: int, t: Seq<char>, a: int)
    requires
        0 <= i,
        i + t.len() <= s.len(),
        s.subrange(i, i + t.len()) == t,
        0 <= a < t.len(),
    ensures
        s[i + a] == t[a],
{
    assert(s.subrange(i, i + t.len())[a] == s[i + a]);
}

/// From `s[i..i+t.len()) == t`: a slice of `s` read through `t`.
proof fn lemma_subrange_part(s: Seq<char>, i: int, t: Seq<char>, a: int, b: int)
    requires
        0 <= i,
        i + t.len() <= s.len(),
        s.subrange(i, i + t.len()) == t,
        0 <= a <= b <= t.len(),
    ensures
        s.subrange(i + a, i + b) =~= t.subrange(a, b),
{
    assert forall|k: int| 0 <= k < b - a implies s.subrange(i + a, i + b)[k] == t.subrange(a, b)[k]
        by {
        assert(s.subrange(i, i + t.len())[a + k] == s[i + a + k]);
    };
}

proof fn lemma_scan_text_prefix(s: Seq<char>, i: int, t: Seq<char>)
    requires
        0 <= i,
        i + t.len() <= s.len(),
        all_plain(t),
        s.subrange(i, i + t.len()) == t,
        i + t.len() == s.len() || !is_plain_char(s[i + t.len()]),
    ensures
        scan_text(s, i) == i + t.len(),
    decreases t.len(),
{
    if t.len() == 0 {
    } else {
        assert(s[i] == t[0]);
        assert(s.subrange(i + 1, i + t.len()) =~= t.drop_first());
        lemma_scan_text_prefix(s, i + 1, t.drop_first());
    }
}

proof fn lemma_scan_digits_prefix(s: Seq<char>, i: int, t: Seq<char>)
    requires
        0 <= i,
        i + t.len() <= s.len(),
        forall|k: int| 0 <= k < t.len() ==> is_digit_char(#[trigger] t[k]),
        s.subrange(i, i + t.len()) == t,
        i + t.len() == s.len() || !is_digit_char(s[i + t.len()]),
    ensures
        scan_digits(s, i) == i + t.len(),
    decreases t.len(),
{
    if t.len() == 0 {
    } else {
        assert(s[i] == t[0]);
        assert(s.subrange(i + 1, i + t.len()) =~= t.drop_first());
        lemma_scan_digits_prefix(s, i + 1, t.drop_first());
    }
}

/// Parsing a printed string yields the string back.
proof fn lemma_parse_string_print(s: Seq<char>, i: int, k: Seq<char>)
    requires
        0 <= i,
        i + k.len() + 2 <= s.len(),
        all_plain(k),
        s[i] == '"',
        s.subrange(i + 1, i + 1 + k.len()) == k,
        s[i + 1 + k.len()] == '"',
    ensures
        parse_string_spec(s, i) == Some((k, i + k.len() + 2)),
{
    lemma_scan_text_prefix(s, i + 1, k);
    assert(s.subrange(i + 1, i + 1 + k.len()) == k);
}

/// Parsing a printed digit run yields the number back.
proof fn lemma_digits_value_print(s: Seq<char>, i: int, n: nat)
    requires
        0 <= i,
        i + dec_digits(n).len() <= s.len(),
        s.subrange(i, i + dec_digits(n).len()) == dec_digits(n),
    ensures
        digits_value(s, i, i + dec_digits(n).len()) == n,
    decreases n,
{
    let d = dec_digits(n);
    if n < 10 {
        lemma_index_part(s, i, d, 0);
        assert(s[i] == d[0]);
        lemma_digit_char_val(n as int);
        assert(digits_value(s, i, i) == 0);
        assert(digits_value(s, i, i + 1) == digit_val(s[i]));
    } else {
        let dp = dec_digits(n / 10);
        assert(d =~= dp + seq![digit_char((n % 10) as int)]);
        assert(s.subrange(i, i + dp.len()) =~= dp) by {
            lemma_subrange_part(s, i, d, 0, dp.len() as int);
            assert(d.subrange(0, dp.len() as int) =~= dp);
        };
        lemma_digits_value_print(s, i, n / 10);
        lemma_index_part(s, i, d, d.len() as int - 1);
        assert(s[i + d.len() - 1] == digit_char((n % 10) as int));
        lemma_digit_char_val((n % 10) as int);
        assert(digits_value(s, i, i + d.len()) == digits_value(s, i, i + d.len() - 1) * 10
            + digit_val(s[i + d.len() - 1]));
        assert(digits_value(s, i, i + d.len() - 1) == n / 10);
    }
}

/// A number below `pow10(k)` prints in at most `k` digits.
proof fn lemma_dec_digits_len(n: nat, k: nat)
    requires
        k >= 1,
        n < pow10(k),
    ensures
        dec_digits(n).len() <= k,
    decreases n,
{
    if n >= 10 {
        if k == 1 {
            assert(pow10(0) == 1);
            assert(pow10(1) == 10);
            assert(false);
        }
        lemma_pow10_mono(1, (k - 1) as nat);
        assert(pow10(0) == 1);
        assert(pow10(1) == 10);
        lemma_dec_digits_len(n / 10, (k - 1) as nat);
    }
}

/// Parsing a printed integer yields the integer back.
proof fn lemma_parse_number_print(s: Seq<char>, i: int, v: int)
    requires
        0 <= i,
        i + int_chars(v).len() <= s.len(),
        -0x8000_0000_0000_0000 <= v <= 0x7fff_ffff_ffff_ffff,
        s.subrange(i, i + int_chars(v).len()) == int_chars(v),
        i + int_chars(v).len() == s.len() || !is_digit_char(s[i + int_chars(v).len()]),
    ensures
        parse_number_spec(s, i) == Some((v, i + int_chars(v).len())),
{
    lemma_pow10_19();
    if v >= 0 {
        let d = dec_digits(v as nat);
        lemma_dec_digits_shape(v as nat);
        assert(s[i] == d[0]);
        assert(is_digit_char(s[i]));
        assert(s[i] != '-');
        lemma_scan_digits_prefix(s, i, d);
        lemma_digits_value_print(s, i, v as nat);
        lemma_dec_digits_len(v as nat, 19);
    } else {
        let m = (-v) as nat;
        let d = dec_digits(m);
        let ic = int_chars(v);
        lemma_dec_digits_shape(m);
        assert(ic =~= seq!['-'] + d);
        lemma_index_part(s, i, ic, 0);
        assert(s[i] == '-');
        lemma_subrange_part(s, i, ic, 1, ic.len() as int);
        assert(ic.subrange(1, ic.len() as int) =~= d);
        assert(s.subrange(i + 1, i + 1 + d.len()) =~= d);
        lemma_scan_digits_prefix(s, i + 1, d);
        lemma_digits_value_print(s, i + 1, m);
        lemma_dec_digits_len(m, 19);
    }
}

/// Parsing a printed value yields the value back, provided a digit does not
/// immediately follow a printed number.
proof fn lemma_parse_value_print(s: Seq<char>, i: int, v: JsonVal)
    requires
        0 <= i,
        i + val_chars(v).len() <= s.len(),
        wf_val(v),
        s.subrange(i, i + val_chars(v).len()) == val_chars(v),
        v matches JsonVal::Num(_) ==> i + val_chars(v).len() == s.len() || !is_digit_char(
            s[i + val_chars(v).len()],
        ),
    ensures
        parse_value_spec(s, i) == Some((v, i + val_chars(v).len())),
{
    let c = val_chars(v);
    match v {
        JsonVal::Null => {
            lemma_index_part(s, i, c, 0);
            assert(s[i] == 'n');
            assert(s.subrange(i, i + 4) =~= c);
            assert(s[i] != '"' && s[i] != '-' && !is_digit_char(s[i]));
        },
        JsonVal::Num(n) => {
            lemma_index_part(s, i, c, 0);
            if n >= 0 {
                lemma_dec_digits_shape(n as nat);
                assert(c[0] == dec_digits(n as nat)[0]);
            } else {
                lemma_dec_digits_shape((-n) as nat);
            }
            assert(s[i] == '-' || is_digit_char(s[i]));
            assert(s[i] != '"');
            lemma_parse_number_print(s, i, n);
        },
        JsonVal::Text(t) => {
            assert(c =~= seq!['"'] + t + seq!['"']);
            lemma_index_part(s, i, c, 0);
            assert(s[i] == '"');
            lemma_subrange_part(s, i, c, 1, 1 + t.len() as int);
            assert(c.subrange(1, 1 + t.len() as int) =~= t);
            assert(s.subrange(i + 1, i + 1 + t.len()) =~= t);
            lemma_index_part(s, i, c, c.len() as int - 1);
            assert(s[i + 1 + t.len()] == '"');
            lemma_parse_string_print(s, i, t);
        },
    }
}

/// The first character of a printed value is never whitespace.
proof fn lemma_val_chars_head(v: JsonVal)
    ensures
        val_chars(v).len() >= 1,
        !is_ws_char(val_chars(v)[0]),
    decreases v,
{
    match v {
        JsonVal::Null => {},
        JsonVal::Num(n) => {
            if n >= 0 {
                lemma_dec_digits_shape(n as nat);
                lemma_digit_or_minus_not_ws(val_chars(v)[0]);
            } else {
                lemma_dec_digits_shape((-n) as nat);
            }
        },
        JsonVal::Text(t) => {},
    }
}

proof fn lemma_digit_or_minus_not_ws(c: char)
    requires
        is_digit_char(c) || c == '-',
    ensures
        !is_ws_char(c),
{
}

/// Parsing printed members followed by a closing brace yields the members.
proof fn lemma_parse_pairs_print(s: Seq<char>, i: int, ps: Seq<(Seq<char>, JsonVal)>)
    requires
        ps.len() >= 1,
        wf_pairs(ps),
        0 <= i,
        i + pairs_chars(ps).len() + 1 <= s.len(),
        s.subrange(i, i + pairs_chars(ps).len()) == pairs_chars(ps),
        s[i + pairs_chars(ps).len()] == '}',
    ensures
        parse_pairs_spec(s, i) == Some((ps, i + pairs_chars(ps).len() + 1)),
    decreases ps.len(),
{
    let p0 = ps[0];
    let k = p0.0;
    let v = p0.1;
    let pc = pair_chars(p0);
    let vc = val_chars(v);
    let big = pairs_chars(ps);
    assert(pc =~= seq!['"'] + k + seq!['"'] + seq![':'] + vc);
    if ps.len() == 1 {
        assert(big == pc);
    } else {
        assert(big =~= pc + seq![','] + pairs_chars(ps.drop_first()));
    }
    assert(s.subrange(i, i + pc.len()) =~= pc) by {
        lemma_subrange_part(s, i, big, 0, pc.len() as int);
        assert(big.subrange(0, pc.len() as int) =~= pc);
    };
    // the key
    lemma_index_part(s, i, pc, 0);
    assert(s[i] == '"');
    assert(s.subrange(i + 1, i + 1 + k.len()) =~= k) by {
        lemma_subrange_part(s, i, pc, 1, k.len() as int + 1);
        assert(pc.subrange(1, k.len() as int + 1) =~= k);
    };
    lemma_index_part(s, i, pc, k.len() as int + 1);
    assert(s[i + 1 + k.len()] == '"');
    lemma_parse_string_print(s, i, k);
    let i2 = i + k.len() + 2;
    // the colon
    lemma_index_part(s, i, pc, k.len() as int + 2);
    assert(s[i2] == ':');
    assert(skip_ws(s, i2) == i2);
    // the value
    assert(s.subrange(i2 + 1, i2 + 1 + vc.len()) =~= vc) by {
        lemma_subrange_part(s, i, pc, k.len() as int + 3, pc.len() as int);
        assert(pc.subrange(k.len() as int + 3, pc.len() as int) =~= vc);
    };
    lemma_val_chars_head(v);
    assert(s[i2 + 1] == vc[0]) by {
        lemma_index_part(s, i2 + 1, vc, 0);
    };
    assert(skip_ws(s, i2 + 1) == i2 + 1);
    let i5 = i2 + 1 + vc.len();
    assert(i5 == i + pc.len());
    if ps.len() == 1 {
        assert(s[i5] == '}');
        lemma_parse_value_print(s, i2 + 1, v);
        assert(skip_ws(s, i5) == i5);
        assert(parse_pairs_spec(s, i) == Some((seq![(k, v)], i5 + 1)));
        assert(seq![(k, v)] =~= ps);
    } else {
        let rest = ps.drop_first();
        let rc = pairs_chars(rest);
        assert(big =~= pc + seq![','] + rc);
        lemma_index_part(s, i, big, pc.len() as int);
        assert(s[i5] == ',');
        lemma_parse_value_print(s, i2 + 1, v);
        assert(skip_ws(s, i5) == i5);
        let i7 = i5 + 1;
        assert(rest.len() >= 1);
        lemma_pairs_chars_head(rest);
        assert(s.subrange(i7, i7 + rc.len()) =~= rc) by {
            lemma_subrange_part(s, i, big, pc.len() as int + 1, big.len() as int);
            assert(big.subrange(pc.len() as int + 1, big.len() as int) =~= rc);
        };
        assert(s[i7 + rc.len()] == '}') by {
            assert(i7 + rc.len() == i + big.len());
        };
        assert(s[i7] == '"') by {
            lemma_index_part(s, i7, rc, 0);
        };
        assert(skip_ws(s, i7) == i7);
        lemma_parse_pairs_print(s, i7, rest);
        assert(seq![(k, v)] + rest =~= ps);
    }
}

proof fn lemma_pairs_chars_head(ps: Seq<(Seq<char>, JsonVal)>)
    requires
        ps.len() >= 1,
    ensures
        pairs_chars(ps).len() >= 1,
        pairs_chars(ps)[0] == '"',
    decreases ps.len(),
{
    if ps.len() == 1 {
    } else {
    }
}

/// Round trip: parsing the canonical print of a well-formed flat object
/// yields exactly its members.
pub proof fn lemma_parse_object_print(ps: Seq<(Seq<char>, JsonVal)>)
    requires
        wf_pairs(ps),
    ensures
        parse_object_spec(object_chars(ps)) == Some(ps),
{
    let s = object_chars(ps);
    assert(s[0] == '{');
    assert(skip_ws(s, 0) == 0);
    if ps.len() == 0 {
        assert(s =~= seq!['{', '}']);
        assert(s[1] == '}');
        assert(skip_ws(s, 1) == 1);
        assert(skip_ws(s, 2) == 2);
        assert(parse_object_spec(s) == Some(Seq::<(Seq<char>, JsonVal)>::empty()));
        assert(Seq::<(Seq<char>, JsonVal)>::empty() =~= ps);
    } else {
        let pc = pairs_chars(ps);
        lemma_pairs_chars_head(ps);
        assert(s[1] == pc[0]);
        assert(s[1] == '"');
        assert(skip_ws(s, 1) == 1);
        assert(s.subrange(1, pc.len() as int + 1) =~= pc);
        assert(s[pc.len() as int + 1] == '}');
        lemma_parse_pairs_print(s, 1, ps);
        assert(skip_ws(s, pc.len() as int + 2) == pc.len() as int + 2);
        assert(pc.len() as int + 2 == s.len());
    }
}

/// The first value bound to `key`, if any.
pub open spec fn lookup(ps: Seq<(Seq<char>, JsonVal)>, key: Seq<char>) -> Option<JsonVal>
    decreases ps.len(),
{
    if ps.len() == 0 {
        None
    } else if ps[0].0 == key {
        Some(ps[0].1)
    } else {
        lookup(ps.drop_first(), key)
    }
}

/// Finds the first member named `key`.
pub fn get_field<'a>(ps: &'a Vec<(String, JsonValue)>, key: &str) -> (r: Option<&'a JsonValue>)
    ensures
        match lookup(pairs_view(ps@), key@) {
            Some(v) => r matches Some(q) && q@ == v,
            None => r is None,
        },
{
    let mut j: usize = 0;
    proof {
        assert(pairs_view(ps@).skip(0) =~= pairs_view(ps@));
    }
    while j < ps.len()
        invariant
            j <= ps.len(),
            lookup(pairs_view(ps@), key@) == lookup(pairs_view(ps@).skip(j as int), key@),
        decreases ps.len() - j,
    {
        if str_eq(ps[j].0.as_str(), key) {
            proof {
                assert(pairs_view(ps@).skip(j as int)[0] == (ps@[j as int].0@, ps@[j as int].1@));
            }
            return Some(&ps[j].1);
        }
        proof {
            assert(pairs_view(ps@).skip(j as int)[0] == (ps@[j as int].0@, ps@[j as int].1@));
            assert(pairs_view(ps@).skip(j as int).drop_first() =~= pairs_view(ps@).skip(
                j as int + 1,
            ));
        }
        j = j + 1;
    }
    proof {
        assert(pairs_view(ps@).skip(j as int).len() == 0);
    }
    None
}

/// Relies on `str`'s `PartialEq`: two slices are equal exactly when their
/// characters are.
#[verifier::external_body]
pub(crate) fn str_eq(a: &str, b: &str) -> (r: bool)
    ensures
        r == (a@ == b@),
{
    a == b
}

} // verus!
