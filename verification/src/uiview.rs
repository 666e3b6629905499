//! The pure side of the terminal view: provider menu choices, inbox row
//! layout, and list selection arithmetic.  Rendering and key events stay
//! outside; they hand plain values in and take plain values back.

use vstd::prelude::*;

verus! {

/// The login providers the menu offers.
#[derive(Debug, Clone, Copy, PartialEq, Eq, Structural)]
pub enum Provider {
    Google,
    Outlook,
    Skip,
}

/// Which provider a final menu index means.
pub fn provider_of_index(selected: usize) -> (r: Provider)
    ensures
        selected == 0 ==> r == Provider::Google,
        selected == 1 ==> r == Provider::Outlook,
        selected >= 2 ==> r == Provider::Skip,
{
    match selected {
        0 => Provider::Google,
        1 => Provider::Outlook,
        _ => Provider::Skip,
    }
}

/// Moving up in a menu of `n` entries wraps from the top to the bottom.
pub fn menu_up(selected: usize, n: usize) -> (r: usize)
    requires
        n > 0,
        selected < n,
    ensures
        selected == 0 ==> r == n - 1,
        selected > 0 ==> r == selected - 1,
{
    if selected == 0 {
        n - 1
    } else {
        selected - 1
    }
}

/// Moving down wraps from the bottom to the top.
pub fn menu_down(selected: usize, n: usize) -> (r: usize)
    requires
        n > 0,
        selected < n,
    ensures
        r == (selected + 1) % (n as int),
{
    (selected + 1) % n
}

/// A navigation key, as the view reports it.
#[derive(Debug, Clone, Copy, PartialEq, Eq, Structural)]
pub enum NavKey {
    Up,
    Down,
    Other,
}

/// The message index a selection stands on: each message takes two list
/// rows.
pub open spec fn current_message(selected: Option<usize>) -> int {
    match selected {
        Some(i) => i as int / 2,
        None => 0,
    }
}

/// Where the selection lands moving down: the next message, the last one at
/// the end, nowhere without messages.
pub open spec fn next_selection(selected: Option<usize>, msg_count: int) -> Option<int> {
    if msg_count == 0 {
        None
    } else if current_message(selected) + 1 >= msg_count {
        Some(2 * current_message(selected))
    } else {
        Some(2 * (current_message(selected) + 1))
    }
}

/// Where the selection lands moving up: the previous message, the first one
/// at the start, nowhere without messages.
pub open spec fn prev_selection(selected: Option<usize>, msg_count: int) -> Option<int> {
    if msg_count == 0 {
        None
    } else if current_message(selected) == 0 {
        Some(0)
    } else {
        Some(2 * (current_message(selected) - 1))
    }
}

/// Moves the selection to the next message; the selection stays on the last
/// one at the end, and clears when there are no messages.
pub fn select_next(selected: Option<usize>, msg_count: usize) -> (r: Option<usize>)
    requires
        msg_count <= usize::MAX / 2,
    ensures
        match next_selection(selected, msg_count as int) {
            None => r is None,
            Some(x) => r matches Some(v) && v as int == x,
        },
{
    if msg_count == 0 {
        return None;
    }
    let cur: usize = match selected {
        Some(i) => i / 2,
        None => 0,
    };
    let next = if cur + 1 >= msg_count {
        cur
    } else {
        cur + 1
    };
    Some(next * 2)
}

/// Moves the selection to the previous message; the selection stays on the
/// first one at the start, and clears when there are no messages.
pub fn select_prev(selected: Option<usize>, msg_count: usize) -> (r: Option<usize>)
    ensures
        match prev_selection(selected, msg_count as int) {
            None => r is None,
            Some(x) => r matches Some(v) && v as int == x,
        },
{
    if msg_count == 0 {
        return None;
    }
    let cur: usize = match selected {
        Some(i) => i / 2,
        None => 0,
    };
    let prev = if cur == 0 {
        0
    } else {
        cur - 1
    };
    Some(prev * 2)
}

/// Dispatches an arrow key; any other key leaves the selection alone.
pub fn handle_key(selected: Option<usize>, key: NavKey, msg_count: usize) -> (r: Option<usize>)
    requires
        msg_count <= usize::MAX / 2,
    ensures
        key == NavKey::Other ==> r == selected,
        key == NavKey::Up ==> match prev_selection(selected, msg_count as int) {
            None => r is None,
            Some(x) => r matches Some(v) && v as int == x,
        },
        key == NavKey::Down ==> match next_selection(selected, msg_count as int) {
            None => r is None,
            Some(x) => r matches Some(v) && v as int == x,
        },
{
    match key {
        NavKey::Up => select_prev(selected, msg_count),
        NavKey::Down => select_next(selected, msg_count),
        NavKey::Other => selected,
    }
}

/// The column where the subject starts, from the terminal width.
pub fn bar_col(term_width: usize) -> (r: usize)
    ensures
        term_width > 35 ==> r == 25,
        term_width <= 35 && term_width > 30 ==> r == term_width - 20,
        term_width <= 30 ==> r as int == term_width as int / 2,
{
    if term_width > 25 + 10 {
        25
    } else if term_width > 30 {
        term_width - 20
    } else {
        term_width / 2
    }
}

/// The width of the subject column.
pub fn subject_col_width(term_width: usize, bar: usize) -> (r: usize)
    ensures
        term_width > bar + 24 ==> r as int == vstd::math::min((term_width - bar - 14) as int, 40),
        term_width <= bar + 24 ==> r == 10,
{
    if term_width > 24 && term_width - 24 > bar {
        let w = term_width - bar - 8 - 6;
        if w < 40 {
            w
        } else {
            40
        }
    } else {
        10
    }
}

/// A field cut or padded to exactly its column: a too-long value keeps its
/// first `width - 1` characters plus an ellipsis, a short one is padded
/// with spaces.
pub open spec fn truncate_pad_spec(s: Seq<char>, width: nat) -> Seq<char> {
    let keep: nat = if width == 0 {
        0
    } else {
        (width - 1) as nat
    };
    if s.len() >= width {
        s.take(keep as int) + seq!['…']
    } else {
        s + Seq::new((width - s.len()) as nat, |i: int| ' ')
    }
}

/// Cuts or pads `s` to the column width.
pub fn truncate_pad(s: &str, width: usize) -> (r: String)
    ensures
        r@ == truncate_pad_spec(s@, width as nat),
{
    let n = s.unicode_len();
    if n >= width {
        let keep = if width == 0 {
            0
        } else {
            width - 1
        };
        let mut r = s.substring_char(0, keep).to_owned();
        r.append(ellipsis_str());
        proof {
            assert(r@ =~= truncate_pad_spec(s@, width as nat));
        }
        r
    } else {
        let mut r = s.to_owned();
        let mut pad = n;
        while pad < width
            invariant
                n <= pad <= width,
                n == s@.len(),
                r@ == s@ + Seq::new((pad - n) as nat, |i: int| ' '),
            decreases width - pad,
        {
            r.append(" ");
            proof {
                reveal_strlit(" ");
                assert(r@ =~= s@ + Seq::new((pad + 1 - n) as nat, |i: int| ' '));
            }
            pad = pad + 1;
        }
        r
    }
}

fn ellipsis_str() -> (r: &'static str)
    ensures
        r@ == seq!['…'],
{
    proof {
        reveal_strlit("…");
    }
    "…"
}

/// The unread/read dot.
pub open spec fn dot_chars(read: bool) -> Seq<char> {
    if read {
        seq!['○']
    } else {
        seq!['●']
    }
}

pub open spec fn status_chars(read: bool) -> Seq<char> {
    if read {
        "Read"@
    } else {
        "Unread"@
    }
}

/// One inbox row, exactly as drawn: the dot and sender cut to the bar
/// column, the subject cut to its column, the read state cut to eight, and
/// the sent time, separated by pipes.
pub open spec fn row_chars(
    from: Seq<char>,
    subject: Seq<char>,
    read: bool,
    sent: Seq<char>,
    bar: nat,
    subj_w: nat,
) -> Seq<char> {
    truncate_pad_spec(dot_chars(read) + " From: "@ + from, bar) + " | "@ + truncate_pad_spec(
        subject,
        subj_w,
    ) + " | "@ + truncate_pad_spec(status_chars(read), 8) + " | "@ + sent
}

/// Lays out one inbox row.
pub fn format_row(
    from: &str,
    subject: &str,
    read: bool,
    sent: &str,
    bar: usize,
    subj_w: usize,
) -> (r: String)
    ensures
        r@ == row_chars(from@, subject@, read, sent@, bar as nat, subj_w as nat),
{
    let mut left = if read {
        ring_str().to_owned()
    } else {
        disc_str().to_owned()
    };
    left.append(" From: ");
    left.append(from);
    let mut r = truncate_pad(left.as_str(), bar);
    r.append(" | ");
    r.append(truncate_pad(subject, subj_w).as_str());
    r.append(" | ");
    let status = if read {
        "Read"
    } else {
        "Unread"
    };
    r.append(truncate_pad(status, 8).as_str());
    r.append(" | ");
    r.append(sent);
    r
}

fn ring_str() -> (r: &'static str)
    ensures
        r@ == seq!['○'],
{
    proof {
        reveal_strlit("○");
    }
    "○"
}

fn disc_str() -> (r: &'static str)
    ensures
        r@ == seq!['●'],
{
    proof {
        reveal_strlit("●");
    }
    "●"
}

/// The separator line under each row: one box-drawing dash per column, and
/// a single dash on a zero-width terminal.
pub fn separator(term_width: usize) -> (r: String)
    ensures
        term_width > 0 ==> r@ == Seq::new(term_width as nat, |i: int| '─'),
        term_width == 0 ==> r@ == seq!['─'],
{
    if term_width == 0 {
        return dash_str().to_owned();
    }
    let mut r = String::new();
    let mut k: usize = 0;
    while k < term_width
        invariant
            k <= term_width,
            r@ == Seq::new(k as nat, |i: int| '─'),
        decreases term_width - k,
    {
        r.append(dash_str());
        proof {
            assert(r@ =~= Seq::new((k + 1) as nat, |i: int| '─'));
        }
        k = k + 1;
    }
    r
}

fn dash_str() -> (r: &'static str)
    ensures
        r@ == seq!['─'],
{
    proof {
        reveal_strlit("─");
    }
    "─"
}

} // verus!
