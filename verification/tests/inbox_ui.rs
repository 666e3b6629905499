use mailtui::{
    bar_col, build_message, build_rfc2822, format_row, handle_key, header_value, is_success,
    list_url, menu_down, menu_up, message_url, provider_of_index, sample_messages, select_next,
    select_prev, send_request_body, send_url, separator, subject_col_width, truncate_pad,
    InboxState, NavKey, Provider, SimpleMail,
};

#[test]
fn inbox_replace_is_wholesale() {
    let mut inbox = InboxState::new();
    assert_eq!(inbox.snapshot().len(), 0);
    let first = vec![mail("a"), mail("b"), mail("c")];
    inbox.set_messages(first);
    assert_eq!(inbox.message_count(), 3);
    let second = vec![mail("z")];
    inbox.set_messages(second);
    // the old list is gone entirely; the snapshot is the new list
    assert_eq!(inbox.message_count(), 1);
    assert_eq!(inbox.snapshot()[0].id, "z");
}

fn mail(id: &str) -> SimpleMail {
    SimpleMail {
        id: id.to_string(),
        subject: None,
        from: None,
        date: None,
        snippet: None,
    }
}

#[test]
fn empty_inbox_counts_zero() {
    let inbox = InboxState::new();
    assert_eq!(inbox.message_count(), 0);
    let mut filled = InboxState::new();
    filled.set_messages(vec![mail("a")]);
    filled.set_messages(Vec::new());
    assert_eq!(filled.message_count(), 0);
}

#[test]
fn sample_rows_are_the_three_placeholders() {
    let rows = sample_messages();
    assert_eq!(rows.len(), 3);
    assert_eq!(rows[0].0, "Alice");
    assert_eq!(rows[1].1, "Rust project update");
    assert!(rows[1].2);
    assert_eq!(rows[2].3, "Yesterday");
}

#[test]
fn header_value_ignores_ascii_case_and_takes_the_first() {
    let headers = vec![
        ("Content-Type".to_string(), "text/plain".to_string()),
        ("SUBJECT".to_string(), "Hello".to_string()),
        ("subject".to_string(), "Shadowed".to_string()),
    ];
    assert_eq!(header_value(&headers, "Subject"), Some("Hello".to_string()));
    assert_eq!(header_value(&headers, "content-type"), Some("text/plain".to_string()));
    assert_eq!(header_value(&headers, "Date"), None);
}

#[test]
fn build_message_picks_display_headers() {
    let headers = vec![
        ("From".to_string(), "alice@example.com".to_string()),
        ("Date".to_string(), "Mon, 1 Jan".to_string()),
        ("subject".to_string(), "Hi".to_string()),
    ];
    let m = build_message("id-1".to_string(), Some("snip".to_string()), &headers);
    assert_eq!(m.id, "id-1");
    assert_eq!(m.subject, Some("Hi".to_string()));
    assert_eq!(m.from, Some("alice@example.com".to_string()));
    assert_eq!(m.date, Some("Mon, 1 Jan".to_string()));
    assert_eq!(m.snippet, Some("snip".to_string()));
}

#[test]
fn provider_menu_navigation_wraps() {
    assert_eq!(menu_up(0, 3), 2);
    assert_eq!(menu_up(2, 3), 1);
    assert_eq!(menu_down(2, 3), 0);
    assert_eq!(menu_down(0, 3), 1);
    assert_eq!(provider_of_index(0), Provider::Google);
    assert_eq!(provider_of_index(1), Provider::Outlook);
    assert_eq!(provider_of_index(2), Provider::Skip);
    assert_eq!(provider_of_index(9), Provider::Skip);
}

#[test]
fn selection_moves_by_two_rows_and_clamps() {
    assert_eq!(select_next(None, 3), Some(2));
    assert_eq!(select_next(Some(2), 3), Some(4));
    assert_eq!(select_next(Some(4), 3), Some(4));
    assert_eq!(select_next(Some(0), 0), None);
    assert_eq!(select_prev(Some(4), 3), Some(2));
    assert_eq!(select_prev(Some(0), 3), Some(0));
    assert_eq!(select_prev(None, 3), Some(0));
    assert_eq!(select_prev(Some(2), 0), None);
}

#[test]
fn key_dispatch_matches_the_arrows() {
    assert_eq!(handle_key(Some(2), NavKey::Down, 3), Some(4));
    assert_eq!(handle_key(Some(2), NavKey::Up, 3), Some(0));
    assert_eq!(handle_key(Some(2), NavKey::Other, 3), Some(2));
}

#[test]
fn truncate_pad_cuts_with_ellipsis_or_pads() {
    assert_eq!(truncate_pad("hello", 8), "hello   ");
    assert_eq!(truncate_pad("hello world", 8), "hello w…");
    assert_eq!(truncate_pad("exact", 5), "exac…");
    assert_eq!(truncate_pad("", 3), "   ");
}

#[test]
fn layout_columns_follow_the_terminal_width() {
    assert_eq!(bar_col(80), 25);
    assert_eq!(bar_col(34), 14);
    assert_eq!(bar_col(30), 15);
    assert_eq!(subject_col_width(80, 25), 40);
    assert_eq!(subject_col_width(60, 25), 21);
    assert_eq!(subject_col_width(40, 25), 10);
}

#[test]
fn format_row_is_exact() {
    let row = format_row("Alice", "Meeting tomorrow", false, "09:12", 25, 20);
    let expected = format!(
        "● From: Alice{} | Meeting tomorrow{} | Unread{} | 09:12",
        " ".repeat(12),
        " ".repeat(4),
        " ".repeat(2)
    );
    assert_eq!(row, expected);
    let read_row = format_row("Bob", "Hi", true, "13:45", 12, 5);
    let expected_read = format!(
        "○ From: Bob{} | Hi{} | Read{} | 13:45",
        " ".repeat(1),
        " ".repeat(3),
        " ".repeat(4)
    );
    assert_eq!(read_row, expected_read);
}

#[test]
fn separator_spans_the_terminal() {
    assert_eq!(separator(4), "────");
    assert_eq!(separator(0), "─");
}

#[test]
fn provider_urls_are_exact() {
    assert_eq!(
        list_url(10),
        "https://gmail.googleapis.com/gmail/v1/users/me/messages?labelIds=INBOX&maxResults=10"
    );
    assert_eq!(
        message_url("abc123"),
        "https://gmail.googleapis.com/gmail/v1/users/me/messages/abc123?format=full"
    );
    assert_eq!(send_url(), "https://gmail.googleapis.com/gmail/v1/users/me/messages/send");
}

#[test]
fn status_success_window_is_2xx() {
    assert!(!is_success(199));
    assert!(is_success(200));
    assert!(is_success(299));
    assert!(!is_success(300));
    assert!(!is_success(404));
}

#[test]
fn send_body_wraps_base64url_of_the_message() {
    assert_eq!(send_request_body("abc"), "{\"raw\":\"YWJj\"}");
    // '>' forces the url-safe alphabet: standard base64 of ">>>" is "Pj4+",
    // the url-safe form uses '-' and '_' instead of '+' and '/'
    assert_eq!(send_request_body(">>>"), "{\"raw\":\"Pj4-\"}");
    assert_eq!(send_request_body(""), "{\"raw\":\"\"}");
    assert_eq!(send_request_body("a"), "{\"raw\":\"YQ\"}");
    assert_eq!(send_request_body("ab"), "{\"raw\":\"YWI\"}");
}

#[test]
fn rfc2822_framing_is_exact() {
    assert_eq!(
        build_rfc2822("bob@example.com", "Hi", "Hello\nBob"),
        "To: bob@example.com\r\nSubject: Hi\r\nContent-Type: text/plain; charset=utf-8\r\n\r\nHello\nBob"
    );
}
