use mailtui::{token_file, token_from_json, token_to_json, AuthError, SavedToken, StoreDisk};

fn full_record() -> SavedToken {
    SavedToken {
        access_token: "tok-abc.123".to_string(),
        refresh_token: Some("refresh-xyz".to_string()),
        expires_at_unix: Some(1700000000),
    }
}

#[test]
fn serializes_full_record_canonically() {
    let json = token_to_json(&full_record());
    assert_eq!(
        json,
        "{\"access_token\":\"tok-abc.123\",\"refresh_token\":\"refresh-xyz\",\"expires_at_unix\":1700000000}"
    );
}

#[test]
fn serializes_minimal_record_without_optional_fields() {
    let t = SavedToken { access_token: "a".to_string(), refresh_token: None, expires_at_unix: None };
    assert_eq!(token_to_json(&t), "{\"access_token\":\"a\"}");
}

#[test]
fn round_trip_full_record() {
    let t = full_record();
    let back = token_from_json(token_to_json(&t).as_str()).unwrap();
    assert_eq!(back.access_token, t.access_token);
    assert_eq!(back.refresh_token, t.refresh_token);
    assert_eq!(back.expires_at_unix, t.expires_at_unix);
}

#[test]
fn round_trip_minimal_record() {
    let t = SavedToken { access_token: "x".to_string(), refresh_token: None, expires_at_unix: None };
    let back = token_from_json(token_to_json(&t).as_str()).unwrap();
    assert_eq!(back.access_token, "x");
    assert_eq!(back.refresh_token, None);
    assert_eq!(back.expires_at_unix, None);
}

#[test]
fn round_trip_negative_and_large_expiry() {
    for e in [i64::MIN, -1, 0, 1, i64::MAX] {
        let t = SavedToken {
            access_token: "t".to_string(),
            refresh_token: None,
            expires_at_unix: Some(e),
        };
        let back = token_from_json(token_to_json(&t).as_str()).unwrap();
        assert_eq!(back.expires_at_unix, Some(e));
    }
}

#[test]
fn load_accepts_whitespace_and_any_member_order() {
    let back = token_from_json(
        " { \"expires_at_unix\" : 42 ,\n \"access_token\" : \"t1\" ,\r\n \"refresh_token\" : \"r\" } ",
    )
    .unwrap();
    assert_eq!(back.access_token, "t1");
    assert_eq!(back.refresh_token, Some("r".to_string()));
    assert_eq!(back.expires_at_unix, Some(42));
}

#[test]
fn load_treats_null_optionals_as_absent() {
    let back =
        token_from_json("{\"access_token\":\"t\",\"refresh_token\":null,\"expires_at_unix\":null}")
            .unwrap();
    assert_eq!(back.refresh_token, None);
    assert_eq!(back.expires_at_unix, None);
}

#[test]
fn malformed_text_is_a_parse_failure_not_a_panic() {
    for bad in [
        "",
        "{",
        "{\"access_token\":\"t\"",
        "{\"access_token\":12}",
        "{\"refresh_token\":\"r\"}",
        "not json at all",
        "{\"access_token\":\"t\"} trailing",
        "{\"access_token\":\"broken",
    ] {
        match token_from_json(bad) {
            Err(AuthError::ParseFailure { .. }) => {}
            other => panic!("expected ParseFailure for {:?}, got {:?}", bad, other),
        }
    }
}

#[test]
fn token_file_appends_fixed_name() {
    assert_eq!(token_file("/home/u/.config/mailtui"), "/home/u/.config/mailtui/token.json");
}

#[test]
fn store_save_then_load_returns_the_record() {
    let mut d = StoreDisk::new();
    d.save_token(&full_record());
    let back = d.load_token().unwrap();
    assert_eq!(back.access_token, "tok-abc.123");
    assert_eq!(back.refresh_token, Some("refresh-xyz".to_string()));
    assert_eq!(back.expires_at_unix, Some(1700000000));
}

#[test]
fn store_crash_between_write_and_rename_keeps_old_record() {
    let mut d = StoreDisk::new();
    let old = SavedToken {
        access_token: "old".to_string(),
        refresh_token: None,
        expires_at_unix: None,
    };
    d.save_token(&old);
    let newer = SavedToken {
        access_token: "new".to_string(),
        refresh_token: None,
        expires_at_unix: None,
    };
    d.write_temp(&newer);
    d.crash();
    let back = d.load_token().unwrap();
    assert_eq!(back.access_token, "old");
}

#[test]
fn store_crash_after_rename_keeps_new_record() {
    let mut d = StoreDisk::new();
    let old = SavedToken {
        access_token: "old".to_string(),
        refresh_token: None,
        expires_at_unix: None,
    };
    d.save_token(&old);
    let newer = SavedToken {
        access_token: "new".to_string(),
        refresh_token: None,
        expires_at_unix: None,
    };
    d.write_temp(&newer);
    d.commit_rename();
    d.crash();
    let back = d.load_token().unwrap();
    assert_eq!(back.access_token, "new");
}

#[test]
fn store_load_without_file_reports_not_logged_in() {
    let d = StoreDisk::new();
    match d.load_token() {
        Err(AuthError::PersistenceFailure { .. }) => {}
        other => panic!("expected PersistenceFailure, got {:?}", other),
    }
}

#[test]
fn distinct_records_serialize_distinctly() {
    let a = SavedToken { access_token: "a".to_string(), refresh_token: None, expires_at_unix: None };
    let b = SavedToken { access_token: "b".to_string(), refresh_token: None, expires_at_unix: None };
    assert_ne!(token_to_json(&a), token_to_json(&b));
}
