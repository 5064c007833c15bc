use estm::db::{
    escape_like_user_input, fingerprint_plaintext, needs_label_column, label_for_update, millis_to_ms,
    normalize_label, now_ms, plan_clip_search, prune_and_cap, read_clip_row,
    capture_text, decide_capture, record_plaintext_capture, saturating_sub, search_pattern, CaptureAction, ClipKey, ClipQuery,
    HistoryLimits, CLIPBOARD_MAX_CHARS,
};

#[test]
fn fingerprint_collapses_whitespace() {
    assert_eq!(fingerprint_plaintext("  hello \n\t world  "), "hello world");
    assert_eq!(fingerprint_plaintext(""), "");
    assert_eq!(fingerprint_plaintext(" \u{a0}\u{3000} "), "");
    assert_eq!(fingerprint_plaintext("x\u{a0}\u{2003}y\r\nz"), "x y z");
    assert_eq!(fingerprint_plaintext("one"), "one");
}

#[test]
fn fingerprint_is_idempotent() {
    for s in ["  a  b ", "\tx\n\ny", "", "plain", " é  ü "] {
        let f = fingerprint_plaintext(s);
        assert_eq!(fingerprint_plaintext(&f), f);
        assert_eq!(fingerprint_plaintext(s.trim()), f);
    }
}

#[test]
fn labels_are_trimmed_and_capped() {
    assert_eq!(normalize_label("  hi  "), Some("hi".to_string()));
    assert_eq!(normalize_label(" \t "), None);
    let long = "a".repeat(100);
    assert_eq!(normalize_label(&long), Some("a".repeat(80)));
    let wide = "é".repeat(90);
    assert_eq!(normalize_label(&wide), Some("é".repeat(80)));
    assert_eq!(label_for_update(None), None);
    assert_eq!(label_for_update(Some("  x ")), Some("x".to_string()));
}

#[test]
fn label_reads_back_as_stored() {
    let stored = normalize_label("  work notes ").unwrap();
    let row = read_clip_row(1, "t".to_string(), 0, 0, Some(stored.clone()));
    assert_eq!(row.label, Some(stored));
}

#[test]
fn read_clip_row_cleans_columns() {
    let row = read_clip_row(7, "text".to_string(), 99, 2, Some("  lbl ".to_string()));
    assert_eq!(row.id, 7);
    assert_eq!(row.plaintext, "text");
    assert_eq!(row.created_ms, 99);
    assert!(row.pinned);
    assert_eq!(row.label, Some("lbl".to_string()));
    let plain = read_clip_row(8, "x".to_string(), 1, 0, Some("   ".to_string()));
    assert!(!plain.pinned);
    assert_eq!(plain.label, None);
    let none = read_clip_row(9, "y".to_string(), 1, 1, None);
    assert_eq!(none.label, None);
}

#[test]
fn escape_like_escapes_wildcards() {
    assert_eq!(escape_like_user_input("50%_a\\b"), "50\\%\\_a\\\\b");
    assert_eq!(escape_like_user_input("plain"), "plain");
    assert_eq!(search_pattern("a%"), "%a\\%%");
    assert_eq!(search_pattern(""), "%%");
}

#[test]
fn clip_search_plans() {
    match plan_clip_search("   ", None) {
        ClipQuery::Recent { limit } => assert_eq!(limit, 80),
        other => panic!("unexpected {:?}", other),
    }
    match plan_clip_search("  fo_o ", Some(5)) {
        ClipQuery::Matching { pattern, limit } => {
            assert_eq!(pattern, "%fo\\_o%");
            assert_eq!(limit, 5);
        }
        other => panic!("unexpected {:?}", other),
    }
    match plan_clip_search("", Some(3)) {
        ClipQuery::Recent { limit } => assert_eq!(limit, 3),
        other => panic!("unexpected {:?}", other),
    }
}

fn inserted(a: CaptureAction) -> String {
    match a {
        CaptureAction::Insert { text } => text,
        other => panic!("expected an insert, got {:?}", other),
    }
}

#[test]
fn capture_cleans_text() {
    let t = inserted(record_plaintext_capture("\u{feff}\u{feff}\0\0 hello \0", None));
    assert_eq!(t, "hello");
    let kept = inserted(record_plaintext_capture("  a\u{feff}b \n", None));
    assert_eq!(kept, "a\u{feff}b");
}

#[test]
fn capture_skips_blank_and_oversized() {
    assert!(matches!(record_plaintext_capture("   \n\t", None), CaptureAction::Skip));
    assert!(matches!(record_plaintext_capture("\u{feff}\0\0", None), CaptureAction::Skip));
    let big = "a".repeat(CLIPBOARD_MAX_CHARS + 1);
    assert!(matches!(record_plaintext_capture(&big, None), CaptureAction::Skip));
    let edge = "a".repeat(CLIPBOARD_MAX_CHARS);
    assert_eq!(inserted(record_plaintext_capture(&edge, None)).len(), CLIPBOARD_MAX_CHARS);
    // The size cap counts bytes.
    let wide = "é".repeat(CLIPBOARD_MAX_CHARS / 2 + 1);
    assert!(matches!(record_plaintext_capture(&wide, None), CaptureAction::Skip));
}

#[test]
fn capture_suppresses_consecutive_duplicates() {
    let prev = Some((41, "hello   there".to_string()));
    match record_plaintext_capture("  hello\nthere ", prev) {
        CaptureAction::Refresh { id } => assert_eq!(id, 41),
        other => panic!("expected a refresh, got {:?}", other),
    }
    let other = Some((41, "hello".to_string()));
    assert_eq!(inserted(record_plaintext_capture("hello there", other)), "hello there");
    let blank_prev = Some((3, "   ".to_string()));
    assert_eq!(inserted(record_plaintext_capture("x", blank_prev)), "x");
}

#[test]
fn capture_twice_refreshes() {
    let stored = inserted(record_plaintext_capture("\u{feff} some  text \n", None));
    match record_plaintext_capture("some text", Some((5, stored))) {
        CaptureAction::Refresh { id } => assert_eq!(id, 5),
        other => panic!("expected a refresh, got {:?}", other),
    }
}

fn key(id: i64, created_ms: i64, pinned: bool) -> ClipKey {
    ClipKey { id, created_ms, pinned }
}

#[test]
fn prune_removes_expired_unpinned_clips() {
    let limits = HistoryLimits { max_rows: 10, max_age_ms: Some(1_000) };
    // Retention order: pinned first, then newest first.
    let rows = vec![key(1, 0, true), key(5, 9_500, false), key(4, 8_000, false), key(3, 100, false)];
    assert_eq!(prune_and_cap(&rows, limits, 10_000), vec![4, 3]);
}

#[test]
fn prune_caps_row_count() {
    let limits = HistoryLimits { max_rows: 2, max_age_ms: None };
    let rows = vec![key(9, 0, true), key(8, 50, false), key(7, 40, false), key(6, 30, false)];
    assert_eq!(prune_and_cap(&rows, limits, 100), vec![7, 6]);
}

#[test]
fn prune_keeps_at_least_one_row() {
    let limits = HistoryLimits { max_rows: 0, max_age_ms: None };
    let rows = vec![key(3, 30, false), key(2, 20, false), key(1, 10, false)];
    assert_eq!(prune_and_cap(&rows, limits, 100), vec![2, 1]);
    let negative = HistoryLimits { max_rows: -5, max_age_ms: None };
    assert_eq!(prune_and_cap(&rows, negative, 100), vec![2, 1]);
}

#[test]
fn prune_counts_cap_after_expiry() {
    // Expired clips do not take places under the cap.
    let limits = HistoryLimits { max_rows: 2, max_age_ms: Some(10) };
    let rows = vec![key(1, 0, true), key(4, 5, false), key(3, 95, false), key(2, 94, false)];
    assert_eq!(prune_and_cap(&rows, limits, 100), vec![4, 2]);
    assert_eq!(prune_and_cap(&Vec::new(), limits, 100), Vec::<i64>::new());
}

#[test]
fn pinned_clips_never_expire() {
    let limits = HistoryLimits { max_rows: 100, max_age_ms: Some(1) };
    let rows = vec![key(1, 0, true), key(2, 0, true), key(3, 0, false)];
    assert_eq!(prune_and_cap(&rows, limits, 1_000_000), vec![3]);
}

#[test]
fn prune_cutoff_saturates() {
    let limits = HistoryLimits { max_rows: 10, max_age_ms: Some(i64::MAX) };
    let rows = vec![key(1, i64::MIN, false), key(2, i64::MIN + 1, false)];
    assert_eq!(prune_and_cap(&rows, limits, -10), Vec::<i64>::new());
    assert_eq!(saturating_sub(-10, i64::MAX), i64::MIN);
    assert_eq!(saturating_sub(10, i64::MIN), i64::MAX);
    assert_eq!(saturating_sub(10, 3), 7);
}

#[test]
fn clock_millis_conversion() {
    assert_eq!(millis_to_ms(Some(5)), 5);
    assert_eq!(millis_to_ms(None), 0);
    assert_eq!(millis_to_ms(Some(u128::MAX)), -1);
    assert_eq!(millis_to_ms(Some(1u128 << 64)), 0);
}

#[test]
fn now_is_after_2020() {
    let a = now_ms();
    assert!(a > 1_577_836_800_000);
    let b = now_ms();
    assert!(b >= a);
}

#[test]
fn label_column_migration() {
    let old = vec!["id".to_string(), "plaintext".to_string(), "created_ms".to_string()];
    assert!(needs_label_column(&old));
    let new = vec!["id".to_string(), "label".to_string()];
    assert!(!needs_label_column(&new));
    assert!(needs_label_column(&Vec::new()));
}

#[test]
fn capture_in_two_steps() {
    use_two_steps();
}

fn use_two_steps() {
    let body = capture_text("  \u{feff}x ").unwrap();
    assert_eq!(body, "\u{feff}x");
    // NUL characters are removed only at the ends, before white space is trimmed.
    assert_eq!(capture_text(" \0 "), Some("\0".to_string()));
    assert_eq!(capture_text("\0 \0"), None);
    match decide_capture("a b".to_string(), Some((3, " a\tb ".to_string()))) {
        CaptureAction::Refresh { id } => assert_eq!(id, 3),
        other => panic!("expected a refresh, got {:?}", other),
    }
    match decide_capture("a b".to_string(), None) {
        CaptureAction::Insert { text } => assert_eq!(text, "a b"),
        other => panic!("expected an insert, got {:?}", other),
    }
}

#[test]
fn retention_keeps_min_of_unexpired_and_cap() {
    let rows: Vec<ClipKey> = (0..10).map(|i| key(100 - i, 1_000 - i * 100, i % 4 == 0)).collect();
    for max_rows in [0i64, 1, 3, 10, 20] {
        for age in [None, Some(450i64)] {
            let limits = HistoryLimits { max_rows, max_age_ms: age };
            let evicted = prune_and_cap(&rows, limits, 1_000);
            let unexpired = rows
                .iter()
                .filter(|k| !(age.is_some() && !k.pinned && k.created_ms < 1_000 - 450))
                .count() as i64;
            let keep = max_rows.max(1);
            assert_eq!(rows.len() as i64 - evicted.len() as i64, unexpired.min(keep));
        }
    }
}

#[test]
fn pinned_clips_go_last_and_old_clips_first() {
    let limits = HistoryLimits { max_rows: 1, max_age_ms: None };
    let rows = vec![key(10, 5, true), key(11, 4, true), key(12, 9, false), key(13, 8, false)];
    assert_eq!(prune_and_cap(&rows, limits, 100), vec![11, 12, 13]);
    let three = HistoryLimits { max_rows: 3, max_age_ms: Some(50) };
    let unpinned = vec![key(4, 90, false), key(3, 60, false), key(2, 40, false), key(1, 30, false)];
    assert_eq!(prune_and_cap(&unpinned, three, 100), vec![2, 1]);
}
