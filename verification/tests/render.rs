use aardbin::render::{display_title, format_ts_utc, snippet, truncate_chars};

#[test]
fn title_fallback_chain() {
    assert_eq!(display_title("  Hi  ", "body"), ("Hi".into(), false));
    assert_eq!(
        display_title("", "first line\nsecond"),
        ("first line".into(), false)
    );
    assert_eq!(display_title("", "  \n  "), ("Untitled".into(), true));
    assert_eq!(display_title("  ", ""), ("Untitled".into(), true));
}

#[test]
fn truncation_is_char_safe() {
    let s = "汉字".repeat(100);
    let t = truncate_chars(&s, 10);
    assert_eq!(t.chars().count(), 11); // 10 + ellipsis
}

#[test]
fn snippet_collapses_lines() {
    assert_eq!(snippet("a\n\nb\nc"), "a · b · c");
    assert_eq!(snippet(""), "");
}

#[test]
fn ts_format() {
    assert_eq!(format_ts_utc(0), "1970-01-01 00:00:00 UTC");
}

#[test]
fn more_timestamps() {
    assert_eq!(format_ts_utc(1_546_300_800), "2019-01-01 00:00:00 UTC");
    assert_eq!(format_ts_utc(1_787_246_551), "2026-08-20 17:22:31 UTC");
    assert_eq!(format_ts_utc(i64::MAX), "");
}

#[test]
fn truncation_edges() {
    assert_eq!(truncate_chars("abc", 3), "abc");
    assert_eq!(truncate_chars("abcd", 3), "abc…");
    assert_eq!(truncate_chars("", 0), "");
    assert_eq!(truncate_chars("x", 0), "…");
}

#[test]
fn titles_are_cut() {
    let long = "t".repeat(250);
    let (t, u) = display_title(&long, "");
    assert_eq!(t.chars().count(), 201);
    assert!(!u);
    let line = "l".repeat(100);
    let (t, _) = display_title("", &format!("{line}\nrest"));
    assert_eq!(t, format!("{}…", "l".repeat(80)));
    assert_eq!(display_title("", "\r\nsecond"), ("Untitled".into(), true));
    assert_eq!(display_title("", " first \r\nsecond"), ("first".into(), false));
}

#[test]
fn snippet_details() {
    assert_eq!(snippet("  one  \r\n\t\ntwo\n"), "one · two");
    let long = "w".repeat(200);
    assert_eq!(snippet(&long).chars().count(), 161);
}
