use aardbin::files::{
    content_disposition, disposition_kind, guess_mime, human_size, is_inline_whitelisted,
    is_known_attachment, new_id, FileStore,
};

#[test]
fn disposition_ascii() {
    let h = content_disposition("attachment", "config.txt");
    assert_eq!(
        h,
        "attachment; filename=\"config.txt\"; filename*=UTF-8''config.txt"
    );
}

#[test]
fn disposition_unicode() {
    let h = content_disposition("attachment", "截图 2024.png");
    assert!(h.contains("filename=\"__ 2024.png\""));
    assert!(h.contains("filename*=UTF-8''"));
    // RFC 5987 percent-encoding of 截 (E6 88 AA)
    assert!(h.contains("%E6%88%AA"));
    assert!(h.contains("%20"));
}

#[test]
fn disposition_strips_dangerous() {
    let h = content_disposition("attachment", "evil\"name\\.txt");
    assert!(!h.contains('"') || h.matches('"').count() == 2); // only the fallback quotes
    assert!(h.contains("filename=\"evil_name_.txt\""));
}

#[test]
fn empty_filename_fallback() {
    let h = content_disposition("attachment", "");
    assert!(h.contains("filename=\"file\""));
}

#[test]
fn human_sizes() {
    assert_eq!(human_size(512), "512 B");
    assert_eq!(human_size(2048), "2 KB");
    assert_eq!(human_size(5 * 1024 * 1024), "5.0 MB");
}

fn float_human_size(bytes: i64) -> String {
    const KB: f64 = 1024.0;
    const MB: f64 = KB * 1024.0;
    let b = bytes as f64;
    if b >= MB {
        format!("{:.1} MB", b / MB)
    } else if b >= KB {
        format!("{:.0} KB", b / KB)
    } else {
        format!("{bytes} B")
    }
}

#[test]
fn human_size_matches_float_formatting() {
    let mut samples: Vec<i64> = vec![
        i64::MIN, -1, 0, 1, 1023, 1024, 1535, 1536, 1537, 2560, 3584, 1048063, 1048064,
        1048575, 1048576, 1100000, 1153433, 1153434, 1205862, 1205863, 5 * 1024 * 1024,
        (1i64 << 53) - 1, 1i64 << 53, (1i64 << 53) + 1, (1i64 << 53) + 3, (1i64 << 60) + 12345,
        i64::MAX - 1, i64::MAX,
    ];
    let mut x: i64 = 977;
    for _ in 0..2000 {
        x = x.wrapping_mul(6364136223846793005).wrapping_add(1442695040888963407);
        samples.push(x);
        samples.push(x >> 20);
        samples.push(x >> 40);
        samples.push(x >> 50);
    }
    for k in 1..2048i64 {
        samples.push(k * 512);
        samples.push(k * 52429);
    }
    for s in samples {
        assert_eq!(human_size(s), float_human_size(s), "size {s}");
    }
}

#[test]
fn mime_guessing() {
    assert_eq!(guess_mime("photo.png", None), "image/png");
    assert_eq!(guess_mime("photo.png", Some("")), "image/png");
    assert_eq!(guess_mime("photo.png", Some("text/plain")), "text/plain");
    assert_eq!(guess_mime("unknown.zzzqqq", None), "application/octet-stream");
}

#[test]
fn inline_only_for_whitelisted_images() {
    assert!(is_inline_whitelisted("image/png"));
    assert!(!is_inline_whitelisted("image/svg+xml"));
    assert_eq!(disposition_kind(Some("1"), "image/jpeg"), "inline");
    assert_eq!(disposition_kind(Some("1"), "text/html"), "attachment");
    assert_eq!(disposition_kind(Some("true"), "image/jpeg"), "attachment");
    assert_eq!(disposition_kind(None, "image/gif"), "attachment");
}

#[test]
fn store_layout_and_paths() {
    let s = FileStore::layout("/data");
    assert_eq!(s.attachments_dir(), "/data/attachments");
    assert_eq!(s.tmp_dir(), "/data/tmp");
    assert_eq!(s.attachment_path("abc"), "/data/attachments/abc");
    assert_eq!(s.tmp_path("abc"), "/data/tmp/abc");
    let t = FileStore::layout("rel/");
    assert_eq!(t.attachment_path("x"), "rel/attachments/x");
}

#[test]
fn fresh_ids_are_uuids() {
    let a = new_id();
    let b = new_id();
    assert_ne!(a, b);
    assert_eq!(a.len(), 36);
    for (i, c) in a.chars().enumerate() {
        if [8, 13, 18, 23].contains(&i) {
            assert_eq!(c, '-');
        } else {
            assert!(c.is_ascii_hexdigit() && !c.is_ascii_uppercase());
        }
    }
}

#[test]
fn orphan_detection() {
    let known = vec!["a1".to_string(), "b2".to_string()];
    assert!(is_known_attachment("b2", &known));
    assert!(!is_known_attachment("orphan", &known));
}
