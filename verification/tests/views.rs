use aardbin::crypto::Crypto;
use aardbin::form::PendingUpload;
use aardbin::views::{
    api_list_response, api_page_params, api_record, attachment_row_for, attachment_view,
    clamp_page, edit_form_view, list_view, login_error_text, new_form_view, page_offset,
    page_to_refetch, total_pages, AttachmentRow, LoginQuery, RecordRow,
};

fn att(id: &str, record: &str, name: &str) -> AttachmentRow {
    AttachmentRow {
        id: id.into(),
        record_id: record.into(),
        original_filename: name.into(),
        size_bytes: 2048,
        mime_type: "text/plain".into(),
        created_at: 1000,
    }
}

#[test]
fn paging() {
    assert_eq!(total_pages(0, 20), 1);
    assert_eq!(total_pages(20, 20), 1);
    assert_eq!(total_pages(21, 20), 2);
    assert_eq!(total_pages(7, 3), 3);
    // integer division rounds toward zero, as `/` does
    assert_eq!(total_pages(0, -1), (0i64 + -1 - 1) / -1);
    assert_eq!(total_pages(100, -5), 1);
    assert_eq!(total_pages(i64::MAX - 20, 20), (i64::MAX - 1) / 20);
    assert_eq!(clamp_page(0, 3), 1);
    assert_eq!(clamp_page(9, 3), 3);
    assert_eq!(clamp_page(2, 3), 2);
    assert_eq!(page_offset(1, 3), 0);
    assert_eq!(page_offset(3, 3), 6);
    assert_eq!(page_offset(-4, 3), 0);
    // asked for page 3 of a single page: the first listing is empty
    assert_eq!(page_to_refetch(true, 3, 1), Some(1));
    assert_eq!(page_to_refetch(true, 9, 3), Some(3));
    assert_eq!(page_to_refetch(true, 1, 1), None);
    assert_eq!(page_to_refetch(false, 3, 3), None);
    assert_eq!(api_page_params(None, None, 20), (1, 20));
    assert_eq!(api_page_params(Some(-2), Some(0), 20), (1, 1));
    assert_eq!(api_page_params(Some(4), Some(50), 20), (4, 50));
}

#[test]
fn list_cards() {
    let c = Crypto::new(&[3u8; 32]);
    let rows = vec![
        RecordRow { id: "r1".into(), blob: c.encrypt("", "hello\nworld"), created_at: 1, updated_at: 0 },
        RecordRow { id: "r2".into(), blob: vec![1, 2, 3], created_at: 2, updated_at: 60 },
    ];
    let atts = vec![att("a1", "r1", "one.txt"), att("a2", "r2", "x"), att("a3", "r1", "two.txt")];
    let v = list_view(&c, 2, 3, 41, &rows, &atts);
    assert_eq!(v.records.len(), 2);
    assert!(v.has_prev && v.has_next);
    assert_eq!(v.total, 41);
    let r1 = &v.records[0];
    assert_eq!(r1.title, "hello");
    assert!(!r1.untitled);
    assert_eq!(r1.snippet, "hello · world");
    assert_eq!(r1.updated_text, "1970-01-01 00:00:00 UTC");
    assert_eq!(r1.attachment_count, 2);
    assert_eq!(r1.first_attachment_name, "one.txt");
    assert_eq!(r1.extra_attachments, 1);
    assert!(!r1.undecryptable);
    let r2 = &v.records[1];
    assert!(r2.undecryptable);
    assert_eq!(r2.title, "");
    assert_eq!(r2.attachment_count, 1);
    assert_eq!(r2.extra_attachments, 0);
    assert_eq!(r2.updated_text, "1970-01-01 00:01:00 UTC");
}

#[test]
fn repeated_rows_get_attachments_once() {
    let c = Crypto::new(&[3u8; 32]);
    let blob = c.encrypt("t", "c");
    let rows = vec![
        RecordRow { id: "r1".into(), blob: blob.clone(), created_at: 1, updated_at: 1 },
        RecordRow { id: "r1".into(), blob, created_at: 1, updated_at: 1 },
    ];
    let atts = vec![att("a1", "r1", "one.txt")];
    let v = list_view(&c, 1, 1, 2, &rows, &atts);
    assert_eq!(v.records[0].attachment_count, 1);
    assert_eq!(v.records[1].attachment_count, 0);
}

#[test]
fn api_bodies() {
    let c = Crypto::new(&[5u8; 32]);
    let row = RecordRow { id: "r9".into(), blob: c.encrypt("", "first\nsecond"), created_at: 5, updated_at: 6 };
    let atts = vec![att("a1", "r9", "f.txt")];
    let rec = api_record(&c, &row, &atts).unwrap();
    assert_eq!(rec.title, "first");
    assert!(!rec.untitled);
    assert_eq!(rec.content, "first\nsecond");
    assert_eq!(rec.created_at, 5);
    assert_eq!(rec.attachments[0].original_filename, "f.txt");
    assert_eq!(rec.attachments[0].size_bytes, 2048);
    let broken = RecordRow { id: "r0".into(), blob: vec![0; 40], created_at: 0, updated_at: 0 };
    assert!(api_record(&c, &broken, &atts).is_none());

    let list = api_list_response(&c, 1, 20, 2, 1, &vec![row, broken], &atts);
    assert_eq!(list.records.len(), 2);
    assert_eq!(list.records[0].attachment_count, 1);
    assert_eq!(list.records[1].attachment_count, 0);
    assert_eq!(list.records[1].title, "");
    assert!(!list.records[1].untitled);
    assert_eq!(list.page_size, 20);
}

#[test]
fn forms_and_attachment_views() {
    let v = attachment_view(&att("a1", "r1", "f.txt"));
    assert_eq!(v.size_text, "2 KB");
    let n = new_form_view(2 * 1024 * 1024);
    assert_eq!(n.mode, "new");
    assert_eq!(n.action, "/records");
    assert_eq!(n.max_attachment_human, "2.0 MB");
    let e = edit_form_view("r1", "T".into(), "C".into(), &vec![att("a1", "r1", "f.txt")], 1024);
    assert_eq!(e.mode, "edit");
    assert_eq!(e.action, "/records/r1");
    assert_eq!(e.attachments.len(), 1);
    assert_eq!(e.max_attachment_human, "1 KB");
    assert_eq!(login_error_text(&LoginQuery { error: Some("1".into()) }), Some("Invalid access key".into()));
    assert_eq!(login_error_text(&LoginQuery { error: None }), None);
}

#[test]
fn upload_rows() {
    let u = PendingUpload { id: "u1".into(), original_filename: "a.txt".into(), mime_type: "text/plain".into(), size: 5 };
    let r = attachment_row_for(&u, "rec", 77);
    assert_eq!(r.id, "u1");
    assert_eq!(r.record_id, "rec");
    assert_eq!(r.size_bytes, 5);
    assert_eq!(r.created_at, 77);
}
