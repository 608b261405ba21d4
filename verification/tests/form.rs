use aardbin::form::{
    check_content_length, field_kind, wants_file, FieldKind, FormError, FormLimits, RecordForm,
};

fn limits() -> FormLimits {
    FormLimits { max_request_bytes: 100, max_content_bytes: 20, max_attachment_bytes: 2048 }
}

#[test]
fn declared_length_over_limit() {
    assert!(check_content_length(&limits(), None).is_ok());
    assert!(check_content_length(&limits(), Some(100)).is_ok());
    let e = check_content_length(&limits(), Some(101)).unwrap_err();
    assert_eq!(e.status(), 413);
    assert_eq!(e.message(), "Request too large (max 100 bytes)");
}

#[test]
fn field_kinds() {
    assert_eq!(field_kind(Some("title")), FieldKind::Title);
    assert_eq!(field_kind(Some("content")), FieldKind::Content);
    assert_eq!(field_kind(Some("files")), FieldKind::Files);
    assert_eq!(field_kind(Some("other")), FieldKind::Other);
    assert_eq!(field_kind(None), FieldKind::Other);
    assert!(wants_file(Some("a.txt")));
    assert!(!wants_file(Some("")));
    assert!(!wants_file(None));
}

#[test]
fn text_fields_are_kept() {
    let mut f = RecordForm::new(limits());
    f.text_field(true, "   My title  ").unwrap();
    f.text_field(false, "body ü").unwrap();
    assert_eq!(f.total_bytes(), 13 + 7);
    let p = f.finish();
    assert_eq!(p.title, "My title");
    assert_eq!(p.content, "body ü");
    assert!(p.uploads.is_empty());
}

#[test]
fn long_title_is_cut() {
    let mut f = RecordForm::new(FormLimits { max_request_bytes: 10_000, ..limits() });
    f.text_field(true, &"x".repeat(300)).unwrap();
    let p = f.finish();
    assert_eq!(p.title, format!("{}…", "x".repeat(200)));
}

#[test]
fn content_over_its_limit() {
    let mut f = RecordForm::new(limits());
    let e = f.text_field(false, &"c".repeat(21)).unwrap_err();
    assert_eq!(e.status(), 422);
    assert_eq!(e.message(), "Content too large (max 20 bytes)");
    // a title of the same size is fine
    let mut g = RecordForm::new(limits());
    assert!(g.text_field(true, &"c".repeat(21)).is_ok());
}

#[test]
fn request_over_its_limit() {
    let mut f = RecordForm::new(limits());
    f.other_field(95);
    let e = f.text_field(true, "abcdef").unwrap_err();
    assert!(matches!(e, FormError::TooLarge(_)));
    assert_eq!(e.message(), "Request too large");
}

#[test]
fn file_chunks_and_uploads() {
    let mut f = RecordForm::new(FormLimits { max_request_bytes: 10_000, ..limits() });
    let mut size = 0u64;
    f.file_chunk("a.png", &mut size, 1000).unwrap();
    f.file_chunk("a.png", &mut size, 1000).unwrap();
    assert_eq!(size, 2000);
    f.add_upload("id-1".into(), "a.png".into(), None, size);
    let mut size2 = 0u64;
    f.file_chunk("b.bin", &mut size2, 10).unwrap();
    f.add_upload("id-2".into(), "b.bin".into(), Some("text/plain"), size2);
    assert_eq!(f.uploads().len(), 2);
    assert_eq!(f.total_bytes(), 2010);
    let p = f.finish();
    assert_eq!(p.uploads[0].id, "id-1");
    assert_eq!(p.uploads[0].mime_type, "image/png");
    assert_eq!(p.uploads[0].size, 2000);
    assert_eq!(p.uploads[1].mime_type, "text/plain");
}

#[test]
fn file_over_its_limit() {
    let mut f = RecordForm::new(FormLimits { max_request_bytes: 10_000, ..limits() });
    let mut size = 0u64;
    let e = f.file_chunk("big.iso", &mut size, 2049).unwrap_err();
    assert_eq!(e.status(), 422);
    assert_eq!(e.message(), "\"big.iso\" exceeds max attachment size (2 KB)");
}

#[test]
fn file_over_request_limit() {
    let mut f = RecordForm::new(FormLimits { max_request_bytes: 1500, ..limits() });
    let mut size = 0u64;
    f.file_chunk("a", &mut size, 1000).unwrap();
    let e = f.file_chunk("a", &mut size, 600).unwrap_err();
    assert_eq!(e.status(), 413);
    assert_eq!(e.message(), "Request too large");
}
