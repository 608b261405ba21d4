use aardbin::crypto::Crypto;
use aardbin::views::RecordRow;
use aardbin::saving::{
    create_after_write, save_end, update_after_write, update_end, update_start, AfterWrite,
    SaveEnd, UpdateEnd, UpdateStart,
};

#[test]
fn update_decisions() {
    let c = Crypto::new(&[1u8; 32]);
    let blob = c.encrypt("t", "c");
    assert_eq!(update_start(&c, None), UpdateStart::NotFound);
    assert_eq!(update_start(&c, Some(&blob)), UpdateStart::Proceed);
    let other = Crypto::new(&[2u8; 32]);
    assert_eq!(update_start(&other, Some(&blob)), UpdateStart::RefuseOverwrite);
    assert_eq!(
        UpdateStart::RefuseOverwrite.refusal(),
        Some((422, "Unable to decrypt this record; refusing to overwrite.".to_string()))
    );
    assert_eq!(UpdateStart::NotFound.refusal(), Some((404, "record not found".to_string())));
    assert_eq!(UpdateStart::Proceed.refusal(), None);
    assert_eq!(update_after_write(Ok(true)), AfterWrite::InsertUploads);
    assert_eq!(update_after_write(Ok(false)), AfterWrite::NotFound);
    assert_eq!(update_after_write(Err(())), AfterWrite::CleanupThenInternal);
}

#[test]
fn create_decisions() {
    assert_eq!(create_after_write(Ok(())), AfterWrite::InsertUploads);
    assert_eq!(create_after_write(Err(())), AfterWrite::CleanupThenInternal);
    assert_eq!(save_end(true), SaveEnd::Saved);
    assert_eq!(save_end(false), SaveEnd::DeleteThenInternal);
}

#[test]
fn failed_upload_rows_restore_the_record() {
    let c = Crypto::new(&[1u8; 32]);
    let before = RecordRow {
        id: "r1".to_string(),
        blob: c.encrypt("old title", "old content"),
        created_at: 100,
        updated_at: 200,
    };
    assert_eq!(update_end(true, &before), UpdateEnd::Saved);
    match update_end(false, &before) {
        UpdateEnd::RestoreThenInternal { blob, updated_at } => {
            assert_eq!(blob, before.blob);
            assert_eq!(updated_at, 200);
            let (t, b) = c.decrypt(&blob).unwrap();
            assert_eq!(t, "old title");
            assert_eq!(b, "old content");
        }
        UpdateEnd::Saved => panic!("a failed insertion must restore the record"),
    }
}
