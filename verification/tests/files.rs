use notes_core::errors::ApiError;
use notes_core::files::EditFile;
use notes_core::store::Store;

fn store_with_users() -> (Store, i32, i32) {
    let mut s = Store::new();
    let a = s
        .register_with_hash("alice".to_string(), "alice@x.com".to_string(), "h1".to_string(), 10)
        .unwrap();
    let b = s
        .register_with_hash("bob".to_string(), "bob@x.com".to_string(), "h2".to_string(), 11)
        .unwrap();
    (s, a, b)
}

fn jpeg_bytes() -> Vec<u8> {
    vec![0xFF, 0xD8, 0xFF, 0xAA, 0x10, 0x20]
}

#[test]
fn stored_image_comes_back_byte_for_byte() {
    let (mut s, a, _b) = store_with_users();
    let f = s.store_image(a, "photo.jpg", jpeg_bytes(), 30).unwrap();
    assert_eq!(f.filename, "photo.jpg");
    assert_eq!(s.get_file(f.id).unwrap(), jpeg_bytes());
}

#[test]
fn non_image_bytes_are_a_bad_request() {
    let (mut s, a, _b) = store_with_users();
    let r = s.store_image(a, "notes.txt", b"just some text".to_vec(), 30);
    assert_eq!(r.err(), Some(ApiError::BadRequest));
}

#[test]
fn client_filenames_are_sanitized() {
    let (mut s, a, _b) = store_with_users();
    let f = s.store_image(a, "../evil.jpg", jpeg_bytes(), 30).unwrap();
    // Path separators are stripped, so the name cannot escape a directory.
    assert_eq!(f.filename, "..evil.jpg");
}

#[test]
fn missing_file_is_not_found() {
    let (s, _a, _b) = store_with_users();
    assert_eq!(s.get_file(5).err(), Some(ApiError::NotFound));
}

#[test]
fn edit_file_replaces_only_present_fields() {
    let (mut s, a, _b) = store_with_users();
    let f = s.store_image(a, "photo.jpg", jpeg_bytes(), 30).unwrap();
    let edited = s
        .edit_file(
            a,
            f.id,
            EditFile { filename: Some("renamed.jpg".to_string()), ocr: Some("text".to_string()) },
        )
        .unwrap();
    assert_eq!(edited.id, f.id);
    assert_eq!(edited.filename, "renamed.jpg");
    // The bytes are untouched by a metadata edit.
    assert_eq!(s.get_file(f.id).unwrap(), jpeg_bytes());
    let kept = s.edit_file(a, f.id, EditFile { filename: None, ocr: None }).unwrap();
    assert_eq!(kept.filename, "renamed.jpg");
}

#[test]
fn edit_file_by_non_owner_is_forbidden() {
    let (mut s, a, b) = store_with_users();
    let f = s.store_image(a, "photo.jpg", jpeg_bytes(), 30).unwrap();
    let r = s.edit_file(b, f.id, EditFile { filename: Some("mine.jpg".to_string()), ocr: None });
    assert_eq!(r.err(), Some(ApiError::Forbidden));
    assert_eq!(
        s.edit_file(a, 9, EditFile { filename: None, ocr: None }).err(),
        Some(ApiError::NotFound)
    );
}
