use catcher::multipart::MultipartForm;

#[test]
fn mp1_text_only() {
    let form = MultipartForm::new()
        .text("username", "alice")
        .text("email", "alice@example.com");

    let (body, ct) = form.encode();
    let body_str = String::from_utf8(body).unwrap();

    assert!(ct.starts_with("multipart/form-data; boundary="));
    assert!(body_str.contains("name=\"username\""));
    assert!(body_str.contains("alice"));
    assert!(body_str.contains("name=\"email\""));
    assert!(body_str.contains("alice@example.com"));
    assert!(body_str.contains("--"));
}

#[test]
fn mp2_file_upload() {
    let form = MultipartForm::new().text("description", "my avatar").file(
        "avatar",
        "photo.png",
        "image/png",
        vec![0x89, 0x50, 0x4E, 0x47],
    );

    let (body, ct) = form.encode();
    let body_str = String::from_utf8_lossy(&body);

    assert!(ct.starts_with("multipart/form-data; boundary="));
    assert!(body_str.contains("filename=\"photo.png\""));
    assert!(body_str.contains("Content-Type: image/png"));
    assert!(body_str.contains("name=\"description\""));
}

#[test]
fn mp3_bytes_field() {
    let form = MultipartForm::new().bytes(
        "binary_data",
        "application/octet-stream",
        vec![0x00, 0x01, 0x02],
    );

    let (body, _ct) = form.encode();
    assert!(!body.is_empty());
    assert!(!form.is_empty());
}

#[test]
fn mp4_empty_form() {
    let form = MultipartForm::new();
    assert!(form.is_empty());
    assert_eq!(form.len(), 0);
    // Still encodes (just the closing boundary)
    let (body, _) = form.encode();
    assert!(!body.is_empty());
}

#[test]
fn mp5_boundary_uniqueness() {
    let form = MultipartForm::new().text("a", "b");
    let (_, ct1) = form.encode();
    let (_, ct2) = form.encode();
    assert!(ct1.starts_with("multipart/form-data; boundary="));
    assert!(ct2.starts_with("multipart/form-data; boundary="));
}

#[test]
fn fixed_boundary_gives_exact_body() {
    let form = MultipartForm::new().text("k", "v");
    let (body, ct) = form.encode_with_boundary("XYZ");
    assert_eq!(ct, "multipart/form-data; boundary=XYZ");
    assert_eq!(
        String::from_utf8(body).unwrap(),
        "--XYZ\r\nContent-Disposition: form-data; name=\"k\"\r\n\r\nv\r\n--XYZ--\r\n"
    );
}

#[test]
fn empty_form_is_closing_boundary_only() {
    let (body, _) = MultipartForm::new().encode_with_boundary("B");
    assert_eq!(body, b"--B--\r\n".to_vec());
}
