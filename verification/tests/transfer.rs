use cache_broker::records::DownloadResult;
use cache_broker::transfer::{
    content_disposition, download_headers, form_with_name, upload_form, FormError,
};

#[test]
fn form_takes_the_length_and_the_decoded_name() {
    // "hello.txt" in standard base64
    let form = upload_form(Some("1234"), Some(b"aGVsbG8udHh0"), "caption".to_string()).unwrap();
    assert_eq!(form.caption, "caption");
    assert_eq!(form.file_size, "1234");
    assert_eq!(form.filename, "hello.txt");
}

#[test]
fn form_decodes_padded_names() {
    // "a.fb2" needs one padding sign
    let form = upload_form(Some("1"), Some(b"YS5mYjI="), String::new()).unwrap();
    assert_eq!(form.filename, "a.fb2");
    // without the padding it is no standard base64
    let unpadded = upload_form(Some("1"), Some(b"YS5mYjI"), String::new());
    assert_eq!(unpadded.unwrap_err(), FormError::NameNotBase64);
}

#[test]
fn form_needs_the_length() {
    let form = upload_form(None, Some(b"aGVsbG8udHh0"), String::new());
    assert_eq!(form.unwrap_err(), FormError::NoLength);
    let form = upload_form(None, None, String::new());
    assert_eq!(form.unwrap_err(), FormError::NoLength);
}

#[test]
fn form_needs_the_name() {
    let form = upload_form(Some("1"), None, String::new());
    assert_eq!(form.unwrap_err(), FormError::NoName);
}

#[test]
fn form_refuses_a_name_that_is_not_base64() {
    let form = upload_form(Some("1"), Some(b"***"), String::new());
    assert_eq!(form.unwrap_err(), FormError::NameNotBase64);
}

#[test]
fn form_refuses_a_name_that_is_not_text() {
    // "/w==" decodes to the byte 0xff, which is no UTF-8
    let form = upload_form(Some("1"), Some(b"/w=="), String::new());
    assert_eq!(form.unwrap_err(), FormError::NameNotText);
}

#[test]
fn form_with_name_reads_utf8() {
    let form = form_with_name("c".to_string(), "9".to_string(), "книга.fb2".as_bytes()).unwrap();
    assert_eq!(form.filename, "книга.fb2");
    assert_eq!(form.file_size, "9");
    assert_eq!(form.caption, "c");
    let bad = form_with_name("c".to_string(), "9".to_string(), &[0xc3, 0x28]);
    assert_eq!(bad.unwrap_err(), FormError::NameNotText);
}

#[test]
fn content_disposition_offers_the_ascii_name() {
    assert_eq!(content_disposition("book.fb2"), "attachment; filename=book.fb2");
    assert_eq!(content_disposition(""), "attachment; filename=");
}

#[test]
fn headers_carry_names_and_caption_in_base64() {
    let download = DownloadResult {
        filename: "hello.txt".to_string(),
        filename_ascii: "hello.txt".to_string(),
        caption: "hi".to_string(),
    };
    let headers = download_headers(&download);
    assert_eq!(headers.content_disposition, "attachment; filename=hello.txt");
    assert_eq!(headers.filename_b64, "aGVsbG8udHh0");
    assert_eq!(headers.caption_b64, "aGk=");
}

#[test]
fn headers_encode_the_bytes_of_the_text() {
    let download = DownloadResult {
        filename: "я".to_string(),
        filename_ascii: "ya".to_string(),
        caption: String::new(),
    };
    let headers = download_headers(&download);
    // 'я' is d1 8f in UTF-8
    assert_eq!(headers.filename_b64, "0Y8=");
    assert_eq!(headers.caption_b64, "");
}
