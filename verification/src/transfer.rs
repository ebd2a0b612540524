//! What goes over the wire with a file: the form that stores it and the
//! headers that hand it out.

use crate::records::DownloadResult;
use base64::Engine;
use vstd::prelude::*;
use vstd::string::StringExecFns;
use vstd::utf8::{decode_utf8, encode_utf8, valid_utf8};

verus! {

/// The error of base64's decoder, carried through as it is.
#[verifier::external_type_specification]
#[verifier::external_body]
pub struct ExDecodeError(base64::DecodeError);

/// The bytes that standard base64 with padding decodes `input` to, or
/// `None` where `input` is no such encoding.
pub uninterp spec fn base64_decoded(input: Seq<u8>) -> Option<Seq<u8>>;

/// The text that standard base64 with padding encodes `input` to.
pub uninterp spec fn base64_encoded(input: Seq<u8>) -> Seq<char>;

/// `decode` of base64's `STANDARD` engine. Trusted: the bytes it returns are
/// those that `base64_decoded` names for the input, and it fails exactly
/// where `base64_decoded` names none.
#[verifier::external_body]
fn decode_standard(input: &[u8]) -> (output: Result<Vec<u8>, base64::DecodeError>)
    ensures
        output matches Ok(bytes) ==> base64_decoded(input@) == Some(bytes@),
        output is Err ==> base64_decoded(input@) is None,
{
    base64::engine::general_purpose::STANDARD.decode(input)
}

/// `encode` of base64's `STANDARD` engine. Trusted: the text it returns is
/// the one that `base64_encoded` names for the input. The engine stops only
/// where the length of the output exceeds a `usize`, which no slice in
/// memory is long enough for.
#[verifier::external_body]
fn encode_standard(input: &[u8]) -> (output: String)
    ensures
        output@ == base64_encoded(input@),
{
    base64::engine::general_purpose::STANDARD.encode(input)
}

/// `std::str::from_utf8`. Trusted: it yields the text that the bytes encode
/// where they are valid UTF-8 and nothing where they are not.
#[verifier::external_body]
fn utf8_text(bytes: &[u8]) -> (text: Option<&str>)
    ensures
        text is Some <==> valid_utf8(bytes@),
        text matches Some(t) ==> t@ == decode_utf8(bytes@),
{
    std::str::from_utf8(bytes).ok()
}

/// The text fields of the form that stores a file in the backend.
#[derive(Debug)]
pub struct UploadForm {
    pub caption: String,
    pub file_size: String,
    pub filename: String,
}

/// Why no form could be made from the answer of the download service.
#[derive(Debug, Clone, Copy, PartialEq, Eq, Structural)]
pub enum FormError {
    /// The answer does not say how long the file is.
    NoLength,
    /// The answer carries no file name.
    NoName,
    /// The file name is not base64.
    NameNotBase64,
    /// The decoded file name is not UTF-8.
    NameNotText,
}

/// The form for a download whose headers say `content_length` and, in
/// base64, `filename_b64`, or the first thing that is wrong with them.
pub open spec fn upload_form_of(
    content_length: Option<Seq<char>>,
    filename_b64: Option<Seq<u8>>,
    caption: Seq<char>,
) -> Result<(Seq<char>, Seq<char>, Seq<char>), FormError> {
    if content_length is None {
        Err(FormError::NoLength)
    } else if filename_b64 is None {
        Err(FormError::NoName)
    } else if base64_decoded(filename_b64->0) is None {
        Err(FormError::NameNotBase64)
    } else if !valid_utf8(base64_decoded(filename_b64->0)->0) {
        Err(FormError::NameNotText)
    } else {
        Ok((caption, content_length->0, decode_utf8(base64_decoded(filename_b64->0)->0)))
    }
}

/// The form with the file name that `name` spells in UTF-8.
pub fn form_with_name(caption: String, file_size: String, name: &[u8]) -> (form: Result<
    UploadForm,
    FormError,
>)
    ensures
        valid_utf8(name@) ==> (form matches Ok(f) && f.caption == caption && f.file_size
            == file_size && f.filename@ == decode_utf8(name@)),
        !valid_utf8(name@) ==> form == Err::<UploadForm, FormError>(FormError::NameNotText),
{
    match utf8_text(name) {
        Some(text) => Ok(UploadForm { caption, file_size, filename: text.to_owned() }),
        None => Err(FormError::NameNotText),
    }
}

/// Builds the form that stores a downloaded file: the caption, the length
/// as the download service gave it, and the file name, which that service
/// sends in base64.
pub fn upload_form(content_length: Option<&str>, filename_b64: Option<&[u8]>, caption: String) -> (form:
    Result<UploadForm, FormError>)
    ensures
        match upload_form_of(
            match content_length {
                Some(text) => Some(text@),
                None => None,
            },
            match filename_b64 {
                Some(bytes) => Some(bytes@),
                None => None,
            },
            caption@,
        ) {
            Ok(fields) => form matches Ok(f) && f.caption@ == fields.0 && f.file_size@ == fields.1
                && f.filename@ == fields.2,
            Err(e) => form == Err::<UploadForm, FormError>(e),
        },
{
    let file_size = match content_length {
        Some(text) => text.to_owned(),
        None => return Err(FormError::NoLength),
    };
    let encoded = match filename_b64 {
        Some(bytes) => bytes,
        None => return Err(FormError::NoName),
    };
    match decode_standard(encoded) {
        Ok(name) => form_with_name(caption, file_size, name.as_slice()),
        Err(_) => Err(FormError::NameNotBase64),
    }
}

/// The headers under which a cached file is handed out.
#[derive(Debug)]
pub struct DownloadHeaders {
    pub content_disposition: String,
    pub filename_b64: String,
    pub caption_b64: String,
}

/// The value of the header that offers a file under its ASCII name.
pub fn content_disposition(filename_ascii: &str) -> (value: String)
    ensures
        value@ == "attachment; filename="@ + filename_ascii@,
{
    let mut value = "attachment; filename=".to_owned();
    value.append(filename_ascii);
    value
}

/// The headers for a download: the ASCII name as the attachment's name, the
/// display name and the caption in base64.
pub fn download_headers(download: &DownloadResult) -> (headers: DownloadHeaders)
    ensures
        headers.content_disposition@ == "attachment; filename="@ + download.filename_ascii@,
        headers.filename_b64@ == base64_encoded(encode_utf8(download.filename@)),
        headers.caption_b64@ == base64_encoded(encode_utf8(download.caption@)),
{
    DownloadHeaders {
        content_disposition: content_disposition(download.filename_ascii.as_str()),
        filename_b64: encode_standard(download.filename.as_str().as_bytes()),
        caption_b64: encode_standard(download.caption.as_str().as_bytes()),
    }
}

} // verus!
