//! Images that arrive with an order: each comes as base64 text and leaves as
//! a file to upload, named after the kind of image that its bytes show.

use vstd::prelude::*;
use vstd::string::*;

verus! {

/// The bytes that `base64` decodes `text` to with its standard engine, or
/// `None` where it does not accept `text`.
pub uninterp spec fn base64_decoded(text: Seq<char>) -> Option<Seq<u8>>;

/// The file extension of the kind of file that `infer` sees in `bytes`, or
/// `None` where it knows no such kind.
pub uninterp spec fn inferred_extension(bytes: Seq<u8>) -> Option<Seq<char>>;

/// Decodes `text` with `base64`'s `Engine::decode`, on the engine
/// `BASE64_STANDARD`: the standard alphabet, with padding.
///
/// Nothing is claimed of the result but that it depends on `text` alone.
#[verifier::external_body]
fn decode_base64(text: &str) -> (r: Option<Vec<u8>>)
    ensures
        match r {
            Some(bytes) => base64_decoded(text@) == Some(bytes@),
            None => base64_decoded(text@) is None,
        },
{
    base64::Engine::decode(&base64::prelude::BASE64_STANDARD, text).ok()
}

/// Asks `infer::get` for the kind of file that starts with `bytes`, and hands
/// out the kind's file extension. Bytes that start with the signature of a
/// compound file are parsed by `cfb` on the way.
///
/// Nothing is claimed of the result but that it depends on `bytes` alone.
#[verifier::external_body]
fn infer_extension(bytes: &Vec<u8>) -> (r: Option<String>)
    ensures
        match r {
            Some(extension) => inferred_extension(bytes@) == Some(extension@),
            None => inferred_extension(bytes@) is None,
        },
{
    infer::get(bytes).map(|kind| kind.extension().to_owned())
}

/// Mathematical value of an [`Upload`].
pub struct UploadView {
    pub bytes: Seq<u8>,
    pub file_name: Seq<char>,
}

/// A file to upload.
#[derive(Debug, PartialEq, Eq)]
pub struct Upload {
    pub bytes: Vec<u8>,
    pub file_name: String,
}

impl View for Upload {
    type V = UploadView;

    open spec fn view(&self) -> UploadView {
        UploadView { bytes: self.bytes@, file_name: self.file_name@ }
    }
}

/// The name under which an image is uploaded: `image.` and its extension.
pub open spec fn file_name_of(extension: Seq<char>) -> Seq<char> {
    "image."@ + extension
}

/// The upload of an image with these bytes, once the kind of the image is
/// known: `None` where it is not.
pub open spec fn upload_of(bytes: Seq<u8>, extension: Option<Seq<char>>) -> Option<UploadView> {
    match extension {
        Some(extension) => Some(UploadView { bytes, file_name: file_name_of(extension) }),
        None => None,
    }
}

/// The upload that an image stands for: there is none where the text is not
/// base64, or where its bytes do not show a known kind of file.
pub open spec fn prepared(image: Seq<char>) -> Option<UploadView> {
    match base64_decoded(image) {
        Some(bytes) => upload_of(bytes, inferred_extension(bytes)),
        None => None,
    }
}

/// Names the upload of an image whose kind is known.
pub fn name_upload(bytes: Vec<u8>, extension: Option<String>) -> (r: Option<Upload>)
    ensures
        match r {
            Some(upload) => upload_of(bytes@, option_text(extension)) == Some(upload@),
            None => upload_of(bytes@, option_text(extension)) is None,
        },
{
    match extension {
        Some(extension) => {
            let file_name = String::from_str("image.").concat(extension.as_str());
            Some(Upload { bytes, file_name })
        },
        None => None,
    }
}

/// The text of an optional string.
pub open spec fn option_text(s: Option<String>) -> Option<Seq<char>> {
    match s {
        Some(s) => Some(s@),
        None => None,
    }
}

/// Prepares the upload of one image.
pub fn prepare_upload(image: &str) -> (r: Option<Upload>)
    ensures
        match r {
            Some(upload) => prepared(image@) == Some(upload@),
            None => prepared(image@) is None,
        },
{
    match decode_base64(image) {
        Some(bytes) => {
            let extension = infer_extension(&bytes);
            name_upload(bytes, extension)
        },
        None => None,
    }
}

} // verus!
