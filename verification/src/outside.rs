//! Wrappers around outside computations whose results are named rather
//! than spelled out: base64 coding and MIME guessing.

use vstd::prelude::*;

verus! {

/// The bytes that a base64 text denotes under the standard alphabet, if it
/// is well formed.
pub uninterp spec fn base64_decode_of(text: Seq<u8>) -> Option<Seq<u8>>;

/// The standard base64 text of a string's UTF-8 bytes.
pub uninterp spec fn base64_encode_of(text: Seq<char>) -> Seq<char>;

/// The MIME type that a path's file extension suggests.
pub uninterp spec fn mime_guess_of(path: Seq<char>) -> Seq<char>;

/// Relies on base64's STANDARD engine decode: the bytes the base64 text
/// denotes, or nothing when the text is not well-formed base64.
#[verifier::external_body]
pub fn base64_decode(text: &Vec<u8>) -> (r: Option<Vec<u8>>)
    ensures
        match r {
            Some(v) => base64_decode_of(text@) == Some(v@),
            None => base64_decode_of(text@) is None,
        },
{
    base64::engine::Engine::decode(&base64::engine::general_purpose::STANDARD, text.as_slice()).ok()
}

/// Relies on base64's STANDARD engine encode, applied to the UTF-8 bytes of
/// the given text.
#[verifier::external_body]
pub fn base64_encode(text: &str) -> (r: String)
    ensures
        r@ == base64_encode_of(text@),
{
    base64::engine::Engine::encode(&base64::engine::general_purpose::STANDARD, text.as_bytes())
}

/// Relies on mime_guess::from_path: the MIME type its table gives the
/// path's extension, with application/octet-stream for the unknown.
#[verifier::external_body]
pub fn guess_mime_type(path: &str) -> (r: String)
    ensures
        r@ == mime_guess_of(path@),
{
    mime_guess::from_path(path).first_or_octet_stream().as_ref().to_string()
}

} // verus!
