//! Answers to requests for clipboard content, as the channel carries them.
use ironrdp_cliprdr::pdu::FormatDataResponse;
use vstd::prelude::*;

use super::unicode::wire_data;

verus! {

/// An answer to a request for clipboard content.
#[verifier::external_type_specification]
#[verifier::external_body]
pub struct ExFormatDataResponse<'a>(FormatDataResponse<'a>);

/// The bytes that an answer holds.
pub uninterp spec fn response_bytes(response: FormatDataResponse<'_>) -> Seq<u8>;

/// Whether an answer is an error.
pub uninterp spec fn response_failed(response: FormatDataResponse<'_>) -> bool;

/// The bytes of an answer, by `FormatDataResponse::data`.
#[verifier::external_body]
pub(crate) fn response_data<'a>(response: &'a FormatDataResponse<'_>) -> (r: &'a [u8])
    ensures
        r@ == response_bytes(*response),
{
    response.data()
}

/// Whether an answer is an error, by `FormatDataResponse::is_error`.
#[verifier::external_body]
pub(crate) fn response_is_error(response: &FormatDataResponse<'_>) -> (r: bool)
    ensures
        r == response_failed(*response),
{
    response.is_error()
}

/// An answer of text, by `FormatDataResponse::new_unicode_string`: it holds the
/// text in UTF-16, low bytes first, and two zero bytes behind it.
#[verifier::external_body]
pub(crate) fn text_response(text: &str) -> (r: FormatDataResponse<'static>)
    ensures
        !response_failed(r),
        response_bytes(r) == wire_data(text@),
{
    FormatDataResponse::new_unicode_string(text)
}

/// An answer of bytes, by `FormatDataResponse::new_data`: it holds the bytes as
/// they are.
#[verifier::external_body]
pub(crate) fn data_response(data: Vec<u8>) -> (r: FormatDataResponse<'static>)
    ensures
        !response_failed(r),
        response_bytes(r) == data@,
{
    FormatDataResponse::new_data(data)
}

/// An error, by `FormatDataResponse::new_error`: it holds no bytes.
#[verifier::external_body]
pub(crate) fn error_response() -> (r: FormatDataResponse<'static>)
    ensures
        response_failed(r),
        response_bytes(r) == Seq::<u8>::empty(),
{
    FormatDataResponse::new_error()
}

} // verus!
