//! The deprecated real-user metadata field of `LazyCat` gRPC requests.

use vstd::prelude::*;
use vstd::utf8::*;

use crate::Error;

verus! {

broadcast use vstd::string::group_string_axioms;

/// The request type of `tonic`.
#[verifier::external_type_specification]
#[verifier::external_body]
#[verifier::reject_recursive_types(T)]
pub struct ExRequest<T>(tonic::Request<T>);

/// Go-compatible spelling of the deprecated real-user metadata field.
pub const REAL_UID_METADATA_KEY: &'static str = "X-Hc-User-Id";

/// The real-user metadata field as it is sent: lowercase.
pub const REAL_UID_WIRE_KEY: &'static str = "x-hc-user-id";

/// Whether a byte may stand in an HTTP header value: a visible byte other
/// than DEL, or a tab.
pub open spec fn header_value_byte(b: u8) -> bool {
    (b >= 32 && b != 127) || b == 9
}

/// Whether every byte may stand in an HTTP header value.
pub open spec fn header_value_valid(bytes: Seq<u8>) -> bool {
    forall|i: int| 0 <= i < bytes.len() ==> header_value_byte(#[trigger] bytes[i])
}

/// Whether a character may stand in an ASCII metadata key: a lowercase
/// letter, a digit, or one of ``!#$%&'*+-.^_`|~``.
pub open spec fn metadata_key_char(c: char) -> bool {
    ||| 'a' <= c <= 'z'
    ||| '0' <= c <= '9'
    ||| c == '!' || c == '#' || c == '$' || c == '%' || c == '&' || c == '\'' || c == '*'
    ||| c == '+' || c == '-' || c == '.' || c == '^' || c == '_' || c == '`' || c == '|' || c == '~'
}

/// Whether `key` is a valid ASCII metadata key: not empty, made of key
/// characters, and not ending in `-bin` (the suffix of binary keys).
pub open spec fn ascii_metadata_key(key: Seq<char>) -> bool {
    &&& key.len() > 0
    &&& forall|i: int| 0 <= i < key.len() ==> metadata_key_char(#[trigger] key[i])
    &&& !(key.len() >= 4 && key.subrange(key.len() - 4, key.len() as int) == seq!['-', 'b', 'i', 'n'])
}

/// Append an ASCII metadata entry to a request.
///
/// Calls `MetadataValue::<Ascii>::try_from(&str)`, which accepts the value
/// exactly when every byte may stand in an HTTP header value
/// (`http::HeaderValue::from_str`), then `MetadataMap::append`. A rejected
/// value leaves the request as it was; what an accepted one does to the
/// request's metadata is not stated.
#[verifier::external_body]
fn append_ascii_metadata<T>(request: &mut tonic::Request<T>, key: &'static str, value: &str) -> (r: Result<
    (),
    tonic::metadata::errors::InvalidMetadataValue,
>)
    requires
        ascii_metadata_key(key@),
    ensures
        r is Ok <==> header_value_valid(encode_utf8(value@)),
        r is Err ==> *final(request) == *old(request),
{
    let value = tonic::metadata::MetadataValue::try_from(value)?;
    request.metadata_mut().append(key, value);
    Ok(())
}

/// Append the deprecated real-user metadata field to a gRPC request.
///
/// An empty UID is a no-op. This compatibility metadata must never be treated
/// as an authorization boundary because callers can forge it.
pub fn with_real_uid<T>(request: &mut tonic::Request<T>, uid: &str) -> (r: Result<(), Error>)
    ensures
        uid@.len() == 0 ==> (r is Ok && *final(request) == *old(request)),
        uid@.len() > 0 ==> (r is Ok <==> header_value_valid(encode_utf8(uid@))),
        r is Err ==> (r matches Err(Error::InvalidMetadataValue(_)) && *final(request) == *old(request)),
{
    if uid.unicode_len() == 0 {
        return Ok(());
    }
    proof {
        reveal_strlit("x-hc-user-id");
        assert(REAL_UID_WIRE_KEY@.subrange(8, 12) =~= seq!['r', '-', 'i', 'd']);
    }
    match append_ascii_metadata(request, REAL_UID_WIRE_KEY, uid) {
        Ok(()) => Ok(()),
        Err(e) => Err(Error::InvalidMetadataValue(e)),
    }
}

} // verus!
