use base64::Engine;
use hmac::{Hmac, Mac};
use sha1::Sha1;
use vstd::prelude::*;

verus! {

/// Length of an HMAC-SHA1 tag in bytes.
pub const HMAC_SHA1_LEN: usize = 20;

/// The largest input that is handed to the base64 encoder.
pub const BASE64_MAX_INPUT: usize = 0x1000_0000;

/// The HMAC-SHA1 tag of `message` under `key`.
pub uninterp spec fn hmac_sha1_of(key: Seq<u8>, message: Seq<u8>) -> Seq<u8>;

/// The base64 text of `bytes`: standard alphabet, with padding.
pub uninterp spec fn base64_of(bytes: Seq<u8>) -> Seq<char>;

/// The `hmac` crate's `Hmac<Sha1>`: keyed with `key` (any length is
/// accepted), fed `message`, finalised. The tag is a function of key and
/// message alone and has twenty bytes.
#[verifier::external_body]
pub(crate) fn hmac_sha1(key: &[u8], message: &[u8]) -> (tag: Vec<u8>)
    ensures
        tag@ == hmac_sha1_of(key@, message@),
        tag@.len() == HMAC_SHA1_LEN,
{
    let mut mac = Hmac::<Sha1>::new_from_slice(key).unwrap();
    mac.update(message);
    mac.finalize().into_bytes().to_vec()
}

/// The `base64` crate's `STANDARD.encode`: the text is a function of the
/// bytes alone. The encoder fails on inputs whose encoded length does not
/// fit in `usize`; the bound keeps far below that.
#[verifier::external_body]
pub(crate) fn base64_standard(bytes: &[u8]) -> (text: String)
    requires
        bytes@.len() <= BASE64_MAX_INPUT,
    ensures
        text@ == base64_of(bytes@),
{
    base64::engine::general_purpose::STANDARD.encode(bytes)
}

} // verus!
