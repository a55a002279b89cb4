//! Authentication codes and digests over SHA-256.

use hmac::{Hmac, Mac};
use sha2::{Digest, Sha256};
use vstd::prelude::*;

verus! {

/// The HMAC-SHA-256 of `message` under `key`.
pub uninterp spec fn hmac_sha256(key: Seq<u8>, message: Seq<u8>) -> Seq<u8>;

/// The SHA-256 digest of `message`.
pub uninterp spec fn sha256(message: Seq<u8>) -> Seq<u8>;

/// `Hmac<Sha256>` of `hmac`, fed `context` and then `data`, and finalized: the code of their
/// concatenation, 32 bytes long. A key of any length is taken.
#[verifier::external_body]
pub(crate) fn tag(key: &[u8], context: &[u8], data: &[u8]) -> (r: Option<Vec<u8>>)
    ensures
        r is Some,
        r->Some_0@ == hmac_sha256(key@, context@ + data@),
        r->Some_0@.len() == 32,
{
    let mut mac = Hmac::<Sha256>::new_from_slice(key).ok()?;
    mac.update(context);
    mac.update(data);
    Some(mac.finalize().into_bytes().to_vec())
}

/// `Mac::verify_slice` on `Hmac<Sha256>` of `hmac`, fed `context` and then `data`: in constant
/// time, it takes exactly the code that finalizing gives. A key of any length is taken.
#[verifier::external_body]
pub(crate) fn accepts(key: &[u8], context: &[u8], data: &[u8], code: &[u8]) -> (r: Option<bool>)
    ensures
        r is Some,
        r->Some_0 == (code@ == hmac_sha256(key@, context@ + data@)),
{
    let mut mac = Hmac::<Sha256>::new_from_slice(key).ok()?;
    mac.update(context);
    mac.update(data);
    Some(mac.verify_slice(code).is_ok())
}

/// `Sha256::digest` of `sha2`: the digest of `message`, 32 bytes long.
#[verifier::external_body]
pub(crate) fn digest(message: &[u8]) -> (r: Vec<u8>)
    ensures
        r@ == sha256(message@),
        r@.len() == 32,
{
    Sha256::digest(message).to_vec()
}

} // verus!
