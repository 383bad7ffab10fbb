use vstd::prelude::*;
use vstd::utf8::encode_utf8;
use crate::codec::{hex_encode, hex_lower};

verus! {

/// The fixed text that opens every message the service hashes.
pub const COIN_PREFIX_STR: &'static str = "CPEN 442 Coin2019";

/// Length in bytes of one MD5 input block.
pub const MD5_BLOCK_LEN: usize = 64;

/// `openssl::error::ErrorStack`, carried through to be mapped to a library
/// error.
#[verifier::external_type_specification]
#[verifier::external_body]
pub struct ExErrorStack(openssl::error::ErrorStack);

/// The MD5 digest of `data`.
pub uninterp spec fn md5_of(data: Seq<u8>) -> Seq<u8>;

/// Relies on `openssl::hash::hash` with `MessageDigest::md5()`: on success,
/// the 16-byte MD5 digest of `data`.
#[verifier::external_body]
pub(crate) fn md5(data: &[u8]) -> (r: Result<Vec<u8>, openssl::error::ErrorStack>)
    ensures
        r is Ok ==> r->Ok_0@ == md5_of(data@) && r->Ok_0@.len() == 16,
{
    openssl::hash::hash(openssl::hash::MessageDigest::md5(), data).map(|d| d.to_vec())
}

/// The bytes of the coin prefix.
pub open spec fn coin_prefix() -> Seq<u8> {
    encode_utf8(COIN_PREFIX_STR@)
}

/// The message whose digest covers a claim:
/// `prefix || prev_head || blob || miner_id`.
pub open spec fn claim_preimage(prev_head: Seq<u8>, blob: Seq<u8>, miner_id: Seq<u8>) -> Seq<u8> {
    coin_prefix() + prev_head + blob + miner_id
}

/// The digest that covers a claim of `blob` on top of `prev_head` by
/// `miner_id`.
pub open spec fn claim_digest(prev_head: Seq<u8>, blob: Seq<u8>, miner_id: Seq<u8>) -> Seq<u8> {
    md5_of(claim_preimage(prev_head, blob, miner_id))
}

/// Builds the message whose digest covers a claim.
pub fn claim_message(prev_head: &str, blob: &[u8], miner_id: &str) -> (r: Vec<u8>)
    ensures
        r@ == claim_preimage(encode_utf8(prev_head@), blob@, encode_utf8(miner_id@)),
{
    let mut msg = COIN_PREFIX_STR.as_bytes_vec();
    let p = prev_head.as_bytes_vec();
    let m = miner_id.as_bytes_vec();
    msg.extend_from_slice(p.as_slice());
    msg.extend_from_slice(blob);
    msg.extend_from_slice(m.as_slice());
    msg
}

/// The digest that covers a claim, and its lowercase hex form.
pub fn claim_hash(prev_head: &str, blob: &[u8], miner_id: &str) -> (r: Result<(Vec<u8>, String), openssl::error::ErrorStack>)
    ensures
        r is Ok ==> {
            let d = claim_digest(encode_utf8(prev_head@), blob@, encode_utf8(miner_id@));
            &&& r->Ok_0.0@ == d
            &&& r->Ok_0.0@.len() == 16
            &&& r->Ok_0.1@ == hex_lower(d)
        },
{
    let msg = claim_message(prev_head, blob, miner_id);
    match md5(msg.as_slice()) {
        Ok(d) => {
            let h = hex_encode(d.as_slice());
            Ok((d, h))
        },
        Err(e) => Err(e),
    }
}

} // verus!
