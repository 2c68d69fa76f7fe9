//! Calls into the Soroban host that the verified logic makes.
use vstd::prelude::*;
use soroban_sdk::Env;
use soroban_sdk::xdr::ToXdr;
use crate::util::be_bytes;

verus! {

#[verifier::external_type_specification]
#[verifier::external_body]
pub struct ExEnv(Env);

/// The SHA-256 digest of a byte string.
pub uninterp spec fn sha256_digest(data: Seq<u8>) -> Seq<u8>;

/// Calls `env.crypto().sha256` of soroban-sdk on `data`; the contract claims
/// that the 32 bytes returned are the SHA-256 digest of `data`, which depends
/// on `data` alone.
#[verifier::external_body]
pub(crate) fn sha256(env: &Env, data: &Vec<u8>) -> (r: [u8; 32])
    ensures
        r@ == sha256_digest(data@),
{
    let bytes = soroban_sdk::Bytes::from_slice(env, data.as_slice());
    env.crypto().sha256(&bytes).to_array()
}

/// The XDR bytes of an `i128` as the host serializes it: the tag of the
/// 128-bit integer value (10, four bytes), then the high and low halves,
/// that is the value in two's complement over 16 bytes, big-endian.
pub open spec fn i128_xdr(amount: i128) -> Seq<u8> {
    let unsigned: int = if amount < 0 {
        amount + 0x1_0000_0000_0000_0000_0000_0000_0000_0000
    } else {
        amount as int
    };
    seq![0u8, 0u8, 0u8, 10u8] + be_bytes(unsigned as nat, 16)
}

/// Calls `to_xdr` of soroban-sdk on `amount`; the contract claims the bytes
/// that `i128_xdr` spells out.
#[verifier::external_body]
pub(crate) fn xdr_of_i128(env: &Env, amount: i128) -> (r: Vec<u8>)
    ensures
        r@ == i128_xdr(amount),
{
    amount.to_xdr(env).iter().collect()
}

/// The XDR bytes of a 32-byte hash as the host serializes it: the tag of a
/// byte-string value (13), the length 32, each four bytes big-endian, then
/// the 32 bytes themselves.
pub open spec fn hash_xdr(hash: Seq<u8>) -> Seq<u8> {
    seq![0u8, 0u8, 0u8, 13u8] + seq![0u8, 0u8, 0u8, 32u8] + hash
}

/// Calls `to_xdr` of soroban-sdk on the `BytesN<32>` holding `hash`; the
/// contract claims the bytes that `hash_xdr` spells out.
#[verifier::external_body]
pub(crate) fn xdr_of_hash(env: &Env, hash: &[u8; 32]) -> (r: Vec<u8>)
    ensures
        r@ == hash_xdr(hash@),
{
    soroban_sdk::BytesN::<32>::from_array(env, hash).to_xdr(env).iter().collect()
}

} // verus!
