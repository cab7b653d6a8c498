//! Record addresses, derived from the owner's key and a nonce.

use vstd::prelude::*;
use crate::error::ErrorCode;
use crate::pubkey::Pubkey;

verus! {

/// The error of the host's key functions.
#[verifier::external_type_specification]
#[verifier::external_body]
pub struct ExPubkeyError(anchor_lang::solana_program::pubkey::PubkeyError);

/// What `Pubkey::create_program_address` makes of a list of seeds and a
/// program id: the address, or `None` where it reports an error.
pub uninterp spec fn program_address(seeds: Seq<Seq<u8>>, program_id: Seq<u8>) -> Option<Seq<u8>>;

/// Whether thirty-two bytes are a point of the curve on which public keys
/// lie, as `Pubkey::is_on_curve` finds. Only a point of the curve has a
/// private key that can sign for it.
pub uninterp spec fn on_curve(key: Seq<u8>) -> bool;

/// Calls `Pubkey::is_on_curve` of `anchor_lang::solana_program`, which
/// tries to read the bytes as a point of the curve. The contract only names
/// the answer: the same bytes give the same one.
#[verifier::external_body]
fn is_curve_point(key: &[u8; 32]) -> (found: bool)
    ensures
        found == on_curve(key@),
{
    anchor_lang::solana_program::pubkey::Pubkey::new_from_array(*key).is_on_curve()
}

/// Calls `Pubkey::create_program_address` of `anchor_lang::solana_program`.
/// The call hashes the seeds, the program id and a fixed marker, and fails
/// where the digest is a point of the curve or a seed is over its limit.
/// The contract names that result: the same seeds and program id give the
/// same answer, and an address that comes back is `program_address` of
/// them. It also says what the call tests before it gives an address: the
/// address is no point of the curve.
#[verifier::external_body]
fn create_program_address(seeds: &Vec<Vec<u8>>, program_id: &[u8; 32]) -> (res: Result<
    [u8; 32],
    anchor_lang::solana_program::pubkey::PubkeyError,
>)
    ensures
        match res {
            Ok(address) => program_address(seeds.deep_view(), program_id@) == Some(address@)
                && !on_curve(address@),
            Err(_) => program_address(seeds.deep_view(), program_id@) is None,
        },
{
    let parts: Vec<&[u8]> = seeds.iter().map(Vec::as_slice).collect();
    let id = anchor_lang::solana_program::pubkey::Pubkey::new_from_array(*program_id);
    match anchor_lang::solana_program::pubkey::Pubkey::create_program_address(&parts, &id) {
        Ok(key) => Ok(key.to_bytes()),
        Err(e) => Err(e),
    }
}

/// The seeds of a record: the owner's key, then the nonce as one byte.
pub open spec fn record_seeds(authority: Seq<u8>, bump: u8) -> Seq<Seq<u8>> {
    seq![authority, seq![bump]]
}

/// The address of the record of `authority` under the nonce `bump`, or
/// `None` where that nonce yields no address. An address is what the host
/// makes of the record's seeds, and is no point of the curve.
pub open spec fn derived_address(authority: Seq<u8>, bump: u8, program_id: Seq<u8>) -> Option<
    Seq<u8>,
> {
    match program_address(record_seeds(authority, bump), program_id) {
        Some(address) => if on_curve(address) {
            None
        } else {
            Some(address)
        },
        None => None,
    }
}

/// Copies the bytes of a key into a vector.
fn key_bytes(key: &Pubkey) -> (out: Vec<u8>)
    ensures
        out@ == key@,
{
    let mut out: Vec<u8> = Vec::new();
    let mut i: usize = 0;
    while i < 32
        invariant
            i <= 32,
            out@.len() == i,
            forall|j: int| 0 <= j < i ==> out@[j] == key.bytes[j],
        decreases 32 - i,
    {
        out.push(key.bytes[i]);
        i += 1;
    }
    assert(out@ =~= key@);
    out
}

/// What a derivation is answered with: the address, or
/// `DerivationCollision` where the nonce yields none.
pub open spec fn derive_outcome(authority: Seq<u8>, bump: u8, program_id: Seq<u8>) -> Result<
    Seq<u8>,
    ErrorCode,
> {
    match derived_address(authority, bump, program_id) {
        Some(address) => Ok(address),
        None => Err(ErrorCode::DerivationCollision),
    }
}

/// The answer of a derivation, with the address as its bytes.
pub open spec fn address_view(res: Result<Pubkey, ErrorCode>) -> Result<Seq<u8>, ErrorCode> {
    match res {
        Ok(address) => Ok(address@),
        Err(e) => Err(e),
    }
}

/// Whether `key` is a point of the curve, and so a key that a signature
/// can come from. No derived address is.
pub fn is_on_curve(key: &Pubkey) -> (found: bool)
    ensures
        found == on_curve(key@),
{
    is_curve_point(&key.bytes)
}

/// Derives the address of the record that `authority` owns under the nonce
/// `bump`. The answer depends on the three arguments alone, and an address
/// is never a point of the curve, so that no private key signs for it.
/// Where the nonce yields a point of the curve the answer is
/// `DerivationCollision`, and the caller is to try another nonce: this
/// function searches for none.
pub fn derive(authority: &Pubkey, bump: u8, program_id: &Pubkey) -> (res: Result<Pubkey, ErrorCode>)
    ensures
        address_view(res) == derive_outcome(authority@, bump, program_id@),
        res matches Ok(address) ==> !on_curve(address@),
{
    let mut seeds: Vec<Vec<u8>> = Vec::new();
    seeds.push(key_bytes(authority));
    let mut nonce: Vec<u8> = Vec::new();
    nonce.push(bump);
    seeds.push(nonce);
    assert(seeds.deep_view() =~= record_seeds(authority@, bump)) by {
        assert(seeds@[0]@ =~= authority@);
        assert(seeds@[1]@ =~= seq![bump]);
        assert(seeds.deep_view()[0] =~= authority@);
        assert(seeds.deep_view()[1] =~= seq![bump]);
    }
    match create_program_address(&seeds, &program_id.bytes) {
        Ok(bytes) => Ok(Pubkey::new(bytes)),
        Err(_) => Err(ErrorCode::DerivationCollision),
    }
}

} // verus!
