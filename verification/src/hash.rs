use vstd::prelude::*;

verus! {

/// What keccak-256 returns on a byte string.
pub uninterp spec fn keccak256_of(input: Seq<u8>) -> Seq<u8>;

/// Relies on ethers' `keccak256`: the digest is a function of the input
/// bytes alone and is 32 bytes long.
#[verifier::external_body]
pub fn keccak256(input: &Vec<u8>) -> (r: Vec<u8>)
    ensures
        r@ == keccak256_of(input@),
        r@.len() == 32,
{
    ethers::utils::keccak256(input.as_slice()).to_vec()
}

/// What EIP-55 checksum encoding returns on an address's 20 bytes.
pub uninterp spec fn checksum_of(address: Seq<u8>) -> Seq<u8>;

/// Relies on ethers' `to_checksum` without a chain id: the text depends on
/// the address bytes alone and is `0x` followed by 40 hex digits.
#[verifier::external_body]
fn to_checksum_bytes(address: &Vec<u8>) -> (r: Vec<u8>)
    requires
        address@.len() == 20,
    ensures
        r@ == checksum_of(address@),
        r@.len() == 42,
{
    ethers::utils::to_checksum(&ethers::types::Address::from_slice(address.as_slice()), None)
        .into_bytes()
}

/// The identifier of the mempool serving one EntryPoint on one chain: the
/// keccak hash of the ABI-encoded checksum text of the EntryPoint address,
/// followed by the chain id as a 256-bit word.
pub open spec fn spec_mempool_id(entry_point: Seq<u8>, chain_id: nat) -> Seq<u8> {
    keccak256_of(
        crate::abi::abi_encode_bytes(checksum_of(entry_point)) + crate::abi::be32_word(chain_id),
    )
}

pub fn mempool_id(entry_point: &crate::types::Address, chain_id: &crate::num::U256) -> (r: Vec<
    u8,
>)
    requires
        crate::types::is_address(entry_point@),
    ensures
        r@ == spec_mempool_id(entry_point@, crate::num::u256_val(*chain_id)),
        r@.len() == 32,
{
    let checksum = to_checksum_bytes(entry_point);
    let mut encoded = crate::abi::abi_encode_bytes_exec(&checksum);
    let mut chain_word = crate::abi::u256_be_bytes(chain_id);
    encoded.append(&mut chain_word);
    keccak256(&encoded)
}

} // verus!
