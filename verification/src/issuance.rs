//! How an asset's identifier follows from its issuance: the contract's hash,
//! the entropy of contract and spent output together, and the identifier that
//! the entropy gives. The hashing is done by the `elements` crate; what it
//! returns is known here by name only.

use vstd::prelude::*;

verus! {

#[verifier::external_type_specification]
#[verifier::external_body]
pub struct ExJsonError(serde_json::Error);

/// The hash of a contract written as JSON text, where the text is a JSON
/// object; `None` where it is not.
pub uninterp spec fn contract_hash_of(json: Seq<char>) -> Option<Seq<u8>>;

/// The entropy that an issuance spending output `vout` of transaction `txid`
/// under a contract with hash `contract_hash` has.
pub uninterp spec fn entropy_of(txid: Seq<u8>, vout: u32, contract_hash: Seq<u8>) -> Seq<u8>;

/// The identifier of the asset issued with this entropy.
pub uninterp spec fn asset_id_of(entropy: Seq<u8>) -> Seq<u8>;

/// The identifier that an issuance has which spends output `vout` of `txid`
/// under the contract `json`; `None` where the contract has no hash.
pub open spec fn issued_id(txid: Seq<u8>, vout: u32, json: Seq<char>) -> Option<Seq<u8>> {
    match contract_hash_of(json) {
        Some(hash) => Some(asset_id_of(entropy_of(txid, vout, hash))),
        None => None,
    }
}

/// `elements::ContractHash::from_json_contract`: the hash of the contract's
/// text, or the parser's error where the text is no JSON object. The result
/// depends on the text alone.
#[verifier::external_body]
pub(crate) fn contract_hash(json: &str) -> (r: Result<[u8; 32], serde_json::Error>)
    ensures
        match r {
            Ok(hash) => contract_hash_of(json@) == Some(hash@),
            Err(_) => contract_hash_of(json@) is None,
        },
{
    match elements::ContractHash::from_json_contract(json) {
        Ok(hash) => Ok(hash.to_byte_array()),
        Err(e) => Err(e),
    }
}

/// `elements::AssetId::generate_asset_entropy`, on the output that the
/// issuance spends and the hash of its contract. The result depends on these
/// alone.
#[verifier::external_body]
pub(crate) fn asset_entropy(txid: &[u8; 32], vout: u32, contract_hash: &[u8; 32]) -> (entropy: [u8; 32])
    ensures
        entropy@ == entropy_of(txid@, vout, contract_hash@),
{
    let prevout = elements::OutPoint::new(elements::Txid::from_byte_array(*txid), vout);
    let hash = elements::ContractHash::from_byte_array(*contract_hash);
    elements::AssetId::generate_asset_entropy(prevout, hash).to_byte_array()
}

/// `elements::AssetId::from_entropy`. The result depends on the entropy
/// alone.
#[verifier::external_body]
pub(crate) fn asset_id_from_entropy(entropy: &[u8; 32]) -> (id: [u8; 32])
    ensures
        id@ == asset_id_of(entropy@),
{
    let entropy = elements::AssetEntropy::from_byte_array(*entropy);
    elements::AssetId::from_entropy(entropy).to_byte_array()
}

} // verus!
