//! Identifiers: of an asset, and of a transaction.

use vstd::prelude::*;
use vstd::std_specs::cmp::PartialEqSpecImpl;
use crate::hex::{hex_bytes, is_hex_of_len, lower_hex};

verus! {

/// The name of an issued asset: 32 bytes that a hash gave, held in the order
/// in which they were hashed. Written out, the bytes come last first.
#[derive(Clone, Copy, Debug, Hash)]
pub struct AssetId {
    pub bytes: [u8; 32],
}

impl View for AssetId {
    type V = Seq<u8>;

    open spec fn view(&self) -> Seq<u8> {
        self.bytes@
    }
}

/// Whether two arrays hold the same bytes.
pub fn same_bytes(a: &[u8; 32], b: &[u8; 32]) -> (r: bool)
    ensures
        r == (a@ == b@),
{
    let mut i: usize = 0;
    while i < 32
        invariant
            i <= 32,
            forall|j: int| 0 <= j < i ==> a@[j] == b@[j],
        decreases 32 - i,
    {
        if a[i] != b[i] {
            return false;
        }
        i += 1;
    }
    assert(a@ =~= b@);
    true
}

impl PartialEq for AssetId {
    fn eq(&self, other: &AssetId) -> (r: bool) {
        same_bytes(&self.bytes, &other.bytes)
    }
}

impl Eq for AssetId {

}

impl PartialEqSpecImpl for AssetId {
    open spec fn obeys_eq_spec() -> bool {
        true
    }

    open spec fn eq_spec(&self, other: &AssetId) -> bool {
        self@ == other@
    }
}

/// What `elements::AssetId` prints for these bytes: lower-case hexadecimal,
/// two digits a byte, the last byte first.
#[verifier::external_body]
fn display_asset_id(bytes: &[u8; 32]) -> (text: String)
    ensures
        text@ == lower_hex(bytes@.reverse()),
{
    elements::AssetId::from_byte_array(*bytes).to_string()
}

/// What `elements::AssetId::from_str` reads: exactly 64 hexadecimal digits of
/// either case, which write the bytes last first; anything else is refused.
#[verifier::external_body]
fn parse_asset_id(text: &str) -> (r: Option<[u8; 32]>)
    ensures
        r is Some <==> is_hex_of_len(text@, 32),
        r matches Some(bytes) ==> bytes@ == hex_bytes(text@).reverse(),
{
    match text.parse::<elements::AssetId>() {
        Ok(id) => Some(id.to_byte_array()),
        Err(_) => None,
    }
}

impl AssetId {
    pub fn from_byte_array(bytes: [u8; 32]) -> (id: AssetId)
        ensures
            id.bytes == bytes,
    {
        AssetId { bytes }
    }

    pub fn to_byte_array(self) -> (bytes: [u8; 32])
        ensures
            bytes == self.bytes,
    {
        self.bytes
    }

    /// The identifier as it is written: 64 lower-case hexadecimal digits.
    pub fn to_hex(&self) -> (text: String)
        ensures
            text@ == lower_hex(self@.reverse()),
    {
        display_asset_id(&self.bytes)
    }

    /// Reads an identifier as `to_hex` writes it (upper case is read too).
    pub fn from_hex(text: &str) -> (r: Option<AssetId>)
        ensures
            r is Some <==> is_hex_of_len(text@, 32),
            r matches Some(id) ==> id@ == hex_bytes(text@).reverse(),
    {
        match parse_asset_id(text) {
            Some(bytes) => Some(AssetId { bytes }),
            None => None,
        }
    }
}

/// The identifier of a transaction: 32 bytes, in the order in which they
/// were hashed.
#[derive(Clone, Copy, Debug, PartialEq, Eq, Hash)]
pub struct Txid {
    pub bytes: [u8; 32],
}

impl View for Txid {
    type V = Seq<u8>;

    open spec fn view(&self) -> Seq<u8> {
        self.bytes@
    }
}

impl Txid {
    pub fn from_byte_array(bytes: [u8; 32]) -> (id: Txid)
        ensures
            id.bytes == bytes,
    {
        Txid { bytes }
    }

    pub fn to_byte_array(self) -> (bytes: [u8; 32])
        ensures
            bytes == self.bytes,
    {
        self.bytes
    }

    /// The identifier of no transaction: all zero.
    pub fn all_zeros() -> (id: Txid)
        ensures
            id@ == Seq::new(32, |i: int| 0u8),
    {
        let id = Txid { bytes: [0u8; 32] };
        assert(id@ =~= Seq::new(32, |i: int| 0u8));
        id
    }
}

} // verus!
