//! What an issuer declares of an asset, and whether the declaration commits
//! to the asset's identifier.

use vstd::prelude::*;
use crate::asset_id::{AssetId, Txid};
use crate::issuance::{asset_entropy, asset_id_from_entropy, contract_hash, issued_id};
use crate::text::{contains, str_contains};

verus! {

/// The text behind an optional string.
pub open spec fn text_of(s: Option<String>) -> Option<Seq<char>> {
    match s {
        Some(s) => Some(s@),
        None => None,
    }
}

/// The output that an issuance spent.
#[derive(Debug, PartialEq, Eq)]
pub struct Prevout {
    pub txid: Txid,
    pub vout: u32,
}

pub struct PrevoutView {
    pub txid: Seq<u8>,
    pub vout: u32,
}

impl View for Prevout {
    type V = PrevoutView;

    open spec fn view(&self) -> PrevoutView {
        PrevoutView { txid: self.txid@, vout: self.vout }
    }
}

impl Prevout {
    pub fn new(txid: Txid, vout: u32) -> (r: Prevout)
        ensures
            r@ == (PrevoutView { txid: txid@, vout }),
    {
        Prevout { txid, vout }
    }
}

impl Clone for Prevout {
    fn clone(&self) -> (r: Prevout)
        ensures
            r == *self,
    {
        Prevout { txid: self.txid, vout: self.vout }
    }
}

impl Default for Prevout {
    fn default() -> (r: Prevout)
        ensures
            r@ == (PrevoutView { txid: Seq::new(32, |i: int| 0u8), vout: 0 }),
    {
        Prevout { txid: Txid::all_zeros(), vout: 0 }
    }
}

/// The input of the transaction that holds an issuance.
#[derive(Debug, PartialEq, Eq)]
pub struct Txin {
    pub txid: Txid,
    pub vin: u32,
}

pub struct TxinView {
    pub txid: Seq<u8>,
    pub vin: u32,
}

impl View for Txin {
    type V = TxinView;

    open spec fn view(&self) -> TxinView {
        TxinView { txid: self.txid@, vin: self.vin }
    }
}

impl Txin {
    pub fn new(txid: Txid, vin: u32) -> (r: Txin)
        ensures
            r@ == (TxinView { txid: txid@, vin }),
    {
        Txin { txid, vin }
    }
}

impl Clone for Txin {
    fn clone(&self) -> (r: Txin)
        ensures
            r == *self,
    {
        Txin { txid: self.txid, vin: self.vin }
    }
}

impl Default for Txin {
    fn default() -> (r: Txin)
        ensures
            r@ == (TxinView { txid: Seq::new(32, |i: int| 0u8), vin: 0 }),
    {
        Txin { txid: Txid::all_zeros(), vin: 0 }
    }
}

/// Who issued an asset, as far as the catalog reads it: the issuer's
/// internet domain.
#[derive(Debug, PartialEq, Eq)]
pub struct Entity {
    pub domain: Option<String>,
}

pub struct EntityView {
    pub domain: Option<Seq<char>>,
}

impl View for Entity {
    type V = EntityView;

    open spec fn view(&self) -> EntityView {
        EntityView { domain: text_of(self.domain) }
    }
}

impl Clone for Entity {
    fn clone(&self) -> (r: Entity)
        ensures
            r == *self,
    {
        Entity { domain: clone_text(&self.domain) }
    }
}

/// A copy of an optional string.
pub fn clone_text(s: &Option<String>) -> (r: Option<String>)
    ensures
        r == *s,
{
    match s {
        Some(s) => Some(s.clone()),
        None => None,
    }
}

/// What the issuer declares of an asset.
#[derive(Debug, PartialEq, Eq)]
pub struct AssetEntry {
    /// The identifier that the entry claims.
    pub asset_id: AssetId,
    /// The contract, as the JSON text that the issuer committed to.
    pub contract: Option<String>,
    pub entity: Option<Entity>,
    /// The output that the issuance spent.
    pub issuance_prevout: Option<Prevout>,
    /// The input that holds the issuance.
    pub issuance_txin: Option<Txin>,
    pub issuer_pubkey: Option<String>,
    pub name: String,
    /// The number of digits after the decimal separator.
    pub precision: u8,
    pub ticker: Option<String>,
    /// The version of the registry's protocol.
    pub version: Option<u8>,
}

pub struct AssetEntryView {
    pub asset_id: Seq<u8>,
    pub contract: Option<Seq<char>>,
    pub entity: Option<EntityView>,
    pub issuance_prevout: Option<PrevoutView>,
    pub issuance_txin: Option<TxinView>,
    pub issuer_pubkey: Option<Seq<char>>,
    pub name: Seq<char>,
    pub precision: u8,
    pub ticker: Option<Seq<char>>,
    pub version: Option<u8>,
}

impl View for AssetEntry {
    type V = AssetEntryView;

    open spec fn view(&self) -> AssetEntryView {
        AssetEntryView {
            asset_id: self.asset_id@,
            contract: text_of(self.contract),
            entity: match self.entity {
                Some(e) => Some(e@),
                None => None,
            },
            issuance_prevout: match self.issuance_prevout {
                Some(p) => Some(p@),
                None => None,
            },
            issuance_txin: match self.issuance_txin {
                Some(t) => Some(t@),
                None => None,
            },
            issuer_pubkey: text_of(self.issuer_pubkey),
            name: self.name@,
            precision: self.precision,
            ticker: text_of(self.ticker),
            version: self.version,
        }
    }
}

/// How holding an entry against its identifier ended.
#[derive(Clone, Copy, Debug, PartialEq, Eq, Structural)]
pub enum VerificationResult {
    /// The issuance data gives the identifier that the entry claims.
    Verified,
    /// The issuance data gives another identifier.
    Mismatch,
    /// The issuance data gives no identifier: the spent output is not
    /// known, or there is no contract that can be hashed.
    MalformedIssuance,
}

impl AssetEntryView {
    /// The issuer's domain, where the entry names one.
    pub open spec fn domain(self) -> Option<Seq<char>> {
        match self.entity {
            Some(e) => e.domain,
            None => None,
        }
    }

    /// The identifier that the entry's issuance data gives, where it gives
    /// one.
    pub open spec fn issued_id(self) -> Option<Seq<u8>> {
        match (self.issuance_prevout, self.contract) {
            (Some(prevout), Some(json)) => issued_id(prevout.txid, prevout.vout, json),
            _ => None,
        }
    }

    /// How the verification of this entry ends.
    pub open spec fn verification(self) -> VerificationResult {
        verdict(self.asset_id, self.issued_id())
    }

    /// `needle` stands in the name, in the ticker or in the issuer's domain.
    pub open spec fn mentions(self, needle: Seq<char>) -> bool {
        ||| contains(self.name, needle)
        ||| self.ticker matches Some(t) && contains(t, needle)
        ||| self.domain() matches Some(d) && contains(d, needle)
    }
}

/// How a claimed identifier fares against the one that was derived.
pub open spec fn verdict(claimed: Seq<u8>, derived: Option<Seq<u8>>) -> VerificationResult {
    match derived {
        None => VerificationResult::MalformedIssuance,
        Some(id) => if id == claimed {
            VerificationResult::Verified
        } else {
            VerificationResult::Mismatch
        },
    }
}

/// An entry whose identifier is the one that its issuance data gives is
/// verified.
pub proof fn lemma_issued_entry_verifies(entry: AssetEntryView)
    requires
        entry.issued_id() == Some(entry.asset_id),
    ensures
        entry.verification() == VerificationResult::Verified,
{
}

/// A verification ends in exactly one of three ways, and the issuance data and
/// the claimed identifier decide which.
pub proof fn lemma_verification_cases(entry: AssetEntryView)
    ensures
        entry.verification() == VerificationResult::Verified <==> entry.issued_id() == Some(
            entry.asset_id,
        ),
        entry.verification() == VerificationResult::Mismatch <==> (entry.issued_id() is Some
            && entry.issued_id() != Some(entry.asset_id)),
        entry.verification() == VerificationResult::MalformedIssuance <==> entry.issued_id() is None,
        entry.issuance_prevout is None ==> entry.verification()
            == VerificationResult::MalformedIssuance,
{
}

/// Of two entries that claim one identifier and whose issuance data give
/// two, at most one is verified: where the first is, the second is a
/// mismatch.
pub proof fn lemma_changed_issuance_mismatches(entry: AssetEntryView, changed: AssetEntryView)
    requires
        entry.verification() == VerificationResult::Verified,
        changed.asset_id == entry.asset_id,
        changed.issued_id() is Some,
        changed.issued_id() != entry.issued_id(),
    ensures
        changed.verification() == VerificationResult::Mismatch,
{
}

impl Clone for AssetEntry {
    fn clone(&self) -> (r: AssetEntry)
        ensures
            r == *self,
    {
        AssetEntry {
            asset_id: self.asset_id,
            contract: clone_text(&self.contract),
            entity: match &self.entity {
                Some(e) => Some(e.clone()),
                None => None,
            },
            issuance_prevout: match &self.issuance_prevout {
                Some(p) => Some(p.clone()),
                None => None,
            },
            issuance_txin: match &self.issuance_txin {
                Some(t) => Some(t.clone()),
                None => None,
            },
            issuer_pubkey: clone_text(&self.issuer_pubkey),
            name: self.name.clone(),
            precision: self.precision,
            ticker: clone_text(&self.ticker),
            version: self.version,
        }
    }
}

impl AssetEntry {
    /// The issuer's domain, where the entry names one.
    pub fn domain(&self) -> (r: Option<&str>)
        ensures
            match r {
                Some(d) => self@.domain() == Some(d@),
                None => self@.domain() is None,
            },
    {
        match &self.entity {
            Some(e) => match &e.domain {
                Some(d) => Some(d.as_str()),
                None => None,
            },
            None => None,
        }
    }

    /// Whether `text` stands in the name, in the ticker or in the issuer's
    /// domain. The first that holds it decides.
    pub fn mentions(&self, text: &str) -> (r: bool)
        ensures
            r == self@.mentions(text@),
    {
        if str_contains(self.name.as_str(), text) {
            return true;
        }
        if let Some(ticker) = &self.ticker {
            if str_contains(ticker.as_str(), text) {
                return true;
            }
        }
        match self.domain() {
            Some(domain) => str_contains(domain, text),
            None => false,
        }
    }

    /// The identifier that the issuance data gives: the hash of the
    /// contract, joined with the spent output into the entropy, which gives
    /// the identifier. `None` where no output is known or the contract
    /// cannot be hashed.
    pub fn issued_id(&self) -> (r: Option<AssetId>)
        ensures
            match r {
                Some(id) => self@.issued_id() == Some(id@),
                None => self@.issued_id() is None,
            },
    {
        let prevout = match &self.issuance_prevout {
            Some(p) => p,
            None => { return None; },
        };
        let json = match &self.contract {
            Some(c) => c,
            None => { return None; },
        };
        match contract_hash(json.as_str()) {
            Ok(hash) => {
                let entropy = asset_entropy(&prevout.txid.bytes, prevout.vout, &hash);
                Some(AssetId::from_byte_array(asset_id_from_entropy(&entropy)))
            },
            Err(_) => None,
        }
    }

    /// Holds a derived identifier against the one that the entry claims.
    pub fn judge(&self, derived: Option<AssetId>) -> (r: VerificationResult)
        ensures
            r == verdict(self@.asset_id, match derived {
                Some(id) => Some(id@),
                None => None,
            }),
    {
        match derived {
            None => VerificationResult::MalformedIssuance,
            Some(id) => if id == self.asset_id {
                VerificationResult::Verified
            } else {
                VerificationResult::Mismatch
            },
        }
    }

    /// Checks that the issuance data commits to the identifier that the
    /// entry claims.
    pub fn verifies(&self) -> (r: VerificationResult)
        ensures
            r == self@.verification(),
    {
        let derived = self.issued_id();
        self.judge(derived)
    }
}

} // verus!
