//! The fused record of one asset, and what the filters ask of it.

use vstd::prelude::*;
use vstd::string::StringExecFns;
use crate::asset_entry::{clone_text, text_of, AssetEntry, AssetEntryView, VerificationResult};
use crate::asset_id::AssetId;
use crate::hex::lower_hex;
use crate::text::{contains, str_contains};

verus! {

/// How the catalog's maintainers classify an asset. A flag that is not set
/// is unknown, not false.
#[derive(Debug, PartialEq, Eq)]
pub struct Metadata {
    pub amp: Option<bool>,
    pub stablecoin: Option<bool>,
    /// The rank among the main assets; none or zero is no main asset.
    pub weight: Option<u16>,
    /// The symbol of the trading pair that prices the asset.
    pub pair: Option<String>,
    pub meme: Option<bool>,
}

pub struct MetadataView {
    pub amp: Option<bool>,
    pub stablecoin: Option<bool>,
    pub weight: Option<u16>,
    pub pair: Option<Seq<char>>,
    pub meme: Option<bool>,
}

impl View for Metadata {
    type V = MetadataView;

    open spec fn view(&self) -> MetadataView {
        MetadataView {
            amp: self.amp,
            stablecoin: self.stablecoin,
            weight: self.weight,
            pair: text_of(self.pair),
            meme: self.meme,
        }
    }
}

impl Clone for Metadata {
    fn clone(&self) -> (r: Metadata)
        ensures
            r == *self,
    {
        Metadata {
            amp: self.amp,
            stablecoin: self.stablecoin,
            weight: self.weight,
            pair: clone_text(&self.pair),
            meme: self.meme,
        }
    }
}

/// One asset as the catalog shows it: the identifier, and whatever the
/// three sources hold for it.
#[derive(Debug, PartialEq, Eq)]
pub struct Asset {
    pub asset_id: AssetId,
    pub asset_entry: Option<AssetEntry>,
    /// The amount in circulation. The catalog never holds one.
    pub supply: Option<String>,
    pub metadata: Option<Metadata>,
    /// The icon, a PNG image in base64.
    pub icon: Option<String>,
}

pub struct AssetView {
    pub asset_id: Seq<u8>,
    pub asset_entry: Option<AssetEntryView>,
    pub supply: Option<Seq<char>>,
    pub metadata: Option<MetadataView>,
    pub icon: Option<Seq<char>>,
}

impl View for Asset {
    type V = AssetView;

    open spec fn view(&self) -> AssetView {
        AssetView {
            asset_id: self.asset_id@,
            asset_entry: match self.asset_entry {
                Some(e) => Some(e@),
                None => None,
            },
            supply: text_of(self.supply),
            metadata: match self.metadata {
                Some(m) => Some(m@),
                None => None,
            },
            icon: text_of(self.icon),
        }
    }
}

impl Clone for Asset {
    fn clone(&self) -> (r: Asset)
        ensures
            r == *self,
    {
        Asset {
            asset_id: self.asset_id,
            asset_entry: match &self.asset_entry {
                Some(e) => Some(e.clone()),
                None => None,
            },
            supply: clone_text(&self.supply),
            metadata: match &self.metadata {
                Some(m) => Some(m.clone()),
                None => None,
            },
            icon: clone_text(&self.icon),
        }
    }
}

/// What stands before the base64 text in the address of an icon.
pub open spec fn image_prefix() -> Seq<char> {
    "data:image/png;base64,"@
}

impl AssetView {
    /// A main asset: classified, with a weight above zero.
    pub open spec fn is_main(self) -> bool {
        self.metadata matches Some(m) && m.weight matches Some(w) && w > 0
    }

    pub open spec fn is_amp(self) -> bool {
        self.metadata matches Some(m) && m.amp == Some(true)
    }

    pub open spec fn is_stablecoin(self) -> bool {
        self.metadata matches Some(m) && m.stablecoin == Some(true)
    }

    pub open spec fn is_meme(self) -> bool {
        self.metadata matches Some(m) && m.meme == Some(true)
    }

    pub open spec fn is_iconed(self) -> bool {
        self.icon is Some
    }

    /// The identifier as it is written.
    pub open spec fn id_hex(self) -> Seq<char> {
        lower_hex(self.asset_id.reverse())
    }

    /// `needle` stands in the written identifier, in the name, in the
    /// ticker or in the issuer's domain.
    pub open spec fn mentions(self, needle: Seq<char>) -> bool {
        ||| contains(self.id_hex(), needle)
        ||| self.asset_entry matches Some(e) && e.mentions(needle)
    }

    /// The asset has an entry, and the entry's issuance data gives the
    /// identifier that the entry claims.
    pub open spec fn is_verified(self) -> bool {
        self.asset_entry matches Some(entry) && entry.verification()
            == VerificationResult::Verified
    }

    /// The address under which the icon is shown: the prefix, then the
    /// icon, if there is one.
    pub open spec fn image(self) -> Seq<char> {
        match self.icon {
            Some(icon) => image_prefix() + icon,
            None => image_prefix(),
        }
    }
}

impl Asset {
    /// The free-text filter: whether `text` stands in the written
    /// identifier or in one of the entry's strings. The first that holds it
    /// decides.
    pub fn filter(&self, text: &String) -> (r: bool)
        ensures
            r == self@.mentions(text@),
    {
        let id = self.asset_id.to_hex();
        if str_contains(id.as_str(), text.as_str()) {
            return true;
        }
        match &self.asset_entry {
            Some(entry) => entry.mentions(text.as_str()),
            None => false,
        }
    }

    pub fn is_main(&self) -> (r: bool)
        ensures
            r == self@.is_main(),
    {
        match &self.metadata {
            Some(m) => match m.weight {
                Some(w) => w > 0,
                None => false,
            },
            None => false,
        }
    }

    pub fn is_amp(&self) -> (r: bool)
        ensures
            r == self@.is_amp(),
    {
        match &self.metadata {
            Some(m) => match m.amp {
                Some(amp) => amp,
                None => false,
            },
            None => false,
        }
    }

    pub fn is_stablecoin(&self) -> (r: bool)
        ensures
            r == self@.is_stablecoin(),
    {
        match &self.metadata {
            Some(m) => match m.stablecoin {
                Some(stablecoin) => stablecoin,
                None => false,
            },
            None => false,
        }
    }

    pub fn is_meme(&self) -> (r: bool)
        ensures
            r == self@.is_meme(),
    {
        match &self.metadata {
            Some(m) => match m.meme {
                Some(meme) => meme,
                None => false,
            },
            None => false,
        }
    }

    pub fn is_iconed(&self) -> (r: bool)
        ensures
            r == self@.is_iconed(),
    {
        self.icon.is_some()
    }

    /// Whether the asset has an entry that is verified.
    pub fn is_verified(&self) -> (r: bool)
        ensures
            r == self@.is_verified(),
    {
        match &self.asset_entry {
            Some(entry) => entry.verifies() == VerificationResult::Verified,
            None => false,
        }
    }

    /// The address under which the icon is shown. Without an icon it is
    /// the prefix alone.
    pub fn image(&self) -> (r: String)
        ensures
            r@ == self@.image(),
    {
        let mut address = String::from_str("data:image/png;base64,");
        if let Some(icon) = &self.icon {
            address.append(icon.as_str());
        }
        address
    }
}

} // verus!
