//! The two forms in which an issuer's entry comes, and how the short form is
//! read.

use vstd::prelude::*;
use crate::asset_entry::{AssetEntry, AssetEntryView, Entity, EntityView};
use crate::asset_id::AssetId;

verus! {

/// One place of a short entry.
#[derive(Debug, PartialEq, Eq)]
pub enum Cell {
    Text(String),
    /// A whole number that is not negative.
    Integer(u64),
    /// Anything else: nothing, a truth value, a fraction, a list, an object.
    Other,
}

pub enum CellView {
    Text(Seq<char>),
    Integer(u64),
    Other,
}

impl View for Cell {
    type V = CellView;

    open spec fn view(&self) -> CellView {
        match self {
            Cell::Text(s) => CellView::Text(s@),
            Cell::Integer(n) => CellView::Integer(*n),
            Cell::Other => CellView::Other,
        }
    }
}

impl CellView {
    /// The text in the cell, if text is what it holds.
    pub open spec fn text(self) -> Option<Seq<char>> {
        match self {
            CellView::Text(s) => Some(s),
            _ => None,
        }
    }
}

impl Cell {
    /// The text in the cell, if text is what it holds.
    pub fn text(&self) -> (r: Option<String>)
        ensures
            match r {
                Some(s) => self@.text() == Some(s@),
                None => self@.text() is None,
            },
    {
        match self {
            Cell::Text(s) => Some(s.clone()),
            _ => None,
        }
    }
}

/// An entry as a source gives it.
#[derive(Debug, PartialEq, Eq)]
pub enum EntrySource {
    /// The full form: every field by name.
    Full(AssetEntry),
    /// The short form: domain, ticker, name and precision, in this order.
    Compact(Vec<Cell>),
}

pub enum EntrySourceView {
    Full(AssetEntryView),
    Compact(Seq<CellView>),
}

impl View for EntrySource {
    type V = EntrySourceView;

    open spec fn view(&self) -> EntrySourceView {
        match self {
            EntrySource::Full(e) => EntrySourceView::Full(e@),
            EntrySource::Compact(row) => EntrySourceView::Compact(row@.map_values(|c: Cell| c@)),
        }
    }
}

/// Why no catalog was built.
#[derive(Clone, Copy, Debug, PartialEq, Eq)]
pub enum LoadError {
    /// The short entry under this identifier has not four places, or its
    /// precision is no whole number.
    MalformedEntry(AssetId),
}

/// A short entry can be read: it has four places and the last is a whole
/// number.
pub open spec fn compact_ok(row: Seq<CellView>) -> bool {
    row.len() == 4 && row[3] is Integer
}

/// The entry that a short entry under `asset_id` stands for. Domain and
/// ticker are taken where they are text, the name is empty where it is not,
/// and of the precision the lowest eight bits count. Contract, issuance,
/// issuer key and version are unknown.
pub open spec fn compact_entry(asset_id: Seq<u8>, row: Seq<CellView>) -> AssetEntryView {
    AssetEntryView {
        asset_id,
        contract: None,
        entity: Some(EntityView { domain: row[0].text() }),
        issuance_prevout: None,
        issuance_txin: None,
        issuer_pubkey: None,
        name: match row[2].text() {
            Some(name) => name,
            None => Seq::empty(),
        },
        precision: (row[3]->Integer_0 % 256) as u8,
        ticker: row[1].text(),
        version: None,
    }
}

impl EntrySourceView {
    /// Whether the source gives an entry.
    pub open spec fn readable(self) -> bool {
        match self {
            EntrySourceView::Full(_) => true,
            EntrySourceView::Compact(row) => compact_ok(row),
        }
    }

    /// The entry that the source gives under `asset_id`.
    pub open spec fn entry(self, asset_id: Seq<u8>) -> AssetEntryView {
        match self {
            EntrySourceView::Full(e) => e,
            EntrySourceView::Compact(row) => compact_entry(asset_id, row),
        }
    }
}

impl AssetEntry {
    /// Reads a short entry.
    pub fn from_compact(asset_id: AssetId, row: &Vec<Cell>) -> (r: Result<AssetEntry, LoadError>)
        ensures
            match r {
                Ok(entry) => compact_ok(row@.map_values(|c: Cell| c@)) && entry@ == compact_entry(
                    asset_id@,
                    row@.map_values(|c: Cell| c@),
                ),
                Err(LoadError::MalformedEntry(id)) => !compact_ok(row@.map_values(|c: Cell| c@))
                    && id@ == asset_id@,
            },
    {
        if row.len() != 4 {
            return Err(LoadError::MalformedEntry(asset_id));
        }
        let precision: u64 = match &row[3] {
            Cell::Integer(n) => *n,
            _ => { return Err(LoadError::MalformedEntry(asset_id)); },
        };
        let name = match row[2].text() {
            Some(name) => name,
            None => String::new(),
        };
        Ok(
            AssetEntry {
                asset_id,
                contract: None,
                entity: Some(Entity { domain: row[0].text() }),
                issuance_prevout: None,
                issuance_txin: None,
                issuer_pubkey: None,
                name,
                precision: (precision % 256) as u8,
                ticker: row[1].text(),
                version: None,
            },
        )
    }
}

impl EntrySource {
    /// The entry that the source gives under `asset_id`, in whichever form
    /// it came.
    pub fn decode(&self, asset_id: AssetId) -> (r: Result<AssetEntry, LoadError>)
        ensures
            match r {
                Ok(entry) => self@.readable() && entry@ == self@.entry(asset_id@),
                Err(LoadError::MalformedEntry(id)) => !self@.readable() && id@ == asset_id@,
            },
    {
        match self {
            EntrySource::Full(entry) => Ok(entry.clone()),
            EntrySource::Compact(row) => AssetEntry::from_compact(asset_id, row),
        }
    }
}

} // verus!
