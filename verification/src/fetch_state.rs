//! What the page shows, how a request changes it, and what the catalog
//! answers once the outside work of a request is done.

use vstd::prelude::*;
use crate::asset::{Asset, AssetView};
use crate::asset_entry::text_of;
use crate::asset_id::AssetId;
use crate::hex::{hex_bytes, is_hex_of_len};
use crate::registry::{resolved, selected, Filter, Registry};
use crate::store::value_of;

verus! {

/// What the page shows.
#[derive(Debug, PartialEq, Eq)]
pub enum FetchState {
    /// Nothing was asked for yet.
    NotFetching,
    /// A request is under way.
    Fetching,
    /// A list of assets.
    Success(Vec<Asset>),
    /// One asset, with the amount in circulation and the price where they
    /// could be had, and whether its entry is verified.
    Single(Asset, Option<String>, Option<String>, bool),
    /// The request failed.
    Failed,
}

pub enum FetchStateView {
    NotFetching,
    Fetching,
    Success(Seq<AssetView>),
    Single(AssetView, Option<Seq<char>>, Option<Seq<char>>, bool),
    Failed,
}

impl View for FetchState {
    type V = FetchStateView;

    open spec fn view(&self) -> FetchStateView {
        match self {
            FetchState::NotFetching => FetchStateView::NotFetching,
            FetchState::Fetching => FetchStateView::Fetching,
            FetchState::Success(assets) => FetchStateView::Success(
                assets@.map_values(|a: Asset| a@),
            ),
            FetchState::Single(asset, supply, price, verified) => FetchStateView::Single(
                asset@,
                text_of(*supply),
                text_of(*price),
                *verified,
            ),
            FetchState::Failed => FetchStateView::Failed,
        }
    }
}

/// What reaches the page: a request of the user, or the result of one.
#[derive(Debug, PartialEq, Eq)]
pub enum Msg {
    /// A result to show.
    Show(FetchState),
    /// Show the list that was shown last.
    GetVisibleAssets,
    /// Show the assets that a filter lets through.
    GetAssets(Filter),
    /// Show the asset with this identifier.
    GetAsset(String),
    GetError,
}

/// The outside work that a request starts.
#[derive(Debug, PartialEq, Eq)]
pub enum Action {
    Nothing,
    /// Read the identifiers that were stored last, and resolve them.
    LoadVisible,
    /// Run the query, store the identifiers it gives, and resolve them.
    RunQuery(Filter),
    /// Ask for the asset's live values, and put the detail together.
    ShowAsset(String),
}

/// What the page shows once a message is taken in: the result that the
/// message brings, or that a request is under way.
pub open spec fn state_after(msg: Msg) -> FetchState {
    match msg {
        Msg::Show(state) => state,
        _ => FetchState::Fetching,
    }
}

/// The outside work that a message starts.
pub open spec fn action_of(msg: Msg) -> Action {
    match msg {
        Msg::Show(_) => Action::Nothing,
        Msg::GetVisibleAssets => Action::LoadVisible,
        Msg::GetAssets(filter) => Action::RunQuery(filter),
        Msg::GetAsset(id) => Action::ShowAsset(id),
        Msg::GetError => Action::Nothing,
    }
}

/// The code of a key that writes a digit or a letter of the Latin alphabet.
pub open spec fn alphanumeric(key_code: u32) -> bool {
    ||| 48 <= key_code <= 57
    ||| 65 <= key_code <= 90
    ||| 97 <= key_code <= 122
}

/// Whether a key writes a digit or a letter of the Latin alphabet.
pub fn is_alphanumeric(key_code: u32) -> (r: bool)
    ensures
        r == alphanumeric(key_code),
{
    (key_code >= 48 && key_code <= 57) || (key_code >= 65 && key_code <= 90) || (key_code >= 97
        && key_code <= 122)
}

impl Msg {
    /// What a key pressed in the search field asks for: a search for the
    /// field's text, if the key writes a digit or a letter.
    pub fn search_on_key(key_code: u32, value: String) -> (r: Option<Msg>)
        ensures
            r == if alphanumeric(key_code) {
                Some(Msg::GetAssets(Filter::Text(value)))
            } else {
                None
            },
    {
        if is_alphanumeric(key_code) {
            Some(Msg::GetAssets(Filter::Text(value)))
        } else {
            None
        }
    }
}

impl FetchState {
    /// Takes a message in. A result is shown as it comes. A request puts
    /// the page into `Fetching`, whatever it showed, and names the outside
    /// work to start.
    pub fn update(&mut self, msg: Msg) -> (action: Action)
        ensures
            *final(self) == state_after(msg),
            action == action_of(msg),
    {
        match msg {
            Msg::Show(state) => {
                *self = state;
                Action::Nothing
            },
            Msg::GetVisibleAssets => {
                *self = FetchState::Fetching;
                Action::LoadVisible
            },
            Msg::GetAssets(filter) => {
                *self = FetchState::Fetching;
                Action::RunQuery(filter)
            },
            Msg::GetAsset(id) => {
                *self = FetchState::Fetching;
                Action::ShowAsset(id)
            },
            Msg::GetError => {
                *self = FetchState::Fetching;
                Action::Nothing
            },
        }
    }
}

/// The detail of the asset whose identifier is written `id`, with the live
/// values that were had. A text that writes no identifier, or the
/// identifier of no asset in the catalog, fails.
pub open spec fn detail_of(
    catalog: Seq<(Seq<u8>, AssetView)>,
    id: Seq<char>,
    supply: Option<Seq<char>>,
    price: Option<Seq<char>>,
) -> FetchStateView {
    if is_hex_of_len(id, 32) {
        match value_of(catalog, hex_bytes(id).reverse()) {
            Some(asset) => FetchStateView::Single(asset, supply, price, asset.is_verified()),
            None => FetchStateView::Failed,
        }
    } else {
        FetchStateView::Failed
    }
}

impl Registry {
    /// The list to show for the identifiers asked for: the assets that the
    /// catalog has under them, in the order asked.
    pub fn visible(&self, ids: Vec<AssetId>) -> (state: FetchState)
        ensures
            state@ == FetchStateView::Success(resolved(self@, ids@)),
    {
        let ghost wanted = resolved(self@, ids@);
        let found = self.query_by_ids(ids);
        let mut assets: Vec<Asset> = Vec::new();
        let mut i: usize = 0;
        while i < found.len()
            invariant
                i <= found.len(),
                found@.map_values(|a: &Asset| a@) == wanted,
                assets@.map_values(|a: Asset| a@) == wanted.take(i as int),
            decreases found.len() - i,
        {
            let ghost before = assets@.map_values(|a: Asset| a@);
            let asset = found[i].clone();
            assert(asset@ == found@.map_values(|a: &Asset| a@)[i as int]);
            assets.push(asset);
            assert(assets@.map_values(|a: Asset| a@) =~= before.push(wanted[i as int]));
            assert(wanted.take(i + 1) =~= wanted.take(i as int).push(wanted[i as int]));
            i += 1;
        }
        assert(wanted.take(found.len() as int) =~= wanted);
        FetchState::Success(assets)
    }

    /// Runs a query: the identifiers that the filter lets through, to be
    /// stored, and the list to show for them.
    pub fn listing(&self, filter: Filter) -> (r: (Vec<AssetId>, FetchState))
        ensures
            r.0@.map_values(|id: AssetId| id@) == selected(self@, filter@),
            r.1@ == FetchStateView::Success(resolved(self@, r.0@)),
    {
        let ids = self.query(filter);
        let mut copy: Vec<AssetId> = Vec::new();
        let mut i: usize = 0;
        while i < ids.len()
            invariant
                i <= ids.len(),
                copy@ == ids@.take(i as int),
            decreases ids.len() - i,
        {
            copy.push(ids[i]);
            assert(copy@ =~= ids@.take(i + 1));
            i += 1;
        }
        assert(ids@.take(ids.len() as int) =~= ids@);
        let state = self.visible(copy);
        (ids, state)
    }

    /// The detail to show for the asset whose identifier is written `id`,
    /// once its live values were asked for. Either of them may be missing.
    pub fn detail(&self, id: &str, supply: Option<String>, price: Option<String>) -> (state:
        FetchState)
        ensures
            state@ == detail_of(self@, id@, text_of(supply), text_of(price)),
    {
        match AssetId::from_hex(id) {
            Some(asset_id) => match self.query_by_id(asset_id) {
                Some(asset) => {
                    let verified = asset.is_verified();
                    FetchState::Single(asset.clone(), supply, price, verified)
                },
                None => FetchState::Failed,
            },
            None => FetchState::Failed,
        }
    }
}

} // verus!
