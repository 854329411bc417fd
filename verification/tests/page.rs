use enciclopedia::asset::Metadata;
use enciclopedia::asset_entry::{AssetEntry, Entity, Prevout};
use enciclopedia::asset_id::{AssetId, Txid};
use enciclopedia::fetch_state::{is_alphanumeric, Action, FetchState, Msg};
use enciclopedia::registry::{Filter, Registry};
use enciclopedia::source::EntrySource;
use indexmap::IndexMap;

const USDT_ID: &str = "ce091c998b83c78bb71a632313ba3760f1763d9cfcffae02258ffa9865a37bd2";
const USDT_PREVOUT: &str = "9596d259270ef5bac0020435e6d859aea633409483ba64e232b8ba04ce288668";
const USDT_CONTRACT: &str = r#"{"entity":{"domain":"tether.to"},"issuer_pubkey":"0337cceec0beea0232ebe14cba0197a9fbd45fcf2ec946749de920e71434c2b904","name":"Tether USD","precision":8,"ticker":"USDt","version":0}"#;

fn reversed(hex: &str) -> [u8; 32] {
    AssetId::from_hex(hex).unwrap().to_byte_array()
}

fn usdt(vout: u32) -> AssetEntry {
    AssetEntry {
        asset_id: AssetId::from_hex(USDT_ID).unwrap(),
        contract: Some(USDT_CONTRACT.to_string()),
        entity: Some(Entity { domain: Some("tether.to".to_string()) }),
        issuance_prevout: Some(Prevout::new(Txid::from_byte_array(reversed(USDT_PREVOUT)), vout)),
        issuance_txin: None,
        issuer_pubkey: None,
        name: "Tether USD".to_string(),
        precision: 8,
        ticker: Some("USDt".to_string()),
        version: Some(0),
    }
}

fn other_key() -> [u8; 32] {
    [0x11u8; 32]
}

fn page_registry() -> Registry {
    let mut entries = IndexMap::new();
    entries.insert(reversed(USDT_ID), EntrySource::Full(usdt(0)));
    let mut forged = usdt(1);
    forged.name = "Forged".to_string();
    entries.insert(other_key(), EntrySource::Full(forged));
    let mut classes = IndexMap::new();
    classes.insert(
        reversed(USDT_ID),
        Metadata {
            amp: None,
            stablecoin: Some(true),
            weight: Some(3),
            pair: Some("USDTUSD".to_string()),
            meme: None,
        },
    );
    Registry::new(&entries, &classes, &IndexMap::new()).unwrap()
}

#[test]
fn a_result_is_shown_as_it_comes() {
    let mut state = FetchState::Fetching;
    let action = state.update(Msg::Show(FetchState::Failed));
    assert_eq!(state, FetchState::Failed);
    assert_eq!(action, Action::Nothing);
    let action = state.update(Msg::Show(FetchState::Success(vec![])));
    assert_eq!(state, FetchState::Success(vec![]));
    assert_eq!(action, Action::Nothing);
}

#[test]
fn a_request_puts_the_page_into_fetching() {
    let mut state = FetchState::NotFetching;
    assert_eq!(state.update(Msg::GetVisibleAssets), Action::LoadVisible);
    assert_eq!(state, FetchState::Fetching);
    let mut state = FetchState::Failed;
    assert_eq!(state.update(Msg::GetAssets(Filter::Amp)), Action::RunQuery(Filter::Amp));
    assert_eq!(state, FetchState::Fetching);
    let mut state = FetchState::Success(vec![]);
    assert_eq!(
        state.update(Msg::GetAsset("abc".to_string())),
        Action::ShowAsset("abc".to_string())
    );
    assert_eq!(state, FetchState::Fetching);
    let mut state = FetchState::NotFetching;
    assert_eq!(state.update(Msg::GetError), Action::Nothing);
    assert_eq!(state, FetchState::Fetching);
}

#[test]
fn digits_and_latin_letters_are_alphanumeric() {
    for code in 0u32..200 {
        let expected = (48..=57).contains(&code) || (65..=90).contains(&code)
            || (97..=122).contains(&code);
        assert_eq!(is_alphanumeric(code), expected);
    }
    assert!(is_alphanumeric(48) && is_alphanumeric(57));
    assert!(!is_alphanumeric(47) && !is_alphanumeric(58));
    assert!(is_alphanumeric(65) && is_alphanumeric(90));
    assert!(!is_alphanumeric(64) && !is_alphanumeric(91));
    assert!(is_alphanumeric(97) && is_alphanumeric(122));
    assert!(!is_alphanumeric(96) && !is_alphanumeric(123));
    assert!(!is_alphanumeric(u32::MAX));
}

#[test]
fn a_key_that_writes_starts_a_search() {
    assert_eq!(
        Msg::search_on_key(65, "Tet".to_string()),
        Some(Msg::GetAssets(Filter::Text("Tet".to_string())))
    );
    assert_eq!(Msg::search_on_key(13, "Tet".to_string()), None);
    assert_eq!(Msg::search_on_key(32, String::new()), None);
}

#[test]
fn the_visible_list_is_what_the_identifiers_resolve_to() {
    let registry = page_registry();
    let usdt_id = AssetId::from_hex(USDT_ID).unwrap();
    let unknown = AssetId::from_byte_array([0x22u8; 32]);
    let state = registry.visible(vec![unknown, usdt_id]);
    match state {
        FetchState::Success(assets) => {
            assert_eq!(assets.len(), 1);
            assert_eq!(assets[0], *registry.query_by_id(usdt_id).unwrap());
        }
        other => panic!("unexpected state {:?}", other),
    }
    assert_eq!(registry.visible(vec![]), FetchState::Success(vec![]));
}

#[test]
fn a_listing_gives_identifiers_and_list() {
    let registry = page_registry();
    let usdt_id = AssetId::from_hex(USDT_ID).unwrap();
    let (ids, state) = registry.listing(Filter::Stablecoins);
    assert_eq!(ids, vec![usdt_id]);
    assert_eq!(state, FetchState::Success(vec![registry.query_by_id(usdt_id).unwrap().clone()]));
    let (ids, state) = registry.listing(Filter::All);
    assert_eq!(ids, vec![usdt_id, AssetId::from_byte_array(other_key())]);
    match state {
        FetchState::Success(assets) => {
            assert_eq!(assets.len(), 2);
            assert_eq!(assets[0].asset_id, ids[0]);
            assert_eq!(assets[1].asset_id, ids[1]);
        }
        other => panic!("unexpected state {:?}", other),
    }
    let (ids, state) = registry.listing(Filter::Amp);
    assert_eq!(ids, vec![]);
    assert_eq!(state, FetchState::Success(vec![]));
}

#[test]
fn the_detail_of_a_verified_asset() {
    let registry = page_registry();
    let state = registry.detail(USDT_ID, Some("1000.5".to_string()), Some("1.0001".to_string()));
    let asset = registry.query_by_id(AssetId::from_hex(USDT_ID).unwrap()).unwrap().clone();
    assert_eq!(
        state,
        FetchState::Single(asset, Some("1000.5".to_string()), Some("1.0001".to_string()), true)
    );
}

#[test]
fn the_detail_does_without_live_values() {
    let registry = page_registry();
    let asset = registry.query_by_id(AssetId::from_hex(USDT_ID).unwrap()).unwrap().clone();
    assert_eq!(
        registry.detail(USDT_ID, None, None),
        FetchState::Single(asset.clone(), None, None, true)
    );
    assert_eq!(
        registry.detail(USDT_ID, Some("7".to_string()), None),
        FetchState::Single(asset, Some("7".to_string()), None, true)
    );
    assert!(asset_supply_is_never_stored(&registry));
}

fn asset_supply_is_never_stored(registry: &Registry) -> bool {
    registry.assets.values().all(|a| a.supply.is_none())
}

#[test]
fn the_detail_of_an_asset_that_does_not_verify() {
    let registry = page_registry();
    let hex = AssetId::from_byte_array(other_key()).to_hex();
    match registry.detail(&hex, None, None) {
        FetchState::Single(asset, supply, price, verified) => {
            assert_eq!(asset.asset_id, AssetId::from_byte_array(other_key()));
            assert_eq!(supply, None);
            assert_eq!(price, None);
            assert!(!verified);
        }
        other => panic!("unexpected state {:?}", other),
    }
}

#[test]
fn the_detail_of_what_is_not_there_fails() {
    let registry = page_registry();
    let unknown = AssetId::from_byte_array([0x33u8; 32]).to_hex();
    assert_eq!(registry.detail(&unknown, None, None), FetchState::Failed);
    assert_eq!(registry.detail("not an identifier", None, None), FetchState::Failed);
    assert_eq!(registry.detail("", Some("1".to_string()), None), FetchState::Failed);
}

#[test]
fn verified_is_told_of_the_entry() {
    let registry = page_registry();
    let good = registry.query_by_id(AssetId::from_hex(USDT_ID).unwrap()).unwrap();
    let forged = registry.query_by_id(AssetId::from_byte_array(other_key())).unwrap();
    assert!(good.is_verified());
    assert!(!forged.is_verified());
}
