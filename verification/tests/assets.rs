use enciclopedia::asset::{Asset, Metadata};
use enciclopedia::asset_entry::{clone_text, AssetEntry, Entity};
use enciclopedia::asset_id::AssetId;

fn plain_metadata() -> Metadata {
    Metadata { amp: None, stablecoin: None, weight: None, pair: None, meme: None }
}

fn sample_id() -> AssetId {
    let mut bytes = [0u8; 32];
    bytes[0] = 0xab;
    bytes[31] = 0x12;
    AssetId::from_byte_array(bytes)
}

fn sample_entry() -> AssetEntry {
    AssetEntry {
        asset_id: sample_id(),
        contract: None,
        entity: Some(Entity { domain: Some("example.com".to_string()) }),
        issuance_prevout: None,
        issuance_txin: None,
        issuer_pubkey: None,
        name: "Sample Coin".to_string(),
        precision: 8,
        ticker: Some("SMPL".to_string()),
        version: None,
    }
}

fn sample_asset() -> Asset {
    Asset {
        asset_id: sample_id(),
        asset_entry: Some(sample_entry()),
        supply: None,
        metadata: None,
        icon: None,
    }
}

#[test]
fn an_unclassified_asset_has_no_flag() {
    let asset = sample_asset();
    assert!(!asset.is_main());
    assert!(!asset.is_amp());
    assert!(!asset.is_stablecoin());
    assert!(!asset.is_meme());
}

#[test]
fn a_flag_that_is_not_set_is_not_true() {
    let mut asset = sample_asset();
    asset.metadata = Some(plain_metadata());
    assert!(!asset.is_main());
    assert!(!asset.is_amp());
    assert!(!asset.is_stablecoin());
    assert!(!asset.is_meme());
}

#[test]
fn each_flag_is_read_on_its_own() {
    let mut asset = sample_asset();
    asset.metadata = Some(Metadata { amp: Some(true), ..plain_metadata() });
    assert!(asset.is_amp() && !asset.is_stablecoin() && !asset.is_meme() && !asset.is_main());
    asset.metadata = Some(Metadata { stablecoin: Some(true), ..plain_metadata() });
    assert!(!asset.is_amp() && asset.is_stablecoin() && !asset.is_meme() && !asset.is_main());
    asset.metadata = Some(Metadata { meme: Some(true), ..plain_metadata() });
    assert!(!asset.is_amp() && !asset.is_stablecoin() && asset.is_meme() && !asset.is_main());
    asset.metadata = Some(Metadata { weight: Some(1), ..plain_metadata() });
    assert!(!asset.is_amp() && !asset.is_stablecoin() && !asset.is_meme() && asset.is_main());
}

#[test]
fn a_flag_set_to_false_is_false() {
    let mut asset = sample_asset();
    asset.metadata = Some(Metadata {
        amp: Some(false),
        stablecoin: Some(false),
        weight: Some(0),
        pair: None,
        meme: Some(false),
    });
    assert!(!asset.is_main());
    assert!(!asset.is_amp());
    assert!(!asset.is_stablecoin());
    assert!(!asset.is_meme());
}

#[test]
fn a_main_asset_has_a_weight_above_zero() {
    let mut asset = sample_asset();
    asset.metadata = Some(Metadata { weight: Some(0), ..plain_metadata() });
    assert!(!asset.is_main());
    asset.metadata = Some(Metadata { weight: Some(65535), ..plain_metadata() });
    assert!(asset.is_main());
}

#[test]
fn iconed_means_that_an_icon_is_there() {
    let mut asset = sample_asset();
    assert!(!asset.is_iconed());
    asset.icon = Some(String::new());
    assert!(asset.is_iconed());
    asset.icon = Some("iVBORw0KGgo".to_string());
    assert!(asset.is_iconed());
}

#[test]
fn the_text_filter_reads_name_ticker_and_domain() {
    let asset = sample_asset();
    assert!(asset.filter(&"Sample".to_string()));
    assert!(asset.filter(&"Coin".to_string()));
    assert!(asset.filter(&"SMPL".to_string()));
    assert!(asset.filter(&"MP".to_string()));
    assert!(asset.filter(&"example.com".to_string()));
    assert!(asset.filter(&"ample.c".to_string()));
    assert!(!asset.filter(&"xyz".to_string()));
    assert!(!asset.filter(&"Sample  Coin".to_string()));
}

#[test]
fn the_text_filter_minds_the_case() {
    let asset = sample_asset();
    assert!(!asset.filter(&"sample".to_string()));
    assert!(!asset.filter(&"smpl".to_string()));
    assert!(!asset.filter(&"EXAMPLE".to_string()));
}

#[test]
fn the_text_filter_reads_the_written_identifier() {
    let asset = sample_asset();
    let hex = asset.asset_id.to_hex();
    assert!(hex.starts_with("12") && hex.ends_with("ab"));
    assert!(asset.filter(&hex));
    assert!(asset.filter(&"1200".to_string()));
    assert!(asset.filter(&"00ab".to_string()));
    assert!(!asset.filter(&"AB".to_string()));
    assert!(!asset.filter(&"ab12".to_string()));
    let mut bare = sample_asset();
    bare.asset_entry = None;
    assert!(bare.filter(&"00ab".to_string()));
    assert!(!bare.filter(&"Sample".to_string()));
}

#[test]
fn the_empty_text_is_found_in_every_asset() {
    let empty = String::new();
    assert!(sample_asset().filter(&empty));
    let mut bare = sample_asset();
    bare.asset_entry = None;
    assert!(bare.filter(&empty));
}

#[test]
fn a_missing_ticker_or_domain_holds_nothing() {
    let mut entry = sample_entry();
    entry.ticker = None;
    entry.entity = None;
    assert!(entry.mentions("Sample"));
    assert!(!entry.mentions("SMPL"));
    assert!(!entry.mentions("example"));
    entry.entity = Some(Entity { domain: None });
    assert!(!entry.mentions("example"));
    assert!(entry.mentions(""));
}

#[test]
fn the_domain_is_read_from_the_entity() {
    let mut entry = sample_entry();
    assert_eq!(entry.domain(), Some("example.com"));
    entry.entity = Some(Entity { domain: None });
    assert_eq!(entry.domain(), None);
    entry.entity = None;
    assert_eq!(entry.domain(), None);
}

#[test]
fn the_image_address_is_prefix_and_icon() {
    let mut asset = sample_asset();
    asset.icon = Some("iVBORw0KGgo=".to_string());
    assert_eq!(asset.image(), "data:image/png;base64,iVBORw0KGgo=");
}

#[test]
fn the_image_address_without_an_icon_is_the_prefix() {
    let mut asset = sample_asset();
    assert_eq!(asset.image(), "data:image/png;base64,");
    asset.icon = Some(String::new());
    assert_eq!(asset.image(), "data:image/png;base64,");
}

#[test]
fn copies_are_equal_to_what_they_copy() {
    let mut asset = sample_asset();
    asset.metadata = Some(Metadata { pair: Some("BTCUSDT".to_string()), ..plain_metadata() });
    asset.icon = Some("abc".to_string());
    asset.supply = Some("21".to_string());
    assert_eq!(asset.clone(), asset);
    assert_eq!(sample_entry().clone(), sample_entry());
    assert_eq!(asset.metadata.clone(), asset.metadata);
    assert_eq!(clone_text(&Some("x".to_string())), Some("x".to_string()));
    assert_eq!(clone_text(&None), None);
    let entity = Entity { domain: Some("a.b".to_string()) };
    assert_eq!(entity.clone(), entity);
}

#[test]
fn an_asset_without_issuance_data_is_not_verified() {
    let asset = sample_asset();
    assert!(!asset.is_verified());
    let mut bare = sample_asset();
    bare.asset_entry = None;
    assert!(!bare.is_verified());
}
