use enciclopedia::asset_entry::{Prevout, Txin};
use enciclopedia::asset_id::{same_bytes, AssetId, Txid};

const LIQUID_BTC: [u8; 32] = [
    0x6d, 0x52, 0x1c, 0x38, 0xec, 0x1e, 0xa1, 0x57, 0x34, 0xae, 0x22, 0xb7, 0xc4, 0x60, 0x64, 0x41,
    0x28, 0x29, 0xc0, 0xd0, 0x57, 0x9f, 0x0a, 0x71, 0x3d, 0x1c, 0x04, 0xed, 0xe9, 0x79, 0x02, 0x6f,
];

const LIQUID_BTC_HEX: &str = "6f0279e9ed041c3d710a9f57d0c02928416460c4b722ae3457a11eec381c526d";

#[test]
fn to_hex_writes_the_last_byte_first_in_lower_case() {
    let id = AssetId::from_byte_array(LIQUID_BTC);
    assert_eq!(id.to_hex(), LIQUID_BTC_HEX);
}

#[test]
fn to_hex_of_a_counting_pattern() {
    let mut bytes = [0u8; 32];
    for i in 0..32 {
        bytes[i] = i as u8;
    }
    let id = AssetId::from_byte_array(bytes);
    assert_eq!(
        id.to_hex(),
        "1f1e1d1c1b1a191817161514131211100f0e0d0c0b0a09080706050403020100"
    );
}

#[test]
fn to_hex_agrees_with_elements() {
    let id = AssetId::from_byte_array(LIQUID_BTC);
    let theirs = elements::AssetId::from_byte_array(LIQUID_BTC);
    assert_eq!(id.to_hex(), theirs.to_string());
}

#[test]
fn from_hex_reads_what_to_hex_writes() {
    let id = AssetId::from_hex(LIQUID_BTC_HEX).unwrap();
    assert_eq!(id.to_byte_array(), LIQUID_BTC);
    assert_eq!(id.to_hex(), LIQUID_BTC_HEX);
}

#[test]
fn from_hex_reads_upper_case() {
    let upper = LIQUID_BTC_HEX.to_uppercase();
    let id = AssetId::from_hex(&upper).unwrap();
    assert_eq!(id.to_byte_array(), LIQUID_BTC);
}

#[test]
fn from_hex_refuses_a_wrong_length() {
    assert!(AssetId::from_hex("").is_none());
    assert!(AssetId::from_hex("6f").is_none());
    assert!(AssetId::from_hex(&LIQUID_BTC_HEX[..63]).is_none());
    let longer = format!("{}00", LIQUID_BTC_HEX);
    assert!(AssetId::from_hex(&longer).is_none());
}

#[test]
fn from_hex_refuses_what_is_no_digit() {
    let bad = format!("{}g", &LIQUID_BTC_HEX[..63]);
    assert_eq!(bad.len(), 64);
    assert!(AssetId::from_hex(&bad).is_none());
    let spaced = format!(" {}", &LIQUID_BTC_HEX[..63]);
    assert!(AssetId::from_hex(&spaced).is_none());
}

#[test]
fn asset_ids_are_equal_by_their_bytes() {
    let a = AssetId::from_byte_array(LIQUID_BTC);
    let b = AssetId::from_byte_array(LIQUID_BTC);
    let mut other = LIQUID_BTC;
    other[31] ^= 1;
    let c = AssetId::from_byte_array(other);
    assert!(a == b);
    assert!(a != c);
    assert!(same_bytes(&LIQUID_BTC, &LIQUID_BTC));
    assert!(!same_bytes(&LIQUID_BTC, &other));
    let mut first = LIQUID_BTC;
    first[0] ^= 0x80;
    assert!(!same_bytes(&LIQUID_BTC, &first));
}

#[test]
fn byte_arrays_go_in_and_out_unchanged() {
    assert_eq!(AssetId::from_byte_array(LIQUID_BTC).to_byte_array(), LIQUID_BTC);
    assert_eq!(Txid::from_byte_array(LIQUID_BTC).to_byte_array(), LIQUID_BTC);
    assert_eq!(AssetId::from_byte_array(LIQUID_BTC).bytes, LIQUID_BTC);
}

#[test]
fn the_default_outpoint_is_all_zero() {
    assert_eq!(Txid::all_zeros().to_byte_array(), [0u8; 32]);
    let prevout = Prevout::default();
    assert_eq!(prevout.txid.to_byte_array(), [0u8; 32]);
    assert_eq!(prevout.vout, 0);
    let txin = Txin::default();
    assert_eq!(txin.txid.to_byte_array(), [0u8; 32]);
    assert_eq!(txin.vin, 0);
}

#[test]
fn outpoints_keep_what_they_are_made_of() {
    let txid = Txid::from_byte_array(LIQUID_BTC);
    let prevout = Prevout::new(txid, 7);
    assert_eq!(prevout.txid, txid);
    assert_eq!(prevout.vout, 7);
    assert_eq!(prevout.clone(), prevout);
    let txin = Txin::new(txid, 3);
    assert_eq!(txin.txid, txid);
    assert_eq!(txin.vin, 3);
    assert_eq!(txin.clone(), txin);
}
