//! A catalog of assets issued on a confidential ledger.
//!
//! Three independently kept sources (what the issuers declare, how the
//! maintainers classify, and icons) are fused into one ordered catalog, which
//! answers filter and text queries, and an entry's identifier can be checked
//! against the issuance data it commits to.

pub mod asset;
pub mod asset_entry;
pub mod asset_id;
pub mod fetch_state;
pub mod hex;
pub mod issuance;
pub mod registry;
pub mod source;
pub mod store;
pub mod text;

