//! The catalog: how the three sources are fused into it, and how it is
//! queried.

use vstd::prelude::*;
use indexmap::IndexMap;
use crate::asset::{Asset, AssetView, Metadata};
use crate::asset_id::AssetId;
use crate::source::{EntrySource, EntrySourceView, LoadError};
use crate::text::lemma_contains_empty;
use crate::store::{
    catalog_get, catalog_get_index, catalog_insert, catalog_items, catalog_len, catalog_new,
    distinct_keys, icons_get, icons_of, keyed_at, lacks_key, lemma_key_by_bytes, lemma_value_of,
    metadata_get, metadata_of,
    source_get_index, source_items, source_len, value_of,
};

verus! {

/// What a query asks for.
#[derive(Debug, PartialEq, Eq)]
pub enum Filter {
    All,
    Main,
    Amp,
    Stablecoins,
    Iconed,
    Text(String),
}

pub enum FilterView {
    All,
    Main,
    Amp,
    Stablecoins,
    Iconed,
    Text(Seq<char>),
}

impl View for Filter {
    type V = FilterView;

    open spec fn view(&self) -> FilterView {
        match self {
            Filter::All => FilterView::All,
            Filter::Main => FilterView::Main,
            Filter::Amp => FilterView::Amp,
            Filter::Stablecoins => FilterView::Stablecoins,
            Filter::Iconed => FilterView::Iconed,
            Filter::Text(needle) => FilterView::Text(needle@),
        }
    }
}

impl FilterView {
    /// Whether the filter lets an asset through.
    pub open spec fn accepts(self, asset: AssetView) -> bool {
        match self {
            FilterView::All => true,
            FilterView::Main => asset.is_main(),
            FilterView::Amp => asset.is_amp(),
            FilterView::Stablecoins => asset.is_stablecoin(),
            FilterView::Iconed => asset.is_iconed(),
            FilterView::Text(needle) => asset.mentions(needle),
        }
    }
}

impl Filter {
    /// Whether the filter lets an asset through.
    pub fn accepts(&self, asset: &Asset) -> (r: bool)
        ensures
            r == self@.accepts(asset@),
    {
        match self {
            Filter::All => true,
            Filter::Main => asset.is_main(),
            Filter::Amp => asset.is_amp(),
            Filter::Stablecoins => asset.is_stablecoin(),
            Filter::Iconed => asset.is_iconed(),
            Filter::Text(needle) => asset.filter(needle),
        }
    }
}

/// Why a live value cannot be asked for.
#[derive(Clone, Copy, Debug, PartialEq, Eq, Structural)]
pub enum EnrichmentError {
    /// The catalog knows no trading pair that prices the asset.
    NoPriceSource,
}

/// The catalog as a query sees it: key and record, in the catalog's order.
pub open spec fn records(items: Seq<([u8; 32], Asset)>) -> Seq<(Seq<u8>, AssetView)> {
    items.map_values(|p: ([u8; 32], Asset)| (p.0@, p.1@))
}

/// Every key stands once, and each record carries its key as identifier.
pub open spec fn well_formed(catalog: Seq<(Seq<u8>, AssetView)>) -> bool {
    &&& distinct_keys(catalog)
    &&& forall|i: int| 0 <= i < catalog.len() ==> (#[trigger] catalog[i]).1.asset_id == catalog[i].0
}

/// The record that the sources give under `key`: the entry, and what the
/// other two sources hold under the same key.
pub open spec fn fused(
    key: [u8; 32],
    source: EntrySourceView,
    metadata: Map<[u8; 32], Metadata>,
    icons: Map<[u8; 32], String>,
) -> AssetView {
    AssetView {
        asset_id: key@,
        asset_entry: Some(source.entry(key@)),
        supply: None,
        metadata: if metadata.contains_key(key) {
            Some(metadata[key]@)
        } else {
            None
        },
        icon: if icons.contains_key(key) {
            Some(icons[key]@)
        } else {
            None
        },
    }
}

/// The catalog that the sources give: one record for each entry, in the
/// entries' order. What the other sources hold under further keys is left
/// out.
pub open spec fn fusion(
    entries: Seq<([u8; 32], EntrySource)>,
    metadata: Map<[u8; 32], Metadata>,
    icons: Map<[u8; 32], String>,
) -> Seq<(Seq<u8>, AssetView)> {
    entries.map_values(|p: ([u8; 32], EntrySource)| (p.0@, fused(p.0, p.1@, metadata, icons)))
}

/// The first entry that cannot be read stands at position `at`.
pub open spec fn first_unreadable(entries: Seq<([u8; 32], EntrySource)>, at: int) -> bool {
    &&& 0 <= at < entries.len()
    &&& !entries[at].1@.readable()
    &&& forall|j: int| 0 <= j < at ==> (#[trigger] entries[j]).1@.readable()
}

/// Every entry can be read.
pub open spec fn all_readable(entries: Seq<([u8; 32], EntrySource)>) -> bool {
    forall|j: int| 0 <= j < entries.len() ==> (#[trigger] entries[j]).1@.readable()
}

/// The identifiers of the records that a filter lets through, in the
/// catalog's order.
pub open spec fn selected(catalog: Seq<(Seq<u8>, AssetView)>, filter: FilterView) -> Seq<Seq<u8>> {
    catalog.filter(|p: (Seq<u8>, AssetView)| filter.accepts(p.1)).map_values(
        |p: (Seq<u8>, AssetView)| p.1.asset_id,
    )
}

/// The records that stand under the keys asked for, in the order asked. A
/// key that the catalog lacks gives none.
pub open spec fn resolved(catalog: Seq<(Seq<u8>, AssetView)>, ids: Seq<AssetId>) -> Seq<AssetView> {
    ids.filter_map(|id: AssetId| value_of(catalog, id@))
}

/// The trading pair that prices the asset under `key`.
pub open spec fn pair_of(catalog: Seq<(Seq<u8>, AssetView)>, key: Seq<u8>) -> Option<Seq<char>> {
    match value_of(catalog, key) {
        Some(asset) => match asset.metadata {
            Some(metadata) => metadata.pair,
            None => None,
        },
        None => None,
    }
}

/// The catalog of assets, in the order of the entries it was built from.
#[derive(Debug)]
pub struct Registry {
    pub assets: IndexMap<[u8; 32], Asset>,
}

impl View for Registry {
    type V = Seq<(Seq<u8>, AssetView)>;

    open spec fn view(&self) -> Seq<(Seq<u8>, AssetView)> {
        records(catalog_items(self.assets))
    }
}

/// Taking one more record into account adds its identifier, if the filter
/// lets it through.
proof fn lemma_selected_step(catalog: Seq<(Seq<u8>, AssetView)>, i: int, filter: FilterView)
    requires
        0 <= i < catalog.len(),
    ensures
        selected(catalog.take(i + 1), filter) == if filter.accepts(catalog[i].1) {
            selected(catalog.take(i), filter).push(catalog[i].1.asset_id)
        } else {
            selected(catalog.take(i), filter)
        },
{
    reveal(Seq::filter);
    let longer = catalog.take(i + 1);
    assert(longer.drop_last() =~= catalog.take(i));
    assert(longer.last() == catalog[i]);
}

/// A key stands in the records where it stands in the pairs.
proof fn lemma_records_keys(items: Seq<([u8; 32], Asset)>, key: [u8; 32])
    ensures
        forall|at: int| keyed_at(items, key, at) <==> keyed_at(records(items), key@, at),
        lacks_key(items, key) <==> lacks_key(records(items), key@),
{
    let r = records(items);
    assert forall|j: int| 0 <= j < items.len() implies ((#[trigger] items[j]).0 == key <==> (
    #[trigger] r[j]).0 == key@) by {
        lemma_key_by_bytes(items[j].0, key);
    }
    assert forall|at: int| keyed_at(items, key, at) implies keyed_at(r, key@, at) by {
        assert forall|j: int| 0 <= j < r.len() && (#[trigger] r[j]).0 == key@ implies j == at by {
            assert(items[j].0 == key);
        }
    }
    assert forall|at: int| keyed_at(r, key@, at) implies keyed_at(items, key, at) by {
        assert(items[at].0 == key);
        assert forall|j: int| 0 <= j < items.len() && (#[trigger] items[j]).0 == key implies j
            == at by {
            assert(r[j].0 == key@);
        }
    }
    if lacks_key(items, key) {
        assert forall|j: int| 0 <= j < r.len() implies (#[trigger] r[j]).0 != key@ by {
            assert(items[j].0 != key);
        }
    }
    if lacks_key(r, key@) {
        assert forall|j: int| 0 <= j < items.len() implies (#[trigger] items[j]).0 != key by {
            assert(r[j].0 != key@);
        }
    }
}

/// Two tests that agree on every record let the same records through.
proof fn lemma_filter_agrees<A>(s: Seq<A>, p: spec_fn(A) -> bool, q: spec_fn(A) -> bool)
    requires
        forall|i: int| 0 <= i < s.len() ==> p(#[trigger] s[i]) == q(s[i]),
    ensures
        s.filter(p) == s.filter(q),
    decreases s.len(),
{
    reveal(Seq::filter);
    if s.len() > 0 {
        let rest = s.drop_last();
        assert forall|i: int| 0 <= i < rest.len() implies p(#[trigger] rest[i]) == q(rest[i]) by {
            assert(rest[i] == s[i]);
        }
        lemma_filter_agrees(rest, p, q);
        assert(p(s.last()) == q(s[s.len() - 1]));
    }
}

/// An identifier is selected exactly where a record that carries it is let
/// through.
proof fn lemma_selected_contains(catalog: Seq<(Seq<u8>, AssetView)>, filter: FilterView, id: Seq<u8>)
    ensures
        selected(catalog, filter).contains(id) <==> exists|i: int|
            0 <= i < catalog.len() && filter.accepts((#[trigger] catalog[i]).1) && catalog[i].1.asset_id
                == id,
{
    let pred = |p: (Seq<u8>, AssetView)| filter.accepts(p.1);
    let kept = catalog.filter(pred);
    let ids = selected(catalog, filter);
    if ids.contains(id) {
        let k = choose|k: int| 0 <= k < ids.len() && ids[k] == id;
        assert(kept[k].1.asset_id == id);
        assert(kept.contains(kept[k]));
        catalog.lemma_filter_contains_rev(pred, kept[k]);
        assert(catalog.contains(kept[k]));
        let i = choose|i: int| 0 <= i < catalog.len() && catalog[i] == kept[k];
        assert(filter.accepts(catalog[i].1) && catalog[i].1.asset_id == id);
    }
    if exists|i: int|
        0 <= i < catalog.len() && filter.accepts((#[trigger] catalog[i]).1) && catalog[i].1.asset_id
            == id {
        let i = choose|i: int|
            0 <= i < catalog.len() && filter.accepts((#[trigger] catalog[i]).1)
                && catalog[i].1.asset_id == id;
        assert(pred(catalog[i]));
        catalog.lemma_filter_contains(pred, i);
        let k = choose|k: int| 0 <= k < kept.len() && kept[k] == catalog[i];
        assert(ids[k] == id);
    }
}

/// In a well-formed catalog no two records carry the same identifier.
proof fn lemma_ids_distinct(catalog: Seq<(Seq<u8>, AssetView)>, i: int, j: int)
    requires
        well_formed(catalog),
        0 <= i < catalog.len(),
        0 <= j < catalog.len(),
        catalog[i].1.asset_id == catalog[j].1.asset_id,
    ensures
        i == j,
{
}

/// The empty text is found in every asset: a search for it gives what the
/// filter `All` gives.
pub proof fn lemma_empty_text_selects_all(catalog: Seq<(Seq<u8>, AssetView)>)
    ensures
        forall|asset: AssetView| #[trigger] FilterView::Text(Seq::empty()).accepts(asset),
        selected(catalog, FilterView::Text(Seq::empty())) == selected(catalog, FilterView::All),
{
    let text = FilterView::Text(Seq::empty());
    assert forall|asset: AssetView| #[trigger] text.accepts(asset) by {
        lemma_contains_empty(asset.id_hex());
    }
    lemma_filter_agrees(
        catalog,
        |p: (Seq<u8>, AssetView)| text.accepts(p.1),
        |p: (Seq<u8>, AssetView)| FilterView::All.accepts(p.1),
    );
}

/// A filter only leaves out: whatever it selects, `All` selects too.
pub proof fn lemma_selected_within_all(catalog: Seq<(Seq<u8>, AssetView)>, filter: FilterView)
    ensures
        forall|id: Seq<u8>| #[trigger]
            selected(catalog, filter).contains(id) ==> selected(catalog, FilterView::All).contains(
                id,
            ),
        selected(catalog, filter).len() <= selected(catalog, FilterView::All).len(),
        selected(catalog, FilterView::All).len() == catalog.len(),
{
    assert forall|id: Seq<u8>| #[trigger]
        selected(catalog, filter).contains(id) implies selected(catalog, FilterView::All).contains(
        id,
    ) by {
        lemma_selected_contains(catalog, filter, id);
        lemma_selected_contains(catalog, FilterView::All, id);
    }
    let everything = |p: (Seq<u8>, AssetView)| FilterView::All.accepts(p.1);
    catalog.lemma_filter_len(|p: (Seq<u8>, AssetView)| filter.accepts(p.1));
    lemma_filter_keeps_all(catalog, everything);
}

/// A test that every record passes leaves the sequence as it is.
proof fn lemma_filter_keeps_all<A>(s: Seq<A>, p: spec_fn(A) -> bool)
    requires
        forall|i: int| 0 <= i < s.len() ==> p(#[trigger] s[i]),
    ensures
        s.filter(p) == s,
    decreases s.len(),
{
    reveal(Seq::filter);
    if s.len() > 0 {
        let rest = s.drop_last();
        assert forall|i: int| 0 <= i < rest.len() implies p(#[trigger] rest[i]) by {
            assert(rest[i] == s[i]);
        }
        lemma_filter_keeps_all(rest, p);
        assert(p(s[s.len() - 1]));
        assert(rest.push(s.last()) =~= s);
    }
}

/// What a test lets through keeps its order: of two that stand in the
/// result, the earlier stood earlier in the sequence too.
proof fn lemma_filter_in_order<A>(s: Seq<A>, p: spec_fn(A) -> bool, a: int, b: int)
    requires
        0 <= a < b < s.filter(p).len(),
    ensures
        exists|i: int, j: int|
            0 <= i < j < s.len() && #[trigger] s[i] == s.filter(p)[a] && #[trigger] s[j]
                == s.filter(p)[b],
    decreases s.len(),
{
    reveal(Seq::filter);
    let rest = s.drop_last();
    let kept = rest.filter(p);
    if p(s.last()) && b == kept.len() {
        assert(kept.contains(kept[a]));
        rest.lemma_filter_contains_rev(p, kept[a]);
        let i = choose|i: int| 0 <= i < rest.len() && rest[i] == kept[a];
        let j = s.len() - 1;
        assert(s[i] == s.filter(p)[a] && s[j] == s.filter(p)[b]);
    } else {
        lemma_filter_in_order(rest, p, a, b);
        let (i, j) = choose|i: int, j: int|
            0 <= i < j < rest.len() && #[trigger] rest[i] == kept[a] && #[trigger] rest[j]
                == kept[b];
        assert(s[i] == s.filter(p)[a] && s[j] == s.filter(p)[b]);
    }
}

/// A query never reorders: of two identifiers in its result, the earlier
/// belongs to a record that stands earlier in the catalog, and the filter
/// lets both records through.
pub proof fn lemma_selected_in_order(
    catalog: Seq<(Seq<u8>, AssetView)>,
    filter: FilterView,
    a: int,
    b: int,
)
    requires
        0 <= a < b < selected(catalog, filter).len(),
    ensures
        exists|i: int, j: int|
            {
                &&& 0 <= i < j < catalog.len()
                &&& filter.accepts((#[trigger] catalog[i]).1)
                &&& filter.accepts((#[trigger] catalog[j]).1)
                &&& catalog[i].1.asset_id == selected(catalog, filter)[a]
                &&& catalog[j].1.asset_id == selected(catalog, filter)[b]
            },
{
    let pred = |p: (Seq<u8>, AssetView)| filter.accepts(p.1);
    let kept = catalog.filter(pred);
    lemma_filter_in_order(catalog, pred, a, b);
    let (i, j) = choose|i: int, j: int|
        0 <= i < j < catalog.len() && #[trigger] catalog[i] == kept[a] && #[trigger] catalog[j]
            == kept[b];
    assert(kept.contains(kept[a]));
    assert(kept.contains(kept[b]));
    catalog.lemma_filter_contains_rev(pred, kept[a]);
    catalog.lemma_filter_contains_rev(pred, kept[b]);
    assert(filter.accepts(catalog[i].1) && filter.accepts(catalog[j].1));
}

/// What the filter `Amp` selects, the filter `All` selects too.
pub proof fn lemma_amp_within_all(catalog: Seq<(Seq<u8>, AssetView)>)
    ensures
        forall|id: Seq<u8>| #[trigger]
            selected(catalog, FilterView::Amp).contains(id) ==> selected(
                catalog,
                FilterView::All,
            ).contains(id),
{
    lemma_selected_within_all(catalog, FilterView::Amp);
}

/// An asset that nobody classified is no main asset, no asset of the Amp
/// pool and no stablecoin. `All` lets it through, and `Iconed` does so
/// exactly if it has an icon.
pub proof fn lemma_unclassified_asset(asset: AssetView)
    requires
        asset.metadata is None,
    ensures
        !FilterView::Main.accepts(asset),
        !FilterView::Amp.accepts(asset),
        !FilterView::Stablecoins.accepts(asset),
        FilterView::All.accepts(asset),
        FilterView::Iconed.accepts(asset) <==> asset.icon is Some,
{
}

/// The same of the queries on a well-formed catalog: the identifier of an
/// unclassified asset is not among the main assets, the Amp assets or the
/// stablecoins; it is among all, and among the iconed exactly if the asset
/// has an icon.
pub proof fn lemma_unclassified_in_queries(catalog: Seq<(Seq<u8>, AssetView)>, at: int)
    requires
        well_formed(catalog),
        0 <= at < catalog.len(),
        catalog[at].1.metadata is None,
    ensures
        !selected(catalog, FilterView::Main).contains(catalog[at].1.asset_id),
        !selected(catalog, FilterView::Amp).contains(catalog[at].1.asset_id),
        !selected(catalog, FilterView::Stablecoins).contains(catalog[at].1.asset_id),
        selected(catalog, FilterView::All).contains(catalog[at].1.asset_id),
        selected(catalog, FilterView::Iconed).contains(catalog[at].1.asset_id)
            <==> catalog[at].1.icon is Some,
{
    let id = catalog[at].1.asset_id;
    lemma_selected_contains(catalog, FilterView::Main, id);
    lemma_selected_contains(catalog, FilterView::Amp, id);
    lemma_selected_contains(catalog, FilterView::Stablecoins, id);
    lemma_selected_contains(catalog, FilterView::All, id);
    lemma_selected_contains(catalog, FilterView::Iconed, id);
    assert forall|i: int|
        0 <= i < catalog.len() && (#[trigger] catalog[i]).1.asset_id == id implies i == at by {
        lemma_ids_distinct(catalog, i, at);
    }
    assert(FilterView::All.accepts(catalog[at].1));
}

/// Fusing keeps the entries' number, order and keys, whatever the other two
/// sources hold.
pub proof fn lemma_fusion_keys(
    entries: Seq<([u8; 32], EntrySource)>,
    metadata: Map<[u8; 32], Metadata>,
    icons: Map<[u8; 32], String>,
)
    ensures
        fusion(entries, metadata, icons).len() == entries.len(),
        forall|i: int|
            0 <= i < entries.len() ==> (#[trigger] fusion(entries, metadata, icons)[i]).0
                == entries[i].0@,
        distinct_keys(entries) ==> well_formed(fusion(entries, metadata, icons)),
{
    let fused = fusion(entries, metadata, icons);
    if distinct_keys(entries) {
        assert forall|i: int, j: int| 0 <= i < j < fused.len() implies (#[trigger] fused[i]).0 != (
        #[trigger] fused[j]).0 by {
            assert(entries[i].0 != entries[j].0);
            lemma_key_by_bytes(entries[i].0, entries[j].0);
        }
    }
}

impl Registry {
    /// Builds the catalog from the three sources. No catalog is built
    /// where an entry cannot be read.
    pub fn new(
        entries: &IndexMap<[u8; 32], EntrySource>,
        metadata: &IndexMap<[u8; 32], Metadata>,
        icons: &IndexMap<[u8; 32], String>,
    ) -> (r: Result<Registry, LoadError>)
        ensures
            match r {
                Ok(registry) => {
                    &&& all_readable(source_items(*entries))
                    &&& registry@ == fusion(
                        source_items(*entries),
                        metadata_of(*metadata),
                        icons_of(*icons),
                    )
                    &&& registry@.len() == source_items(*entries).len()
                    &&& well_formed(registry@)
                },
                Err(LoadError::MalformedEntry(id)) => exists|at: int|
                    first_unreadable(source_items(*entries), at) && id.bytes == source_items(
                        *entries,
                    )[at].0,
            },
    {
        match Registry::download(entries, metadata, icons) {
            Ok(assets) => Ok(Registry { assets }),
            Err(e) => Err(e),
        }
    }

    /// Fuses the three sources: each entry gives one record, in the
    /// entries' order and under the entry's key, with the classification
    /// and the icon that stand under the same key. A key that only the
    /// other two sources hold gives nothing. Where an entry cannot be read,
    /// the first such entry is reported and no catalog is returned.
    pub fn download(
        entries: &IndexMap<[u8; 32], EntrySource>,
        metadata: &IndexMap<[u8; 32], Metadata>,
        icons: &IndexMap<[u8; 32], String>,
    ) -> (r: Result<IndexMap<[u8; 32], Asset>, LoadError>)
        ensures
            match r {
                Ok(catalog) => {
                    &&& all_readable(source_items(*entries))
                    &&& records(catalog_items(catalog)) == fusion(
                        source_items(*entries),
                        metadata_of(*metadata),
                        icons_of(*icons),
                    )
                    &&& catalog_items(catalog).len() == source_items(*entries).len()
                    &&& forall|i: int|
                        0 <= i < catalog_items(catalog).len() ==> (#[trigger] catalog_items(
                            catalog,
                        )[i]).0 == source_items(*entries)[i].0
                    &&& well_formed(records(catalog_items(catalog)))
                },
                Err(LoadError::MalformedEntry(id)) => exists|at: int|
                    first_unreadable(source_items(*entries), at) && id.bytes == source_items(
                        *entries,
                    )[at].0,
            },
    {
        let ghost sources = source_items(*entries);
        let ghost classes = metadata_of(*metadata);
        let ghost images = icons_of(*icons);
        let n = source_len(entries);
        let mut catalog = catalog_new();
        let mut i: usize = 0;
        while i < n
            invariant
                i <= n,
                n == sources.len(),
                sources == source_items(*entries),
                classes == metadata_of(*metadata),
                images == icons_of(*icons),
                catalog_items(catalog).len() == i,
                forall|j: int| 0 <= j < i ==> (#[trigger] sources[j]).1@.readable(),
                forall|j: int|
                    0 <= j < i ==> (#[trigger] catalog_items(catalog)[j]).0 == sources[j].0,
                forall|j: int|
                    0 <= j < i ==> (#[trigger] catalog_items(catalog)[j]).1@ == fused(
                        sources[j].0,
                        sources[j].1@,
                        classes,
                        images,
                    ),
                forall|a: int, b: int|
                    0 <= a < i && 0 <= b < n && a != b ==> (#[trigger] sources[a]).0
                        != (#[trigger] sources[b]).0,
            decreases n - i,
        {
            match source_get_index(entries, i) {
                Some((key, source)) => {
                    let id = AssetId::from_byte_array(*key);
                    let entry = match source.decode(id) {
                        Ok(entry) => entry,
                        Err(e) => {
                            proof {
                                assert(first_unreadable(sources, i as int));
                            }
                            return Err(e);
                        },
                    };
                    let asset = Asset {
                        asset_id: id,
                        asset_entry: Some(entry),
                        supply: None,
                        metadata: match metadata_get(metadata, key) {
                            Some(m) => Some(m.clone()),
                            None => None,
                        },
                        icon: match icons_get(icons, key) {
                            Some(icon) => Some(icon.clone()),
                            None => None,
                        },
                    };
                    proof {
                        let before = catalog_items(catalog);
                        assert forall|j: int| 0 <= j < before.len() implies (#[trigger] before[j]).0
                            != *key by {
                            assert(sources[j].0 != sources[i as int].0);
                        }
                        assert(asset@ == fused(*key, source@, classes, images));
                    }
                    catalog_insert(&mut catalog, *key, asset);
                },
                None => {},
            }
            i += 1;
        }
        proof {
            let items = catalog_items(catalog);
            assert(records(items) =~= fusion(sources, classes, images));
            assert forall|a: int, b: int| 0 <= a < b < items.len() implies (#[trigger] records(
                items,
            )[a]).0 != (#[trigger] records(items)[b]).0 by {
                assert(sources[a].0 != sources[b].0);
                assert(items[a].0 == sources[a].0);
                assert(items[b].0 == sources[b].0);
                lemma_key_by_bytes(items[a].0, items[b].0);
            }
            assert forall|k: int| 0 <= k < items.len() implies (#[trigger] records(items)[k]).1.asset_id
                == records(items)[k].0 by {
                assert(items[k].1@ == fused(sources[k].0, sources[k].1@, classes, images));
                assert(items[k].0 == sources[k].0);
            }
        }
        Ok(catalog)
    }

    /// The record under an identifier, if the catalog has one.
    pub fn query_by_id(&self, id: AssetId) -> (r: Option<&Asset>)
        ensures
            match r {
                Some(asset) => value_of(self@, id@) == Some(asset@),
                None => value_of(self@, id@) is None,
            },
    {
        let r = catalog_get(&self.assets, &id.bytes);
        proof {
            lemma_records_keys(catalog_items(self.assets), id.bytes);
            lemma_value_of(self@, id@);
        }
        r
    }

    /// The records under the identifiers asked for, in the order asked.
    /// An identifier that the catalog lacks is passed over.
    pub fn query_by_ids(&self, ids: Vec<AssetId>) -> (r: Vec<&Asset>)
        ensures
            r@.map_values(|a: &Asset| a@) == resolved(self@, ids@),
    {
        let mut found: Vec<&Asset> = Vec::new();
        let mut i: usize = 0;
        assert(ids@.take(0).filter_map(|id: AssetId| value_of(self@, id@)) =~= Seq::<
            AssetView,
        >::empty());
        while i < ids.len()
            invariant
                i <= ids.len(),
                found@.map_values(|a: &Asset| a@) == resolved(self@, ids@.take(i as int)),
            decreases ids.len() - i,
        {
            let ghost before = found@.map_values(|a: &Asset| a@);
            let hit = self.query_by_id(ids[i]);
            proof {
                let longer = ids@.take(i + 1);
                assert(longer.drop_last() =~= ids@.take(i as int));
                assert(longer.last() == ids@[i as int]);
            }
            match hit {
                Some(asset) => {
                    found.push(asset);
                    assert(found@.map_values(|a: &Asset| a@) =~= before + seq![asset@]);
                },
                None => {},
            }
            i += 1;
        }
        assert(ids@.take(ids.len() as int) =~= ids@);
        found
    }

    /// The identifiers of the assets that the filter lets through, in the
    /// catalog's order.
    pub fn query(&self, filter: Filter) -> (r: Vec<AssetId>)
        ensures
            r@.map_values(|id: AssetId| id@) == selected(self@, filter@),
    {
        let ghost catalog = self@;
        let n = catalog_len(&self.assets);
        let mut ids: Vec<AssetId> = Vec::new();
        let mut i: usize = 0;
        proof {
            reveal(Seq::filter);
            assert(catalog.take(0) =~= Seq::<(Seq<u8>, AssetView)>::empty());
            assert(ids@.map_values(|id: AssetId| id@) =~= selected(catalog.take(0), filter@));
        }
        while i < n
            invariant
                i <= n,
                n == catalog.len(),
                catalog == self@,
                ids@.map_values(|id: AssetId| id@) == selected(catalog.take(i as int), filter@),
            decreases n - i,
        {
            let ghost before = ids@.map_values(|id: AssetId| id@);
            match catalog_get_index(&self.assets, i) {
                Some((_, asset)) => {
                    proof {
                        lemma_selected_step(catalog, i as int, filter@);
                        assert(catalog[i as int].1 == asset@);
                    }
                    if filter.accepts(asset) {
                        ids.push(asset.asset_id);
                        assert(ids@.map_values(|id: AssetId| id@) =~= before.push(
                            asset.asset_id@,
                        ));
                    }
                },
                None => {},
            }
            i += 1;
        }
        assert(catalog.take(n as int) =~= catalog);
        ids
    }

    /// The trading pair by which the asset's price is asked for. Without
    /// one there is no price to ask for.
    pub fn price_pair(&self, asset_id: AssetId) -> (r: Result<&String, EnrichmentError>)
        ensures
            match r {
                Ok(pair) => pair_of(self@, asset_id@) == Some(pair@),
                Err(EnrichmentError::NoPriceSource) => pair_of(self@, asset_id@) is None,
            },
    {
        match self.query_by_id(asset_id) {
            Some(asset) => match &asset.metadata {
                Some(metadata) => match &metadata.pair {
                    Some(pair) => Ok(pair),
                    None => Err(EnrichmentError::NoPriceSource),
                },
                None => Err(EnrichmentError::NoPriceSource),
            },
            None => Err(EnrichmentError::NoPriceSource),
        }
    }
}

} // verus!
