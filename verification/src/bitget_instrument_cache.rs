//! The cache of Bitget instrument specs: each spec under its native symbol
//! and the aliases of its base, with the time the list was loaded.

use vstd::prelude::*;
use dashmap::DashMap;
use crate::bitget_instruments::{
    accepted_rules, canonical_base, canonical_base_of, clone_opt, instruments_and_specs_from_rows,
    native_identity, native_identity_of, normalize_request, normalized_request, row_views, spec_of,
    venue_view, BitgetInstrumentRow, BitgetInstrumentSpec, RuleView, SpecView, VenueInstrument,
};
use crate::bitget_uta_config::BitgetUtaCategory;
use crate::error::{ErrorView, ExchangeError};
use crate::text::{push_str, to_upper, upper};

verus! {

/// How long a loaded instrument list stays fresh: six hours.
pub const INSTRUMENT_CACHE_TTL_MS: i64 = 21600000;

#[verifier::external_type_specification]
#[verifier::external_body]
#[verifier::reject_recursive_types(K)]
#[verifier::reject_recursive_types(V)]
#[verifier::reject_recursive_types(S)]
pub struct ExDashMap<K, V, S>(DashMap<K, V, S>);

/// What a spec table holds: each key's text and the spec stored under it.
pub uninterp spec fn table_contents(m: DashMap<String, BitgetInstrumentSpec>) -> Map<
    Seq<char>,
    SpecView,
>;

/// A table with no entries.
pub open spec fn empty_table() -> Map<Seq<char>, SpecView> {
    Map::empty()
}

/// `DashMap::new`: a map with no entries.
#[verifier::external_body]
fn table_new() -> (m: DashMap<String, BitgetInstrumentSpec>)
    ensures
        table_contents(m) == empty_table(),
{
    DashMap::new()
}

/// `DashMap::clear`: every entry is removed.
#[verifier::external_body]
fn table_clear(m: &mut DashMap<String, BitgetInstrumentSpec>)
    ensures
        table_contents(*final(m)) == empty_table(),
{
    m.clear();
}

/// `DashMap::insert`: the key now maps to the value, replacing any earlier
/// value under an equal key; other keys are untouched.
#[verifier::external_body]
fn table_insert(m: &mut DashMap<String, BitgetInstrumentSpec>, key: String, value: BitgetInstrumentSpec)
    ensures
        table_contents(*final(m)) == table_contents(*old(m)).insert(key@, value@),
{
    m.insert(key, value);
}

/// `DashMap::get`, handing out a copy of the stored spec: present exactly
/// when the key is.
#[verifier::external_body]
fn table_get(m: &DashMap<String, BitgetInstrumentSpec>, key: &str) -> (r: Option<BitgetInstrumentSpec>)
    ensures
        match r {
            Some(s) => table_contents(*m).contains_key(key@) && s@ == table_contents(*m)[key@],
            None => !table_contents(*m).contains_key(key@),
        },
{
    m.get(key).map(|entry| clone_spec(entry.value()))
}

/// `DashMap::is_empty`: true exactly when no key is present.
#[verifier::external_body]
fn table_is_empty(m: &DashMap<String, BitgetInstrumentSpec>) -> (r: bool)
    ensures
        r == (table_contents(*m).dom() == Set::<Seq<char>>::empty()),
{
    m.is_empty()
}

/// A copy of a spec.
pub fn clone_spec(s: &BitgetInstrumentSpec) -> (r: BitgetInstrumentSpec)
    ensures
        r@ == s@,
{
    BitgetInstrumentSpec {
        category: s.category,
        native_symbol: s.native_symbol.clone(),
        price_tick: s.price_tick.clone(),
        qty_step: s.qty_step.clone(),
        min_qty: s.min_qty.clone(),
        min_notional: clone_opt(&s.min_notional),
        execution_supported: s.execution_supported,
        listing_status: s.listing_status,
    }
}

/// The keys a spec is found under: its native symbol in upper case and,
/// for linear contracts, the aliases of its base (`BTC` and `BTCUSDT` for a
/// USDT contract, `BTCUSDC` for a USDC one).
pub open spec fn spec_keys(spec: SpecView) -> Seq<Seq<char>> {
    let native = upper(spec.native_symbol);
    let base = canonical_base_of(native, spec.category);
    match spec.category {
        BitgetUtaCategory::UsdtFutures => seq![native, base, base + "USDT"@],
        BitgetUtaCategory::UsdcFutures => seq![native, base + "USDC"@],
        _ => seq![native],
    }
}

/// `m` with every key in `keys` mapped to `spec`, in order.
pub open spec fn insert_keys(m: Map<Seq<char>, SpecView>, keys: Seq<Seq<char>>, spec: SpecView) -> Map<
    Seq<char>,
    SpecView,
>
    decreases keys.len(),
{
    if keys.len() == 0 {
        m
    } else {
        insert_keys(m, keys.drop_last(), spec).insert(keys.last(), spec)
    }
}

/// The table a list of specs loads into, later specs winning on shared keys.
pub open spec fn loaded_table(specs: Seq<SpecView>) -> Map<Seq<char>, SpecView>
    decreases specs.len(),
{
    if specs.len() == 0 {
        Map::empty()
    } else {
        insert_keys(loaded_table(specs.drop_last()), spec_keys(specs.last()), specs.last())
    }
}

/// What `resolve` answers for a request against a table: the entry under
/// the normalised request, else the entry under its native identity.
pub open spec fn resolved(table: Map<Seq<char>, SpecView>, requested: Seq<char>) -> Result<
    SpecView,
    ErrorView,
> {
    match native_identity_of(requested) {
        None => Err(ErrorView::UnsupportedSymbol(requested)),
        Some((_, native)) => {
            let n = normalized_request(requested);
            if table.contains_key(n) {
                Ok(table[n])
            } else if table.contains_key(native) {
                Ok(table[native])
            } else {
                Err(ErrorView::UnsupportedSymbol(requested))
            }
        },
    }
}

/// A loaded list is fresh while it is non-empty, was loaded at a positive
/// time, and less than the TTL has passed (saturating) since.
pub open spec fn fresh_at(table: Map<Seq<char>, SpecView>, fetched_at_ms: i64, now_ms: i64) -> bool {
    &&& fetched_at_ms > 0
    &&& saturating_diff(now_ms, fetched_at_ms) < INSTRUMENT_CACHE_TTL_MS
    &&& table.dom() != Set::<Seq<char>>::empty()
}

/// `a.saturating_sub(b)` on `i64`.
pub open spec fn saturating_diff(a: i64, b: i64) -> int {
    if a - b > i64::MAX {
        i64::MAX as int
    } else if a - b < i64::MIN {
        i64::MIN as int
    } else {
        a - b
    }
}

/// The venue's instrument specs, keyed by native symbol and base aliases,
/// with the time they were loaded.
#[derive(Debug)]
pub struct BitgetInstrumentCache {
    specs: DashMap<String, BitgetInstrumentSpec>,
    fetched_at_ms: i64,
}

pub ghost struct CacheView {
    pub table: Map<Seq<char>, SpecView>,
    pub fetched_at_ms: i64,
}

impl View for BitgetInstrumentCache {
    type V = CacheView;

    closed spec fn view(&self) -> CacheView {
        CacheView { table: table_contents(self.specs), fetched_at_ms: self.fetched_at_ms }
    }
}

impl Default for BitgetInstrumentCache {
    fn default() -> (r: Self)
        ensures
            r@.table == Map::<Seq<char>, SpecView>::empty(),
            r@.fetched_at_ms == 0,
    {
        BitgetInstrumentCache::new()
    }
}

pub open spec fn spec_views(specs: Seq<BitgetInstrumentSpec>) -> Seq<SpecView> {
    specs.map_values(|s: BitgetInstrumentSpec| s@)
}

impl BitgetInstrumentCache {
    /// An empty cache that has never been loaded.
    pub fn new() -> (r: Self)
        ensures
            r@.table == Map::<Seq<char>, SpecView>::empty(),
            r@.fetched_at_ms == 0,
    {
        BitgetInstrumentCache { specs: table_new(), fetched_at_ms: 0 }
    }

    /// Whether the loaded list may still be used at `now_ms`.
    pub fn is_fresh(&self, now_ms: i64) -> (r: bool)
        ensures
            r == fresh_at(self@.table, self@.fetched_at_ms, now_ms),
    {
        let fetched_at = self.fetched_at_ms;
        let diff: i128 = now_ms as i128 - fetched_at as i128;
        let elapsed: i128 = if diff > 9223372036854775807 {
            9223372036854775807
        } else if diff < -9223372036854775808 {
            -9223372036854775808
        } else {
            diff
        };
        fetched_at > 0 && elapsed < INSTRUMENT_CACHE_TTL_MS as i128 && !table_is_empty(&self.specs)
    }

    /// Replaces the whole table with `specs`, loaded at `fetched_at_ms`.
    pub fn replace(&mut self, specs: Vec<BitgetInstrumentSpec>, fetched_at_ms: i64)
        ensures
            final(self)@.table == loaded_table(spec_views(specs@)),
            final(self)@.fetched_at_ms == fetched_at_ms,
    {
        table_clear(&mut self.specs);
        let n = specs.len();
        let mut i: usize = 0;
        while i < n
            invariant
                n == specs@.len(),
                i <= n,
                table_contents(self.specs) == loaded_table(spec_views(specs@).subrange(0, i as int)),
            decreases n - i,
        {
            let spec = &specs[i];
            let ghost before = spec_views(specs@).subrange(0, i as int);
            let ghost next = spec_views(specs@).subrange(0, i + 1);
            proof {
                assert(next.drop_last() =~= before);
                assert(next.last() == spec@);
            }
            let native = to_upper(spec.native_symbol.as_str());
            let base = canonical_base(native.as_str(), spec.category);
            let ghost start = table_contents(self.specs);
            let ghost keys = spec_keys(spec@);
            proof {
                assert(loaded_table(next) == insert_keys(start, keys, spec@));
                assert(keys[0] == native@);
                let k1 = keys.subrange(0, 1);
                assert(k1.drop_last() =~= Seq::<Seq<char>>::empty());
                assert(insert_keys(start, k1.drop_last(), spec@) == start);
                assert(insert_keys(start, k1, spec@) == start.insert(native@, spec@));
            }
            table_insert(&mut self.specs, native.clone(), clone_spec(spec));
            match spec.category {
                BitgetUtaCategory::UsdtFutures => {
                    let ghost after1 = table_contents(self.specs);
                    table_insert(&mut self.specs, base.clone(), clone_spec(spec));
                    let ghost after2 = table_contents(self.specs);
                    let mut alias = base.clone();
                    push_str(&mut alias, "USDT");
                    table_insert(&mut self.specs, alias, clone_spec(spec));
                    proof {
                        assert(keys.len() == 3);
                        assert(keys[1] == base@);
                        assert(keys[2] == alias@);
                        let k1 = keys.subrange(0, 1);
                        let k2 = keys.subrange(0, 2);
                        assert(k2.drop_last() =~= k1);
                        assert(insert_keys(start, k2, spec@) == after1.insert(base@, spec@));
                        assert(keys.drop_last() =~= k2);
                        assert(insert_keys(start, keys, spec@) == after2.insert(alias@, spec@));
                    }
                },
                BitgetUtaCategory::UsdcFutures => {
                    let ghost after1 = table_contents(self.specs);
                    let mut alias = base;
                    push_str(&mut alias, "USDC");
                    table_insert(&mut self.specs, alias, clone_spec(spec));
                    proof {
                        assert(keys.len() == 2);
                        assert(keys[1] == alias@);
                        assert(keys.drop_last() =~= keys.subrange(0, 1));
                        assert(insert_keys(start, keys, spec@) == after1.insert(alias@, spec@));
                    }
                },
                _ => {
                    proof {
                        assert(keys =~= keys.subrange(0, 1));
                    }
                },
            }
            i = i + 1;
        }
        assert(spec_views(specs@).subrange(0, n as int) =~= spec_views(specs@));
        self.fetched_at_ms = fetched_at_ms;
    }

    /// The spec a requested symbol resolves to: the entry under the
    /// normalised request, else under its native identity.
    pub fn resolve(&self, requested: &str) -> (r: Result<BitgetInstrumentSpec, ExchangeError>)
        ensures
            match r {
                Ok(s) => resolved(self@.table, requested@) == Ok::<SpecView, ErrorView>(s@),
                Err(e) => resolved(self@.table, requested@) == Err::<SpecView, ErrorView>(e@),
            },
    {
        let identity = native_identity(requested)?;
        let normalized = normalize_request(requested);
        match table_get(&self.specs, normalized.as_str()) {
            Some(s) => Ok(s),
            None => match table_get(&self.specs, identity.native_symbol.as_str()) {
                Some(s) => Ok(s),
                None => Err(ExchangeError::UnsupportedSymbol(requested.to_owned())),
            },
        }
    }
}

/// After inserting `keys`, each of them holds `spec`; any other key keeps
/// what it held.
proof fn lemma_insert_keys(m: Map<Seq<char>, SpecView>, keys: Seq<Seq<char>>, spec: SpecView)
    ensures
        forall|j: int|
            0 <= j < keys.len() ==> insert_keys(m, keys, spec).contains_key(#[trigger] keys[j])
                && insert_keys(m, keys, spec)[keys[j]] == spec,
        forall|k: Seq<char>| #[trigger]
            insert_keys(m, keys, spec).contains_key(k) ==> (insert_keys(m, keys, spec)[k] == spec
                || (m.contains_key(k) && insert_keys(m, keys, spec)[k] == m[k])),
    decreases keys.len(),
{
    if keys.len() > 0 {
        lemma_insert_keys(m, keys.drop_last(), spec);
        assert forall|j: int| 0 <= j < keys.len() implies insert_keys(m, keys, spec).contains_key(
            #[trigger] keys[j],
        ) && insert_keys(m, keys, spec)[keys[j]] == spec by {
            if j < keys.len() - 1 {
                assert(keys.drop_last()[j] == keys[j]);
            }
        }
    }
}

/// The spec loaded last answers for every key it is filed under.
pub proof fn the_last_loaded_spec_answers_for_its_keys(specs: Seq<SpecView>)
    requires
        specs.len() > 0,
    ensures
        forall|j: int|
            0 <= j < spec_keys(specs.last()).len() ==> loaded_table(specs).contains_key(
                #[trigger] spec_keys(specs.last())[j],
            ) && loaded_table(specs)[spec_keys(specs.last())[j]] == specs.last(),
{
    lemma_insert_keys(loaded_table(specs.drop_last()), spec_keys(specs.last()), specs.last());
}

/// Every entry of a loaded table is one of the specs that were loaded.
pub proof fn every_entry_comes_from_the_loaded_list(specs: Seq<SpecView>)
    ensures
        forall|k: Seq<char>| #[trigger]
            loaded_table(specs).contains_key(k) ==> exists|i: int|
                0 <= i < specs.len() && loaded_table(specs)[k] == #[trigger] specs[i],
    decreases specs.len(),
{
    if specs.len() > 0 {
        let prev = specs.drop_last();
        every_entry_comes_from_the_loaded_list(prev);
        lemma_insert_keys(loaded_table(prev), spec_keys(specs.last()), specs.last());
        assert forall|k: Seq<char>| #[trigger] loaded_table(specs).contains_key(k) implies exists|
            i: int,
        | 0 <= i < specs.len() && loaded_table(specs)[k] == #[trigger] specs[i] by {
            if loaded_table(specs)[k] == specs.last() {
                assert(specs[specs.len() - 1] == specs.last());
            } else {
                assert(loaded_table(prev).contains_key(k));
                let i = choose|i: int| 0 <= i < prev.len() && loaded_table(prev)[k] == #[trigger] prev[i];
                assert(prev[i] == specs[i]);
            }
        }
    }
}

/// A non-empty list loaded at a positive time is fresh exactly while less
/// than the TTL has passed since.
pub proof fn a_load_is_fresh_for_its_ttl(specs: Seq<SpecView>, fetched_at_ms: i64, now_ms: i64)
    requires
        specs.len() > 0,
        fetched_at_ms > 0,
    ensures
        fresh_at(loaded_table(specs), fetched_at_ms, now_ms) <==> now_ms - fetched_at_ms
            < INSTRUMENT_CACHE_TTL_MS,
{
    the_last_loaded_spec_answers_for_its_keys(specs);
    let k = spec_keys(specs.last())[0];
    assert(loaded_table(specs).dom().contains(k));
}

/// Asking for the native symbol of the spec loaded last finds that spec,
/// when the symbol is already in its normal form.
pub proof fn a_loaded_symbol_resolves_to_its_spec(specs: Seq<SpecView>)
    requires
        specs.len() > 0,
        normalized_request(specs.last().native_symbol) == upper(specs.last().native_symbol),
        upper(specs.last().native_symbol).len() > 0,
    ensures
        resolved(loaded_table(specs), specs.last().native_symbol) == Ok::<SpecView, ErrorView>(
            specs.last(),
        ),
{
    the_last_loaded_spec_answers_for_its_keys(specs);
    assert(spec_keys(specs.last())[0] == upper(specs.last().native_symbol));
}

/// The specs that the cache keeps from a loaded list: all but spot, whose
/// native symbols coincide with those of USDT futures.
pub open spec fn perpetual_specs(specs: Seq<SpecView>) -> Seq<SpecView>
    decreases specs.len(),
{
    if specs.len() == 0 {
        Seq::empty()
    } else if specs.last().category != BitgetUtaCategory::Spot {
        perpetual_specs(specs.drop_last()).push(specs.last())
    } else {
        perpetual_specs(specs.drop_last())
    }
}

proof fn lemma_perpetual_specs(specs: Seq<SpecView>)
    ensures
        forall|i: int|
            0 <= i < perpetual_specs(specs).len() ==> (#[trigger] perpetual_specs(specs)[i]).category
                != BitgetUtaCategory::Spot,
    decreases specs.len(),
{
    if specs.len() > 0 {
        lemma_perpetual_specs(specs.drop_last());
    }
}

/// A refreshed cache holds no spot spec: whatever a loaded list holds,
/// every entry kept from it belongs to a futures category.
pub proof fn refreshed_cache_holds_no_spot_spec(specs: Seq<SpecView>)
    ensures
        forall|k: Seq<char>| #[trigger]
            loaded_table(perpetual_specs(specs)).contains_key(k) ==> loaded_table(
                perpetual_specs(specs),
            )[k].category != BitgetUtaCategory::Spot,
{
    lemma_perpetual_specs(specs);
    every_entry_comes_from_the_loaded_list(perpetual_specs(specs));
}

/// The rows of the four categories as one list, in the order USDT futures,
/// USDC futures, coin-margined futures, spot.
pub open spec fn all_rows(
    usdt: Seq<BitgetInstrumentRow>,
    usdc: Seq<BitgetInstrumentRow>,
    coin: Seq<BitgetInstrumentRow>,
    spot: Seq<BitgetInstrumentRow>,
) -> Seq<BitgetInstrumentRow> {
    usdt + usdc + coin + spot
}

fn keep_perpetual(specs: &Vec<BitgetInstrumentSpec>) -> (r: Vec<BitgetInstrumentSpec>)
    ensures
        spec_views(r@) == perpetual_specs(spec_views(specs@)),
{
    let mut out: Vec<BitgetInstrumentSpec> = Vec::new();
    let n = specs.len();
    let mut i: usize = 0;
    while i < n
        invariant
            n == specs@.len(),
            i <= n,
            spec_views(out@) == perpetual_specs(spec_views(specs@.subrange(0, i as int))),
        decreases n - i,
    {
        let ghost before = out@;
        proof {
            let next = spec_views(specs@.subrange(0, i + 1));
            assert(next.drop_last() =~= spec_views(specs@.subrange(0, i as int)));
            assert(next.last() == specs@[i as int]@);
        }
        if specs[i].category != BitgetUtaCategory::Spot {
            out.push(clone_spec(&specs[i]));
            assert(spec_views(out@) =~= spec_views(before).push(specs@[i as int]@));
        }
        i = i + 1;
    }
    assert(specs@.subrange(0, n as int) =~= specs@);
    out
}

/// Loads a freshly fetched instrument list, given per category, into the
/// cache: the instrument records of every accepted row come back, and the
/// cache keeps the sizing specs of all but spot, stamped `checked_at_ms`.
pub fn refresh_instrument_specs(
    cache: &mut BitgetInstrumentCache,
    usdt: Vec<BitgetInstrumentRow>,
    usdc: Vec<BitgetInstrumentRow>,
    coin: Vec<BitgetInstrumentRow>,
    spot: Vec<BitgetInstrumentRow>,
    checked_at_ms: i64,
) -> (r: Vec<VenueInstrument>)
    ensures
        r@.map_values(|i: VenueInstrument| i@) == accepted_rules(
            row_views(all_rows(usdt@, usdc@, coin@, spot@)),
        ).map_values(|rule: RuleView| venue_view(rule, checked_at_ms)),
        final(cache)@.table == loaded_table(
            perpetual_specs(
                accepted_rules(row_views(all_rows(usdt@, usdc@, coin@, spot@))).map_values(
                    |rule: RuleView| spec_of(rule),
                ),
            ),
        ),
        final(cache)@.fetched_at_ms == checked_at_ms,
{
    let mut rows = usdt;
    let mut usdc = usdc;
    let mut coin = coin;
    let mut spot = spot;
    rows.append(&mut usdc);
    rows.append(&mut coin);
    rows.append(&mut spot);
    let (instruments, specs) = instruments_and_specs_from_rows(rows, checked_at_ms);
    let kept = keep_perpetual(&specs);
    cache.replace(kept, checked_at_ms);
    instruments
}

} // verus!
