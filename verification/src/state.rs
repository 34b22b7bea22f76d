//! The bonding state store: the current bonding-curve percentage and market
//! capitalisation of every known asset, keyed by contract address.
//!
//! The store keeps its entries in the order in which their keys were first
//! put in, and holds each key once. A key is found through a hash of its
//! text: the places of the entries are held in a hash map keyed by that
//! number, those of keys with the same hash side by side. (vstd has no
//! model of a hash map keyed by texts, so that nothing could be proved of a
//! store that held one.)

use std::collections::HashMap;
use vstd::prelude::*;
use vstd::utf8::encode_utf8;
use crate::types::{BondingCurveAndMcInfo, BondingCurveAndMcInfoView};

verus! {

/// Whether one of `rows` has the contract address `key`.
pub open spec fn has_key(rows: Seq<BondingCurveAndMcInfoView>, key: Seq<char>) -> bool {
    exists|i: int| 0 <= i < rows.len() && (#[trigger] rows[i]).contract_address == key
}

/// Place among `rows` of an entry with the contract address `key`.
pub open spec fn position(rows: Seq<BondingCurveAndMcInfoView>, key: Seq<char>) -> int {
    choose|i: int| 0 <= i < rows.len() && (#[trigger] rows[i]).contract_address == key
}

/// Whether no contract address occurs twice among `rows`.
pub open spec fn distinct_keys(rows: Seq<BondingCurveAndMcInfoView>) -> bool {
    forall|i: int, j: int|
        0 <= i < j < rows.len() ==> (#[trigger] rows[i]).contract_address != (
        #[trigger] rows[j]).contract_address
}

/// `rows` as a map from contract address to entry.
pub open spec fn rows_map(rows: Seq<BondingCurveAndMcInfoView>) -> Map<
    Seq<char>,
    BondingCurveAndMcInfoView,
> {
    Map::new(|key: Seq<char>| has_key(rows, key), |key: Seq<char>| rows[position(rows, key)])
}

/// `rows` after `entry` was put in: in the place of the entry with its
/// contract address where there is one, at the end otherwise.
pub open spec fn upserted(
    rows: Seq<BondingCurveAndMcInfoView>,
    entry: BondingCurveAndMcInfoView,
) -> Seq<BondingCurveAndMcInfoView> {
    if has_key(rows, entry.contract_address) {
        rows.update(position(rows, entry.contract_address), entry)
    } else {
        rows.push(entry)
    }
}

/// `entry` with another percentage and market capitalisation.
pub open spec fn with_figures(
    entry: BondingCurveAndMcInfoView,
    bonding_curve_percentage: i32,
    market_cap: Option<i64>,
) -> BondingCurveAndMcInfoView {
    BondingCurveAndMcInfoView {
        contract_address: entry.contract_address,
        bonding_curve_address: entry.bonding_curve_address,
        bonding_curve_percentage,
        market_cap,
    }
}

/// `rows` after the figures of the entry of `key` were replaced; `rows`
/// themselves where no entry has that key.
pub open spec fn adjusted(
    rows: Seq<BondingCurveAndMcInfoView>,
    key: Seq<char>,
    bonding_curve_percentage: i32,
    market_cap: Option<i64>,
) -> Seq<BondingCurveAndMcInfoView> {
    if has_key(rows, key) {
        let at = position(rows, key);
        rows.update(at, with_figures(rows[at], bonding_curve_percentage, market_cap))
    } else {
        rows
    }
}

/// `rows` put one after the other into an empty store.
pub open spec fn loaded(rows: Seq<BondingCurveAndMcInfoView>) -> Seq<BondingCurveAndMcInfoView>
    decreases rows.len(),
{
    if rows.len() == 0 {
        Seq::empty()
    } else {
        upserted(loaded(rows.drop_last()), rows.last())
    }
}

/// Among rows with distinct keys, the place of a key is the one place where
/// it stands.
pub proof fn lemma_position_unique(rows: Seq<BondingCurveAndMcInfoView>, at: int)
    requires
        distinct_keys(rows),
        0 <= at < rows.len(),
    ensures
        has_key(rows, rows[at].contract_address),
        position(rows, rows[at].contract_address) == at,
{
    let found = position(rows, rows[at].contract_address);
    assert(rows[found].contract_address == rows[at].contract_address);
    if found < at {
        assert(rows[found].contract_address != rows[at].contract_address);
    } else if at < found {
        assert(rows[at].contract_address != rows[found].contract_address);
    }
}

/// Putting an entry in keeps the keys distinct and maps its key to it,
/// leaving the other keys as they were.
pub proof fn lemma_upserted(rows: Seq<BondingCurveAndMcInfoView>, entry: BondingCurveAndMcInfoView)
    requires
        distinct_keys(rows),
    ensures
        distinct_keys(upserted(rows, entry)),
        rows_map(upserted(rows, entry)) == rows_map(rows).insert(entry.contract_address, entry),
{
    let key = entry.contract_address;
    let after = upserted(rows, entry);
    let at = if has_key(rows, key) {
        position(rows, key)
    } else {
        rows.len() as int
    };
    assert(after[at] == entry);
    assert forall|i: int, j: int| 0 <= i < j < after.len() implies (
    #[trigger] after[i]).contract_address != (#[trigger] after[j]).contract_address by {
        if i != at && j != at {
            assert(rows[i].contract_address != rows[j].contract_address);
        } else if i == at {
            assert(after[j] == rows[j]);
        } else {
            assert(after[i] == rows[i]);
        }
    }
    assert forall|other: Seq<char>| has_key(after, other) <==> (other == key || has_key(
        rows,
        other,
    )) by {
        if has_key(after, other) {
            let i = position(after, other);
            if i != at {
                assert(rows[i].contract_address == other);
            }
        }
        if has_key(rows, other) && other != key {
            let i = position(rows, other);
            assert(after[i].contract_address == other);
        }
    }
    assert forall|other: Seq<char>| has_key(after, other) implies #[trigger] rows_map(
        after,
    )[other] == rows_map(rows).insert(key, entry)[other] by {
        let i = position(after, other);
        if other == key {
            lemma_position_unique(after, at);
        } else {
            assert(i != at);
            assert(rows[i].contract_address == other);
            lemma_position_unique(rows, i);
        }
    }
    assert(rows_map(after) =~= rows_map(rows).insert(key, entry));
}

/// Replacing the figures of an entry keeps the keys distinct and changes
/// what its key maps to, and nothing else.
pub proof fn lemma_adjusted(
    rows: Seq<BondingCurveAndMcInfoView>,
    key: Seq<char>,
    bonding_curve_percentage: i32,
    market_cap: Option<i64>,
)
    requires
        distinct_keys(rows),
    ensures
        distinct_keys(adjusted(rows, key, bonding_curve_percentage, market_cap)),
        has_key(rows, key) ==> rows_map(adjusted(rows, key, bonding_curve_percentage, market_cap))
            == rows_map(rows).insert(
            key,
            with_figures(rows_map(rows)[key], bonding_curve_percentage, market_cap),
        ),
        !has_key(rows, key) ==> adjusted(rows, key, bonding_curve_percentage, market_cap) == rows,
{
    if has_key(rows, key) {
        let at = position(rows, key);
        let entry = with_figures(rows[at], bonding_curve_percentage, market_cap);
        assert(adjusted(rows, key, bonding_curve_percentage, market_cap) == upserted(rows, entry));
        lemma_upserted(rows, entry);
    }
}

/// The number with which the hash of a text starts.
pub const HASH_SEED: u64 = 14_695_981_039_346_656_037;

/// The number by which the hash of a text is multiplied for every byte.
pub const HASH_PRIME: u64 = 1_099_511_628_211;

/// Hash of a string of bytes: for every byte in turn, the hash so far times
/// [`HASH_PRIME`] plus the byte, within 64 bits.
pub open spec fn bytes_hash(bytes: Seq<u8>) -> u64
    decreases bytes.len(),
{
    if bytes.len() == 0 {
        HASH_SEED
    } else {
        ((bytes_hash(bytes.drop_last()) * HASH_PRIME + bytes.last())
            % 0x1_0000_0000_0000_0000) as u64
    }
}

/// Hash of a text: that of its bytes in UTF-8.
pub open spec fn text_hash(text: Seq<char>) -> u64 {
    bytes_hash(encode_utf8(text))
}

/// Computes the hash of a text.
pub fn hash_of(text: &str) -> (hash: u64)
    ensures
        hash == text_hash(text@),
{
    let bytes = text.as_bytes();
    let mut hash: u64 = HASH_SEED;
    let mut at: usize = 0;
    assert(bytes@.take(0) =~= Seq::<u8>::empty());
    while at < bytes.len()
        invariant
            at <= bytes.len(),
            bytes@ == encode_utf8(text@),
            hash == bytes_hash(bytes@.take(at as int)),
        decreases bytes.len() - at,
    {
        proof {
            assert(bytes@.take(at + 1).drop_last() =~= bytes@.take(at as int));
            assert(hash * HASH_PRIME + bytes[at as int] <= u128::MAX) by (nonlinear_arith)
                requires
                    hash <= 0xffff_ffff_ffff_ffff,
                    HASH_PRIME == 1_099_511_628_211,
                    bytes[at as int] <= 255,
            ;
        }
        let wide: u128 = (hash as u128) * (HASH_PRIME as u128) + (bytes[at] as u128);
        hash = (wide % 0x1_0000_0000_0000_0000) as u64;
        at = at + 1;
    }
    assert(bytes@.take(bytes.len() as int) =~= bytes@);
    hash
}

/// Whether `place` is one of `places`.
pub open spec fn listed(places: Seq<usize>, place: int) -> bool {
    exists|j: int| 0 <= j < places.len() && #[trigger] places[j] == place
}

/// Whether `places` tells where the entries of `rows` stand: the place of
/// every entry is listed under the hash of its key, and every place that is
/// listed under a hash is that of an entry whose key has this hash.
pub open spec fn places_match(
    places: Map<u64, Vec<usize>>,
    rows: Seq<BondingCurveAndMcInfoView>,
) -> bool {
    &&& forall|i: int|
        0 <= i < rows.len() ==> {
            &&& places.contains_key(text_hash((#[trigger] rows[i]).contract_address))
            &&& listed(places[text_hash(rows[i].contract_address)]@, i)
        }
    &&& forall|hash: u64, j: int|
        places.contains_key(hash) && 0 <= j < places[hash]@.len() ==> {
            &&& (#[trigger] places[hash]@[j]) < rows.len()
            &&& text_hash(rows[places[hash]@[j] as int].contract_address) == hash
        }
}

/// The bonding state of every known asset.
pub struct BondingStateStore {
    entries: Vec<BondingCurveAndMcInfo>,
    places: HashMap<u64, Vec<usize>>,
}

impl View for BondingStateStore {
    type V = Map<Seq<char>, BondingCurveAndMcInfoView>;

    /// The store as a map from contract address to entry.
    open spec fn view(&self) -> Map<Seq<char>, BondingCurveAndMcInfoView> {
        rows_map(self.rows())
    }
}

impl BondingStateStore {
    #[verifier::type_invariant]
    spec fn well_kept(self) -> bool {
        &&& distinct_keys(self.entries.deep_view())
        &&& places_match(self.places@, self.entries.deep_view())
    }

    /// The entries of the store, in the order in which their keys were
    /// first put in.
    pub closed spec fn rows(&self) -> Seq<BondingCurveAndMcInfoView> {
        self.entries.deep_view()
    }

    /// Makes an empty store.
    pub fn new() -> (store: Self)
        ensures
            store.rows() == Seq::<BondingCurveAndMcInfoView>::empty(),
            distinct_keys(store.rows()),
    {
        let entries: Vec<BondingCurveAndMcInfo> = Vec::new();
        let places: HashMap<u64, Vec<usize>> = HashMap::new();
        assert(entries.deep_view() =~= Seq::<BondingCurveAndMcInfoView>::empty());
        BondingStateStore { entries, places }
    }

    /// Number of known assets.
    pub fn len(&self) -> (count: usize)
        ensures
            count == self.rows().len(),
    {
        self.entries.len()
    }

    /// Place of the entry of `key` among the entries.
    fn find(&self, key: &String) -> (found: Option<usize>)
        ensures
            distinct_keys(self.rows()),
            match found {
                Some(at) => has_key(self.rows(), key@) && at == position(self.rows(), key@),
                None => !has_key(self.rows(), key@),
            },
    {
        broadcast use vstd::std_specs::hash::group_hash_axioms;

        proof {
            use_type_invariant(self);
        }
        let hash: u64 = hash_of(key.as_str());
        let places: &Vec<usize> = match self.places.get(&hash) {
            Some(places) => places,
            None => {
                proof {
                    if has_key(self.rows(), key@) {
                        let i = position(self.rows(), key@);
                        assert(self.places@.contains_key(
                            text_hash(self.rows()[i].contract_address),
                        ));
                    }
                }
                return None;
            },
        };
        assert(self.places@.contains_key(hash) && self.places@[hash] == *places);
        let mut j: usize = 0;
        while j < places.len()
            invariant
                j <= places.len(),
                distinct_keys(self.rows()),
                places_match(self.places@, self.rows()),
                self.places@.contains_key(hash),
                self.places@[hash] == *places,
                hash == text_hash(key@),
                forall|k: int|
                    0 <= k < j ==> self.rows()[(#[trigger] places[k]) as int].contract_address
                        != key@,
            decreases places.len() - j,
        {
            let at: usize = places[j];
            assert(self.places@[hash]@[j as int] < self.rows().len());
            if self.entries[at].contract_address == *key {
                proof {
                    assert(self.rows()[at as int].contract_address == key@);
                    lemma_position_unique(self.rows(), at as int);
                }
                return Some(at);
            }
            j = j + 1;
        }
        proof {
            if has_key(self.rows(), key@) {
                let i = position(self.rows(), key@);
                assert(listed(self.places@[text_hash(self.rows()[i].contract_address)]@, i));
                let k = choose|k: int| 0 <= k < places@.len() && #[trigger] places@[k] == i;
                assert(self.rows()[places[k] as int].contract_address != key@);
            }
        }
        None
    }

    /// Tells whether the asset `key` is known.
    pub fn contains_key(&self, key: &str) -> (known: bool)
        ensures
            known == self@.contains_key(key@),
    {
        let owned: String = key.to_owned();
        self.find(&owned).is_some()
    }

    /// Returns a copy of the entry of `key`, if the asset is known.
    pub fn get(&self, key: &str) -> (entry: Option<BondingCurveAndMcInfo>)
        ensures
            match entry {
                Some(found) => self@.contains_key(key@) && found@ == self@[key@],
                None => !self@.contains_key(key@),
            },
    {
        let owned: String = key.to_owned();
        match self.find(&owned) {
            Some(at) => Some(self.entries[at].clone()),
            None => None,
        }
    }

    /// Puts `entry` into the store under its contract address, in the place
    /// of the entry that was there or, where there was none, after all
    /// others.
    pub fn upsert(&mut self, entry: BondingCurveAndMcInfo)
        ensures
            final(self).rows() == upserted(old(self).rows(), entry@),
            final(self)@ == old(self)@.insert(entry@.contract_address, entry@),
            distinct_keys(final(self).rows()),
    {
        proof {
            use_type_invariant(&*self);
            lemma_upserted(self.rows(), entry@);
        }
        broadcast use vstd::std_specs::hash::group_hash_axioms;

        let ghost before = self.rows();
        let found = self.find(&entry.contract_address);
        let hash: u64 = hash_of(entry.contract_address.as_str());
        let mut taken = BondingStateStore::new();
        core::mem::swap(self, &mut taken);
        proof {
            use_type_invariant(&taken);
        }
        let BondingStateStore { entries, places } = taken;
        let mut entries = entries;
        let mut places = places;
        let ghost index = places@;
        match found {
            Some(at) => {
                entries[at] = entry;
                proof {
                    let after = entries.deep_view();
                    assert(after =~= before.update(at as int, entry@));
                    assert forall|i: int| 0 <= i < after.len() implies (
                    #[trigger] after[i]).contract_address == before[i].contract_address by {}
                    assert(places_match(index, after)) by {
                        assert forall|i: int| 0 <= i < after.len() implies {
                            &&& index.contains_key(text_hash((#[trigger] after[i]).contract_address))
                            &&& listed(index[text_hash(after[i].contract_address)]@, i)
                        } by {
                            assert(index.contains_key(text_hash(before[i].contract_address)));
                        }
                    }
                }
            },
            None => {
                let at: usize = entries.len();
                entries.push(entry);
                let mut listing: Vec<usize> = match places.remove(&hash) {
                    Some(listing) => listing,
                    None => Vec::new(),
                };
                let ghost earlier = listing@;
                listing.push(at);
                places.insert(hash, listing);
                proof {
                    let after = entries.deep_view();
                    assert(after =~= before.push(entry@));
                    assert(index.contains_key(hash) ==> earlier == index[hash]@);
                    assert(!index.contains_key(hash) ==> earlier == Seq::<usize>::empty());
                    assert forall|i: int| 0 <= i < after.len() implies {
                        &&& places@.contains_key(text_hash((#[trigger] after[i]).contract_address))
                        &&& listed(places@[text_hash(after[i].contract_address)]@, i)
                    } by {
                        if i < at {
                            assert(after[i] == before[i]);
                            let other = text_hash(before[i].contract_address);
                            assert(listed(index[other]@, i));
                            if other == hash {
                                let j = choose|j: int|
                                    0 <= j < earlier.len() && #[trigger] earlier[j] == i;
                                assert(places@[hash]@[j] == i);
                            }
                        } else {
                            assert(places@[hash]@[earlier.len() as int] == at);
                        }
                    }
                    assert forall|other: u64, j: int|
                        places@.contains_key(other) && 0 <= j < places@[other]@.len() implies {
                        &&& (#[trigger] places@[other]@[j]) < after.len()
                        &&& text_hash(after[places@[other]@[j] as int].contract_address) == other
                    } by {
                        if other == hash {
                            if j < earlier.len() {
                                assert(index[hash]@[j] < before.len());
                            }
                        } else {
                            assert(index[other]@[j] < before.len());
                        }
                    }
                }
            },
        }
        *self = BondingStateStore { entries, places };
    }

    /// Replaces the percentage and the market capitalisation of the entry of
    /// `key`, and tells whether there is such an entry. A store without it
    /// stays as it is.
    pub fn update(
        &mut self,
        key: &str,
        bonding_curve_percentage: i32,
        market_cap: Option<i64>,
    ) -> (known: bool)
        ensures
            known == old(self)@.contains_key(key@),
            final(self).rows() == adjusted(
                old(self).rows(),
                key@,
                bonding_curve_percentage,
                market_cap,
            ),
            known ==> final(self)@ == old(self)@.insert(
                key@,
                with_figures(old(self)@[key@], bonding_curve_percentage, market_cap),
            ),
            !known ==> final(self)@ == old(self)@,
            distinct_keys(final(self).rows()),
    {
        proof {
            use_type_invariant(&*self);
            lemma_adjusted(self.rows(), key@, bonding_curve_percentage, market_cap);
        }
        let ghost before = self.rows();
        let owned: String = key.to_owned();
        match self.find(&owned) {
            Some(at) => {
                let mut taken = BondingStateStore::new();
                core::mem::swap(self, &mut taken);
                proof {
                    use_type_invariant(&taken);
                }
                let BondingStateStore { entries, places } = taken;
                let mut entries = entries;
                entries[at].bonding_curve_percentage = bonding_curve_percentage;
                entries[at].market_cap = market_cap;
                proof {
                    let after = entries.deep_view();
                    let index = places@;
                    assert(after =~= before.update(
                        at as int,
                        with_figures(before[at as int], bonding_curve_percentage, market_cap),
                    ));
                    assert forall|i: int| 0 <= i < after.len() implies (
                    #[trigger] after[i]).contract_address == before[i].contract_address by {}
                    assert(places_match(index, after)) by {
                        assert forall|i: int| 0 <= i < after.len() implies {
                            &&& index.contains_key(text_hash((#[trigger] after[i]).contract_address))
                            &&& listed(index[text_hash(after[i].contract_address)]@, i)
                        } by {
                            assert(index.contains_key(text_hash(before[i].contract_address)));
                        }
                    }
                }
                *self = BondingStateStore { entries, places };
                true
            },
            None => false,
        }
    }

    /// Returns a copy of every entry, in the order of the store: a
    /// point-in-time picture that later changes of the store do not touch.
    pub fn snapshot_all(&self) -> (rows: Vec<BondingCurveAndMcInfo>)
        ensures
            rows.deep_view() == self.rows(),
            distinct_keys(self.rows()),
    {
        proof {
            use_type_invariant(self);
        }
        let mut rows: Vec<BondingCurveAndMcInfo> = Vec::new();
        let mut at: usize = 0;
        while at < self.entries.len()
            invariant
                at <= self.entries.len(),
                rows.len() == at,
                forall|j: int| 0 <= j < at ==> rows[j]@ == self.entries[j]@,
            decreases self.entries.len() - at,
        {
            rows.push(self.entries[at].clone());
            at = at + 1;
        }
        assert(rows.deep_view() =~= self.entries.deep_view());
        rows
    }

    /// Builds the store from persisted rows, put in one after the other: of
    /// rows with the same contract address the last one stays.
    pub fn from_rows(rows: Vec<BondingCurveAndMcInfo>) -> (store: Self)
        ensures
            store.rows() == loaded(rows.deep_view()),
            distinct_keys(store.rows()),
    {
        let mut store = BondingStateStore::new();
        let mut at: usize = 0;
        let ghost given = rows.deep_view();
        assert(given.take(0) =~= Seq::<BondingCurveAndMcInfoView>::empty());
        while at < rows.len()
            invariant
                at <= rows.len(),
                given == rows.deep_view(),
                store.rows() == loaded(given.take(at as int)),
                distinct_keys(store.rows()),
            decreases rows.len() - at,
        {
            proof {
                assert(given.take(at + 1).drop_last() =~= given.take(at as int));
            }
            store.upsert(rows[at].clone());
            at = at + 1;
        }
        assert(given.take(rows.len() as int) =~= given);
        store
    }
}

} // verus!
