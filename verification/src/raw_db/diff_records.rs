//! A diff over a collection's records: the generations it covers, the keys
//! changed in them, and for each such key its visible values in the `from`
//! and the `to` generation.
use vstd::prelude::*;

use crate::bytes::{bytes_le, bytes_lt, lex_le, lex_lt};
use crate::common::{KeyValueDiff, OwnedCollectionKey, OwnedCollectionValue, OwnedGenerationId, OwnedPhantomId};
use crate::raw_db::changed_keys::{
    changed_keys_of, collect_changed_keys, entry_views, strictly_sorted,
    ChangedKeySet, GenerationKeyEntry, InMemoryChangedKeysIter,
};
use crate::raw_db::diff_state::{
    diff_generations, diff_item_for_key, opt_value_view, present_value, size_views,
    DiffCollectionRecordsOk, DiffCollectionRecordsOptions, DiffStateMode, GenerationSize,
};
use crate::raw_db::errors::RawDbError;
use crate::raw_db::gc_iterator::is_need_to_delete;
use crate::diff_logic::{no_generation_key, DiffLogicError};
use crate::record_key::{OwnedParsedRecordKey, OwnedRecordKey, RecordKeyView};

verus! {

/// A record of the collection: its record key and its value.
pub struct StoredRecord {
    pub key: OwnedRecordKey,
    pub value: Vec<u8>,
}

/// What a diff reads of a collection: its records in key order, the index
/// of which keys changed in which generation (in generation order), the
/// number of records written in each generation (in generation order), and
/// the phantom id up to which phantoms are collected.
pub struct RecordStore {
    pub records: Vec<StoredRecord>,
    pub generation_index: Vec<GenerationKeyEntry>,
    pub generation_sizes: Vec<GenerationSize>,
    pub gc_phantom_id: Option<OwnedPhantomId>,
}

impl RecordStore {
    /// The records are in strictly increasing key order, the generation
    /// sizes in strictly increasing generation order, and the index in
    /// generation order.
    pub open spec fn wf(&self) -> bool {
        &&& forall|i: int, j: int|
            0 <= i < j < self.records@.len() ==> lex_lt(
                #[trigger] self.records@[i].key@,
                #[trigger] self.records@[j].key@,
            )
        &&& forall|a: int, b: int|
            0 <= a < b < self.generation_sizes@.len() ==> lex_lt(
                #[trigger] size_views(self.generation_sizes@)[a].0,
                #[trigger] size_views(self.generation_sizes@)[b].0,
            )
        &&& forall|a: int, b: int|
            0 <= a < b < self.generation_index@.len() ==> lex_le(
                #[trigger] entry_views(self.generation_index@)[a].0,
                #[trigger] entry_views(self.generation_index@)[b].0,
            )
    }

    /// The collected phantom id, as bytes.
    pub open spec fn gc_view(&self) -> Option<Seq<u8>> {
        match self.gc_phantom_id {
            Some(p) => Some(p@),
            None => None,
        }
    }

    /// The parts of the `i`-th record's key.
    pub open spec fn parts(&self, i: int) -> RecordKeyView {
        self.records@[i].key.parts()
    }

    /// The `i`-th record belongs to a collected phantom.
    pub open spec fn is_collected(&self, i: int) -> bool {
        self.parts(i).phantom_id matches Some(p) && self.gc_view() matches Some(gc) && lex_le(p, gc)
    }

    /// Among the first `n` records, the one of key `k` (without a phantom)
    /// whose generation is the greatest one at or before `g`.
    pub open spec fn latest_index(&self, k: Seq<u8>, g: Seq<u8>, n: int) -> Option<int>
        decreases n,
    {
        if n <= 0 {
            None
        } else {
            let rest = self.latest_index(k, g, n - 1);
            let p = self.parts(n - 1);
            if p.collection_key == k && p.phantom_id is None && lex_le(p.generation_id, g) && (
            match rest {
                None => true,
                Some(j) => lex_lt(self.parts(j).generation_id, p.generation_id),
            }) {
                Some(n - 1)
            } else {
                rest
            }
        }
    }

    /// The value of key `k` visible in generation `g`: that of its record
    /// (without a phantom) with the greatest generation at or before `g`;
    /// none when there is no such record or its value is empty (deleted).
    pub open spec fn visible_value(&self, k: Seq<u8>, g: Seq<u8>) -> Option<Seq<u8>> {
        match self.latest_index(k, g, self.records@.len() as int) {
            Some(i) => present_value(Some(self.records@[i].value@)),
            None => None,
        }
    }

    /// The same record (or none) is visible for key `k` in `f` and in `t`:
    /// the key did not change between them.
    pub open spec fn same_record(&self, k: Seq<u8>, f: Seq<u8>, t: Seq<u8>) -> bool {
        self.latest_index(k, f, self.records@.len() as int) == self.latest_index(
            k,
            t,
            self.records@.len() as int,
        )
    }

    /// The index of the first record at or after index `j` whose key is at
    /// or after the bytes `b` (the number of records when there is none):
    /// where a cursor seeking `b` lands.
    pub open spec fn seek_index(&self, b: Seq<u8>, j: int) -> int
        decreases self.records@.len() - j,
    {
        if j >= self.records@.len() || j < 0 {
            self.records@.len() as int
        } else if lex_le(b, self.records@[j].key@) {
            j
        } else {
            self.seek_index(b, j + 1)
        }
    }

    /// Whether the walk over key `k` up to generation `t` goes on past the
    /// record at index `j`: the record belongs to a collected phantom
    /// (skipped), or is a record of `k` in or before `t`.
    pub open spec fn walk_continues(&self, k: Seq<u8>, t: Seq<u8>, j: int) -> bool {
        self.is_collected(j) || (self.parts(j).collection_key == k && !lex_lt(
            t,
            self.parts(j).generation_id,
        ))
    }

    /// The keys of the records of collected phantoms that the walk over key
    /// `k` up to generation `t` passes, from index `j` on.
    pub open spec fn passed_from(&self, k: Seq<u8>, t: Seq<u8>, j: int) -> Seq<Seq<u8>>
        decreases self.records@.len() - j,
    {
        if j < 0 || j >= self.records@.len() || !self.walk_continues(k, t, j) {
            Seq::empty()
        } else if self.is_collected(j) {
            seq![self.records@[j].key@] + self.passed_from(k, t, j + 1)
        } else {
            self.passed_from(k, t, j + 1)
        }
    }

    /// The keys of the records of collected phantoms that the walk over key
    /// `k` up to generation `t` passes: it starts where a cursor seeking the
    /// key's first possible record lands, and goes on over the records of
    /// collected phantoms and the records of `k` in or before `t`.
    pub open spec fn collected_of(&self, k: Seq<u8>, t: Seq<u8>) -> Seq<Seq<u8>> {
        self.passed_from(k, t, self.seek_index(no_generation_key(k), 0))
    }
}

/// The keys of the records of collected phantoms that the walks over each
/// key of `keys` up to generation `t` pass, key after key.
pub open spec fn collected_for_keys(store: &RecordStore, keys: Seq<Seq<u8>>, t: Seq<u8>) -> Seq<
    Seq<u8>,
>
    decreases keys.len(),
{
    if keys.len() == 0 {
        Seq::empty()
    } else {
        collected_for_keys(store, keys.drop_last(), t) + store.collected_of(keys.last(), t)
    }
}

/// The bytes of an optional generation id.
pub open spec fn opt_generation(g: Option<OwnedGenerationId>) -> Option<Seq<u8>> {
    match g {
        Some(g) => Some(g@),
        None => None,
    }
}

/// The `from` generation of a diff: the empty one when none is given.
pub open spec fn from_generation(options: &DiffCollectionRecordsOptions) -> Seq<u8> {
    match options.from_generation_id {
        Some(g) => g@,
        None => Seq::empty(),
    }
}

/// `items` is the diff of `store` over the changed keys `changed`, from
/// generation `f` to `t`: in strictly increasing key order, exactly the
/// changed keys whose visible values in `f` and `t` differ, each with those
/// values and no intermediate ones.
pub open spec fn exact_diff(
    store: &RecordStore,
    items: Seq<KeyValueDiff>,
    changed: Set<Seq<u8>>,
    f: Seq<u8>,
    t: Seq<u8>,
) -> bool {
    &&& forall|a: int, b: int|
        0 <= a < b < items.len() ==> lex_lt(#[trigger] items[a].key@, #[trigger] items[b].key@)
    &&& forall|a: int|
        0 <= a < items.len() ==> {
            let d = #[trigger] items[a];
            &&& changed.contains(d.key@)
            &&& opt_value_view(d.from_value) == store.visible_value(d.key@, f)
            &&& opt_value_view(d.to_value) == store.visible_value(d.key@, t)
            &&& store.visible_value(d.key@, f) != store.visible_value(d.key@, t)
            &&& d.intermediate_values@.len() == 0
        }
    &&& forall|k: Seq<u8>|
        changed.contains(k) && store.visible_value(k, f) != store.visible_value(k, t) ==> exists|
            a: int,
        | 0 <= a < items.len() && (#[trigger] items[a]).key@ == k
}

/// The index of the record of key `k` visible in generation `g`.
fn latest_record(store: &RecordStore, k: &OwnedCollectionKey, g: &OwnedGenerationId) -> (r: Option<
    usize,
>)
    ensures
        match r {
            None => store.latest_index(k@, g@, store.records@.len() as int) is None,
            Some(j) => store.latest_index(k@, g@, store.records@.len() as int) == Some(j as int)
                && j < store.records@.len(),
        },
{
    let mut best: Option<usize> = None;
    let mut i: usize = 0;
    while i < store.records.len()
        invariant
            0 <= i <= store.records@.len(),
            match best {
                None => store.latest_index(k@, g@, i as int) is None,
                Some(j) => store.latest_index(k@, g@, i as int) == Some(j as int) && j < i,
            },
        decreases store.records@.len() - i,
    {
        let p = store.records[i].key.parse();
        let better = if p.collection_key().same_as(k) && !p.is_phantom()
            && p.generation_id().less_or_equal(g) {
            match best {
                None => true,
                Some(j) => {
                    let q = store.records[j].key.parse();
                    bytes_lt(q.generation_id().get_byte_array(), p.generation_id().get_byte_array())
                },
            }
        } else {
            false
        };
        proof {
            assert(p@ == store.parts(i as int));
            if let Some(j) = best {
                assert(store.records@[j as int].key.parts() == store.parts(j as int));
            }
        }
        if better {
            best = Some(i);
        }
        i = i + 1;
    }
    best
}

/// The value of the record at `j`, if any.
fn record_value(store: &RecordStore, j: Option<usize>) -> (r: Option<OwnedCollectionValue>)
    requires
        j matches Some(j) ==> j < store.records@.len(),
    ensures
        opt_value_view(r) == match j {
            Some(j) => Some(store.records@[j as int].value@),
            None => None,
        },
{
    match j {
        None => None,
        Some(j) => Some(OwnedCollectionValue::new(store.records[j].value.as_slice())),
    }
}

/// Whether the record at `j` belongs to a collected phantom.
fn is_collected(store: &RecordStore, j: usize) -> (r: bool)
    requires
        j < store.records@.len(),
    ensures
        r == store.is_collected(j as int),
{
    let p = store.records[j].key.parse();
    match &store.gc_phantom_id {
        Some(gc) => is_need_to_delete(p.phantom_id(), gc),
        None => false,
    }
}

/// Whether the walk over `k` up to `t` goes on past the record at `j`.
fn walk_continues(store: &RecordStore, k: &OwnedCollectionKey, t: &OwnedGenerationId, j: usize) -> (r:
    bool)
    requires
        j < store.records@.len(),
    ensures
        r == store.walk_continues(k@, t@, j as int),
{
    let p = store.records[j].key.parse();
    is_collected(store, j) || (p.collection_key().same_as(k) && !t.less_than(p.generation_id()))
}

/// Appends the keys of the records of collected phantoms that the walk
/// over `k` up to `t` passes.
fn collected_records_of(
    store: &RecordStore,
    k: &OwnedCollectionKey,
    t: &OwnedGenerationId,
    out: &mut Vec<OwnedRecordKey>,
)
    ensures
        record_keys_view(final(out)@) == record_keys_view(old(out)@) + store.collected_of(k@, t@),
{
    let first = OwnedParsedRecordKey::new(k, &OwnedGenerationId::empty(), None).as_record_key();
    let mut j: usize = 0;
    while j < store.records.len() && !bytes_le(first.get_byte_array(), store.records[j].key.get_byte_array())
        invariant
            0 <= j <= store.records@.len(),
            first@ == no_generation_key(k@),
            store.seek_index(first@, 0) == store.seek_index(first@, j as int),
        decreases store.records@.len() - j,
    {
        j = j + 1;
    }
    assert(store.seek_index(first@, j as int) == j as int);
    let ghost start = record_keys_view(old(out)@);
    let ghost all = store.passed_from(k@, t@, j as int);
    assert(all == store.collected_of(k@, t@));
    while j < store.records.len() && walk_continues(store, k, t, j)
        invariant
            0 <= j <= store.records@.len(),
            record_keys_view(out@) + store.passed_from(k@, t@, j as int) == start + all,
        decreases store.records@.len() - j,
    {
        if is_collected(store, j) {
            let ghost before = record_keys_view(out@);
            out.push(store.records[j].key.copy());
            proof {
                assert(record_keys_view(out@) =~= before.push(store.records@[j as int].key@));
                assert(record_keys_view(out@) + store.passed_from(k@, t@, j + 1) =~= before + (seq![
                    store.records@[j as int].key@,
                ] + store.passed_from(k@, t@, j + 1)));
            }
        }
        j = j + 1;
    }
    proof {
        assert(store.passed_from(k@, t@, j as int) =~= Seq::<Seq<u8>>::empty());
        assert(record_keys_view(out@) =~= start + all);
    }
}

/// The keys of `deleted`.
pub open spec fn record_keys_view(deleted: Seq<OwnedRecordKey>) -> Seq<Seq<u8>> {
    deleted.map_values(|x: OwnedRecordKey| x@)
}

/// `ok` and `deleted` are the diff of `store` over the changed keys
/// `changed` from generation `f` to `ok`'s generation, and the records of
/// collected phantoms of the changed keys (key after key, in key order).
pub open spec fn diff_result(
    store: &RecordStore,
    ok: DiffCollectionRecordsOk,
    deleted: Seq<OwnedRecordKey>,
    changed: Set<Seq<u8>>,
    f: Seq<u8>,
) -> bool {
    &&& ok.next_diff_state is None
    &&& exact_diff(store, ok.items@, changed, f, ok.to_generation_id@)
    &&& exists|cs: Seq<Seq<u8>>|
        strictly_sorted(cs) && cs.to_set() == changed && record_keys_view(deleted)
            == collected_for_keys(store, cs, ok.to_generation_id@)
}

/// The items and the collected records of a diff over the keys of
/// `changed`, from generation `f` to `t`.
fn diff_over_keys(
    store: &RecordStore,
    changed: ChangedKeySet,
    f: &OwnedGenerationId,
    t: &OwnedGenerationId,
) -> (r: Result<(Vec<KeyValueDiff>, Vec<OwnedRecordKey>), RawDbError>)
    ensures
        strictly_sorted(changed@),
        r is Err <==> exists|k: Seq<u8>|
            changed@.to_set().contains(k) && #[trigger] store.same_record(k, f@, t@),
        r matches Err(e) ==> e == RawDbError::DiffLogic(DiffLogicError::ChangeNotFound),
        r matches Ok((items, deleted)) ==> exact_diff(store, items@, changed@.to_set(), f@, t@)
            && record_keys_view(deleted@) == collected_for_keys(store, changed@, t@),
{
    proof {
        use_type_invariant(&changed);
    }
    let ghost cs = changed@;
    let n = changed.len();
    let mut iter = InMemoryChangedKeysIter::new(changed);
    let mut items: Vec<KeyValueDiff> = Vec::new();
    let mut deleted: Vec<OwnedRecordKey> = Vec::new();
    let ghost mut idx: Seq<int> = Seq::empty();
    let mut i: usize = 0;
    assert(cs.skip(0) =~= cs);
    assert(cs.take(0) =~= Seq::<Seq<u8>>::empty());
    assert(record_keys_view(deleted@) =~= Seq::<Seq<u8>>::empty());
    while i < n
        invariant
            n == cs.len(),
            cs == changed@,
            0 <= i <= n,
            iter@ == cs.skip(i as int),
            strictly_sorted(cs),
            idx.len() == items@.len(),
            forall|a: int|
                0 <= a < items@.len() ==> 0 <= #[trigger] idx[a] < i && items@[a].key@ == cs[idx[a]],
            forall|a: int, b: int|
                0 <= a < b < items@.len() ==> lex_lt(
                    #[trigger] items@[a].key@,
                    #[trigger] items@[b].key@,
                ),
            forall|a: int|
                0 <= a < items@.len() ==> {
                    let d = #[trigger] items@[a];
                    &&& opt_value_view(d.from_value) == store.visible_value(d.key@, f@)
                    &&& opt_value_view(d.to_value) == store.visible_value(d.key@, t@)
                    &&& store.visible_value(d.key@, f@) != store.visible_value(d.key@, t@)
                    &&& d.intermediate_values@.len() == 0
                },
            forall|j: int|
                0 <= j < i && store.visible_value(cs[j], f@) != store.visible_value(cs[j], t@)
                    ==> exists|a: int| 0 <= a < items@.len() && (#[trigger] items@[a]).key@ == cs[j],
            record_keys_view(deleted@) == collected_for_keys(store, cs.take(i as int), t@),
            forall|j: int| 0 <= j < i ==> !#[trigger] store.same_record(cs[j], f@, t@),
        decreases n - i,
    {
        let k = match iter.next() {
            Some(k) => k,
            None => {
                proof {
                    assert(false);
                }
                return Ok((items, deleted));
            },
        };
        proof {
            assert(k@ == cs[i as int]);
            assert(cs.skip(i as int).drop_first() =~= cs.skip(i + 1));
        }
        let ghost before_deleted = record_keys_view(deleted@);
        collected_records_of(store, &k, t, &mut deleted);
        proof {
            assert(cs.take(i + 1).drop_last() =~= cs.take(i as int));
            assert(cs.take(i + 1).last() == cs[i as int]);
            assert(record_keys_view(deleted@) == collected_for_keys(store, cs.take(i + 1), t@));
        }
        let from_index = latest_record(store, &k, f);
        let to_index = latest_record(store, &k, t);
        if from_index == to_index {
            proof {
                assert(store.same_record(cs[i as int], f@, t@));
                assert(cs.contains(cs[i as int]));
                assert(cs.to_set().contains(cs[i as int]));
            }
            return Err(RawDbError::DiffLogic(DiffLogicError::ChangeNotFound));
        }
        let from_value = record_value(store, from_index);
        let to_value = record_value(store, to_index);
        let ghost kv = k@;
        match diff_item_for_key(k, from_value, to_value) {
            Some(item) => {
                let ghost before = items@;
                items.push(item);
                proof {
                    idx = idx.push(i as int);
                    assert forall|a: int, b: int|
                        0 <= a < b < items@.len() implies lex_lt(
                        #[trigger] items@[a].key@,
                        #[trigger] items@[b].key@,
                    ) by {
                        if b == before.len() {
                            assert(items@[a] == before[a]);
                            assert(idx[a] < i);
                        } else {
                            assert(items@[a] == before[a]);
                            assert(items@[b] == before[b]);
                        }
                    }
                    assert forall|a: int| 0 <= a < items@.len() implies 0 <= #[trigger] idx[a]
                        < i + 1 && items@[a].key@ == cs[idx[a]] by {
                        if a < before.len() {
                            assert(items@[a] == before[a]);
                        }
                    }
                    assert forall|a: int| 0 <= a < items@.len() implies {
                        let d = #[trigger] items@[a];
                        &&& opt_value_view(d.from_value) == store.visible_value(d.key@, f@)
                        &&& opt_value_view(d.to_value) == store.visible_value(d.key@, t@)
                        &&& store.visible_value(d.key@, f@) != store.visible_value(d.key@, t@)
                        &&& d.intermediate_values@.len() == 0
                    } by {
                        if a < before.len() {
                            assert(items@[a] == before[a]);
                        }
                    }
                    assert forall|j: int|
                        0 <= j < i + 1 && store.visible_value(cs[j], f@) != store.visible_value(
                            cs[j],
                            t@,
                        ) implies exists|a: int|
                        0 <= a < items@.len() && (#[trigger] items@[a]).key@ == cs[j] by {
                        if j < i {
                            let a = choose|a: int|
                                0 <= a < before.len() && (#[trigger] before[a]).key@ == cs[j];
                            assert(items@[a] == before[a]);
                        } else {
                            assert(items@[before.len() as int].key@ == cs[j]);
                        }
                    }
                }
            },
            None => {
                proof {
                    assert(store.visible_value(kv, f@) == store.visible_value(kv, t@));
                }
            },
        }
        i = i + 1;
    }
    proof {
        assert(cs.take(n as int) =~= cs);
        assert forall|k: Seq<u8>|
            cs.to_set().contains(k) && store.visible_value(k, f@) != store.visible_value(k, t@)
            implies exists|a: int| 0 <= a < items@.len() && (#[trigger] items@[a]).key@ == k by {
            assert(cs.contains(k));
            let j = choose|j: int| 0 <= j < cs.len() && cs[j] == k;
        }
        assert forall|a: int| 0 <= a < items@.len() implies cs.to_set().contains(
            (#[trigger] items@[a]).key@,
        ) by {
            assert(cs.contains(cs[idx[a]]));
        }
        assert forall|k: Seq<u8>| cs.to_set().contains(k) implies !#[trigger] store.same_record(
            k,
            f@,
            t@,
        ) by {
            assert(cs.contains(k));
            let j = choose|j: int| 0 <= j < cs.len() && cs[j] == k;
            assert(!store.same_record(cs[j], f@, t@));
        }
    }
    Ok((items, deleted))
}

/// `r` is the outcome of a diff of `store` over the changed keys `changed`
/// from generation `f` to `t`: it fails with `ChangeNotFound` when some
/// changed key has the same visible record (or none) in both generations;
/// otherwise it reaches `t` with the exact diff.
pub open spec fn diff_outcome(
    store: &RecordStore,
    r: Result<(DiffCollectionRecordsOk, Vec<OwnedRecordKey>), RawDbError>,
    changed: Set<Seq<u8>>,
    f: Seq<u8>,
    t: Seq<u8>,
) -> bool {
    if exists|k: Seq<u8>| changed.contains(k) && #[trigger] store.same_record(k, f, t) {
        r == Err::<(DiffCollectionRecordsOk, Vec<OwnedRecordKey>), RawDbError>(
            RawDbError::DiffLogic(DiffLogicError::ChangeNotFound),
        )
    } else {
        r matches Ok((ok, deleted)) && ok.to_generation_id@ == t && diff_result(
            store,
            ok,
            deleted@,
            changed,
            f,
        )
    }
}

/// The changed keys of a diff from `from` to `t`: those of the index,
/// starting at the cursor's changed key when the diff goes on from one.
pub open spec fn diff_changed_keys(
    store: &RecordStore,
    options: &DiffCollectionRecordsOptions,
    t: Seq<u8>,
) -> Set<Seq<u8>> {
    changed_keys_of(
        entry_views(store.generation_index@),
        opt_generation(options.from_generation_id),
        t,
        match options.prev_diff_state {
            Some(p) => Some(p.changed_key@),
            None => None,
        },
    )
}

/// A diff of the collection held by `store`. When it goes on from a previous
/// one (a cursor), it covers the generations up to `to_generation_id_loose`
/// and the changed keys from the cursor's key on. Otherwise the generations
/// are picked from the generation sizes (`diff_generations`); when none
/// follows `from` the diff is empty and reaches `to_generation_id_loose`.
/// It fails with `ChangeNotFound` when a changed key has the same visible
/// record (or none) in both generations. Otherwise the items are, in
/// ascending key order, exactly the changed keys whose visible values
/// differ between the two generations, each with those values; and the
/// records of collected phantoms that the walk over each changed key passes
/// are returned to be deleted.
pub fn diff_collection_records(store: &RecordStore, options: &DiffCollectionRecordsOptions) -> (r:
    Result<(DiffCollectionRecordsOk, Vec<OwnedRecordKey>), RawDbError>)
    requires
        store.wf(),
    ensures
        match options.prev_diff_state {
            Some(_) => diff_outcome(
                store,
                r,
                diff_changed_keys(store, options, options.to_generation_id_loose@),
                from_generation(options),
                options.to_generation_id_loose@,
            ),
            None => match diff_generations(
                size_views(store.generation_sizes@),
                opt_generation(options.from_generation_id),
                options.to_generation_id_loose@,
                options.total_count_in_generations_limit as int,
            ) {
                None => r matches Ok((ok, deleted)) && ok.to_generation_id@
                    == options.to_generation_id_loose@ && ok.items@.len() == 0 && deleted@.len() == 0
                    && ok.next_diff_state is None,
                Some((_, g)) => diff_outcome(
                    store,
                    r,
                    diff_changed_keys(store, options, g),
                    from_generation(options),
                    g,
                ),
            },
        },
{
    let from = options.from_generation_id.as_ref();
    let to_generation_id: OwnedGenerationId;
    let changed;
    match &options.prev_diff_state {
        Some(prev) => {
            to_generation_id = options.to_generation_id_loose.copy();
            changed = collect_changed_keys(
                &store.generation_index,
                from,
                &to_generation_id,
                Some(&prev.changed_key),
            );
        },
        None => {
            let mode = crate::raw_db::diff_state::select_diff_generations(
                &store.generation_sizes,
                from,
                &options.to_generation_id_loose,
                options.total_count_in_generations_limit,
            );
            match mode {
                DiffStateMode::Empty => {
                    return Ok(
                        (
                            DiffCollectionRecordsOk {
                                to_generation_id: options.to_generation_id_loose.copy(),
                                items: Vec::new(),
                                next_diff_state: None,
                            },
                            Vec::new(),
                        ),
                    );
                },
                DiffStateMode::SingleGeneration(g) => {
                    to_generation_id = g;
                },
                DiffStateMode::InMemory(g) => {
                    to_generation_id = g;
                },
            }
            changed = collect_changed_keys(&store.generation_index, from, &to_generation_id, None);
        },
    }
    let from_generation_id = match from {
        Some(g) => g.copy(),
        None => OwnedGenerationId::empty(),
    };
    let ghost ch = changed@;
    let (items, deleted) = match diff_over_keys(store, changed, &from_generation_id, &to_generation_id) {
        Ok(x) => x,
        Err(e) => {
            return Err(e);
        },
    };
    let ok = DiffCollectionRecordsOk { to_generation_id, items, next_diff_state: None };
    proof {
        assert(strictly_sorted(ch) && record_keys_view(deleted@) == collected_for_keys(store, ch, ok.to_generation_id@));
    }
    Ok((ok, deleted))
}


/// Law: the record whose value a key has in generation `g` is the key's
/// record written without a phantom id, at or before `g`, with the
/// greatest generation among those; when the key has no such record it
/// has no value. Records written with a phantom id are never a key's value.
pub proof fn lemma_visible_record_is_latest_without_phantom(
    store: &RecordStore,
    k: Seq<u8>,
    g: Seq<u8>,
    n: int,
)
    requires
        0 <= n <= store.records@.len(),
    ensures
        store.latest_index(k, g, n) matches Some(i) ==> {
            &&& 0 <= i < n
            &&& store.parts(i).collection_key == k
            &&& store.parts(i).phantom_id is None
            &&& lex_le(store.parts(i).generation_id, g)
            &&& forall|j: int|
                0 <= j < n && (#[trigger] store.parts(j)).collection_key == k
                    && store.parts(j).phantom_id is None && lex_le(store.parts(j).generation_id, g)
                    ==> lex_le(store.parts(j).generation_id, store.parts(i).generation_id)
        },
        store.latest_index(k, g, n) is None ==> forall|j: int|
            0 <= j < n ==> !((#[trigger] store.parts(j)).collection_key == k
                && store.parts(j).phantom_id is None && lex_le(store.parts(j).generation_id, g)),
    decreases n,
{
    if n > 0 {
        lemma_visible_record_is_latest_without_phantom(store, k, g, n - 1);
        let rest = store.latest_index(k, g, n - 1);
        let p = store.parts(n - 1);
        if let Some(i) = store.latest_index(k, g, n) {
            if i == n - 1 {
                assert forall|j: int|
                    0 <= j < n && (#[trigger] store.parts(j)).collection_key == k
                        && store.parts(j).phantom_id is None && lex_le(
                        store.parts(j).generation_id,
                        g,
                    ) implies lex_le(store.parts(j).generation_id, p.generation_id) by {
                    if j < n - 1 {
                        if let Some(r) = rest {
                            let gj = store.parts(j).generation_id;
                            let gr = store.parts(r).generation_id;
                            if gj != gr && lex_lt(gr, p.generation_id) {
                                crate::bytes::lemma_lex_lt_transitive(gj, gr, p.generation_id);
                            }
                        }
                    }
                }
            } else {
                assert(rest == Some(i));
                assert forall|j: int|
                    0 <= j < n && (#[trigger] store.parts(j)).collection_key == k
                        && store.parts(j).phantom_id is None && lex_le(
                        store.parts(j).generation_id,
                        g,
                    ) implies lex_le(store.parts(j).generation_id, store.parts(i).generation_id) by {
                    if j == n - 1 {
                        crate::bytes::lemma_lex_lt_total(
                            store.parts(i).generation_id,
                            p.generation_id,
                        );
                    }
                }
            }
        }
    }
}

/// A record written by a finished phantom: one with a phantom id at or
/// before the collected phantom id `gc`.
pub open spec fn of_finished_phantom(r: RecordKeyView, gc: Option<Seq<u8>>) -> bool {
    match (r.phantom_id, gc) {
        (Some(p), Some(gc)) => lex_le(p, gc),
        _ => false,
    }
}

/// Law: the records a diff returns for deletion all belong to phantoms that
/// are finished: each is a record of the store written with a phantom id
/// at or before the collected phantom id. No record without a phantom id,
/// and none of a phantom after the collected one, is ever returned.
pub proof fn lemma_only_finished_phantom_records_are_deleted(
    store: &RecordStore,
    keys: Seq<Seq<u8>>,
    t: Seq<u8>,
    x: int,
)
    requires
        0 <= x < collected_for_keys(store, keys, t).len(),
    ensures
        exists|i: int|
            0 <= i < store.records@.len() && store.records@[i].key@ == collected_for_keys(
                store,
                keys,
                t,
            )[x] && of_finished_phantom(#[trigger] store.parts(i), store.gc_view()),
    decreases keys.len(),
{
    let all = collected_for_keys(store, keys, t);
    let before = collected_for_keys(store, keys.drop_last(), t);
    if x < before.len() {
        assert(all[x] == before[x]);
        lemma_only_finished_phantom_records_are_deleted(store, keys.drop_last(), t, x);
    } else {
        let k = keys.last();
        assert(all[x] == store.collected_of(k, t)[x - before.len()]);
        lemma_passed_are_collected(store, k, t, store.seek_index(no_generation_key(k), 0), x - before.len());
    }
}

proof fn lemma_passed_are_collected(store: &RecordStore, k: Seq<u8>, t: Seq<u8>, j: int, x: int)
    requires
        0 <= x < store.passed_from(k, t, j).len(),
    ensures
        exists|i: int|
            j <= i < store.records@.len() && store.records@[i].key@ == store.passed_from(k, t, j)[x]
                && of_finished_phantom(#[trigger] store.parts(i), store.gc_view()),
    decreases store.records@.len() - j,
{
    let s = store.passed_from(k, t, j);
    if store.is_collected(j) {
        if x == 0 {
            assert(s[0] == store.records@[j].key@);
            assert(store.parts(j).phantom_id is Some);
        } else {
            assert(s[x] == store.passed_from(k, t, j + 1)[x - 1]);
            lemma_passed_are_collected(store, k, t, j + 1, x - 1);
        }
    } else {
        lemma_passed_are_collected(store, k, t, j + 1, x);
    }
}

} // verus!
