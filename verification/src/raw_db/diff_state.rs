//! How a diff picks the generations it covers, and what it reports for a
//! changed key.
use vstd::prelude::*;

use crate::bytes::{copy_bytes, lemma_lex_lt_asymmetric, lemma_lex_lt_transitive, lex_lt};
use crate::common::{
    generation_le_opt_or, KeyValueDiff, OwnedCollectionKey, OwnedCollectionValue,
    OwnedGenerationId,
};
use crate::raw_db::changed_keys::{
    changed_keys_of, collect_changed_keys, entry_views, opt_collection_key_view,
    opt_generation_view, ChangedKeySet, GenerationKeyEntry,
};
use crate::record_key::OwnedRecordKey;

verus! {

/// A generation and the number of records written in it, as the index of
/// generation sizes holds them.
pub struct GenerationSize {
    pub generation_id: OwnedGenerationId,
    pub count: u32,
}

/// The generations and their sizes, as values.
pub open spec fn size_views(entries: Seq<GenerationSize>) -> Seq<(Seq<u8>, u32)> {
    entries.map_values(|e: GenerationSize| (e.generation_id@, e.count))
}

/// Which generations a new diff covers.
pub enum DiffStateMode {
    /// There is no generation after `from` up to `to`: nothing to diff.
    Empty,
    /// The first generation after `from` alone holds more records than the
    /// limit; the diff covers it alone, walking its keys in the store.
    SingleGeneration(OwnedGenerationId),
    /// The diff covers the generations after `from` up to this one, whose
    /// changed keys are gathered in memory.
    InMemory(OwnedGenerationId),
}

/// The index of the first generation, from `i` on, after `from`.
pub open spec fn first_after(entries: Seq<(Seq<u8>, u32)>, from: Option<Seq<u8>>, i: int) -> int
    decreases entries.len() - i,
{
    if i >= entries.len() {
        entries.len() as int
    } else if generation_le_opt_or(entries[i].0, from, false) {
        first_after(entries, from, i + 1)
    } else {
        i
    }
}

/// The index of the last generation taken when generations are added from
/// `j` on, while they are not after `to` and their sizes, added to
/// `total`, stay within `limit`.
pub open spec fn last_taken(
    entries: Seq<(Seq<u8>, u32)>,
    j: int,
    total: int,
    to: Seq<u8>,
    limit: int,
) -> int
    decreases entries.len() - j,
{
    if j >= entries.len() || lex_lt(to, entries[j].0) || total + entries[j].1 > limit {
        j - 1
    } else {
        last_taken(entries, j + 1, total + entries[j].1, to, limit)
    }
}

/// The generations a diff covers, as values: `None` for `Empty`, else
/// whether it is a single generation, and the last one.
pub open spec fn diff_generations(
    entries: Seq<(Seq<u8>, u32)>,
    from: Option<Seq<u8>>,
    to: Seq<u8>,
    limit: int,
) -> Option<(bool, Seq<u8>)> {
    let i = first_after(entries, from, 0);
    if i >= entries.len() || lex_lt(to, entries[i].0) {
        None
    } else if entries[i].1 > limit {
        Some((true, entries[i].0))
    } else {
        Some((false, entries[last_taken(entries, i + 1, entries[i].1 as int, to, limit)].0))
    }
}

/// The value of a mode.
pub open spec fn mode_view(m: DiffStateMode) -> Option<(bool, Seq<u8>)> {
    match m {
        DiffStateMode::Empty => None,
        DiffStateMode::SingleGeneration(g) => Some((true, g@)),
        DiffStateMode::InMemory(g) => Some((false, g@)),
    }
}

proof fn lemma_last_taken_not_after(
    entries: Seq<(Seq<u8>, u32)>,
    j: int,
    total: int,
    to: Seq<u8>,
    limit: int,
)
    requires
        1 <= j <= entries.len(),
        !lex_lt(to, entries[j - 1].0),
    ensures
        j - 1 <= last_taken(entries, j, total, to, limit) < entries.len(),
        !lex_lt(to, entries[last_taken(entries, j, total, to, limit)].0),
    decreases entries.len() - j,
{
    if !(j >= entries.len() || lex_lt(to, entries[j].0) || total + entries[j].1 > limit) {
        lemma_last_taken_not_after(entries, j + 1, total + entries[j].1, to, limit);
    }
}

/// Law: a diff never goes past the generation it was asked to reach: the
/// last generation it covers is `to` or before it, and it comes after
/// `from`.
pub proof fn lemma_diff_generations_within(
    entries: Seq<(Seq<u8>, u32)>,
    from: Option<Seq<u8>>,
    to: Seq<u8>,
    limit: int,
)
    requires
        forall|a: int, b: int|
            0 <= a < b < entries.len() ==> lex_lt(#[trigger] entries[a].0, #[trigger] entries[b].0),
    ensures
        diff_generations(entries, from, to, limit) matches Some((_, g)) ==> !lex_lt(to, g)
            && !generation_le_opt_or(g, from, false),
{
    lemma_first_after(entries, from, 0);
    let i = first_after(entries, from, 0);
    if i < entries.len() && !lex_lt(to, entries[i].0) && entries[i].1 <= limit {
        lemma_last_taken_not_after(entries, i + 1, entries[i].1 as int, to, limit);
        let last = last_taken(entries, i + 1, entries[i].1 as int, to, limit);
        if last > i {
            let gi = entries[i].0;
            let gl = entries[last].0;
            assert(lex_lt(gi, gl));
            match from {
                Some(f) => {
                    if crate::bytes::lex_le(gl, f) {
                        if gl == f {
                        } else {
                            lemma_lex_lt_transitive(gi, gl, f);
                        }
                        crate::bytes::lemma_lex_lt_total(gi, f);
                        lemma_lex_lt_asymmetric(gi, f);
                    }
                },
                None => {},
            }
        }
    }
}

proof fn lemma_first_after(entries: Seq<(Seq<u8>, u32)>, from: Option<Seq<u8>>, i: int)
    requires
        0 <= i <= entries.len(),
    ensures
        i <= first_after(entries, from, i) <= entries.len(),
        first_after(entries, from, i) < entries.len() ==> !generation_le_opt_or(
            entries[first_after(entries, from, i)].0,
            from,
            false,
        ),
    decreases entries.len() - i,
{
    if i < entries.len() && generation_le_opt_or(entries[i].0, from, false) {
        lemma_first_after(entries, from, i + 1);
    }
}

/// Picks the generations a new diff covers, from the generation sizes in
/// generation order: the generations after `from` (all when `from` is
/// missing) up to `to_generation_id_loose`, as many as fit within
/// `total_count_in_generations_limit` records.
pub fn select_diff_generations(
    entries: &Vec<GenerationSize>,
    from_generation_id: Option<&OwnedGenerationId>,
    to_generation_id_loose: &OwnedGenerationId,
    total_count_in_generations_limit: usize,
) -> (r: DiffStateMode)
    ensures
        mode_view(r) == diff_generations(
            size_views(entries@),
            opt_generation_view(from_generation_id),
            to_generation_id_loose@,
            total_count_in_generations_limit as int,
        ),
{
    let ghost es = size_views(entries@);
    let ghost from = opt_generation_view(from_generation_id);
    let limit = total_count_in_generations_limit;
    let mut i: usize = 0;
    while i < entries.len() && entries[i].generation_id.less_or_equal_with_opt_or(
        from_generation_id,
        false,
    )
        invariant
            0 <= i <= entries@.len(),
            es == size_views(entries@),
            from == opt_generation_view(from_generation_id),
            first_after(es, from, 0) == first_after(es, from, i as int),
        decreases entries@.len() - i,
    {
        assert(es[i as int] == (entries@[i as int].generation_id@, entries@[i as int].count));
        i = i + 1;
    }
    if i == entries.len() {
        return DiffStateMode::Empty;
    }
    assert(es[i as int] == (entries@[i as int].generation_id@, entries@[i as int].count));
    assert(first_after(es, from, i as int) == i);
    if to_generation_id_loose.less_than(&entries[i].generation_id) {
        return DiffStateMode::Empty;
    }
    let count = entries[i].count as usize;
    if count > limit {
        return DiffStateMode::SingleGeneration(entries[i].generation_id.copy());
    }
    let mut total: usize = count;
    let mut last: usize = i;
    let mut j: usize = i + 1;
    while j < entries.len() && !to_generation_id_loose.less_than(&entries[j].generation_id)
        && (entries[j].count as usize) <= limit - total
        invariant
            i < j <= entries@.len(),
            last == j - 1,
            total <= limit,
            es == size_views(entries@),
            last_taken(es, i + 1, es[i as int].1 as int, to_generation_id_loose@, limit as int)
                == last_taken(es, j as int, total as int, to_generation_id_loose@, limit as int),
        decreases entries@.len() - j,
    {
        assert(es[j as int] == (entries@[j as int].generation_id@, entries@[j as int].count));
        total = total + entries[j].count as usize;
        last = j;
        j = j + 1;
    }
    proof {
        if j < entries.len() {
            assert(es[j as int] == (entries@[j as int].generation_id@, entries@[j as int].count));
        }
        assert(last_taken(es, j as int, total as int, to_generation_id_loose@, limit as int) == last);
        assert(es[last as int] == (entries@[last as int].generation_id@, entries@[last as int].count));
    }
    DiffStateMode::InMemory(entries[last].generation_id.copy())
}

/// The bytes of a value that is present and not empty (an empty value is a
/// deleted record).
pub open spec fn present_value(v: Option<Seq<u8>>) -> Option<Seq<u8>> {
    match v {
        Some(b) => if b.len() > 0 {
            Some(b)
        } else {
            None
        },
        None => None,
    }
}

/// The value of an optional record value.
pub open spec fn opt_value_view(v: Option<OwnedCollectionValue>) -> Option<Seq<u8>> {
    match v {
        Some(v) => Some(v@),
        None => None,
    }
}

fn take_present(v: Option<OwnedCollectionValue>) -> (r: Option<OwnedCollectionValue>)
    ensures
        opt_value_view(r) == present_value(opt_value_view(v)),
{
    match v {
        Some(v) => if v.is_empty() {
            None
        } else {
            Some(v)
        },
        None => None,
    }
}

fn same_opt_value(a: &Option<OwnedCollectionValue>, b: &Option<OwnedCollectionValue>) -> (r: bool)
    ensures
        r == (opt_value_view(*a) == opt_value_view(*b)),
{
    match (a, b) {
        (Some(a), Some(b)) => crate::bytes::bytes_eq(a.get_value(), b.get_value()),
        (None, None) => true,
        _ => false,
    }
}

/// The item a diff reports for `key`, given the values of its records in
/// the `from` and `to` generations (`None` where there is no record): none
/// when the key holds the same value in both (a missing or empty value
/// counting as none), else the item with the values that are present.
pub fn diff_item_for_key(
    key: OwnedCollectionKey,
    from_value: Option<OwnedCollectionValue>,
    to_value: Option<OwnedCollectionValue>,
) -> (r: Option<KeyValueDiff>)
    ensures
        r is Some == (present_value(opt_value_view(from_value)) != present_value(
            opt_value_view(to_value),
        )),
        r matches Some(d) ==> d.key@ == key@ && opt_value_view(d.from_value) == present_value(
            opt_value_view(from_value),
        ) && opt_value_view(d.to_value) == present_value(opt_value_view(to_value))
            && d.intermediate_values@.len() == 0,
{
    let from_value = take_present(from_value);
    let to_value = take_present(to_value);
    if same_opt_value(&from_value, &to_value) {
        return None;
    }
    Some(KeyValueDiff { key, from_value, intermediate_values: Vec::new(), to_value })
}

/// What a diff is asked for.
pub struct DiffCollectionRecordsOptions {
    pub from_generation_id: Option<OwnedGenerationId>,
    /// Not loose when `prev_diff_state` is given.
    pub to_generation_id_loose: OwnedGenerationId,
    pub prev_diff_state: Option<DiffCursorState>,
    pub limit: usize,
    pub records_to_view_limit: usize,
    pub total_count_in_generations_limit: usize,
}

/// What a diff gives: the generation it reached, the items, and the state
/// to go on from when it stopped early.
pub struct DiffCollectionRecordsOk {
    pub to_generation_id: OwnedGenerationId,
    pub items: Vec<KeyValueDiff>,
    pub next_diff_state: Option<DiffCursorState>,
}

/// Where a diff that stopped early goes on from.
pub struct DiffCursorState {
    pub changed_key: OwnedCollectionKey,
    pub first_value: Option<Vec<u8>>,
    pub last_value: Option<Vec<u8>>,
    pub next_record_key: OwnedRecordKey,
}

/// The state of a diff that goes on: the values found so far for the key
/// it stopped at, and the record to read next.
pub struct PrevDiffState {
    pub first_value: Option<Vec<u8>>,
    pub last_value: Option<Vec<u8>>,
    pub next_record_key: OwnedRecordKey,
}

/// The changed keys of a diff whose generations are few enough to gather
/// in memory.
pub struct DiffStateInMemoryMode {
    pub changed_keys: ChangedKeySet,
}

impl PrevDiffState {
    /// The state a diff cursor goes on from.
    pub fn from_cursor(cursor: &DiffCursorState) -> (r: Self)
        ensures
            r.next_record_key@ == cursor.next_record_key@,
            r.first_value matches Some(v) ==> cursor.first_value matches Some(c) && v@ == c@,
            r.first_value is None ==> cursor.first_value is None,
            r.last_value matches Some(v) ==> cursor.last_value matches Some(c) && v@ == c@,
            r.last_value is None ==> cursor.last_value is None,
    {
        PrevDiffState {
            first_value: match &cursor.first_value {
                Some(v) => Some(copy_bytes(v.as_slice())),
                None => None,
            },
            last_value: match &cursor.last_value {
                Some(v) => Some(copy_bytes(v.as_slice())),
                None => None,
            },
            next_record_key: cursor.next_record_key.copy(),
        }
    }
}

/// The state of a diff that goes on from a cursor: the generation it reaches,
/// the collection key it reads on from (that of the cursor's next record),
/// and the changed keys from the cursor's changed key on.
pub struct ContinuedDiffState {
    pub to_generation_id: OwnedGenerationId,
    pub from_collection_key: OwnedCollectionKey,
    pub changed_keys: ChangedKeySet,
}

/// The state a diff goes on from, given the cursor it stopped at: the keys
/// changed after `from` up to `to`, from the cursor's changed key on.
pub fn continue_prev(
    entries: &Vec<GenerationKeyEntry>,
    from_generation_id: Option<&OwnedGenerationId>,
    to_generation_id: &OwnedGenerationId,
    prev_state: &DiffCursorState,
) -> (r: ContinuedDiffState)
    ensures
        r.to_generation_id@ == to_generation_id@,
        r.from_collection_key@ == prev_state.next_record_key.parts().collection_key,
        r.changed_keys@.to_set() == changed_keys_of(
            entry_views(entries@),
            opt_generation_view(from_generation_id),
            to_generation_id@,
            Some(prev_state.changed_key@),
        ),
{
    let changed_keys = collect_changed_keys(
        entries,
        from_generation_id,
        to_generation_id,
        Some(&prev_state.changed_key),
    );
    let parsed = prev_state.next_record_key.parse();
    ContinuedDiffState {
        to_generation_id: to_generation_id.copy(),
        from_collection_key: parsed.collection_key().copy(),
        changed_keys,
    }
}

} // verus!
