//! The keys next to a key, on both sides, as a read sees them.
use vstd::prelude::*;

use crate::common::OwnedCollectionKey;
use crate::raw_db::errors::RawDbError;
use crate::record_key::OwnedRecordKey;

verus! {

/// What reading the keys around a record is told: the record (its key,
/// generation and phantom) and how many keys to give on each side.
pub struct RawDbGetKeysAroundOptions {
    pub record_key: OwnedRecordKey,
    pub limit: usize,
    pub records_to_view_limit: usize,
}

/// The keys around a record: those before it (nearest first) and after it
/// (nearest first), and whether there are more beyond them.
pub struct RawDbGetKeysAroundResult {
    pub left: Vec<OwnedCollectionKey>,
    pub right: Vec<OwnedCollectionKey>,
    pub has_more_on_the_left: bool,
    pub has_more_on_the_right: bool,
}

/// The collection keys of a list of record keys.
pub open spec fn collection_keys_of(items: Seq<OwnedRecordKey>) -> Seq<Seq<u8>> {
    items.map_values(|k: OwnedRecordKey| k.parts().collection_key)
}

/// The values of a list of keys.
pub open spec fn keys_view(keys: Seq<OwnedCollectionKey>) -> Seq<Seq<u8>> {
    keys.map_values(|k: OwnedCollectionKey| k@)
}

/// Whether the first record a query read in one direction is the start key.
pub open spec fn starts_at(items: Seq<OwnedRecordKey>, start_key: Seq<u8>) -> bool {
    items.len() > 0 && items[0].parts().collection_key == start_key
}

/// The keys of one side, from what a query read going that way from the
/// start key: the first record must be the start key; then up to `limit`
/// keys follow, and there are more when the query read further.
pub fn process_direction(items: &Vec<OwnedRecordKey>, start_key: &OwnedCollectionKey, limit: usize) -> (r:
    Result<(Vec<OwnedCollectionKey>, bool), RawDbError>)
    ensures
        !starts_at(items@, start_key@) ==> r matches Err(RawDbError::CursorDidNotFoundRecord),
        starts_at(items@, start_key@) ==> (r matches Ok((keys, has_more)) && keys_view(keys@)
            == collection_keys_of(items@).subrange(
            1,
            if items@.len() > limit + 1 {
                limit + 1
            } else {
                items@.len() as int
            },
        ) && has_more == (items@.len() > limit + 1)),
{
    if items.len() == 0 {
        return Err(RawDbError::CursorDidNotFoundRecord);
    }
    let first = items[0].parse();
    assert(collection_keys_of(items@)[0] == items@[0].parts().collection_key);
    if !first.collection_key().same_as(start_key) {
        return Err(RawDbError::CursorDidNotFoundRecord);
    }
    let ghost all = collection_keys_of(items@);
    let mut result: Vec<OwnedCollectionKey> = Vec::new();
    let mut has_more = false;
    let mut i: usize = 1;
    while i < items.len()
        invariant
            1 <= i <= items@.len(),
            i - 1 <= limit,
            starts_at(items@, start_key@),
            all == collection_keys_of(items@),
            keys_view(result@) == all.subrange(1, i as int),
            !has_more,
        decreases items@.len() - i,
    {
        if i - 1 >= limit {
            has_more = true;
            assert(i == limit + 1);
            return Ok((result, has_more));
        }
        let parsed = items[i].parse();
        let k = parsed.collection_key().copy();
        let ghost before = keys_view(result@);
        result.push(k);
        assert(keys_view(result@) =~= before.push(all[i as int]));
        assert(all.subrange(1, i + 1) =~= all.subrange(1, i as int).push(all[i as int]));
        i = i + 1;
    }
    Ok((result, has_more))
}

/// The keys around a record, from what the queries read forwards and
/// backwards from it; refused when the record names a phantom that was not
/// started.
pub fn keys_around_sync(
    options: &RawDbGetKeysAroundOptions,
    is_phantom_started: bool,
    forward: &Vec<OwnedRecordKey>,
    backward: &Vec<OwnedRecordKey>,
) -> (r: Result<RawDbGetKeysAroundResult, RawDbError>)
    ensures
        ({
            let parts = options.record_key.parts();
            let start = parts.collection_key;
            let limit = options.limit;
            if parts.phantom_id is Some && !is_phantom_started {
                r matches Err(RawDbError::NoSuchPhantom)
            } else if !starts_at(forward@, start) || !starts_at(backward@, start) {
                r matches Err(RawDbError::CursorDidNotFoundRecord)
            } else {
                r matches Ok(result) && keys_view(result.right@) == collection_keys_of(
                    forward@,
                ).subrange(
                    1,
                    if forward@.len() > limit + 1 {
                        limit + 1
                    } else {
                        forward@.len() as int
                    },
                ) && result.has_more_on_the_right == (forward@.len() > limit + 1) && keys_view(
                    result.left@,
                ) == collection_keys_of(backward@).subrange(
                    1,
                    if backward@.len() > limit + 1 {
                        limit + 1
                    } else {
                        backward@.len() as int
                    },
                ) && result.has_more_on_the_left == (backward@.len() > limit + 1)
            }
        }),
{
    let parsed = options.record_key.parse();
    if parsed.is_phantom() && !is_phantom_started {
        return Err(RawDbError::NoSuchPhantom);
    }
    let start = parsed.collection_key();
    let (right, has_more_on_the_right) = match process_direction(forward, start, options.limit) {
        Ok(x) => x,
        Err(e) => {
            return Err(e);
        },
    };
    let (left, has_more_on_the_left) = match process_direction(backward, start, options.limit) {
        Ok(x) => x,
        Err(e) => {
            return Err(e);
        },
    };
    Ok(RawDbGetKeysAroundResult { left, right, has_more_on_the_left, has_more_on_the_right })
}

} // verus!
