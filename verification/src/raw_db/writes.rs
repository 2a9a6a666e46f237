//! The writes that the store's operations make, planned as values for the
//! driver to apply to the database in one batch.
use vstd::prelude::*;

use crate::bytes::{bytes_lt, copy_bytes, lemma_lex_lt_transitive, lex_lt};
use crate::common::{OwnedCollectionKey, OwnedCollectionValue, OwnedGenerationId, OwnedPhantomId};
use crate::raw_db::errors::RawDbError;
use crate::record_key::{encode_record_key, OwnedRecordKey};

verus! {

/// The column families of a collection's database.
#[derive(Clone, Copy, PartialEq, Eq, Structural)]
pub enum ColumnFamily {
    /// The records.
    Default,
    /// The collection's metadata.
    Meta,
    /// The index of which keys changed in which generation.
    Generations,
    /// The number of records written in each generation.
    GenerationsSize,
}

/// One write of a batch.
pub enum WriteOp {
    Put { column_family: ColumnFamily, key: Vec<u8>, value: Vec<u8> },
    Delete { column_family: ColumnFamily, key: Vec<u8> },
    /// Combined with the stored value by the column family's merge operator.
    Merge { column_family: ColumnFamily, key: Vec<u8>, value: Vec<u8> },
}

/// A write, as values.
pub enum WriteOpView {
    Put { column_family: ColumnFamily, key: Seq<u8>, value: Seq<u8> },
    Delete { column_family: ColumnFamily, key: Seq<u8> },
    Merge { column_family: ColumnFamily, key: Seq<u8>, value: Seq<u8> },
}

impl View for WriteOp {
    type V = WriteOpView;

    open spec fn view(&self) -> WriteOpView {
        match self {
            WriteOp::Put { column_family, key, value } => WriteOpView::Put {
                column_family: *column_family,
                key: key@,
                value: value@,
            },
            WriteOp::Delete { column_family, key } => WriteOpView::Delete {
                column_family: *column_family,
                key: key@,
            },
            WriteOp::Merge { column_family, key, value } => WriteOpView::Merge {
                column_family: *column_family,
                key: key@,
                value: value@,
            },
        }
    }
}

/// The writes of a batch, as values.
pub open spec fn ops_view(ops: Seq<WriteOp>) -> Seq<WriteOpView> {
    ops.map_values(|o: WriteOp| o@)
}

proof fn lemma_ops_view_push(ops: Seq<WriteOp>, op: WriteOp)
    ensures
        ops_view(ops.push(op)) == ops_view(ops).push(op@),
{
    assert(ops_view(ops.push(op)) =~= ops_view(ops).push(op@));
}

/// The deletions of the given metadata keys.
pub open spec fn meta_deletes(keys: Seq<Seq<u8>>) -> Seq<WriteOpView> {
    keys.map_values(|k: Seq<u8>| WriteOpView::Delete { column_family: ColumnFamily::Meta, key: k })
}

proof fn lemma_meta_deletes_take(keys: Seq<Seq<u8>>, i: int)
    requires
        0 <= i < keys.len(),
    ensures
        meta_deletes(keys.take(i + 1)) == meta_deletes(keys.take(i)).push(
            WriteOpView::Delete { column_family: ColumnFamily::Meta, key: keys[i] },
        ),
{
    assert(meta_deletes(keys.take(i + 1)) =~= meta_deletes(keys.take(i)).push(
        WriteOpView::Delete { column_family: ColumnFamily::Meta, key: keys[i] },
    ));
}

/// The metadata key under which the phantoms started in the next
/// generation are kept, followed by the phantom id.
pub open spec fn phantoms_key_prefix() -> Seq<u8> {
    vstd::utf8::encode_utf8("next_generation_phantoms:"@)
}

/// The metadata key of the last phantom id handed out.
pub open spec fn prev_phantom_id_key() -> Seq<u8> {
    vstd::utf8::encode_utf8("prev_phantom_id"@)
}

/// The metadata key of the committed generation id.
pub open spec fn generation_id_key() -> Seq<u8> {
    vstd::utf8::encode_utf8("generation_id"@)
}

/// The metadata key of the planned next generation id.
pub open spec fn next_generation_id_key() -> Seq<u8> {
    vstd::utf8::encode_utf8("next_generation_id"@)
}

/// The metadata key of the phantom id up to which phantoms are gone.
pub open spec fn gc_phantom_id_key() -> Seq<u8> {
    vstd::utf8::encode_utf8("gc_phantom_id"@)
}

fn phantoms_key_prefix_bytes() -> (r: Vec<u8>)
    ensures
        r@ == phantoms_key_prefix(),
{
    copy_bytes("next_generation_phantoms:".as_bytes())
}

/// The metadata key that marks `phantom_id` as started.
pub fn prefixed_phantom_id_key(phantom_id: &OwnedPhantomId) -> (r: Vec<u8>)
    ensures
        r@ == phantoms_key_prefix() + phantom_id@,
{
    let mut key = phantoms_key_prefix_bytes();
    key.extend_from_slice(phantom_id.get_byte_array());
    key
}

/// What starting a phantom is told.
pub struct StartPhantomOptions {
    pub phantom_id: OwnedPhantomId,
}

/// The writes that start a phantom: the last phantom id handed out grows
/// to it (the merge operator keeps the greater one), and it is marked as
/// started, to be dropped when the generation finishes.
pub fn plan_start_phantom(options: &StartPhantomOptions) -> (r: Vec<WriteOp>)
    ensures
        ops_view(r@) == seq![
            WriteOpView::Merge {
                column_family: ColumnFamily::Meta,
                key: prev_phantom_id_key(),
                value: options.phantom_id@,
            },
            WriteOpView::Put {
                column_family: ColumnFamily::Meta,
                key: phantoms_key_prefix() + options.phantom_id@,
                value: Seq::empty(),
            },
        ],
{
    let mut ops: Vec<WriteOp> = Vec::new();
    ops.push(
        WriteOp::Merge {
            column_family: ColumnFamily::Meta,
            key: copy_bytes("prev_phantom_id".as_bytes()),
            value: copy_bytes(options.phantom_id.get_byte_array()),
        },
    );
    ops.push(
        WriteOp::Put {
            column_family: ColumnFamily::Meta,
            key: prefixed_phantom_id_key(&options.phantom_id),
            value: Vec::new(),
        },
    );
    assert(ops_view(ops@) =~= seq![
        WriteOpView::Merge {
            column_family: ColumnFamily::Meta,
            key: prev_phantom_id_key(),
            value: options.phantom_id@,
        },
        WriteOpView::Put {
            column_family: ColumnFamily::Meta,
            key: phantoms_key_prefix() + options.phantom_id@,
            value: Seq::empty(),
        },
    ]);
    ops
}

/// Whether a write that names `phantom_id` may go on: always without a
/// phantom, else only when the phantom was started.
pub fn check_phantom_exists(phantom_id: Option<&OwnedPhantomId>, is_started: bool) -> (r: Result<
    (),
    RawDbError,
>)
    ensures
        (phantom_id is None || is_started) ==> r is Ok,
        (phantom_id is Some && !is_started) ==> r matches Err(RawDbError::NoSuchPhantom),
{
    if phantom_id.is_some() && !is_started {
        Err(RawDbError::NoSuchPhantom)
    } else {
        Ok(())
    }
}

/// The key of the index of generations: the generation id's length in one
/// byte, the generation id, the collection key.
pub open spec fn encode_generation_key(generation_id: Seq<u8>, collection_key: Seq<u8>) -> Seq<u8> {
    seq![generation_id.len() as u8] + generation_id + collection_key
}

/// The index key of `collection_key` changed in `generation_id`.
pub fn generation_key(generation_id: &OwnedGenerationId, collection_key: &OwnedCollectionKey) -> (r:
    Vec<u8>)
    ensures
        r@ == encode_generation_key(generation_id@, collection_key@),
{
    let mut key: Vec<u8> = Vec::new();
    key.push(generation_id.len() as u8);
    key.extend_from_slice(generation_id.get_byte_array());
    key.extend_from_slice(collection_key.get_byte_array());
    assert(key@ =~= encode_generation_key(generation_id@, collection_key@));
    key
}

/// The count one, big-endian, that the size index adds up.
pub open spec fn one_u32_be() -> Seq<u8> {
    seq![0u8, 0u8, 0u8, 1u8]
}

/// One record to write.
pub struct PutManyCollectionRecordsItem {
    pub record_key: OwnedRecordKey,
    /// `None` deletes the key (an empty value is stored).
    pub value: Option<OwnedCollectionValue>,
}

/// What a write of many records is told. All record keys carry
/// `phantom_id`.
pub struct PutManyCollectionRecordsOptions {
    pub items: Vec<PutManyCollectionRecordsItem>,
    pub phantom_id: Option<OwnedPhantomId>,
}

/// The writes for one record: the record itself and, unless it is a
/// phantom's, its entry in the index of generations and one more in its
/// generation's size.
pub open spec fn item_ops(record_key: Seq<u8>, value: Option<Seq<u8>>) -> Seq<WriteOpView> {
    let parts = crate::record_key::parse_record_key(record_key).unwrap();
    let put = WriteOpView::Put {
        column_family: ColumnFamily::Default,
        key: record_key,
        value: match value {
            Some(v) => v,
            None => Seq::empty(),
        },
    };
    if parts.phantom_id is Some {
        seq![put]
    } else {
        seq![
            put,
            WriteOpView::Put {
                column_family: ColumnFamily::Generations,
                key: encode_generation_key(parts.generation_id, parts.collection_key),
                value: Seq::empty(),
            },
            WriteOpView::Merge {
                column_family: ColumnFamily::GenerationsSize,
                key: parts.generation_id,
                value: one_u32_be(),
            },
        ]
    }
}

/// The bytes of an optional value.
pub open spec fn opt_value_bytes(v: Option<OwnedCollectionValue>) -> Option<Seq<u8>> {
    match v {
        Some(v) => Some(v@),
        None => None,
    }
}

/// The writes for a list of records, in order.
pub open spec fn items_ops(items: Seq<PutManyCollectionRecordsItem>) -> Seq<WriteOpView>
    decreases items.len(),
{
    if items.len() == 0 {
        Seq::empty()
    } else {
        items_ops(items.drop_last()) + item_ops(
            items.last().record_key@,
            opt_value_bytes(items.last().value),
        )
    }
}

/// Law: a record written without a phantom id is entered in the index of
/// generations and counted in its generation's size whatever its value: a
/// deletion (no value) is written as an empty value, and its writes differ
/// from those of a put only by the value stored under the record key. So a
/// diff over that generation sees the deleted key as changed.
pub proof fn lemma_deletion_is_indexed_like_a_put(record_key: Seq<u8>, value: Seq<u8>)
    requires
        crate::record_key::parse_record_key(record_key) is Some,
        crate::record_key::parse_record_key(record_key).unwrap().phantom_id is None,
    ensures
        ({
            let parts = crate::record_key::parse_record_key(record_key).unwrap();
            let deletion = item_ops(record_key, None);
            let put = item_ops(record_key, Some(value));
            &&& deletion.len() == 3
            &&& put.len() == 3
            &&& deletion[0] == (WriteOpView::Put {
                column_family: ColumnFamily::Default,
                key: record_key,
                value: Seq::empty(),
            })
            &&& put[0] == (WriteOpView::Put {
                column_family: ColumnFamily::Default,
                key: record_key,
                value: value,
            })
            &&& deletion.drop_first() == put.drop_first()
            &&& deletion.contains(
                WriteOpView::Put {
                    column_family: ColumnFamily::Generations,
                    key: encode_generation_key(parts.generation_id, parts.collection_key),
                    value: Seq::empty(),
                },
            )
            &&& deletion.contains(
                WriteOpView::Merge {
                    column_family: ColumnFamily::GenerationsSize,
                    key: parts.generation_id,
                    value: one_u32_be(),
                },
            )
        }),
{
    let deletion = item_ops(record_key, None);
    let put = item_ops(record_key, Some(value));
    assert(deletion.drop_first() =~= put.drop_first());
    assert(deletion[1] == deletion[1]);
    assert(deletion[2] == deletion[2]);
}

/// The writes of `put_many`; refused when the phantom named was not started.
pub fn plan_put_many(options: &PutManyCollectionRecordsOptions, is_phantom_started: bool) -> (r:
    Result<Vec<WriteOp>, RawDbError>)
    ensures
        (options.phantom_id is Some && !is_phantom_started) ==> r matches Err(
            RawDbError::NoSuchPhantom,
        ),
        (options.phantom_id is None || is_phantom_started) ==> (r matches Ok(ops) && ops_view(ops@)
            == items_ops(options.items@)),
{
    match check_phantom_exists(options.phantom_id.as_ref(), is_phantom_started) {
        Ok(()) => {},
        Err(e) => {
            return Err(e);
        },
    }
    let mut ops: Vec<WriteOp> = Vec::new();
    let mut i: usize = 0;
    while i < options.items.len()
        invariant
            0 <= i <= options.items@.len(),
            ops_view(ops@) == items_ops(options.items@.take(i as int)),
        decreases options.items@.len() - i,
    {
        let item = &options.items[i];
        let ghost before = ops_view(ops@);
        let parsed = item.record_key.parse();
        proof {
            use_type_invariant(&item.record_key);
        }
        let value = match &item.value {
            Some(v) => copy_bytes(v.get_value()),
            None => Vec::new(),
        };
        let put = WriteOp::Put {
            column_family: ColumnFamily::Default,
            key: copy_bytes(item.record_key.get_byte_array()),
            value,
        };
        proof {
            lemma_ops_view_push(ops@, put);
        }
        ops.push(put);
        if !parsed.is_phantom() {
            let generation_id = parsed.generation_id();
            let index_put = WriteOp::Put {
                column_family: ColumnFamily::Generations,
                key: generation_key(generation_id, parsed.collection_key()),
                value: Vec::new(),
            };
            proof {
                lemma_ops_view_push(ops@, index_put);
            }
            ops.push(index_put);
            let mut one: Vec<u8> = Vec::new();
            one.push(0u8);
            one.push(0u8);
            one.push(0u8);
            one.push(1u8);
            assert(one@ =~= one_u32_be());
            let size_merge = WriteOp::Merge {
                column_family: ColumnFamily::GenerationsSize,
                key: copy_bytes(generation_id.get_byte_array()),
                value: one,
            };
            proof {
                lemma_ops_view_push(ops@, size_merge);
            }
            ops.push(size_merge);
        }
        proof {
            let items = options.items@.take(i + 1);
            assert(items.drop_last() =~= options.items@.take(i as int));
            assert(items.last() == options.items@[i as int]);
            let item_view = item_ops(item.record_key@, opt_value_bytes(item.value));
            assert(ops_view(ops@) =~= before + item_view);
        }
        i = i + 1;
    }
    assert(options.items@.take(options.items@.len() as int) =~= options.items@);
    Ok(ops)
}

/// The greatest of a list of phantom ids, in byte order; the earliest one
/// among equals. `None` for an empty list.
pub open spec fn max_phantom_id(ids: Seq<Seq<u8>>) -> Option<Seq<u8>>
    decreases ids.len(),
{
    if ids.len() == 0 {
        None
    } else {
        match max_phantom_id(ids.drop_last()) {
            None => Some(ids.last()),
            Some(m) => if lex_lt(m, ids.last()) {
                Some(ids.last())
            } else {
                Some(m)
            },
        }
    }
}

/// The phantom ids of started-phantom keys: each key without the prefix.
pub open spec fn started_phantom_ids(keys: Seq<Seq<u8>>) -> Seq<Seq<u8>> {
    keys.map_values(|k: Seq<u8>| k.skip(phantoms_key_prefix().len() as int))
}

/// The byte strings of a list of vectors.
pub open spec fn vec_views(v: Seq<Vec<u8>>) -> Seq<Seq<u8>> {
    v.map_values(|b: Vec<u8>| b@)
}

/// The writes when a generation finishes, given the started-phantom keys:
/// each key is deleted, and the greatest of their phantom ids becomes the one
/// up to which phantoms are gone.
pub open spec fn generation_finish_ops(keys: Seq<Seq<u8>>) -> Seq<WriteOpView> {
    meta_deletes(keys) + match max_phantom_id(started_phantom_ids(keys)) {
        None => Seq::<WriteOpView>::empty(),
        Some(m) => seq![
            WriteOpView::Put { column_family: ColumnFamily::Meta, key: gc_phantom_id_key(), value: m },
        ],
    }
}

/// The writes when a generation finishes, given the started-phantom keys
/// (all of which start with the prefix).
pub fn plan_generation_finish(phantom_keys: &Vec<Vec<u8>>) -> (r: Vec<WriteOp>)
    requires
        forall|i: int|
            0 <= i < phantom_keys@.len() ==> (#[trigger] phantom_keys@[i])@.len()
                >= phantoms_key_prefix().len(),
    ensures
        ops_view(r@) == generation_finish_ops(vec_views(phantom_keys@)),
{
    let prefix_len = phantoms_key_prefix_bytes().len();
    let ghost keys = vec_views(phantom_keys@);
    let ghost ids = started_phantom_ids(keys);
    let mut ops: Vec<WriteOp> = Vec::new();
    let mut max: Option<Vec<u8>> = None;
    let mut i: usize = 0;
    while i < phantom_keys.len()
        invariant
            0 <= i <= phantom_keys@.len(),
            prefix_len == phantoms_key_prefix().len(),
            keys == vec_views(phantom_keys@),
            ids == started_phantom_ids(keys),
            forall|j: int|
                0 <= j < phantom_keys@.len() ==> (#[trigger] phantom_keys@[j])@.len() >= prefix_len,
            ops_view(ops@) == meta_deletes(keys.take(i as int)),
            match max_phantom_id(ids.take(i as int)) {
                None => max is None,
                Some(m) => max matches Some(v) && v@ == m,
            },
        decreases phantom_keys@.len() - i,
    {
        let key = &phantom_keys[i];
        let delete = WriteOp::Delete { column_family: ColumnFamily::Meta, key: copy_bytes(key.as_slice()) };
        proof {
            lemma_ops_view_push(ops@, delete);
            lemma_meta_deletes_take(keys, i as int);
            assert(keys[i as int] == key@);
        }
        ops.push(delete);
        let id = vstd::slice::slice_subrange(key.as_slice(), prefix_len, key.len());
        proof {
            assert(ids[i as int] == keys[i as int].skip(prefix_len as int));
            assert(id@ =~= ids[i as int]);
            assert(ids.take(i + 1).drop_last() =~= ids.take(i as int));
            assert(keys.take(i + 1).drop_last() =~= keys.take(i as int));
        }
        let replace = match &max {
            None => true,
            Some(m) => bytes_lt(m.as_slice(), id),
        };
        if replace {
            max = Some(copy_bytes(id));
        }
        i = i + 1;
    }
    assert(keys.take(i as int) =~= keys);
    assert(ids.take(i as int) =~= ids);
    let ghost deletes = ops_view(ops@);
    match max {
        None => {
            assert(ops_view(ops@) =~= deletes + Seq::<WriteOpView>::empty());
        },
        Some(m) => {
            let put = WriteOp::Put {
                column_family: ColumnFamily::Meta,
                key: copy_bytes("gc_phantom_id".as_bytes()),
                value: m,
            };
            proof {
                lemma_ops_view_push(ops@, put);
            }
            ops.push(put);
            assert(ops_view(ops@) =~= deletes + seq![
                WriteOpView::Put {
                    column_family: ColumnFamily::Meta,
                    key: gc_phantom_id_key(),
                    value: max_phantom_id(ids).unwrap(),
                },
            ]);
        },
    }
    ops
}

/// The writes that commit generation `generation_id` and plan
/// `next_generation_id`: both ids are stored in the metadata, then come the
/// writes that move the readers of `options.update_readers` (`reader_ops`,
/// made by the readers' store), then those of the finished generation's
/// phantoms.
pub fn plan_commit_generation(
    options: &RawDbCommitGenerationOptions,
    reader_ops: Vec<WriteOp>,
    phantom_keys: &Vec<Vec<u8>>,
) -> (r: Vec<WriteOp>)
    requires
        forall|i: int|
            0 <= i < phantom_keys@.len() ==> (#[trigger] phantom_keys@[i])@.len()
                >= phantoms_key_prefix().len(),
    ensures
        ops_view(r@) == seq![
            WriteOpView::Put {
                column_family: ColumnFamily::Meta,
                key: generation_id_key(),
                value: options.generation_id@,
            },
            WriteOpView::Put {
                column_family: ColumnFamily::Meta,
                key: next_generation_id_key(),
                value: options.next_generation_id@,
            },
        ] + ops_view(reader_ops@) + generation_finish_ops(vec_views(phantom_keys@)),
{
    let mut ops: Vec<WriteOp> = Vec::new();
    let put_generation = WriteOp::Put {
        column_family: ColumnFamily::Meta,
        key: copy_bytes("generation_id".as_bytes()),
        value: copy_bytes(options.generation_id.get_byte_array()),
    };
    let put_next = WriteOp::Put {
        column_family: ColumnFamily::Meta,
        key: copy_bytes("next_generation_id".as_bytes()),
        value: copy_bytes(options.next_generation_id.get_byte_array()),
    };
    ops.push(put_generation);
    ops.push(put_next);
    let ghost head = ops@;
    let mut reader_ops = reader_ops;
    let ghost readers = reader_ops@;
    ops.append(&mut reader_ops);
    let mut finish = plan_generation_finish(phantom_keys);
    let ghost finish_view = finish@;
    ops.append(&mut finish);
    assert(ops@ =~= head + readers + finish_view);
    assert(ops_view(head + readers + finish_view) =~= ops_view(head) + ops_view(readers) + ops_view(
        finish_view,
    ));
    ops
}

/// Law: the phantom id up to which phantoms are gone, when a generation
/// finishes, is one of the phantoms started in it and no smaller than any
/// of them: every phantom of the generation is dropped.
pub proof fn lemma_max_phantom_id_bounds(ids: Seq<Seq<u8>>)
    ensures
        ids.len() == 0 <==> max_phantom_id(ids) is None,
        max_phantom_id(ids) matches Some(m) ==> ids.contains(m) && forall|i: int|
            0 <= i < ids.len() ==> !lex_lt(m, #[trigger] ids[i]),
    decreases ids.len(),
{
    if ids.len() > 0 {
        let prefix = ids.drop_last();
        lemma_max_phantom_id_bounds(prefix);
        let last = ids.last();
        match max_phantom_id(prefix) {
            None => {
                assert(ids[ids.len() - 1] == last);
                crate::bytes::lemma_lex_lt_irreflexive(last);
            },
            Some(m) => {
                let k = choose|k: int| 0 <= k < prefix.len() && prefix[k] == m;
                assert(ids[k] == m);
                assert(ids[ids.len() - 1] == last);
                if lex_lt(m, last) {
                    assert forall|i: int| 0 <= i < ids.len() implies !lex_lt(last, #[trigger] ids[i]) by {
                        if i < ids.len() - 1 {
                            assert(ids[i] == prefix[i]);
                            assert(!lex_lt(m, prefix[i]));
                            if lex_lt(last, ids[i]) {
                                lemma_lex_lt_transitive(m, last, ids[i]);
                            }
                        } else {
                            crate::bytes::lemma_lex_lt_irreflexive(last);
                        }
                    }
                } else {
                    assert forall|i: int| 0 <= i < ids.len() implies !lex_lt(m, #[trigger] ids[i]) by {
                        if i < ids.len() - 1 {
                            assert(ids[i] == prefix[i]);
                        }
                    }
                }
            },
        }
    }
}

/// What a reader's generation is set to when a generation commits.
pub struct RawDbUpdateReader {
    pub reader_name: String,
    pub generation_id: OwnedGenerationId,
}

/// What committing a generation is told.
pub struct RawDbCommitGenerationOptions {
    pub generation_id: OwnedGenerationId,
    pub next_generation_id: OwnedGenerationId,
    pub update_readers: Option<Vec<RawDbUpdateReader>>,
}

} // verus!
