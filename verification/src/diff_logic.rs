//! The decisions of a diff between two generations, as a state machine.
//!
//! The machine is handed the keys that changed between the generations, one
//! by one, and the records of the store under a cursor. For each changed key
//! it walks that key's records (its "run") and works out the record visible
//! in the `from` generation and the one visible in the `to` generation; when
//! they differ it asks for the item to be emitted. Whoever drives the machine
//! performs what each action asks (read the next changed key, move the
//! cursor) and hands the outcome back as the next input.
use vstd::prelude::*;

use crate::bytes::{lex_le, lex_lt};
use crate::common::{OwnedCollectionKey, OwnedGenerationId};
use crate::record_key::{
    encode_record_key, valid_record_key_view, OwnedParsedRecordKey, OwnedRecordKey, RecordKeyView,
};

verus! {

/// Why the diff logic refused an input.
#[derive(Debug)]
pub enum DiffLogicError {
    InvalidRecordKey,
    ChangedKeyNotFound(&'static str),
    NoFirstAndLastKeys,
    ChangeNotFound,
    AlreadyFinished,
    AlreadyErrored,
    Unspecified(String),
}

/// An error, as values: its messages by their text.
pub enum DiffLogicErrorKind {
    InvalidRecordKey,
    ChangedKeyNotFound(Seq<char>),
    NoFirstAndLastKeys,
    ChangeNotFound,
    AlreadyFinished,
    AlreadyErrored,
    Unspecified(Seq<char>),
}

/// An error as values.
pub open spec fn error_kind(e: DiffLogicError) -> DiffLogicErrorKind {
    match e {
        DiffLogicError::InvalidRecordKey => DiffLogicErrorKind::InvalidRecordKey,
        DiffLogicError::ChangedKeyNotFound(m) => DiffLogicErrorKind::ChangedKeyNotFound(m@),
        DiffLogicError::NoFirstAndLastKeys => DiffLogicErrorKind::NoFirstAndLastKeys,
        DiffLogicError::ChangeNotFound => DiffLogicErrorKind::ChangeNotFound,
        DiffLogicError::AlreadyFinished => DiffLogicErrorKind::AlreadyFinished,
        DiffLogicError::AlreadyErrored => DiffLogicErrorKind::AlreadyErrored,
        DiffLogicError::Unspecified(m) => DiffLogicErrorKind::Unspecified(m@),
    }
}

/// The error that refuses an input other than the one the logic waits for.
pub open spec fn expected(name: Seq<char>) -> DiffLogicErrorKind {
    DiffLogicErrorKind::Unspecified(name)
}

/// What the driver hands the logic: the answer to the previous action.
pub enum DiffLogicInput {
    Init,
    NextChangedKey(Option<OwnedCollectionKey>),
    NextCursorKey(Option<OwnedParsedRecordKey>),
    NextCursorAndChangedKey((Option<OwnedParsedRecordKey>, Option<OwnedCollectionKey>)),
}

/// An input, as values.
pub enum DiffLogicInputView {
    Init,
    NextChangedKey(Option<Seq<u8>>),
    NextCursorKey(Option<RecordKeyView>),
    NextCursorAndChangedKey(Option<RecordKeyView>, Option<Seq<u8>>),
}

/// The value of an optional collection key.
pub open spec fn opt_key_view(k: Option<OwnedCollectionKey>) -> Option<Seq<u8>> {
    match k {
        Some(k) => Some(k@),
        None => None,
    }
}

/// The value of an optional parsed record key.
pub open spec fn opt_record_view(k: Option<OwnedParsedRecordKey>) -> Option<RecordKeyView> {
    match k {
        Some(k) => Some(k@),
        None => None,
    }
}

impl View for DiffLogicInput {
    type V = DiffLogicInputView;

    open spec fn view(&self) -> DiffLogicInputView {
        match self {
            DiffLogicInput::Init => DiffLogicInputView::Init,
            DiffLogicInput::NextChangedKey(k) => DiffLogicInputView::NextChangedKey(
                opt_key_view(*k),
            ),
            DiffLogicInput::NextCursorKey(k) => DiffLogicInputView::NextCursorKey(
                opt_record_view(*k),
            ),
            DiffLogicInput::NextCursorAndChangedKey((k, c)) =>
                DiffLogicInputView::NextCursorAndChangedKey(opt_record_view(*k), opt_key_view(*c)),
        }
    }
}

impl DiffLogicInput {
    /// Whether this is `Init`.
    pub fn is_init(&self) -> (r: bool)
        ensures
            r == (self is Init),
    {
        match self {
            DiffLogicInput::Init => true,
            _ => false,
        }
    }

    /// The changed key of a `NextChangedKey`, or the input back.
    pub fn into_next_changed_key(self) -> (r: Result<Option<OwnedCollectionKey>, Self>)
        ensures
            self is NextChangedKey ==> (r matches Ok(k) && opt_key_view(k) == opt_key_view(
                self->NextChangedKey_0,
            )),
            !(self is NextChangedKey) ==> (r matches Err(s) && s == self),
    {
        match self {
            DiffLogicInput::NextChangedKey(k) => Ok(k),
            other => Err(other),
        }
    }

    /// The cursor key of a `NextCursorKey`, or the input back.
    pub fn into_next_cursor_key(self) -> (r: Result<Option<OwnedParsedRecordKey>, Self>)
        ensures
            self is NextCursorKey ==> (r matches Ok(k) && opt_record_view(k) == opt_record_view(
                self->NextCursorKey_0,
            )),
            !(self is NextCursorKey) ==> (r matches Err(s) && s == self),
    {
        match self {
            DiffLogicInput::NextCursorKey(k) => Ok(k),
            other => Err(other),
        }
    }

    /// The pair of a `NextCursorAndChangedKey`, or the input back.
    pub fn into_next_cursor_and_changed_key(self) -> (r: Result<
        (Option<OwnedParsedRecordKey>, Option<OwnedCollectionKey>),
        Self,
    >)
        ensures
            self is NextCursorAndChangedKey ==> (r matches Ok((k, c)) && opt_record_view(k)
                == opt_record_view(self->NextCursorAndChangedKey_0.0) && opt_key_view(c)
                == opt_key_view(self->NextCursorAndChangedKey_0.1)),
            !(self is NextCursorAndChangedKey) ==> (r matches Err(s) && s == self),
    {
        match self {
            DiffLogicInput::NextCursorAndChangedKey(pair) => Ok(pair),
            other => Err(other),
        }
    }
}

/// What follows an emitted item (or stands alone).
pub enum DiffLogicSubAction {
    /// Move the cursor to this record key, then hand back the cursor's key
    /// and the next changed key.
    SetCursorAndGetNextCursorKeyAndNextChangedKey(OwnedRecordKey),
    /// Hand back the cursor's next key and the next changed key.
    GetNextCursorKeyAndNextChangedKey,
    /// The diff is complete.
    Finish,
}

/// An item to emit: the changed key and the record keys whose values it had
/// in the `from` and the `to` generation.
pub struct EmitItemAction {
    pub key: OwnedCollectionKey,
    pub from_key: Option<OwnedRecordKey>,
    pub to_key: Option<OwnedRecordKey>,
    pub next_action: DiffLogicSubAction,
}

/// What the logic asks the driver to do.
pub enum DiffLogicAction {
    /// Hand back the next changed key.
    GetNextChangedKey,
    /// Move the cursor to this record key and hand back the key there.
    SetCursorAndGetNext(OwnedRecordKey),
    /// Hand back the cursor's next key.
    GetNextCursorKey,
    /// Emit an item, then do its `next_action`.
    EmitItem(EmitItemAction),
    Sub(DiffLogicSubAction),
}

/// A sub-action, as values.
pub enum DiffLogicSubActionView {
    SetCursorAndGetNextCursorKeyAndNextChangedKey(Seq<u8>),
    GetNextCursorKeyAndNextChangedKey,
    Finish,
}

/// An action, as values; record keys by their bytes.
pub enum DiffLogicActionView {
    GetNextChangedKey,
    SetCursorAndGetNext(Seq<u8>),
    GetNextCursorKey,
    EmitItem {
        key: Seq<u8>,
        from_key: Option<Seq<u8>>,
        to_key: Option<Seq<u8>>,
        next_action: DiffLogicSubActionView,
    },
    Sub(DiffLogicSubActionView),
}

/// The bytes of an optional record key.
pub open spec fn opt_record_key_bytes(k: Option<OwnedRecordKey>) -> Option<Seq<u8>> {
    match k {
        Some(k) => Some(k@),
        None => None,
    }
}

impl View for DiffLogicSubAction {
    type V = DiffLogicSubActionView;

    open spec fn view(&self) -> DiffLogicSubActionView {
        match self {
            DiffLogicSubAction::SetCursorAndGetNextCursorKeyAndNextChangedKey(k) =>
                DiffLogicSubActionView::SetCursorAndGetNextCursorKeyAndNextChangedKey(k@),
            DiffLogicSubAction::GetNextCursorKeyAndNextChangedKey =>
                DiffLogicSubActionView::GetNextCursorKeyAndNextChangedKey,
            DiffLogicSubAction::Finish => DiffLogicSubActionView::Finish,
        }
    }
}

impl View for DiffLogicAction {
    type V = DiffLogicActionView;

    open spec fn view(&self) -> DiffLogicActionView {
        match self {
            DiffLogicAction::GetNextChangedKey => DiffLogicActionView::GetNextChangedKey,
            DiffLogicAction::SetCursorAndGetNext(k) => DiffLogicActionView::SetCursorAndGetNext(
                k@,
            ),
            DiffLogicAction::GetNextCursorKey => DiffLogicActionView::GetNextCursorKey,
            DiffLogicAction::EmitItem(e) => DiffLogicActionView::EmitItem {
                key: e.key@,
                from_key: opt_record_key_bytes(e.from_key),
                to_key: opt_record_key_bytes(e.to_key),
                next_action: e.next_action@,
            },
            DiffLogicAction::Sub(s) => DiffLogicActionView::Sub(s@),
        }
    }
}

/// Which input the logic waits for.
#[derive(Clone, Copy, PartialEq, Eq, Structural)]
pub enum DiffLogicPhase {
    ExpectInit,
    ExpectFirstChangedKey,
    ExpectNextChangedKey,
    ExpectCursorAfterSet,
    ExpectNextCursor,
    ExpectCursorAndChangedKey,
    Finished,
    Errored,
}

/// The state of the logic, as values. `run` holds the records of the
/// current changed key that the cursor has given so far, in order.
pub struct DiffLogicView {
    pub phase: DiffLogicPhase,
    pub from_generation_id: Seq<u8>,
    pub to_generation_id: Seq<u8>,
    pub changed_key: Seq<u8>,
    pub next_changed_key: Option<Seq<u8>>,
    pub run: Seq<RecordKeyView>,
}

/// The record key that comes first among the records of `key`: the one in
/// the empty generation, without phantom.
pub open spec fn no_generation_key(key: Seq<u8>) -> Seq<u8> {
    encode_record_key(
        RecordKeyView { collection_key: key, generation_id: Seq::empty(), phantom_id: None },
    )
}

/// Whether the record `next` (if any) ends the run of `current`: it
/// belongs to another key, or to a generation after `to`.
pub open spec fn ends_run(current: RecordKeyView, next: Option<RecordKeyView>, to: Seq<u8>) -> bool {
    match next {
        None => true,
        Some(n) => n.collection_key != current.collection_key || lex_lt(to, n.generation_id),
    }
}

/// The bytes of an optional record.
pub open spec fn opt_encoded(r: Option<RecordKeyView>) -> Option<Seq<u8>> {
    match r {
        Some(r) => Some(encode_record_key(r)),
        None => None,
    }
}

/// One step of the logic: the state after `input`, and the answer.
pub open spec fn diff_logic_step(s: DiffLogicView, input: DiffLogicInputView) -> (
    DiffLogicView,
    Result<DiffLogicActionView, DiffLogicErrorKind>,
) {
    match s.phase {
        DiffLogicPhase::ExpectInit => match input {
            DiffLogicInputView::Init => (
                DiffLogicView { phase: DiffLogicPhase::ExpectFirstChangedKey, ..s },
                Ok(DiffLogicActionView::GetNextChangedKey),
            ),
            _ => (s, Err(expected("Expected Init as first action"@))),
        },
        DiffLogicPhase::ExpectFirstChangedKey => match input {
            DiffLogicInputView::NextChangedKey(None) => (
                DiffLogicView { phase: DiffLogicPhase::Finished, ..s },
                Ok(DiffLogicActionView::Sub(DiffLogicSubActionView::Finish)),
            ),
            DiffLogicInputView::NextChangedKey(Some(k)) => (
                DiffLogicView { phase: DiffLogicPhase::ExpectNextChangedKey, changed_key: k, ..s },
                Ok(DiffLogicActionView::GetNextChangedKey),
            ),
            _ => (s, Err(expected("Expected NextChangedKey"@))),
        },
        DiffLogicPhase::ExpectNextChangedKey => match input {
            DiffLogicInputView::NextChangedKey(n) => (
                DiffLogicView {
                    phase: DiffLogicPhase::ExpectCursorAfterSet,
                    next_changed_key: n,
                    ..s
                },
                Ok(DiffLogicActionView::SetCursorAndGetNext(no_generation_key(s.changed_key))),
            ),
            _ => (s, Err(expected("Expected NextChangedKey"@))),
        },
        DiffLogicPhase::ExpectCursorAfterSet => match input {
            DiffLogicInputView::NextCursorKey(None) => (
                DiffLogicView { phase: DiffLogicPhase::Errored, ..s },
                Err(DiffLogicErrorKind::ChangedKeyNotFound("on_got_next_after_cursor_set"@)),
            ),
            DiffLogicInputView::NextCursorKey(Some(k)) => if k.collection_key != s.changed_key {
                (
                    DiffLogicView { phase: DiffLogicPhase::Errored, ..s },
                    Err(DiffLogicErrorKind::Unspecified("First iterator key is not changed one"@)),
                )
            } else {
                (
                    DiffLogicView { phase: DiffLogicPhase::ExpectNextCursor, run: seq![k], ..s },
                    Ok(DiffLogicActionView::GetNextCursorKey),
                )
            },
            _ => (s, Err(expected("Expected NextCursorKey"@))),
        },
        DiffLogicPhase::ExpectNextCursor => match input {
            DiffLogicInputView::NextCursorKey(next) => run_step(s, next),
            _ => (s, Err(expected("Expected NextCursorKey"@))),
        },
        DiffLogicPhase::ExpectCursorAndChangedKey => match input {
            DiffLogicInputView::NextCursorAndChangedKey(None, _) => (
                DiffLogicView { phase: DiffLogicPhase::Errored, ..s },
                Err(DiffLogicErrorKind::ChangedKeyNotFound("on_got_next_key_and_changed_key"@)),
            ),
            DiffLogicInputView::NextCursorAndChangedKey(Some(k), n) => (
                DiffLogicView {
                    phase: DiffLogicPhase::ExpectNextCursor,
                    next_changed_key: n,
                    run: seq![k],
                    ..s
                },
                Ok(DiffLogicActionView::GetNextCursorKey),
            ),
            _ => (s, Err(expected("Expected NextCursorAndChangedKey"@))),
        },
        DiffLogicPhase::Finished => (s, Err(DiffLogicErrorKind::AlreadyFinished)),
        DiffLogicPhase::Errored => (s, Err(DiffLogicErrorKind::AlreadyErrored)),
    }
}

/// A step while walking a run: extend the run, or finish it and emit.
pub open spec fn run_step(s: DiffLogicView, next: Option<RecordKeyView>) -> (
    DiffLogicView,
    Result<DiffLogicActionView, DiffLogicErrorKind>,
) {
    if !ends_run(s.run.last(), next, s.to_generation_id) {
        (DiffLogicView { run: s.run.push(next.unwrap()), ..s }, Ok(DiffLogicActionView::GetNextCursorKey))
    } else {
        let from_record = latest_visible(s.run, s.from_generation_id);
        let to_record = latest_visible(s.run, s.to_generation_id);
        if from_record == to_record {
            (DiffLogicView { phase: DiffLogicPhase::Errored, ..s }, Err(DiffLogicErrorKind::ChangeNotFound))
        } else {
            let key = match from_record {
                Some(r) => r.collection_key,
                None => to_record.unwrap().collection_key,
            };
            let (s2, next_action) = match s.next_changed_key {
                None => (
                    DiffLogicView { phase: DiffLogicPhase::Finished, ..s },
                    DiffLogicSubActionView::Finish,
                ),
                Some(nk) => (
                    DiffLogicView {
                        phase: DiffLogicPhase::ExpectCursorAndChangedKey,
                        changed_key: nk,
                        next_changed_key: None,
                        ..s
                    },
                    if next is Some && next.unwrap().collection_key == nk {
                        DiffLogicSubActionView::GetNextCursorKeyAndNextChangedKey
                    } else {
                        DiffLogicSubActionView::SetCursorAndGetNextCursorKeyAndNextChangedKey(
                            no_generation_key(nk),
                        )
                    },
                ),
            };
            (
                s2,
                Ok(
                    DiffLogicActionView::EmitItem {
                        key,
                        from_key: opt_encoded(from_record),
                        to_key: opt_encoded(to_record),
                        next_action,
                    },
                ),
            )
        }
    }
}

/// What a call of `run` answered, as values.
pub open spec fn result_view(r: Result<DiffLogicAction, DiffLogicError>) -> Result<
    DiffLogicActionView,
    DiffLogicErrorKind,
> {
    match r {
        Ok(a) => Ok(a@),
        Err(e) => Err(error_kind(e)),
    }
}


/// The record of `run` visible in generation `g`: the last record, not a
/// phantom, whose generation is `g` or before it.
pub open spec fn latest_visible(run: Seq<RecordKeyView>, g: Seq<u8>) -> Option<RecordKeyView>
    decreases run.len(),
{
    if run.len() == 0 {
        None
    } else if run.last().phantom_id is None && lex_le(run.last().generation_id, g) {
        Some(run.last())
    } else {
        latest_visible(run.drop_last(), g)
    }
}

/// The records of `run` not written with a phantom id, in order.
pub open spec fn non_phantoms(run: Seq<RecordKeyView>) -> Seq<RecordKeyView> {
    run.filter(|r: RecordKeyView| r.phantom_id is None)
}

/// Law: phantom records never count as a key's value in a diff: the record
/// visible in generation `g` is the same once every phantom record is taken
/// out of the run (wherever they stood).
pub proof fn lemma_phantoms_do_not_count(run: Seq<RecordKeyView>, g: Seq<u8>)
    ensures
        latest_visible(run, g) == latest_visible(non_phantoms(run), g),
    decreases run.len(),
{
    reveal(Seq::filter);
    if run.len() > 0 {
        lemma_phantoms_do_not_count(run.drop_last(), g);
        let f = |r: RecordKeyView| r.phantom_id is None;
        assert(run.filter(f) == if f(run.last()) {
            run.drop_last().filter(f).push(run.last())
        } else {
            run.drop_last().filter(f)
        });
        if f(run.last()) {
            assert(run.filter(f).drop_last() =~= run.drop_last().filter(f));
        }
    }
}

/// Law: when a run ends, the logic emits an item exactly when the record
/// visible in the `from` generation differs from the one visible in the
/// `to` generation, phantom records left out; the item names those records.
/// When they are the same, the diff fails with `ChangeNotFound`.
pub proof fn lemma_run_end_emits_changed_records(s: DiffLogicView, next: Option<RecordKeyView>)
    requires
        s.phase == DiffLogicPhase::ExpectNextCursor,
        s.run.len() >= 1,
        ends_run(s.run.last(), next, s.to_generation_id),
    ensures
        ({
            let from_record = latest_visible(non_phantoms(s.run), s.from_generation_id);
            let to_record = latest_visible(non_phantoms(s.run), s.to_generation_id);
            let r = diff_logic_step(s, DiffLogicInputView::NextCursorKey(next)).1;
            &&& from_record == to_record ==> r == Err::<DiffLogicActionView, DiffLogicErrorKind>(
                DiffLogicErrorKind::ChangeNotFound,
            )
            &&& from_record != to_record ==> (r matches Ok(
                DiffLogicActionView::EmitItem { from_key, to_key, .. },
            ) && from_key == opt_encoded(from_record) && to_key == opt_encoded(to_record))
        }),
{
    lemma_phantoms_do_not_count(s.run, s.from_generation_id);
    lemma_phantoms_do_not_count(s.run, s.to_generation_id);
}

/// Law: phantom records never change what a walk emits. Two walks of the
/// same key that differ only by phantom records in their runs end with the
/// same answer (the same item, or the same error) on the same ending record.
pub proof fn lemma_phantom_records_do_not_change_the_item(
    s: DiffLogicView,
    t: DiffLogicView,
    next: Option<RecordKeyView>,
)
    requires
        s.phase == DiffLogicPhase::ExpectNextCursor,
        t == (DiffLogicView { run: t.run, ..s }),
        s.run.len() >= 1,
        t.run.len() >= 1,
        s.run.last().collection_key == t.run.last().collection_key,
        non_phantoms(s.run) == non_phantoms(t.run),
        ends_run(s.run.last(), next, s.to_generation_id),
    ensures
        diff_logic_step(s, DiffLogicInputView::NextCursorKey(next)).1 == diff_logic_step(
            t,
            DiffLogicInputView::NextCursorKey(next),
        ).1,
{
    lemma_phantoms_do_not_count(s.run, s.from_generation_id);
    lemma_phantoms_do_not_count(s.run, s.to_generation_id);
    lemma_phantoms_do_not_count(t.run, s.from_generation_id);
    lemma_phantoms_do_not_count(t.run, s.to_generation_id);
}

/// The state after handing the logic each of `records` in turn as the
/// cursor's next key.
pub open spec fn after_cursor_keys(s: DiffLogicView, records: Seq<RecordKeyView>) -> DiffLogicView
    decreases records.len(),
{
    if records.len() == 0 {
        s
    } else {
        after_cursor_keys(
            diff_logic_step(s, DiffLogicInputView::NextCursorKey(Some(records[0]))).0,
            records.skip(1),
        )
    }
}

/// `records` all belong to key `k` and come in or before generation `to`:
/// none of them ends a run of `k`.
pub open spec fn continue_run(records: Seq<RecordKeyView>, k: Seq<u8>, to: Seq<u8>) -> bool {
    forall|i: int|
        0 <= i < records.len() ==> (#[trigger] records[i]).collection_key == k && !lex_lt(
            to,
            records[i].generation_id,
        )
}

/// Law: while the cursor hands over records of the current key in or
/// before `to`, each one is added to the key's run and nothing else
/// changes; every step answers with a request for the next cursor key.
pub proof fn lemma_cursor_keys_extend_run(s: DiffLogicView, records: Seq<RecordKeyView>)
    requires
        s.phase == DiffLogicPhase::ExpectNextCursor,
        s.run.len() >= 1,
        continue_run(records, s.run.last().collection_key, s.to_generation_id),
    ensures
        after_cursor_keys(s, records) == (DiffLogicView { run: s.run + records, ..s }),
        forall|i: int|
            0 <= i < records.len() ==> diff_logic_step(
                #[trigger] after_cursor_keys(s, records.take(i)),
                DiffLogicInputView::NextCursorKey(Some(records[i])),
            ).1 == Ok::<DiffLogicActionView, DiffLogicErrorKind>(
                DiffLogicActionView::GetNextCursorKey,
            ),
    decreases records.len(),
{
    if records.len() == 0 {
        assert(s.run + records =~= s.run);
    } else {
        let s1 = diff_logic_step(s, DiffLogicInputView::NextCursorKey(Some(records[0]))).0;
        assert(s1 == DiffLogicView { run: s.run.push(records[0]), ..s });
        let rest = records.skip(1);
        assert forall|i: int| 0 <= i < rest.len() implies (#[trigger] rest[i]).collection_key
            == s1.run.last().collection_key && !lex_lt(s1.to_generation_id, rest[i].generation_id) by {
            assert(rest[i] == records[i + 1]);
        }
        lemma_cursor_keys_extend_run(s1, rest);
        assert(s1.run + rest =~= s.run + records);
        assert forall|i: int| 0 <= i < records.len() implies diff_logic_step(
            #[trigger] after_cursor_keys(s, records.take(i)),
            DiffLogicInputView::NextCursorKey(Some(records[i])),
        ).1 == Ok::<DiffLogicActionView, DiffLogicErrorKind>(DiffLogicActionView::GetNextCursorKey) by {
            if i == 0 {
                assert(records.take(0).len() == 0);
                assert(after_cursor_keys(s, records.take(0)) == s);
            } else {
                assert(records.take(i)[0] == records[0]);
                assert(records.take(i).skip(1) =~= rest.take(i - 1));
                assert(after_cursor_keys(s, records.take(i)) == after_cursor_keys(
                    s1,
                    rest.take(i - 1),
                ));
                assert(rest[i - 1] == records[i]);
            }
        }
    }
}

/// Law: walking one changed key. From the key's first record, the cursor
/// hands over the key's other records in or before `to`, then a record that
/// ends the run. The logic then emits an item naming the records visible in
/// `from` and in `to` (the latest in or before each, phantom records left
/// out), or fails with `ChangeNotFound` when they are the same record.
pub proof fn lemma_walk_key_emits_visible_records(
    s: DiffLogicView,
    records: Seq<RecordKeyView>,
    next: Option<RecordKeyView>,
)
    requires
        s.phase == DiffLogicPhase::ExpectNextCursor,
        s.run.len() >= 1,
        continue_run(records, s.run.last().collection_key, s.to_generation_id),
        ends_run(s.run.last(), next, s.to_generation_id),
    ensures
        ({
            let run = s.run + records;
            let from_record = latest_visible(non_phantoms(run), s.from_generation_id);
            let to_record = latest_visible(non_phantoms(run), s.to_generation_id);
            let r = diff_logic_step(
                after_cursor_keys(s, records),
                DiffLogicInputView::NextCursorKey(next),
            ).1;
            &&& from_record == to_record ==> r == Err::<DiffLogicActionView, DiffLogicErrorKind>(
                DiffLogicErrorKind::ChangeNotFound,
            )
            &&& from_record != to_record ==> (r matches Ok(
                DiffLogicActionView::EmitItem { from_key, to_key, .. },
            ) && from_key == opt_encoded(from_record) && to_key == opt_encoded(to_record))
        }),
{
    lemma_cursor_keys_extend_run(s, records);
    let s2 = after_cursor_keys(s, records);
    let run = s.run + records;
    assert(s2.run == run);
    if records.len() > 0 {
        assert(run.last() == records[records.len() - 1]);
        assert(records[records.len() - 1].collection_key == s.run.last().collection_key);
    } else {
        assert(run =~= s.run);
    }
    assert(ends_run(s2.run.last(), next, s2.to_generation_id));
    lemma_run_end_emits_changed_records(s2, next);
}

/// Law: one changed key, from the moment the cursor was set to the key's
/// first record. The cursor hands over that record, then the key's other
/// records in or before `to`, then a record that ends the run. The logic
/// emits an item naming the records visible in `from` and in `to` (phantom
/// records left out), or fails with `ChangeNotFound` when they are the same
/// record.
pub proof fn lemma_changed_key_emits_visible_records(
    s: DiffLogicView,
    first: RecordKeyView,
    records: Seq<RecordKeyView>,
    next: Option<RecordKeyView>,
)
    requires
        s.phase == DiffLogicPhase::ExpectCursorAfterSet,
        first.collection_key == s.changed_key,
        continue_run(records, s.changed_key, s.to_generation_id),
        ends_run(first, next, s.to_generation_id),
    ensures
        ({
            let s1 = diff_logic_step(s, DiffLogicInputView::NextCursorKey(Some(first))).0;
            let run = seq![first] + records;
            let from_record = latest_visible(non_phantoms(run), s.from_generation_id);
            let to_record = latest_visible(non_phantoms(run), s.to_generation_id);
            let r = diff_logic_step(
                after_cursor_keys(s1, records),
                DiffLogicInputView::NextCursorKey(next),
            ).1;
            &&& diff_logic_step(s, DiffLogicInputView::NextCursorKey(Some(first))).1 == Ok::<
                DiffLogicActionView,
                DiffLogicErrorKind,
            >(DiffLogicActionView::GetNextCursorKey)
            &&& from_record == to_record ==> r == Err::<DiffLogicActionView, DiffLogicErrorKind>(
                DiffLogicErrorKind::ChangeNotFound,
            )
            &&& from_record != to_record ==> (r matches Ok(
                DiffLogicActionView::EmitItem { from_key, to_key, .. },
            ) && from_key == opt_encoded(from_record) && to_key == opt_encoded(to_record))
        }),
{
    let s1 = diff_logic_step(s, DiffLogicInputView::NextCursorKey(Some(first))).0;
    assert(s1.run == seq![first]);
    assert(s1.run.last() == first);
    lemma_walk_key_emits_visible_records(s1, records, next);
}

/// Law: once the diff has finished, every input is answered with
/// `AlreadyFinished` and nothing changes; once it has failed, with
/// `AlreadyErrored`.
pub proof fn lemma_finished_and_errored_are_final(s: DiffLogicView, input: DiffLogicInputView)
    ensures
        s.phase == DiffLogicPhase::Finished ==> diff_logic_step(s, input) == (
            s,
            Err::<DiffLogicActionView, DiffLogicErrorKind>(DiffLogicErrorKind::AlreadyFinished),
        ),
        s.phase == DiffLogicPhase::Errored ==> diff_logic_step(s, input) == (
            s,
            Err::<DiffLogicActionView, DiffLogicErrorKind>(DiffLogicErrorKind::AlreadyErrored),
        ),
{
}

/// Whether the logic in `phase` takes `input` as the answer it waits for.
pub open spec fn accepts(phase: DiffLogicPhase, input: DiffLogicInputView) -> bool {
    match phase {
        DiffLogicPhase::ExpectInit => input is Init,
        DiffLogicPhase::ExpectFirstChangedKey | DiffLogicPhase::ExpectNextChangedKey => input is NextChangedKey,
        DiffLogicPhase::ExpectCursorAfterSet | DiffLogicPhase::ExpectNextCursor => input is NextCursorKey,
        DiffLogicPhase::ExpectCursorAndChangedKey => input is NextCursorAndChangedKey,
        DiffLogicPhase::Finished | DiffLogicPhase::Errored => true,
    }
}

/// The error that answers an input other than the one `phase` waits for.
pub open spec fn unexpected_input_error(phase: DiffLogicPhase) -> DiffLogicErrorKind {
    match phase {
        DiffLogicPhase::ExpectInit => expected("Expected Init as first action"@),
        DiffLogicPhase::ExpectFirstChangedKey | DiffLogicPhase::ExpectNextChangedKey => expected(
            "Expected NextChangedKey"@,
        ),
        DiffLogicPhase::ExpectCursorAfterSet | DiffLogicPhase::ExpectNextCursor => expected(
            "Expected NextCursorKey"@,
        ),
        _ => expected("Expected NextCursorAndChangedKey"@),
    }
}

/// Law: an input other than the one the logic waits for is refused with
/// the matching "Expected ..." error and changes nothing: whatever comes
/// next is answered as if the refused input had never been given.
pub proof fn lemma_unexpected_input_changes_nothing(
    s: DiffLogicView,
    input: DiffLogicInputView,
    later: DiffLogicInputView,
)
    requires
        s.phase != DiffLogicPhase::Finished,
        s.phase != DiffLogicPhase::Errored,
        !accepts(s.phase, input),
    ensures
        diff_logic_step(s, input) == (
            s,
            Err::<DiffLogicActionView, DiffLogicErrorKind>(unexpected_input_error(s.phase)),
        ),
        diff_logic_step(diff_logic_step(s, input).0, later) == diff_logic_step(s, later),
{
}

/// Law: every changed key handed to the logic is walked. When the logic
/// takes the first record of the next changed key together with the key
/// after it (`n`), it walks that record's run; when the run ends with an
/// item, the item asks for yet another key exactly when `n` is a key, and
/// finishes the diff only when no changed key is left.
pub proof fn lemma_each_changed_key_is_walked(
    s: DiffLogicView,
    first: RecordKeyView,
    n: Option<Seq<u8>>,
    next: Option<RecordKeyView>,
)
    requires
        s.phase == DiffLogicPhase::ExpectCursorAndChangedKey,
    ensures
        ({
            let (s1, r1) = diff_logic_step(
                s,
                DiffLogicInputView::NextCursorAndChangedKey(Some(first), n),
            );
            &&& r1 == Ok::<DiffLogicActionView, DiffLogicErrorKind>(
                DiffLogicActionView::GetNextCursorKey,
            )
            &&& s1.phase == DiffLogicPhase::ExpectNextCursor
            &&& s1.run == seq![first]
            &&& s1.next_changed_key == n
            &&& ends_run(first, next, s.to_generation_id) ==> {
                let (s2, r2) = diff_logic_step(s1, DiffLogicInputView::NextCursorKey(next));
                match r2 {
                    Ok(DiffLogicActionView::EmitItem { next_action, .. }) => (next_action is Finish
                        <==> n is None) && match n {
                        Some(nk) => s2.changed_key == nk && s2.phase
                            == DiffLogicPhase::ExpectCursorAndChangedKey,
                        None => s2.phase == DiffLogicPhase::Finished,
                    },
                    _ => true,
                }
            }
        }),
{
}

proof fn lemma_latest_visible_in_run(run: Seq<RecordKeyView>, g: Seq<u8>)
    ensures
        latest_visible(run, g) matches Some(r) ==> exists|j: int| 0 <= j < run.len() && run[j] == r,
    decreases run.len(),
{
    if run.len() > 0 {
        if latest_visible(run, g) == Some(run.last()) {
            assert(run[run.len() - 1] == run.last());
        } else {
            lemma_latest_visible_in_run(run.drop_last(), g);
            if latest_visible(run, g) is Some {
                let j = choose|j: int| 0 <= j < run.drop_last().len() && run.drop_last()[j]
                    == latest_visible(run, g).unwrap();
                assert(run[j] == run.drop_last()[j]);
            }
        }
    }
}

/// The records of the run all belong to one key.
pub open spec fn run_keys_agree(s: DiffLogicView) -> bool {
    forall|j: int| 0 <= j < s.run.len() ==> (#[trigger] s.run[j]).collection_key == s.run.last().collection_key
}

/// `b` encodes a record of `key` without a phantom, in or before `g`.
pub open spec fn encodes_visible_record(b: Seq<u8>, key: Seq<u8>, g: Seq<u8>) -> bool {
    exists|r: RecordKeyView|
        #[trigger] encode_record_key(r) == b && r.collection_key == key && r.phantom_id is None
            && lex_le(r.generation_id, g)
}

proof fn lemma_latest_visible_props(run: Seq<RecordKeyView>, g: Seq<u8>)
    ensures
        latest_visible(run, g) matches Some(r) ==> r.phantom_id is None && lex_le(r.generation_id, g)
            && exists|j: int| 0 <= j < run.len() && run[j] == r,
    decreases run.len(),
{
    lemma_latest_visible_in_run(run, g);
    if run.len() > 0 {
        if run.last().phantom_id is None && lex_le(run.last().generation_id, g) {
            assert(latest_visible(run, g) == Some(run.last()));
        } else {
            assert(latest_visible(run, g) == latest_visible(run.drop_last(), g));
            lemma_latest_visible_props(run.drop_last(), g);
        }
    }
}

/// Law: every step keeps the records of the run to one key, and an emitted
/// item names, for each generation, the record of its key (without a
/// phantom, in or before that generation) whose value it had there.
pub proof fn lemma_step_keeps_run_keys(s: DiffLogicView, input: DiffLogicInputView)
    requires
        run_keys_agree(s),
    ensures
        run_keys_agree(diff_logic_step(s, input).0),
        diff_logic_step(s, input).1 matches Ok(
            DiffLogicActionView::EmitItem { key, from_key, to_key, .. },
        ) ==> (from_key matches Some(f) ==> encodes_visible_record(f, key, s.from_generation_id))
            && (to_key matches Some(t) ==> encodes_visible_record(t, key, s.to_generation_id)),
{
    let s2 = diff_logic_step(s, input).0;
    if s2.run != s.run && s2.run.len() > 1 {
        assert forall|j: int| 0 <= j < s2.run.len() implies (#[trigger] s2.run[j]).collection_key
            == s2.run.last().collection_key by {
            if j < s.run.len() {
                assert(s2.run[j] == s.run[j]);
            }
        }
    }
    if let Ok(DiffLogicActionView::EmitItem { key, from_key, to_key, .. }) = diff_logic_step(
        s,
        input,
    ).1 {
        let fr = latest_visible(s.run, s.from_generation_id);
        let tr = latest_visible(s.run, s.to_generation_id);
        lemma_latest_visible_props(s.run, s.from_generation_id);
        lemma_latest_visible_props(s.run, s.to_generation_id);
        if let Some(r) = fr {
            let j = choose|j: int| 0 <= j < s.run.len() && s.run[j] == r;
            assert(s.run[j].collection_key == s.run.last().collection_key);
            assert(encode_record_key(r) == from_key.unwrap());
        }
        if let Some(r) = tr {
            let j = choose|j: int| 0 <= j < s.run.len() && s.run[j] == r;
            assert(s.run[j].collection_key == s.run.last().collection_key);
            if let Some(f) = fr {
                let i = choose|i: int| 0 <= i < s.run.len() && s.run[i] == f;
                assert(s.run[i].collection_key == s.run.last().collection_key);
            }
            assert(encode_record_key(r) == to_key.unwrap());
        }
    }
}

/// Law: an emitted item always names two different records, and the key
/// of the item is the key of those records.
pub proof fn lemma_emitted_records_differ(s: DiffLogicView, input: DiffLogicInputView)
    requires
        forall|j: int| 0 <= j < s.run.len() ==> valid_record_key_view(#[trigger] s.run[j]),
    ensures
        diff_logic_step(s, input).1 matches Ok(
            DiffLogicActionView::EmitItem { key, from_key, to_key, .. },
        ) ==> from_key != to_key && (match from_key {
            Some(f) => from_key == opt_encoded(
                latest_visible(s.run, s.from_generation_id),
            ) && latest_visible(s.run, s.from_generation_id).unwrap().collection_key == key,
            None => to_key == opt_encoded(latest_visible(s.run, s.to_generation_id))
                && latest_visible(s.run, s.to_generation_id).unwrap().collection_key == key,
        }),
{
    if let Ok(DiffLogicActionView::EmitItem { key, from_key, to_key, .. }) = diff_logic_step(
        s,
        input,
    ).1 {
        let from_record = latest_visible(s.run, s.from_generation_id);
        let to_record = latest_visible(s.run, s.to_generation_id);
        if from_key == to_key {
            lemma_latest_visible_in_run(s.run, s.from_generation_id);
            lemma_latest_visible_in_run(s.run, s.to_generation_id);
            match (from_record, to_record) {
                (Some(a), Some(b)) => {
                    crate::record_key::lemma_encode_injective(a, b);
                },
                _ => {},
            }
        }
    }
}

/// The logic, in its state and the inputs it accepts.
pub struct DiffLogic {
    phase: DiffLogicPhase,
    from_generation_id: OwnedGenerationId,
    to_generation_id: OwnedGenerationId,
    items_limit: usize,
    records_to_view_limit: usize,
    changed_key: OwnedCollectionKey,
    next_changed_key: Option<OwnedCollectionKey>,
    current_record_key: OwnedParsedRecordKey,
    first_key: Option<OwnedParsedRecordKey>,
    last_key: Option<OwnedParsedRecordKey>,
    run: Ghost<Seq<RecordKeyView>>,
}

/// What a diff logic is made from. A missing `from_generation_id` means the
/// empty generation, before all others.
pub struct NewDiffLogic {
    pub from_generation_id: Option<OwnedGenerationId>,
    pub to_generation_id: OwnedGenerationId,
    pub items_limit: usize,
    pub records_to_view_limit: usize,
}

impl View for DiffLogic {
    type V = DiffLogicView;

    closed spec fn view(&self) -> DiffLogicView {
        DiffLogicView {
            phase: self.phase,
            from_generation_id: self.from_generation_id@,
            to_generation_id: self.to_generation_id@,
            changed_key: self.changed_key@,
            next_changed_key: opt_key_view(self.next_changed_key),
            run: self.run@,
        }
    }
}

/// The record key that comes first among the records of `key`.
fn make_no_generation_record_key(key: &OwnedCollectionKey) -> (r: OwnedRecordKey)
    ensures
        r@ == no_generation_key(key@),
{
    let empty = OwnedGenerationId::empty();
    let parsed = OwnedParsedRecordKey::new(key, &empty, None);
    parsed.as_record_key()
}

/// A copy of an optional record key, encoded.
fn opt_as_record_key(k: &Option<OwnedParsedRecordKey>) -> (r: Option<OwnedRecordKey>)
    ensures
        opt_record_key_bytes(r) == opt_encoded(opt_record_view(*k)),
{
    match k {
        Some(k) => Some(k.as_record_key()),
        None => None,
    }
}

impl NewDiffLogic {
    /// A diff logic waiting for `Init`.
    pub fn new(self) -> (r: DiffLogic)
        ensures
            r.wf(),
            r@ == (DiffLogicView {
                phase: DiffLogicPhase::ExpectInit,
                from_generation_id: match self.from_generation_id {
                    Some(g) => g@,
                    None => Seq::empty(),
                },
                to_generation_id: self.to_generation_id@,
                changed_key: Seq::empty(),
                next_changed_key: None,
                run: Seq::empty(),
            }),
    {
        let from_generation_id = match self.from_generation_id {
            Some(g) => g,
            None => OwnedGenerationId::empty(),
        };
        let empty_key = OwnedCollectionKey::empty();
        let empty_generation = OwnedGenerationId::empty();
        let current = OwnedParsedRecordKey::new(&empty_key, &empty_generation, None);
        DiffLogic {
            phase: DiffLogicPhase::ExpectInit,
            from_generation_id,
            to_generation_id: self.to_generation_id,
            items_limit: self.items_limit,
            records_to_view_limit: self.records_to_view_limit,
            changed_key: empty_key,
            next_changed_key: None,
            current_record_key: current,
            first_key: None,
            last_key: None,
            run: Ghost(Seq::empty()),
        }
    }
}

impl DiffLogic {
    /// The link between the holders and the run walked so far.
    pub closed spec fn wf(&self) -> bool {
        &&& (self.phase == DiffLogicPhase::ExpectNextCursor ==> {
            &&& self.run@.len() >= 1
            &&& self.current_record_key@ == self.run@.last()
            &&& opt_record_view(self.first_key) == latest_visible(
                self.run@.drop_last(),
                self.from_generation_id@,
            )
            &&& opt_record_view(self.last_key) == latest_visible(
                self.run@.drop_last(),
                self.to_generation_id@,
            )
        })
        &&& ((self.phase == DiffLogicPhase::ExpectInit || self.phase
            == DiffLogicPhase::ExpectFirstChangedKey || self.phase
            == DiffLogicPhase::ExpectNextChangedKey || self.phase
            == DiffLogicPhase::ExpectCursorAfterSet) ==> self.first_key is None
            && self.last_key is None)
    }

    /// Takes the answer to the previous action and says what to do next.
    pub fn run(&mut self, input: DiffLogicInput) -> (r: Result<DiffLogicAction, DiffLogicError>)
        requires
            old(self).wf(),
        ensures
            final(self).wf(),
            final(self)@ == diff_logic_step(old(self)@, input@).0,
            result_view(r) == diff_logic_step(old(self)@, input@).1,
    {
        match self.phase {
            DiffLogicPhase::ExpectInit => {
                if !input.is_init() {
                    return Err(
                        DiffLogicError::Unspecified("Expected Init as first action".to_string()),
                    );
                }
                self.init()
            },
            DiffLogicPhase::ExpectFirstChangedKey => match input.into_next_changed_key() {
                Ok(k) => self.on_got_first_changed_key(k),
                Err(_) => Err(DiffLogicError::Unspecified("Expected NextChangedKey".to_string())),
            },
            DiffLogicPhase::ExpectNextChangedKey => match input.into_next_changed_key() {
                Ok(k) => self.on_got_next_changed_key(k),
                Err(_) => Err(DiffLogicError::Unspecified("Expected NextChangedKey".to_string())),
            },
            DiffLogicPhase::ExpectCursorAfterSet => match input.into_next_cursor_key() {
                Ok(k) => self.on_got_next_after_cursor_set(k),
                Err(_) => Err(DiffLogicError::Unspecified("Expected NextCursorKey".to_string())),
            },
            DiffLogicPhase::ExpectNextCursor => match input.into_next_cursor_key() {
                Ok(k) => self.handle_keys_pair(k),
                Err(_) => Err(DiffLogicError::Unspecified("Expected NextCursorKey".to_string())),
            },
            DiffLogicPhase::ExpectCursorAndChangedKey => match input.into_next_cursor_and_changed_key() {
                Ok((k, c)) => self.on_got_next_key_and_changed_key(k, c),
                Err(_) => Err(
                    DiffLogicError::Unspecified("Expected NextCursorAndChangedKey".to_string()),
                ),
            },
            DiffLogicPhase::Finished => Err(DiffLogicError::AlreadyFinished),
            DiffLogicPhase::Errored => Err(DiffLogicError::AlreadyErrored),
        }
    }

    fn init(&mut self) -> (r: Result<DiffLogicAction, DiffLogicError>)
        requires
            old(self).wf(),
            old(self).phase == DiffLogicPhase::ExpectInit,
        ensures
            final(self).wf(),
            final(self)@ == diff_logic_step(old(self)@, DiffLogicInputView::Init).0,
            result_view(r) == diff_logic_step(old(self)@, DiffLogicInputView::Init).1,
    {
        self.phase = DiffLogicPhase::ExpectFirstChangedKey;
        Ok(DiffLogicAction::GetNextChangedKey)
    }

    fn on_got_first_changed_key(&mut self, changed_key: Option<OwnedCollectionKey>) -> (r: Result<
        DiffLogicAction,
        DiffLogicError,
    >)
        requires
            old(self).wf(),
            old(self).phase == DiffLogicPhase::ExpectFirstChangedKey,
        ensures
            final(self).wf(),
            final(self)@ == diff_logic_step(
                old(self)@,
                DiffLogicInputView::NextChangedKey(opt_key_view(changed_key)),
            ).0,
            result_view(r) == diff_logic_step(
                old(self)@,
                DiffLogicInputView::NextChangedKey(opt_key_view(changed_key)),
            ).1,
    {
        match changed_key {
            None => {
                self.phase = DiffLogicPhase::Finished;
                Ok(DiffLogicAction::Sub(DiffLogicSubAction::Finish))
            },
            Some(k) => {
                self.changed_key = k;
                self.phase = DiffLogicPhase::ExpectNextChangedKey;
                Ok(DiffLogicAction::GetNextChangedKey)
            },
        }
    }

    fn on_got_next_changed_key(&mut self, next_changed_key: Option<OwnedCollectionKey>) -> (r:
        Result<DiffLogicAction, DiffLogicError>)
        requires
            old(self).wf(),
            old(self).phase == DiffLogicPhase::ExpectNextChangedKey,
        ensures
            final(self).wf(),
            final(self)@ == diff_logic_step(
                old(self)@,
                DiffLogicInputView::NextChangedKey(opt_key_view(next_changed_key)),
            ).0,
            result_view(r) == diff_logic_step(
                old(self)@,
                DiffLogicInputView::NextChangedKey(opt_key_view(next_changed_key)),
            ).1,
    {
        self.next_changed_key = next_changed_key;
        let key_with_no_generation = make_no_generation_record_key(&self.changed_key);
        self.phase = DiffLogicPhase::ExpectCursorAfterSet;
        Ok(DiffLogicAction::SetCursorAndGetNext(key_with_no_generation))
    }

    fn on_got_next_after_cursor_set(&mut self, key: Option<OwnedParsedRecordKey>) -> (r: Result<
        DiffLogicAction,
        DiffLogicError,
    >)
        requires
            old(self).wf(),
            old(self).phase == DiffLogicPhase::ExpectCursorAfterSet,
        ensures
            final(self).wf(),
            final(self)@ == diff_logic_step(
                old(self)@,
                DiffLogicInputView::NextCursorKey(opt_record_view(key)),
            ).0,
            result_view(r) == diff_logic_step(
                old(self)@,
                DiffLogicInputView::NextCursorKey(opt_record_view(key)),
            ).1,
    {
        let key = match key {
            None => {
                self.phase = DiffLogicPhase::Errored;
                return Err(DiffLogicError::ChangedKeyNotFound("on_got_next_after_cursor_set"));
            },
            Some(k) => k,
        };
        if !key.collection_key().same_as(&self.changed_key) {
            self.phase = DiffLogicPhase::Errored;
            return Err(
                DiffLogicError::Unspecified("First iterator key is not changed one".to_string()),
            );
        }
        self.run = Ghost(Seq::empty().push(key@));
        self.current_record_key = key;
        self.phase = DiffLogicPhase::ExpectNextCursor;
        Ok(DiffLogicAction::GetNextCursorKey)
    }

    fn handle_keys_pair(&mut self, next_key: Option<OwnedParsedRecordKey>) -> (r: Result<
        DiffLogicAction,
        DiffLogicError,
    >)
        requires
            old(self).wf(),
            old(self).phase == DiffLogicPhase::ExpectNextCursor,
        ensures
            final(self).wf(),
            final(self)@ == diff_logic_step(
                old(self)@,
                DiffLogicInputView::NextCursorKey(opt_record_view(next_key)),
            ).0,
            result_view(r) == diff_logic_step(
                old(self)@,
                DiffLogicInputView::NextCursorKey(opt_record_view(next_key)),
            ).1,
    {
        let ghost old_run = self.run@;
        let is_last_key = match &next_key {
            None => true,
            Some(n) => !n.collection_key().same_as(self.current_record_key.collection_key())
                || self.to_generation_id.less_than(n.generation_id()),
        };
        assert(is_last_key == ends_run(old_run.last(), opt_record_view(next_key), self.to_generation_id@));

        let current_key_is_phantom = self.current_record_key.is_phantom();
        if !current_key_is_phantom {
            let current_is_before_from = self.current_record_key.generation_id().less_or_equal(
                &self.from_generation_id,
            );
            let current_is_before_to = self.current_record_key.generation_id().less_or_equal(
                &self.to_generation_id,
            );
            if current_is_before_from {
                self.first_key = Some(self.current_record_key.copy());
            }
            if current_is_before_to {
                self.last_key = Some(self.current_record_key.copy());
            }
        }
        assert(opt_record_view(self.first_key) == latest_visible(old_run, self.from_generation_id@));
        assert(opt_record_view(self.last_key) == latest_visible(old_run, self.to_generation_id@));
        if !is_last_key {
            let next = match next_key {
                Some(n) => n,
                None => {
                    proof {
                        assert(false);
                    }
                    return Err(DiffLogicError::NoFirstAndLastKeys);
                },
            };
            proof {
                let run2 = old_run.push(next@);
                assert(run2.drop_last() =~= old_run);
                assert(run2[run2.len() - 2] == old_run.last());
            }
            self.run = Ghost(old_run.push(next@));
            self.current_record_key = next;
            return Ok(DiffLogicAction::GetNextCursorKey);
        }
        assert(opt_record_view(self.first_key) == latest_visible(old_run, self.from_generation_id@));
        assert(opt_record_view(self.last_key) == latest_visible(old_run, self.to_generation_id@));

        let is_same = match (&self.first_key, &self.last_key) {
            (Some(a), Some(b)) => a.same_as(b),
            (None, None) => true,
            _ => false,
        };
        if is_same {
            self.phase = DiffLogicPhase::Errored;
            return Err(DiffLogicError::ChangeNotFound);
        }
        let key = match &self.first_key {
            Some(f) => f.collection_key().copy(),
            None => match &self.last_key {
                Some(l) => l.collection_key().copy(),
                None => {
                    proof {
                        assert(false);
                    }
                    return Err(DiffLogicError::NoFirstAndLastKeys);
                },
            },
        };
        let from_key = opt_as_record_key(&self.first_key);
        let to_key = opt_as_record_key(&self.last_key);
        let next_changed_key = self.next_changed_key.take();
        let next_action = match next_changed_key {
            None => {
                self.phase = DiffLogicPhase::Finished;
                DiffLogicSubAction::Finish
            },
            Some(nk) => {
                let follows = match &next_key {
                    Some(n) => n.collection_key().same_as(&nk),
                    None => false,
                };
                let action = if follows {
                    DiffLogicSubAction::GetNextCursorKeyAndNextChangedKey
                } else {
                    DiffLogicSubAction::SetCursorAndGetNextCursorKeyAndNextChangedKey(
                        make_no_generation_record_key(&nk),
                    )
                };
                self.changed_key = nk;
                self.phase = DiffLogicPhase::ExpectCursorAndChangedKey;
                action
            },
        };
        Ok(DiffLogicAction::EmitItem(EmitItemAction { key, from_key, to_key, next_action }))
    }

    fn on_got_next_key_and_changed_key(
        &mut self,
        key: Option<OwnedParsedRecordKey>,
        next_changed_key: Option<OwnedCollectionKey>,
    ) -> (r: Result<DiffLogicAction, DiffLogicError>)
        requires
            old(self).wf(),
            old(self).phase == DiffLogicPhase::ExpectCursorAndChangedKey,
        ensures
            final(self).wf(),
            final(self)@ == diff_logic_step(
                old(self)@,
                DiffLogicInputView::NextCursorAndChangedKey(
                    opt_record_view(key),
                    opt_key_view(next_changed_key),
                ),
            ).0,
            result_view(r) == diff_logic_step(
                old(self)@,
                DiffLogicInputView::NextCursorAndChangedKey(
                    opt_record_view(key),
                    opt_key_view(next_changed_key),
                ),
            ).1,
    {
        let key = match key {
            None => {
                self.phase = DiffLogicPhase::Errored;
                return Err(DiffLogicError::ChangedKeyNotFound("on_got_next_key_and_changed_key"));
            },
            Some(k) => k,
        };
        self.first_key = None;
        self.last_key = None;
        self.next_changed_key = next_changed_key;
        self.run = Ghost(Seq::empty().push(key@));
        self.current_record_key = key;
        self.phase = DiffLogicPhase::ExpectNextCursor;
        Ok(DiffLogicAction::GetNextCursorKey)
    }
}

} // verus!
