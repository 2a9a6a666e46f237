//! The cursor over the store's records that a diff walks, which drops the
//! records of phantoms that are no longer alive as it meets them.
//!
//! The cursor itself belongs to the driver; this type decides how to move
//! it and what to make of the keys it shows.
use vstd::prelude::*;

use crate::bytes::{copy_bytes, lex_le};
use crate::common::{OwnedCollectionValue, OwnedPhantomId};
use crate::raw_db::errors::RawDbError;
use crate::record_key::{parse_record_key, OwnedParsedRecordKey, OwnedRecordKey, RecordKeyView};

verus! {

/// Whether a record written with `phantom_id` belongs to a phantom that is
/// gone: every phantom up to `gc_phantom_id` is.
pub fn is_need_to_delete(phantom_id: Option<&OwnedPhantomId>, gc_phantom_id: &OwnedPhantomId) -> (r:
    bool)
    ensures
        r == (phantom_id matches Some(p) && lex_le(p@, gc_phantom_id@)),
{
    match phantom_id {
        Some(p) => p.less_or_equal(gc_phantom_id),
        None => false,
    }
}

/// How the driver is to move the cursor.
pub enum CursorMove {
    /// Leave it where it is.
    Stay,
    SeekToFirst,
    Next,
    /// Move it to the first key at or after these bytes.
    Seek(Vec<u8>),
}

/// What to make of the key under the cursor.
pub enum GcStep {
    /// No more keys.
    End,
    /// The record belongs to a phantom that is gone; it was queued for
    /// deletion. Move the cursor to the next key and look again.
    Skip,
    /// The key to hand out.
    Key(OwnedParsedRecordKey),
    /// The key under the cursor is not a record key.
    InvalidRecordKey,
}

/// The state of the cursor walk, as values.
pub struct GcIteratorView {
    pub need_seek_to_first: bool,
    pub need_go_next: bool,
    pub is_invalid: bool,
    pub gc_phantom_id: Option<Seq<u8>>,
    pub keys_to_delete: Seq<Seq<u8>>,
    pub is_saved: bool,
    pub saved_key: Seq<u8>,
    pub was_first: bool,
    pub was_invalid: bool,
}

/// The walk over the records.
pub struct GcIterator {
    need_seek_to_first: bool,
    need_go_next: bool,
    is_invalid: bool,
    gc_phantom_id: Option<OwnedPhantomId>,
    keys_to_delete: Vec<OwnedRecordKey>,
    is_saved: bool,
    saved_key: Vec<u8>,
    was_first: bool,
    was_invalid: bool,
}

/// What a walk is made from.
pub struct NewGcIterator {
    pub gc_phantom_id: Option<OwnedPhantomId>,
}

/// The bytes of queued keys.
pub open spec fn record_key_views(keys: Seq<OwnedRecordKey>) -> Seq<Seq<u8>> {
    keys.map_values(|k: OwnedRecordKey| k@)
}

impl View for GcIterator {
    type V = GcIteratorView;

    closed spec fn view(&self) -> GcIteratorView {
        GcIteratorView {
            need_seek_to_first: self.need_seek_to_first,
            need_go_next: self.need_go_next,
            is_invalid: self.is_invalid,
            gc_phantom_id: match self.gc_phantom_id {
                Some(p) => Some(p@),
                None => None,
            },
            keys_to_delete: record_key_views(self.keys_to_delete@),
            is_saved: self.is_saved,
            saved_key: self.saved_key@,
            was_first: self.was_first,
            was_invalid: self.was_invalid,
        }
    }
}

/// What `save_state` makes of the walk, given whether the cursor was valid
/// and the key under it.
pub open spec fn saved(s: GcIteratorView, cursor_valid: bool, cursor_key: Option<Seq<u8>>) -> GcIteratorView {
    if s.need_seek_to_first {
        GcIteratorView { is_saved: true, was_first: true, ..s }
    } else if !cursor_valid {
        GcIteratorView { is_saved: true, was_first: false, was_invalid: true, ..s }
    } else {
        match cursor_key {
            None => GcIteratorView { is_saved: true, was_first: true, ..s },
            Some(k) => GcIteratorView { is_saved: true, was_first: false, saved_key: k, ..s },
        }
    }
}

/// What `restore_state` makes of the walk, and how it moves the cursor.
pub open spec fn restored(s: GcIteratorView) -> (GcIteratorView, Option<Seq<u8>>) {
    let t = GcIteratorView {
        is_saved: false,
        need_seek_to_first: s.was_first,
        is_invalid: s.was_invalid,
        ..s
    };
    if t.is_invalid || t.need_seek_to_first {
        (t, None)
    } else {
        (GcIteratorView { need_go_next: true, ..t }, Some(s.saved_key))
    }
}

impl NewGcIterator {
    /// A walk that starts at the first record.
    pub fn new(self) -> (r: GcIterator)
        ensures
            r@ == (GcIteratorView {
                need_seek_to_first: true,
                need_go_next: false,
                is_invalid: false,
                gc_phantom_id: match self.gc_phantom_id {
                    Some(p) => Some(p@),
                    None => None,
                },
                keys_to_delete: Seq::empty(),
                is_saved: false,
                saved_key: Seq::empty(),
                was_first: true,
                was_invalid: false,
            }),
    {
        let r = GcIterator {
            need_seek_to_first: true,
            need_go_next: false,
            is_invalid: false,
            gc_phantom_id: self.gc_phantom_id,
            keys_to_delete: Vec::new(),
            is_saved: false,
            saved_key: Vec::new(),
            was_first: true,
            was_invalid: false,
        };
        assert(record_key_views(r.keys_to_delete@) =~= Seq::<Seq<u8>>::empty());
        r
    }
}

impl GcIterator {
    /// How to move the cursor to read the next key; `None` when the walk was
    /// made invalid (there is no next key).
    pub fn start_next_key(&mut self) -> (r: Option<CursorMove>)
        ensures
            old(self)@.is_invalid ==> r is None && final(self)@ == old(self)@,
            !old(self)@.is_invalid ==> final(self)@ == (GcIteratorView {
                need_seek_to_first: false,
                need_go_next: true,
                ..old(self)@
            }) && (r matches Some(m) && if old(self)@.need_seek_to_first {
                m is SeekToFirst
            } else if old(self)@.need_go_next {
                m is Next
            } else {
                m is Stay
            }),
    {
        if self.is_invalid {
            return None;
        }
        let m = if self.need_seek_to_first {
            self.need_seek_to_first = false;
            CursorMove::SeekToFirst
        } else if self.need_go_next {
            CursorMove::Next
        } else {
            CursorMove::Stay
        };
        self.need_go_next = true;
        Some(m)
    }

    /// What to make of the key under the cursor (`None` past the last key):
    /// a record of a phantom up to the collected phantom id is queued for
    /// deletion and skipped.
    pub fn on_cursor_key(&mut self, key: Option<&[u8]>) -> (r: GcStep)
        ensures
            match key {
                None => r is End && final(self)@ == old(self)@,
                Some(k) => match parse_record_key(k@) {
                    None => r is InvalidRecordKey && final(self)@ == old(self)@,
                    Some(parts) => if old(self)@.gc_phantom_id matches Some(gc) && parts.phantom_id
                        matches Some(p) && lex_le(p, gc) {
                        r is Skip && final(self)@ == (GcIteratorView {
                            keys_to_delete: old(self)@.keys_to_delete.push(k@),
                            ..old(self)@
                        })
                    } else {
                        r matches GcStep::Key(p) && p@ == parts && final(self)@ == old(self)@
                    },
                },
            },
    {
        let key = match key {
            None => {
                return GcStep::End;
            },
            Some(k) => k,
        };
        let record_key = match OwnedRecordKey::validate(copy_bytes(key)) {
            Ok(r) => r,
            Err(_) => {
                return GcStep::InvalidRecordKey;
            },
        };
        let parsed = record_key.parse();
        let delete = match &self.gc_phantom_id {
            Some(gc) => is_need_to_delete(parsed.phantom_id(), gc),
            None => false,
        };
        if delete {
            let ghost before = self@;
            self.keys_to_delete.push(record_key);
            assert(record_key_views(self.keys_to_delete@) =~= before.keys_to_delete.push(key@));
            return GcStep::Skip;
        }
        GcStep::Key(parsed)
    }

    /// How to move the cursor for the walk that also reads values: to the
    /// first record at the start, else to the next one; `None` when the walk
    /// was made invalid.
    pub fn start_next(&mut self) -> (r: Option<CursorMove>)
        ensures
            old(self)@.is_invalid ==> r is None && final(self)@ == old(self)@,
            !old(self)@.is_invalid ==> final(self)@ == (GcIteratorView {
                need_seek_to_first: false,
                ..old(self)@
            }) && (r matches Some(m) && if old(self)@.need_seek_to_first {
                m is SeekToFirst
            } else {
                m is Next
            }),
    {
        if self.is_invalid {
            return None;
        }
        if self.need_seek_to_first {
            self.need_seek_to_first = false;
            Some(CursorMove::SeekToFirst)
        } else {
            Some(CursorMove::Next)
        }
    }

    /// Moves the walk to `key`: the next key read is the first one at or
    /// after it.
    pub fn seek(&mut self, key: &[u8]) -> (r: CursorMove)
        ensures
            r matches CursorMove::Seek(k) && k@ == key@,
            final(self)@ == (GcIteratorView {
                is_invalid: false,
                need_seek_to_first: false,
                need_go_next: false,
                ..old(self)@
            }),
    {
        self.is_invalid = false;
        self.need_seek_to_first = false;
        self.need_go_next = false;
        CursorMove::Seek(copy_bytes(key))
    }

    /// Ends the walk: no more keys are read until the next seek.
    pub fn make_invalid(&mut self)
        ensures
            final(self)@ == (GcIteratorView { is_invalid: true, ..old(self)@ }),
    {
        self.is_invalid = true;
    }

    /// Remembers where the walk is, given whether the cursor is valid and
    /// the key under it. A walk holds one saved position at a time.
    pub fn save_state(&mut self, cursor_valid: bool, cursor_key: Option<&[u8]>)
        requires
            !old(self)@.is_saved,
        ensures
            final(self)@ == saved(
                old(self)@,
                cursor_valid,
                match cursor_key {
                    Some(k) => Some(k@),
                    None => None,
                },
            ),
    {
        self.is_saved = true;
        self.was_first = self.need_seek_to_first;
        if self.was_first {
            return;
        }
        if !cursor_valid {
            self.was_invalid = true;
            return;
        }
        match cursor_key {
            None => {
                self.was_first = true;
            },
            Some(k) => {
                self.saved_key = copy_bytes(k);
            },
        }
    }

    /// Goes back to the saved position; returns where to move the cursor
    /// when it must move.
    pub fn restore_state(&mut self) -> (r: Option<CursorMove>)
        requires
            old(self)@.is_saved,
        ensures
            final(self)@ == restored(old(self)@).0,
            match restored(old(self)@).1 {
                None => r is None,
                Some(k) => r matches Some(CursorMove::Seek(b)) && b@ == k,
            },
    {
        self.is_saved = false;
        self.need_seek_to_first = self.was_first;
        self.is_invalid = self.was_invalid;
        if self.is_invalid || self.need_seek_to_first {
            return None;
        }
        self.need_go_next = true;
        Some(CursorMove::Seek(copy_bytes(self.saved_key.as_slice())))
    }

    /// The record keys queued for deletion, taken out.
    pub fn into_keys_to_delete(self) -> (r: Vec<OwnedRecordKey>)
        ensures
            record_key_views(r@) == self@.keys_to_delete,
    {
        self.keys_to_delete
    }
}

/// The value of the record `expected`, given the key and value under the
/// cursor after seeking to it: an error when the cursor shows no key, another
/// key, or no value.
pub fn value_at_key(expected: &[u8], actual_key: Option<&[u8]>, value: Option<&[u8]>) -> (r: Result<
    OwnedCollectionValue,
    RawDbError,
>)
    ensures
        match actual_key {
            None => r matches Err(RawDbError::Unspecified(m)) && m@
                == "get_value_for_key: key not found"@,
            Some(k) => if k@ != expected@ {
                r matches Err(RawDbError::Unspecified(m)) && m@
                    == "get_value_for_key: key not matches"@
            } else {
                match value {
                    None => r matches Err(RawDbError::Unspecified(m)) && m@
                        == "get_value_for_key: no value"@,
                    Some(v) => r matches Ok(x) && x@ == v@,
                }
            },
        },
{
    let actual_key = match actual_key {
        None => {
            return Err(RawDbError::Unspecified("get_value_for_key: key not found".to_owned()));
        },
        Some(k) => k,
    };
    if !crate::bytes::bytes_eq(actual_key, expected) {
        return Err(RawDbError::Unspecified("get_value_for_key: key not matches".to_owned()));
    }
    match value {
        None => Err(RawDbError::Unspecified("get_value_for_key: no value".to_owned())),
        Some(v) => Ok(OwnedCollectionValue::new(v)),
    }
}

/// The parts of the walk that `save_state` sets and `restore_state` reads.
pub open spec fn saved_part(s: GcIteratorView) -> (bool, Seq<u8>, bool, bool) {
    (s.is_saved, s.saved_key, s.was_first, s.was_invalid)
}

/// Law: restoring after saving puts the walk back where it was, whatever
/// moves came in between (they leave the saved part alone): at the start
/// when it had not started, back on the saved key when the cursor was on one
/// (so that the next step moves past it, as it would have before the save),
/// and at the end when the cursor was past it.
/// A walk that was once saved past the end stays at the end after every
/// later restore; the law is stated for walks that were not.
pub proof fn lemma_restore_undoes_save(
    s: GcIteratorView,
    cursor_valid: bool,
    cursor_key: Option<Seq<u8>>,
    between: GcIteratorView,
)
    requires
        !s.is_saved,
        !s.was_invalid,
        saved_part(between) == saved_part(saved(s, cursor_valid, cursor_key)),
    ensures
        ({
            let (t, mv) = restored(between);
            &&& !t.is_saved
            &&& s.need_seek_to_first ==> t.need_seek_to_first && !t.is_invalid && mv is None
            &&& (!s.need_seek_to_first && !cursor_valid) ==> t.is_invalid && mv is None
            &&& (!s.need_seek_to_first && cursor_valid && cursor_key is None) ==> t.need_seek_to_first
                && !t.is_invalid && mv is None
            &&& (!s.need_seek_to_first && cursor_valid && cursor_key is Some) ==> (
            !t.need_seek_to_first && !t.is_invalid && t.need_go_next && mv == cursor_key)
        }),
{
}

} // verus!
