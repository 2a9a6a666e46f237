//! The values the store is made of: collection keys, generation ids,
//! phantom ids and values, each with the size limits of the data model.
use vstd::prelude::*;

use crate::bytes::{bytes_eq, bytes_le, bytes_lt, copy_bytes, lex_le, lex_lt};

verus! {

/// A key of a collection is at most this many bytes long.
pub const MAX_COLLECTION_KEY_LENGTH: usize = 16777215;

/// A generation id is at most this many bytes long.
pub const MAX_GENERATION_ID_LENGTH: usize = 255;

/// A phantom id is at most this many bytes long.
pub const MAX_PHANTOM_ID_LENGTH: usize = 255;

/// A collection name is at most this many bytes long.
pub const MAX_COLLECTION_NAME_LENGTH: usize = 255;

/// The key of a record in a collection.
pub struct OwnedCollectionKey {
    value: Vec<u8>,
}

impl View for OwnedCollectionKey {
    type V = Seq<u8>;

    closed spec fn view(&self) -> Seq<u8> {
        self.value@
    }
}

impl OwnedCollectionKey {
    /// What every collection key satisfies: its length limit.
    #[verifier::type_invariant]
    pub open spec fn inv(self) -> bool {
        self@.len() <= MAX_COLLECTION_KEY_LENGTH
    }

    /// Takes `bytes` as a key; fails when they are longer than the limit.
    pub fn from_vec(bytes: Vec<u8>) -> (r: Result<Self, ()>)
        ensures
            r is Ok <==> bytes@.len() <= MAX_COLLECTION_KEY_LENGTH,
            r matches Ok(k) ==> k@ == bytes@,
    {
        if bytes.len() <= MAX_COLLECTION_KEY_LENGTH {
            Ok(OwnedCollectionKey { value: bytes })
        } else {
            Err(())
        }
    }

    /// The empty key, which sorts before every other key.
    pub fn empty() -> (r: Self)
        ensures
            r@ == Seq::<u8>::empty(),
    {
        OwnedCollectionKey { value: Vec::new() }
    }

    /// The bytes of the key.
    pub fn get_byte_array(&self) -> (r: &[u8])
        ensures
            r@ == self@,
    {
        self.value.as_slice()
    }

    /// A copy of the key.
    pub fn copy(&self) -> (r: Self)
        ensures
            r@ == self@,
    {
        proof {
            use_type_invariant(self);
        }
        OwnedCollectionKey { value: copy_bytes(self.value.as_slice()) }
    }

    /// Whether two keys are equal.
    pub fn same_as(&self, other: &Self) -> (r: bool)
        ensures
            r == (self@ == other@),
    {
        bytes_eq(self.value.as_slice(), other.value.as_slice())
    }

    /// Whether this key sorts strictly before `other`.
    pub fn less_than(&self, other: &Self) -> (r: bool)
        ensures
            r == lex_lt(self@, other@),
    {
        bytes_lt(self.value.as_slice(), other.value.as_slice())
    }

    /// The length of the key, in bytes.
    pub fn len(&self) -> (r: usize)
        ensures
            r == self@.len(),
            r <= MAX_COLLECTION_KEY_LENGTH,
    {
        proof {
            use_type_invariant(self);
        }
        self.value.len()
    }

    /// The key's bytes, taken out.
    pub fn into_vec(self) -> (r: Vec<u8>)
        ensures
            r@ == self@,
    {
        self.value
    }
}

/// The id of a generation: the version that records are written in.
/// Generations are ordered as their ids are, byte-wise.
pub struct OwnedGenerationId {
    value: Vec<u8>,
}

impl View for OwnedGenerationId {
    type V = Seq<u8>;

    closed spec fn view(&self) -> Seq<u8> {
        self.value@
    }
}

/// `a <= b` where a missing `b` gives `default`.
pub open spec fn generation_le_opt_or(a: Seq<u8>, b: Option<Seq<u8>>, default: bool) -> bool {
    match b {
        Some(b) => lex_le(a, b),
        None => default,
    }
}

impl OwnedGenerationId {
    /// What every generation id satisfies: its length limit.
    #[verifier::type_invariant]
    pub open spec fn inv(self) -> bool {
        self@.len() <= MAX_GENERATION_ID_LENGTH
    }

    /// Takes `bytes` as a generation id; fails when they are too long.
    pub fn from_vec(bytes: Vec<u8>) -> (r: Result<Self, ()>)
        ensures
            r is Ok <==> bytes@.len() <= MAX_GENERATION_ID_LENGTH,
            r matches Ok(g) ==> g@ == bytes@,
    {
        if bytes.len() <= MAX_GENERATION_ID_LENGTH {
            Ok(OwnedGenerationId { value: bytes })
        } else {
            Err(())
        }
    }

    /// The empty generation id, which precedes every other one.
    pub fn empty() -> (r: Self)
        ensures
            r@ == Seq::<u8>::empty(),
    {
        OwnedGenerationId { value: Vec::new() }
    }

    /// The bytes of the id.
    pub fn get_byte_array(&self) -> (r: &[u8])
        ensures
            r@ == self@,
    {
        self.value.as_slice()
    }

    /// A copy of the id.
    pub fn copy(&self) -> (r: Self)
        ensures
            r@ == self@,
    {
        proof {
            use_type_invariant(self);
        }
        OwnedGenerationId { value: copy_bytes(self.value.as_slice()) }
    }

    /// The length of the id, in bytes.
    pub fn len(&self) -> (r: usize)
        ensures
            r == self@.len(),
            r <= MAX_GENERATION_ID_LENGTH,
    {
        proof {
            use_type_invariant(self);
        }
        self.value.len()
    }

    /// Whether two ids are equal.
    pub fn same_as(&self, other: &Self) -> (r: bool)
        ensures
            r == (self@ == other@),
    {
        bytes_eq(self.value.as_slice(), other.value.as_slice())
    }

    /// Whether this generation precedes `other` or is it.
    pub fn less_or_equal(&self, other: &Self) -> (r: bool)
        ensures
            r == lex_le(self@, other@),
    {
        bytes_le(self.value.as_slice(), other.value.as_slice())
    }

    /// Whether this generation strictly precedes `other`.
    pub fn less_than(&self, other: &Self) -> (r: bool)
        ensures
            r == lex_lt(self@, other@),
    {
        bytes_lt(self.value.as_slice(), other.value.as_slice())
    }

    /// `self <= other`, or `default` when there is no `other`.
    pub fn less_or_equal_with_opt_or(&self, other: Option<&OwnedGenerationId>, default: bool) -> (r:
        bool)
        ensures
            r == generation_le_opt_or(
                self@,
                match other {
                    Some(o) => Some(o@),
                    None => None,
                },
                default,
            ),
    {
        match other {
            Some(o) => self.less_or_equal(o),
            None => default,
        }
    }

    /// The id's bytes, taken out.
    pub fn into_vec(self) -> (r: Vec<u8>)
        ensures
            r@ == self@,
    {
        self.value
    }
}

/// The id of a phantom: records written with it are seen only by reads
/// that give the same id.
pub struct OwnedPhantomId {
    value: Vec<u8>,
}

impl View for OwnedPhantomId {
    type V = Seq<u8>;

    closed spec fn view(&self) -> Seq<u8> {
        self.value@
    }
}

impl OwnedPhantomId {
    /// What every phantom id satisfies: its length limit.
    #[verifier::type_invariant]
    pub open spec fn inv(self) -> bool {
        self@.len() <= MAX_PHANTOM_ID_LENGTH
    }

    /// Takes `bytes` as a phantom id; fails when they are too long.
    pub fn from_vec(bytes: Vec<u8>) -> (r: Result<Self, ()>)
        ensures
            r is Ok <==> bytes@.len() <= MAX_PHANTOM_ID_LENGTH,
            r matches Ok(p) ==> p@ == bytes@,
    {
        if bytes.len() <= MAX_PHANTOM_ID_LENGTH {
            Ok(OwnedPhantomId { value: bytes })
        } else {
            Err(())
        }
    }

    /// Takes `bytes` as the id of a phantom, which is never empty: `None` when
    /// they are empty or too long.
    pub fn new_nonempty(bytes: &[u8]) -> (r: Option<Self>)
        ensures
            r is Some <==> 1 <= bytes@.len() <= MAX_PHANTOM_ID_LENGTH,
            r matches Some(p) ==> p@ == bytes@,
    {
        if bytes.len() == 0 || bytes.len() > MAX_PHANTOM_ID_LENGTH {
            None
        } else {
            Some(OwnedPhantomId { value: copy_bytes(bytes) })
        }
    }

    /// The bytes of the id.
    pub fn get_byte_array(&self) -> (r: &[u8])
        ensures
            r@ == self@,
    {
        self.value.as_slice()
    }

    /// A copy of the id.
    pub fn copy(&self) -> (r: Self)
        ensures
            r@ == self@,
    {
        proof {
            use_type_invariant(self);
        }
        OwnedPhantomId { value: copy_bytes(self.value.as_slice()) }
    }

    /// The length of the id, in bytes.
    pub fn len(&self) -> (r: usize)
        ensures
            r == self@.len(),
            r <= MAX_PHANTOM_ID_LENGTH,
    {
        proof {
            use_type_invariant(self);
        }
        self.value.len()
    }

    /// Whether two ids are equal.
    pub fn same_as(&self, other: &Self) -> (r: bool)
        ensures
            r == (self@ == other@),
    {
        bytes_eq(self.value.as_slice(), other.value.as_slice())
    }

    /// Whether this id sorts before `other` or equals it.
    pub fn less_or_equal(&self, other: &Self) -> (r: bool)
        ensures
            r == lex_le(self@, other@),
    {
        bytes_le(self.value.as_slice(), other.value.as_slice())
    }

    /// The id's bytes, taken out.
    pub fn into_vec(self) -> (r: Vec<u8>)
        ensures
            r@ == self@,
    {
        self.value
    }
}

/// The value of a record. An empty value stands for a deleted record.
pub struct OwnedCollectionValue {
    value: Vec<u8>,
}

impl View for OwnedCollectionValue {
    type V = Seq<u8>;

    closed spec fn view(&self) -> Seq<u8> {
        self.value@
    }
}

impl OwnedCollectionValue {
    /// A value holding a copy of `bytes`.
    pub fn new(bytes: &[u8]) -> (r: Self)
        ensures
            r@ == bytes@,
    {
        OwnedCollectionValue { value: copy_bytes(bytes) }
    }

    /// A value holding `bytes`.
    pub fn from_vec(bytes: Vec<u8>) -> (r: Self)
        ensures
            r@ == bytes@,
    {
        OwnedCollectionValue { value: bytes }
    }

    /// The bytes of the value.
    pub fn get_value(&self) -> (r: &[u8])
        ensures
            r@ == self@,
    {
        self.value.as_slice()
    }

    /// Whether the value is empty (the record is deleted).
    pub fn is_empty(&self) -> (r: bool)
        ensures
            r == (self@.len() == 0),
    {
        self.value.len() == 0
    }

    /// A copy of the value.
    pub fn copy(&self) -> (r: Self)
        ensures
            r@ == self@,
    {
        OwnedCollectionValue { value: copy_bytes(self.value.as_slice()) }
    }

    /// The value's bytes, taken out.
    pub fn into_vec(self) -> (r: Vec<u8>)
        ensures
            r@ == self@,
    {
        self.value
    }
}

/// A record as a read gives it back.
pub struct KeyValue {
    pub key: OwnedCollectionKey,
    pub value: OwnedCollectionValue,
}

/// One write of `put`/`putMany`: a value to store, or `None` to delete.
pub struct KeyValueUpdate {
    pub key: OwnedCollectionKey,
    pub value: Option<OwnedCollectionValue>,
    pub if_not_present: bool,
}

/// What `KeyValueUpdate::new` is made from.
pub struct KeyValueUpdateNewOptions {
    pub key: OwnedCollectionKey,
    pub value: Option<OwnedCollectionValue>,
    pub if_not_present: bool,
}

impl KeyValueUpdate {
    /// An update with the given parts.
    pub fn new(options: KeyValueUpdateNewOptions) -> (r: Self)
        ensures
            r.key@ == options.key@,
            r.value.is_some() == options.value.is_some(),
            r.value matches Some(v) ==> v@ == options.value.unwrap()@,
            r.if_not_present == options.if_not_present,
    {
        KeyValueUpdate {
            key: options.key,
            value: options.value,
            if_not_present: options.if_not_present,
        }
    }
}

/// How the value of one key differs between two generations.
pub struct KeyValueDiff {
    pub key: OwnedCollectionKey,
    pub from_value: Option<OwnedCollectionValue>,
    pub intermediate_values: Vec<Option<OwnedCollectionValue>>,
    pub to_value: Option<OwnedCollectionValue>,
}

} // verus!
