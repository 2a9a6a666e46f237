//! Record keys: how a record's collection key, generation id and phantom id
//! are laid out as one key of the store.
//!
//! Layout: the collection key's length in three bytes (big-endian), the
//! collection key, the generation id's length in one byte, the generation id,
//! the phantom id's length in one byte (zero when there is no phantom) and
//! the phantom id.
use vstd::prelude::*;

use crate::bytes::copy_bytes;
use crate::common::{
    OwnedCollectionKey, OwnedGenerationId, OwnedPhantomId, MAX_COLLECTION_KEY_LENGTH,
    MAX_GENERATION_ID_LENGTH, MAX_PHANTOM_ID_LENGTH,
};

verus! {

/// The parts of a record key.
pub struct RecordKeyView {
    pub collection_key: Seq<u8>,
    pub generation_id: Seq<u8>,
    pub phantom_id: Option<Seq<u8>>,
}

/// The parts fit their limits, and a phantom id, when there is one, is not
/// empty.
pub open spec fn valid_record_key_view(r: RecordKeyView) -> bool {
    &&& r.collection_key.len() <= MAX_COLLECTION_KEY_LENGTH
    &&& r.generation_id.len() <= MAX_GENERATION_ID_LENGTH
    &&& match r.phantom_id {
        Some(p) => 1 <= p.len() <= MAX_PHANTOM_ID_LENGTH,
        None => true,
    }
}

/// A length below 2^24 in three big-endian bytes.
pub open spec fn u24_be(n: nat) -> Seq<u8> {
    seq![(n / 65536) as u8, ((n / 256) % 256) as u8, (n % 256) as u8]
}

/// The bytes of a phantom id, none when there is no phantom.
pub open spec fn phantom_bytes(p: Option<Seq<u8>>) -> Seq<u8> {
    match p {
        Some(p) => p,
        None => Seq::empty(),
    }
}

/// The record key with the given parts.
pub open spec fn encode_record_key(r: RecordKeyView) -> Seq<u8> {
    u24_be(r.collection_key.len()) + r.collection_key + seq![r.generation_id.len() as u8]
        + r.generation_id + seq![phantom_bytes(r.phantom_id).len() as u8] + phantom_bytes(
        r.phantom_id,
    )
}

/// The parts of the record key `b`, or `None` when `b` is not one.
pub open spec fn parse_record_key(b: Seq<u8>) -> Option<RecordKeyView> {
    if b.len() < 3 {
        None
    } else {
        let klen = b[0] as int * 65536 + b[1] as int * 256 + b[2] as int;
        let gpos = 3 + klen;
        if b.len() < gpos + 1 {
            None
        } else {
            let ppos = gpos + 1 + b[gpos] as int;
            if b.len() < ppos + 1 {
                None
            } else {
                let plen = b[ppos] as int;
                if b.len() != ppos + 1 + plen {
                    None
                } else {
                    Some(
                        RecordKeyView {
                            collection_key: b.subrange(3, gpos),
                            generation_id: b.subrange(gpos + 1, ppos),
                            phantom_id: if plen == 0 {
                                None
                            } else {
                                Some(b.subrange(ppos + 1, b.len() as int))
                            },
                        },
                    )
                }
            }
        }
    }
}

proof fn lemma_u24(n: nat)
    requires
        n <= MAX_COLLECTION_KEY_LENGTH,
    ensures
        n / 65536 < 256,
        (n / 65536) * 65536 + ((n / 256) % 256) * 256 + n % 256 == n,
{
    assert((n / 65536) * 65536 + ((n / 256) % 256) * 256 + n % 256 == n) by (nonlinear_arith)
        requires
            n <= 16777215,
    ;
    assert(n / 65536 < 256) by (nonlinear_arith)
        requires
            n <= 16777215,
    ;
}

proof fn lemma_u24_of_bytes(b0: u8, b1: u8, b2: u8)
    ensures
        u24_be((b0 as int * 65536 + b1 as int * 256 + b2 as int) as nat) == seq![b0, b1, b2],
        b0 as int * 65536 + b1 as int * 256 + b2 as int <= MAX_COLLECTION_KEY_LENGTH,
{
    let n = b0 as int * 65536 + b1 as int * 256 + b2 as int;
    assert(n / 65536 == b0 as int && (n / 256) % 256 == b1 as int && n % 256 == b2 as int)
        by (nonlinear_arith)
        requires
            n == b0 as int * 65536 + b1 as int * 256 + b2 as int,
            0 <= b0 < 256,
            0 <= b1 < 256,
            0 <= b2 < 256,
    ;
    assert(u24_be(n as nat) =~= seq![b0, b1, b2]);
}

/// Parsing the encoding of valid parts gives them back.
pub proof fn lemma_parse_encode_record_key(r: RecordKeyView)
    requires
        valid_record_key_view(r),
    ensures
        parse_record_key(encode_record_key(r)) == Some(r),
{
    let b = encode_record_key(r);
    let n = r.collection_key.len();
    lemma_u24(n);
    let klen = b[0] as int * 65536 + b[1] as int * 256 + b[2] as int;
    assert(b[0] == (n / 65536) as u8);
    assert(b[1] == ((n / 256) % 256) as u8);
    assert(b[2] == (n % 256) as u8);
    assert(klen == n);
    let gpos = 3 + n as int;
    assert(b[gpos] == r.generation_id.len() as u8);
    let ppos = gpos + 1 + r.generation_id.len() as int;
    assert(b[ppos] == phantom_bytes(r.phantom_id).len() as u8);
    let parsed = parse_record_key(b).unwrap();
    assert(parsed.collection_key =~= r.collection_key);
    assert(parsed.generation_id =~= r.generation_id);
    match r.phantom_id {
        Some(p) => {
            assert(parsed.phantom_id.unwrap() =~= p);
        },
        None => {},
    }
}

/// Whatever parses is the encoding of valid parts: every record key has
/// exactly one layout.
pub proof fn lemma_encode_parse_record_key(b: Seq<u8>)
    requires
        parse_record_key(b) is Some,
    ensures
        valid_record_key_view(parse_record_key(b).unwrap()),
        encode_record_key(parse_record_key(b).unwrap()) == b,
{
    let r = parse_record_key(b).unwrap();
    lemma_u24_of_bytes(b[0], b[1], b[2]);
    let klen = b[0] as int * 65536 + b[1] as int * 256 + b[2] as int;
    assert(r.collection_key.len() == klen);
    assert(u24_be(r.collection_key.len()) =~= b.subrange(0, 3));
    let gpos = 3 + klen;
    let ppos = gpos + 1 + b[gpos] as int;
    assert(r.generation_id.len() as u8 == b[gpos]);
    assert(phantom_bytes(r.phantom_id) =~= b.subrange(ppos + 1, b.len() as int));
    assert(phantom_bytes(r.phantom_id).len() as u8 == b[ppos]);
    assert(encode_record_key(r) =~= b);
}

/// Different parts have different encodings.
pub proof fn lemma_encode_injective(a: RecordKeyView, b: RecordKeyView)
    requires
        encode_record_key(a) == encode_record_key(b),
        valid_record_key_view(a),
        valid_record_key_view(b),
    ensures
        a == b,
{
    lemma_parse_encode_record_key(a);
    lemma_parse_encode_record_key(b);
}

/// The parts of a record key, each in its own type.
pub struct OwnedParsedRecordKey {
    collection_key: OwnedCollectionKey,
    generation_id: OwnedGenerationId,
    phantom_id: Option<OwnedPhantomId>,
}

impl View for OwnedParsedRecordKey {
    type V = RecordKeyView;

    closed spec fn view(&self) -> RecordKeyView {
        RecordKeyView {
            collection_key: self.collection_key@,
            generation_id: self.generation_id@,
            phantom_id: match self.phantom_id {
                Some(p) => Some(p@),
                None => None,
            },
        }
    }
}

/// An encoded record key, as the store holds it.
pub struct OwnedRecordKey {
    value: Vec<u8>,
}

impl View for OwnedRecordKey {
    type V = Seq<u8>;

    closed spec fn view(&self) -> Seq<u8> {
        self.value@
    }
}

impl OwnedParsedRecordKey {
    /// What every parsed record key satisfies.
    #[verifier::type_invariant]
    pub open spec fn inv(self) -> bool {
        valid_record_key_view(self@)
    }

    /// The record key of `collection_key` in `generation_id`, written with
    /// the given phantom (an empty phantom id counts as none).
    pub fn new(
        collection_key: &OwnedCollectionKey,
        generation_id: &OwnedGenerationId,
        phantom_id: Option<&OwnedPhantomId>,
    ) -> (r: Self)
        ensures
            r@.collection_key == collection_key@,
            r@.generation_id == generation_id@,
            r@.phantom_id == match phantom_id {
                Some(p) => if p@.len() == 0 {
                    None
                } else {
                    Some(p@)
                },
                None => None,
            },
    {
        proof {
            use_type_invariant(collection_key);
            use_type_invariant(generation_id);
        }
        let phantom = match phantom_id {
            Some(p) => {
                proof {
                    use_type_invariant(p);
                }
                if p.len() == 0 {
                    None
                } else {
                    Some(p.copy())
                }
            },
            None => None,
        };
        OwnedParsedRecordKey {
            collection_key: collection_key.copy(),
            generation_id: generation_id.copy(),
            phantom_id: phantom,
        }
    }

    /// The key's collection key.
    pub fn collection_key(&self) -> (r: &OwnedCollectionKey)
        ensures
            r@ == self@.collection_key,
    {
        &self.collection_key
    }

    /// The key's generation id.
    pub fn generation_id(&self) -> (r: &OwnedGenerationId)
        ensures
            r@ == self@.generation_id,
    {
        &self.generation_id
    }

    /// The key's phantom id, if it was written with one.
    pub fn phantom_id(&self) -> (r: Option<&OwnedPhantomId>)
        ensures
            r is Some == self@.phantom_id is Some,
            r matches Some(p) ==> p@ == self@.phantom_id.unwrap(),
    {
        match &self.phantom_id {
            Some(p) => Some(p),
            None => None,
        }
    }

    /// Whether the key was written with a phantom id.
    pub fn is_phantom(&self) -> (r: bool)
        ensures
            r == self@.phantom_id is Some,
    {
        self.phantom_id.is_some()
    }

    /// A copy of the key.
    pub fn copy(&self) -> (r: Self)
        ensures
            r@ == self@,
    {
        proof {
            use_type_invariant(self);
        }
        let phantom = match &self.phantom_id {
            Some(p) => Some(p.copy()),
            None => None,
        };
        OwnedParsedRecordKey {
            collection_key: self.collection_key.copy(),
            generation_id: self.generation_id.copy(),
            phantom_id: phantom,
        }
    }

    /// Whether two keys have the same parts.
    pub fn same_as(&self, other: &Self) -> (r: bool)
        ensures
            r == (self@ == other@),
    {
        if !self.collection_key.same_as(&other.collection_key) {
            return false;
        }
        if !self.generation_id.same_as(&other.generation_id) {
            return false;
        }
        match (&self.phantom_id, &other.phantom_id) {
            (Some(a), Some(b)) => a.same_as(b),
            (None, None) => true,
            _ => false,
        }
    }

    /// The encoded record key.
    pub fn as_record_key(&self) -> (r: OwnedRecordKey)
        ensures
            r@ == encode_record_key(self@),
            parse_record_key(r@) == Some(self@),
    {
        proof {
            use_type_invariant(self);
            lemma_parse_encode_record_key(self@);
        }
        let key = self.collection_key.get_byte_array();
        let generation_id = self.generation_id.get_byte_array();
        let n = key.len();
        proof {
            lemma_u24(n as nat);
        }
        let mut out: Vec<u8> = Vec::new();
        out.push((n / 65536) as u8);
        out.push(((n / 256) % 256) as u8);
        out.push((n % 256) as u8);
        out.extend_from_slice(key);
        out.push(generation_id.len() as u8);
        out.extend_from_slice(generation_id);
        match &self.phantom_id {
            Some(p) => {
                let p = p.get_byte_array();
                out.push(p.len() as u8);
                out.extend_from_slice(p);
            },
            None => {
                out.push(0u8);
            },
        }
        assert(out@ =~= encode_record_key(self@));
        OwnedRecordKey { value: out }
    }
}

impl OwnedRecordKey {
    /// What every record key satisfies: it parses.
    #[verifier::type_invariant]
    pub open spec fn inv(self) -> bool {
        parse_record_key(self@) is Some
    }

    /// The parts of this record key.
    pub open spec fn parts(self) -> RecordKeyView {
        parse_record_key(self@).unwrap()
    }

    /// Takes `bytes` as a record key; fails when they do not parse.
    pub fn validate(bytes: Vec<u8>) -> (r: Result<Self, ()>)
        ensures
            r is Ok <==> parse_record_key(bytes@) is Some,
            r matches Ok(k) ==> k@ == bytes@,
    {
        if bytes.len() < 3 {
            return Err(());
        }
        let klen: usize = (bytes[0] as usize) * 65536 + (bytes[1] as usize) * 256
            + (bytes[2] as usize);
        let gpos: usize = 3 + klen;
        if bytes.len() < gpos + 1 {
            return Err(());
        }
        let ppos: usize = gpos + 1 + (bytes[gpos] as usize);
        if bytes.len() < ppos + 1 {
            return Err(());
        }
        let plen: usize = bytes[ppos] as usize;
        if bytes.len() != ppos + 1 + plen {
            return Err(());
        }
        Ok(OwnedRecordKey { value: bytes })
    }

    /// The bytes of the record key.
    pub fn get_byte_array(&self) -> (r: &[u8])
        ensures
            r@ == self@,
    {
        self.value.as_slice()
    }

    /// A copy of the record key.
    pub fn copy(&self) -> (r: Self)
        ensures
            r@ == self@,
    {
        proof {
            use_type_invariant(self);
        }
        OwnedRecordKey { value: copy_bytes(self.value.as_slice()) }
    }

    /// The parts of the record key.
    pub fn parse(&self) -> (r: OwnedParsedRecordKey)
        ensures
            r@ == self.parts(),
    {
        proof {
            use_type_invariant(self);
            lemma_encode_parse_record_key(self@);
        }
        let b = self.value.as_slice();
        let klen: usize = (b[0] as usize) * 65536 + (b[1] as usize) * 256 + (b[2] as usize);
        let gpos: usize = 3 + klen;
        let ppos: usize = gpos + 1 + (b[gpos] as usize);
        let plen: usize = b[ppos] as usize;
        let key_bytes = copy_bytes(vstd::slice::slice_subrange(b, 3, gpos));
        let generation_bytes = copy_bytes(vstd::slice::slice_subrange(b, gpos + 1, ppos));
        let collection_key = match OwnedCollectionKey::from_vec(key_bytes) {
            Ok(k) => k,
            Err(_) => {
                proof {
                    assert(false);
                }
                OwnedCollectionKey::empty()
            },
        };
        let generation_id = match OwnedGenerationId::from_vec(generation_bytes) {
            Ok(g) => g,
            Err(_) => {
                proof {
                    assert(false);
                }
                OwnedGenerationId::empty()
            },
        };
        let phantom_id = if plen == 0 {
            None
        } else {
            OwnedPhantomId::new_nonempty(vstd::slice::slice_subrange(b, ppos + 1, b.len()))
        };
        OwnedParsedRecordKey { collection_key, generation_id, phantom_id }
    }
}

} // verus!
