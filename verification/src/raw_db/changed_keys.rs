//! The keys changed between two generations, gathered from the index of
//! generations and handed out in key order.
use vstd::prelude::*;

use crate::bytes::{lemma_lex_lt_total, lemma_lex_lt_transitive, lex_lt};
use crate::common::{generation_le_opt_or, OwnedCollectionKey, OwnedGenerationId};

verus! {

/// Keys in strictly increasing order (so each at most once).
pub open spec fn strictly_sorted(keys: Seq<Seq<u8>>) -> bool {
    forall|i: int, j: int| 0 <= i < j < keys.len() ==> lex_lt(#[trigger] keys[i], #[trigger] keys[j])
}

/// The values of a list of keys.
pub open spec fn key_views(keys: Seq<OwnedCollectionKey>) -> Seq<Seq<u8>> {
    keys.map_values(|k: OwnedCollectionKey| k@)
}

/// A set of collection keys, kept in key order.
pub struct ChangedKeySet {
    keys: Vec<OwnedCollectionKey>,
}

impl View for ChangedKeySet {
    type V = Seq<Seq<u8>>;

    closed spec fn view(&self) -> Seq<Seq<u8>> {
        key_views(self.keys@)
    }
}

impl ChangedKeySet {
    /// The keys are in strictly increasing order.
    #[verifier::type_invariant]
    pub open spec fn inv(self) -> bool {
        strictly_sorted(self@)
    }

    /// The empty set.
    pub fn new() -> (r: Self)
        ensures
            r@ == Seq::<Seq<u8>>::empty(),
    {
        ChangedKeySet { keys: Vec::new() }
    }

    /// The number of keys.
    pub fn len(&self) -> (r: usize)
        ensures
            r == self@.len(),
    {
        self.keys.len()
    }

    /// Adds `key`, keeping the order; nothing changes when it is there.
    pub fn insert(&mut self, key: OwnedCollectionKey)
        ensures
            strictly_sorted(final(self)@),
            final(self)@.to_set() == old(self)@.to_set().insert(key@),
    {
        proof {
            use_type_invariant(&*self);
        }
        let ghost old_keys = self@;
        let mut i: usize = 0;
        while i < self.keys.len() && self.keys[i].less_than(&key)
            invariant
                0 <= i <= self.keys@.len(),
                self@ == old_keys,
                strictly_sorted(old_keys),
                forall|j: int| 0 <= j < i ==> lex_lt(#[trigger] old_keys[j], key@),
            decreases self.keys@.len() - i,
        {
            assert(self@[i as int] == self.keys@[i as int]@);
            i = i + 1;
        }
        assert(i < old_keys.len() ==> old_keys[i as int] == self.keys@[i as int]@);
        if i < self.keys.len() && self.keys[i].same_as(&key) {
            assert(old_keys[i as int] == key@);
            assert(old_keys.to_set().insert(key@) =~= old_keys.to_set());
            return;
        }
        proof {
            if i < old_keys.len() {
                lemma_lex_lt_total(old_keys[i as int], key@);
                assert(lex_lt(key@, old_keys[i as int]));
            }
        }
        let ghost inserted = old_keys.insert(i as int, key@);
        let mut keys: Vec<OwnedCollectionKey> = Vec::new();
        std::mem::swap(&mut keys, &mut self.keys);
        keys.insert(i, key);
        assert(key_views(keys@) =~= inserted);
        proof {
            assert forall|a: int, b: int| 0 <= a < b < inserted.len() implies lex_lt(
                #[trigger] inserted[a],
                #[trigger] inserted[b],
            ) by {
                if a < i && b == i {
                } else if a < i && b > i {
                    assert(inserted[b] == old_keys[b - 1]);
                    if b - 1 > a {
                        assert(lex_lt(old_keys[a], old_keys[b - 1]));
                    }
                } else if a == i {
                    assert(inserted[b] == old_keys[b - 1]);
                    if b - 1 > i {
                        lemma_lex_lt_transitive(key@, old_keys[i as int], old_keys[b - 1]);
                    }
                } else if b < i {
                    assert(inserted[a] == old_keys[a]);
                    assert(inserted[b] == old_keys[b]);
                } else {
                    assert(inserted[a] == old_keys[a - 1]);
                    assert(inserted[b] == old_keys[b - 1]);
                }
            }
            assert(inserted.to_set() =~= old_keys.to_set().insert(key@)) by {
                assert forall|x: Seq<u8>| inserted.to_set().contains(x) implies old_keys.to_set().insert(
                    key@,
                ).contains(x) by {
                    let j = choose|j: int| 0 <= j < inserted.len() && inserted[j] == x;
                    if j < i {
                        assert(old_keys[j] == x);
                    } else if j > i {
                        assert(old_keys[j - 1] == x);
                    }
                }
                assert forall|x: Seq<u8>| old_keys.to_set().insert(key@).contains(x) implies inserted.to_set().contains(x) by {
                    if x == key@ {
                        assert(inserted[i as int] == x);
                    } else {
                        let j = choose|j: int| 0 <= j < old_keys.len() && old_keys[j] == x;
                        if j < i {
                            assert(inserted[j] == x);
                        } else {
                            assert(inserted[j + 1] == x);
                        }
                    }
                }
            }
        }
        self.keys = keys;
    }
}

/// What the index of generations says: a key changed in a generation.
pub struct GenerationKeyEntry {
    pub generation_id: OwnedGenerationId,
    pub collection_key: OwnedCollectionKey,
}

/// An index entry as values: (generation, key).
pub open spec fn entry_views(entries: Seq<GenerationKeyEntry>) -> Seq<(Seq<u8>, Seq<u8>)> {
    entries.map_values(|e: GenerationKeyEntry| (e.generation_id@, e.collection_key@))
}

/// The keys changed after `from` (when given) up to `to`, among index
/// entries read in order: entries whose key sorts before `filter` are
/// skipped, and so are entries in or before `from`; the first remaining
/// entry after `to` ends the reading.
pub open spec fn changed_keys_of(
    entries: Seq<(Seq<u8>, Seq<u8>)>,
    from: Option<Seq<u8>>,
    to: Seq<u8>,
    filter: Option<Seq<u8>>,
) -> Set<Seq<u8>>
    decreases entries.len(),
{
    if entries.len() == 0 {
        Set::empty()
    } else {
        let g = entries[0].0;
        let k = entries[0].1;
        let rest = changed_keys_of(entries.drop_first(), from, to, filter);
        if filter matches Some(f) && lex_lt(k, f) {
            rest
        } else if generation_le_opt_or(g, from, false) {
            rest
        } else if lex_lt(to, g) {
            Set::empty()
        } else {
            rest.insert(k)
        }
    }
}

/// The value of an optional generation id.
pub open spec fn opt_generation_view(g: Option<&OwnedGenerationId>) -> Option<Seq<u8>> {
    match g {
        Some(g) => Some(g@),
        None => None,
    }
}

/// The value of an optional key.
pub open spec fn opt_collection_key_view(k: Option<&OwnedCollectionKey>) -> Option<Seq<u8>> {
    match k {
        Some(k) => Some(k@),
        None => None,
    }
}

proof fn lemma_changed_keys_skip(
    entries: Seq<(Seq<u8>, Seq<u8>)>,
    i: int,
    from: Option<Seq<u8>>,
    to: Seq<u8>,
    filter: Option<Seq<u8>>,
)
    requires
        0 <= i < entries.len(),
    ensures
        changed_keys_of(entries.skip(i), from, to, filter) == ({
            let g = entries[i].0;
            let k = entries[i].1;
            let rest = changed_keys_of(entries.skip(i + 1), from, to, filter);
            if filter matches Some(f) && lex_lt(k, f) {
                rest
            } else if generation_le_opt_or(g, from, false) {
                rest
            } else if lex_lt(to, g) {
                Set::empty()
            } else {
                rest.insert(k)
            }
        }),
{
    assert(entries.skip(i).drop_first() =~= entries.skip(i + 1));
    assert(entries.skip(i)[0] == entries[i]);
}

/// The keys changed after `from` up to `to` (see `changed_keys_of`), in key
/// order.
pub fn collect_changed_keys(
    entries: &Vec<GenerationKeyEntry>,
    from_generation_id: Option<&OwnedGenerationId>,
    to_generation_id: &OwnedGenerationId,
    filter_keys_less_than: Option<&OwnedCollectionKey>,
) -> (r: ChangedKeySet)
    ensures
        strictly_sorted(r@),
        r@.to_set() == changed_keys_of(
            entry_views(entries@),
            opt_generation_view(from_generation_id),
            to_generation_id@,
            opt_collection_key_view(filter_keys_less_than),
        ),
{
    let ghost es = entry_views(entries@);
    let ghost from = opt_generation_view(from_generation_id);
    let ghost filter = opt_collection_key_view(filter_keys_less_than);
    let mut keys = ChangedKeySet::new();
    let mut i: usize = 0;
    assert(es.skip(0) =~= es);
    while i < entries.len()
        invariant
            0 <= i <= entries@.len(),
            es == entry_views(entries@),
            from == opt_generation_view(from_generation_id),
            filter == opt_collection_key_view(filter_keys_less_than),
            strictly_sorted(keys@),
            changed_keys_of(es, from, to_generation_id@, filter) == keys@.to_set().union(
                changed_keys_of(es.skip(i as int), from, to_generation_id@, filter),
            ),
        decreases entries@.len() - i,
    {
        proof {
            use_type_invariant(&keys);
            lemma_changed_keys_skip(es, i as int, from, to_generation_id@, filter);
        }
        let entry = &entries[i];
        assert(es[i as int] == (entry.generation_id@, entry.collection_key@));
        let skip_by_filter = match filter_keys_less_than {
            Some(f) => entry.collection_key.less_than(f),
            None => false,
        };
        if skip_by_filter {
            i = i + 1;
            continue;
        }
        if entry.generation_id.less_or_equal_with_opt_or(from_generation_id, false) {
            i = i + 1;
            continue;
        }
        if to_generation_id.less_than(&entry.generation_id) {
            assert(keys@.to_set().union(Set::empty()) =~= keys@.to_set());
            return keys;
        }
        let ghost before = keys@.to_set();
        keys.insert(entry.collection_key.copy());
        assert(keys@.to_set().union(changed_keys_of(es.skip(i + 1), from, to_generation_id@, filter))
            =~= before.union(changed_keys_of(es.skip(i as int), from, to_generation_id@, filter)));
        i = i + 1;
    }
    proof {
        if i == entries.len() {
            assert(es.skip(i as int).len() == 0);
            assert(keys@.to_set().union(Set::empty()) =~= keys@.to_set());
        }
    }
    keys
}

/// Hands out the keys of a set in key order.
pub struct InMemoryChangedKeysIter {
    keys: Vec<OwnedCollectionKey>,
    index: usize,
}

impl View for InMemoryChangedKeysIter {
    type V = Seq<Seq<u8>>;

    /// The keys not handed out yet, in order.
    closed spec fn view(&self) -> Seq<Seq<u8>> {
        key_views(self.keys@).skip(self.index as int)
    }
}

impl InMemoryChangedKeysIter {
    #[verifier::type_invariant]
    spec fn inv(self) -> bool {
        self.index <= self.keys@.len()
    }

    /// Hands out the keys of `changed_keys`, smallest first.
    pub fn new(changed_keys: ChangedKeySet) -> (r: Self)
        ensures
            r@ == changed_keys@,
    {
        let keys = changed_keys.keys;
        let r = InMemoryChangedKeysIter { keys, index: 0 };
        assert(key_views(r.keys@).skip(0) =~= key_views(r.keys@));
        r
    }

    /// The next key, `None` when all were handed out.
    pub fn next(&mut self) -> (r: Option<OwnedCollectionKey>)
        ensures
            old(self)@.len() == 0 ==> r is None && final(self)@ == old(self)@,
            old(self)@.len() > 0 ==> (r matches Some(k) && k@ == old(self)@[0] && final(self)@
                == old(self)@.drop_first()),
    {
        proof {
            use_type_invariant(&*self);
        }
        if self.index >= self.keys.len() {
            return None;
        }
        let key = self.keys[self.index].copy();
        let ghost before = self@;
        assert(before[0] == self.keys@[self.index as int]@);
        self.index = self.index + 1;
        assert(self@ =~= before.drop_first());
        Some(key)
    }
}

} // verus!
