use vstd::prelude::*;
use vstd::slice::slice_to_vec;

use crate::error::StorageError;

verus! {

/// Persistence of byte payloads under a (partition, identifier) key.
///
/// The abstract state of a storage is the map `objects` from keys to payloads.
/// Writes are last-write-wins. A failed operation leaves the objects as they were.
pub trait Storage {
    /// The payloads held, keyed by partition name and identifier.
    spec fn objects(&self) -> Map<(Seq<char>, Seq<char>), Seq<u8>>;

    /// Whether no operation of this storage can fail for want of a backend:
    /// writes then always succeed, and reads fail only on a missing key.
    spec fn infallible(&self) -> bool;

    /// Stores `data` under `(bucket, id)`, replacing what was there.
    fn store(&mut self, bucket: &String, id: &String, data: &[u8]) -> (r: Result<(), StorageError>)
        ensures
            r is Ok ==> final(self).objects() == old(self).objects().insert((bucket@, id@), data@),
            r is Err ==> final(self).objects() == old(self).objects(),
            final(self).infallible() == old(self).infallible(),
            old(self).infallible() ==> r is Ok,
    ;

    /// Reads the payload stored under `(bucket, id)`.
    fn get(&self, bucket: &String, id: &String) -> (r: Result<Vec<u8>, StorageError>)
        ensures
            r matches Ok(v) ==> self.objects().contains_key((bucket@, id@))
                && v@ == self.objects()[(bucket@, id@)],
            r == Err::<Vec<u8>, StorageError>(StorageError::NotFound) ==> !self.objects().contains_key((bucket@, id@)),
            self.infallible() ==> (r is Ok <==> self.objects().contains_key((bucket@, id@))),
            self.infallible() && r is Err ==> r == Err::<Vec<u8>, StorageError>(StorageError::NotFound),
    ;
}

/// One stored payload with its key.
struct StoredObject {
    bucket: String,
    id: String,
    data: Vec<u8>,
}

spec fn key_of(e: StoredObject) -> (Seq<char>, Seq<char>) {
    (e.bucket@, e.id@)
}

/// The payloads of a list of entries, later entries taking precedence.
spec fn objects_of(entries: Seq<StoredObject>) -> Map<(Seq<char>, Seq<char>), Seq<u8>>
    decreases entries.len(),
{
    if entries.len() == 0 {
        Map::empty()
    } else {
        objects_of(entries.drop_last()).insert(key_of(entries.last()), entries.last().data@)
    }
}

/// No two entries share a key.
spec fn keys_unique(entries: Seq<StoredObject>) -> bool {
    forall|i: int, j: int|
        0 <= i < j < entries.len() ==> key_of(#[trigger] entries[i]) != key_of(#[trigger] entries[j])
}

proof fn lemma_absent(entries: Seq<StoredObject>, k: (Seq<char>, Seq<char>))
    requires
        forall|i: int| 0 <= i < entries.len() ==> key_of(#[trigger] entries[i]) != k,
    ensures
        !objects_of(entries).contains_key(k),
    decreases entries.len(),
{
    if entries.len() > 0 {
        let rest = entries.drop_last();
        assert forall|i: int| 0 <= i < rest.len() implies key_of(#[trigger] rest[i]) != k by {
            assert(rest[i] == entries[i]);
        }
        lemma_absent(rest, k);
        assert(key_of(entries[entries.len() - 1]) != k);
    }
}

proof fn lemma_lookup(entries: Seq<StoredObject>, i: int)
    requires
        keys_unique(entries),
        0 <= i < entries.len(),
    ensures
        objects_of(entries).contains_key(key_of(entries[i])),
        objects_of(entries)[key_of(entries[i])] == entries[i].data@,
    decreases entries.len(),
{
    if i < entries.len() - 1 {
        let rest = entries.drop_last();
        assert(rest[i] == entries[i]);
        assert(keys_unique(rest)) by {
            assert forall|a: int, b: int| 0 <= a < b < rest.len() implies key_of(#[trigger] rest[a])
                != key_of(#[trigger] rest[b]) by {
                assert(rest[a] == entries[a] && rest[b] == entries[b]);
            }
        }
        lemma_lookup(rest, i);
        assert(key_of(entries[i]) != key_of(entries[entries.len() - 1]));
    }
}

proof fn lemma_update(entries: Seq<StoredObject>, i: int, e: StoredObject)
    requires
        keys_unique(entries),
        0 <= i < entries.len(),
        key_of(e) == key_of(entries[i]),
    ensures
        keys_unique(entries.update(i, e)),
        objects_of(entries.update(i, e)) == objects_of(entries).insert(key_of(e), e.data@),
    decreases entries.len(),
{
    let updated = entries.update(i, e);
    assert(keys_unique(updated)) by {
        assert forall|a: int, b: int| 0 <= a < b < updated.len() implies key_of(#[trigger] updated[a])
            != key_of(#[trigger] updated[b]) by {
            assert(key_of(updated[a]) == key_of(entries[a]));
            assert(key_of(updated[b]) == key_of(entries[b]));
        }
    }
    let rest = entries.drop_last();
    if i == entries.len() - 1 {
        assert(updated.drop_last() =~= rest);
        assert(objects_of(updated) =~= objects_of(entries).insert(key_of(e), e.data@));
    } else {
        assert(keys_unique(rest)) by {
            assert forall|a: int, b: int| 0 <= a < b < rest.len() implies key_of(#[trigger] rest[a])
                != key_of(#[trigger] rest[b]) by {
                assert(rest[a] == entries[a] && rest[b] == entries[b]);
            }
        }
        lemma_update(rest, i, e);
        assert(updated.drop_last() =~= rest.update(i, e));
        assert(key_of(entries[i]) != key_of(entries[entries.len() - 1]));
        assert(objects_of(updated) =~= objects_of(entries).insert(key_of(e), e.data@));
    }
}

/// The position of the entry stored under `(bucket, id)`, if any.
fn find(entries: &Vec<StoredObject>, bucket: &String, id: &String) -> (r: Option<usize>)
    ensures
        r matches Some(i) ==> i < entries@.len() && key_of(entries@[i as int]) == (bucket@, id@),
        r is None ==> forall|i: int| 0 <= i < entries@.len()
            ==> key_of(#[trigger] entries@[i]) != (bucket@, id@),
{
    let mut i: usize = 0;
    while i < entries.len()
        invariant
            i <= entries@.len(),
            forall|j: int| 0 <= j < i ==> key_of(#[trigger] entries@[j]) != (bucket@, id@),
        decreases entries@.len() - i,
    {
        if entries[i].bucket == *bucket && entries[i].id == *id {
            return Some(i);
        }
        i = i + 1;
    }
    None
}

/// Puts `entry` in place of the entry with the same key, or appends it.
fn put(entries: &mut Vec<StoredObject>, entry: StoredObject)
    requires
        keys_unique(old(entries)@),
    ensures
        keys_unique(final(entries)@),
        objects_of(final(entries)@) == objects_of(old(entries)@).insert(key_of(entry), entry.data@),
{
    match find(entries, &entry.bucket, &entry.id) {
        Some(i) => {
            proof {
                lemma_update(entries@, i as int, entry);
            }
            entries.set(i, entry);
        },
        None => {
            let ghost before = entries@;
            entries.push(entry);
            assert(entries@.drop_last() == before);
            assert forall|a: int, b: int| 0 <= a < b < entries@.len() implies key_of(
                #[trigger] entries@[a],
            ) != key_of(#[trigger] entries@[b]) by {
                assert(entries@[a] == before[a]);
                if b < before.len() {
                    assert(entries@[b] == before[b]);
                }
            }
        },
    }
}

/// An in-memory storage, for tests and for running without a backend.
pub struct DummyStorage {
    entries: Vec<StoredObject>,
}

impl DummyStorage {
    /// No two entries share a key.
    #[verifier::type_invariant]
    spec fn wf(self) -> bool {
        keys_unique(self.entries@)
    }

    /// An empty storage.
    pub fn new() -> (r: DummyStorage)
        ensures
            r.objects() == Map::<(Seq<char>, Seq<char>), Seq<u8>>::empty(),
    {
        let r = DummyStorage { entries: Vec::new() };
        assert(objects_of(r.entries@) == Map::<(Seq<char>, Seq<char>), Seq<u8>>::empty());
        r
    }
}

impl Storage for DummyStorage {
    closed spec fn objects(&self) -> Map<(Seq<char>, Seq<char>), Seq<u8>> {
        objects_of(self.entries@)
    }

    open spec fn infallible(&self) -> bool {
        true
    }

    fn store(&mut self, bucket: &String, id: &String, data: &[u8]) -> (r: Result<(), StorageError>) {
        proof {
            use_type_invariant(&*self);
        }
        let entry = StoredObject { bucket: bucket.clone(), id: id.clone(), data: slice_to_vec(data) };
        let mut entries = Vec::new();
        std::mem::swap(&mut entries, &mut self.entries);
        put(&mut entries, entry);
        self.entries = entries;
        Ok(())
    }

    fn get(&self, bucket: &String, id: &String) -> (r: Result<Vec<u8>, StorageError>) {
        proof {
            use_type_invariant(self);
        }
        match find(&self.entries, bucket, id) {
            Some(i) => {
                proof {
                    lemma_lookup(self.entries@, i as int);
                }
                Ok(slice_to_vec(self.entries[i].data.as_slice()))
            },
            None => {
                proof {
                    lemma_absent(self.entries@, (bucket@, id@));
                }
                Err(StorageError::NotFound)
            },
        }
    }
}

} // verus!
