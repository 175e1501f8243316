use vstd::prelude::*;

use crate::category::Category;
use crate::error::StorageError;
use crate::id_gen::IdGenerator;
use crate::storage::Storage;

verus! {

/// The facade: saves payloads under the identifier that the generator derives
/// from their bytes, in the partition of their category, and reads them back.
pub struct Store<S: Storage, I: IdGenerator> {
    storage: S,
    id_gen: I,
}

impl<S: Storage, I: IdGenerator> Store<S, I> {
    /// The storage backend.
    pub closed spec fn storage(&self) -> S {
        self.storage
    }

    /// The identifier generator.
    pub closed spec fn generator(&self) -> I {
        self.id_gen
    }

    /// The payloads held, keyed by partition name and identifier.
    pub open spec fn objects(&self) -> Map<(Seq<char>, Seq<char>), Seq<u8>> {
        self.storage().objects()
    }

    /// The identifier that saving `data` gives.
    pub open spec fn id_of(&self, data: Seq<u8>) -> Seq<char> {
        self.generator().id_of(data)
    }

    /// The key under which saving `data` in `category` stores it.
    pub open spec fn key_for(&self, category: Category, data: Seq<u8>) -> (Seq<char>, Seq<char>) {
        (category.bucket_spec(), self.id_of(data))
    }

    /// The payloads held once `data` has been saved in `category`.
    pub open spec fn objects_after_save(&self, category: Category, data: Seq<u8>) -> Map<
        (Seq<char>, Seq<char>),
        Seq<u8>,
    > {
        self.objects().insert(self.key_for(category, data), data)
    }

    /// A store over the given backend and generator.
    pub fn new(storage: S, id_gen: I) -> (r: Self)
        ensures
            r.storage() == storage,
            r.generator() == id_gen,
    {
        Store { storage, id_gen }
    }

    /// Saves `data` in the partition of `category` under the identifier derived
    /// from its bytes, and returns that identifier.
    ///
    /// On success the payload is stored under that identifier, replacing what
    /// was there. On failure the backend's error is returned and the payloads
    /// are as they were.
    pub fn save_file(&mut self, category: Category, data: &[u8]) -> (r: Result<String, StorageError>)
        ensures
            final(self).generator() == old(self).generator(),
            r matches Ok(id) ==> id@ == old(self).id_of(data@) && final(self).objects()
                == old(self).objects_after_save(category, data@),
            r is Err ==> final(self).objects() == old(self).objects(),
            final(self).storage().infallible() == old(self).storage().infallible(),
            old(self).storage().infallible() ==> r is Ok,
    {
        let id = self.id_gen.get_id(data);
        let bucket = category.bucket();
        match self.storage.store(&bucket, &id, data) {
            Ok(()) => Ok(id),
            Err(e) => Err(e),
        }
    }

    /// Reads the payload stored in the partition of `category` under `id`.
    ///
    /// A payload that is returned is the one stored under that key; `NotFound`
    /// is returned only when nothing is stored there.
    pub fn get_file(&self, category: Category, id: &String) -> (r: Result<Vec<u8>, StorageError>)
        ensures
            r matches Ok(v) ==> self.objects().contains_key((category.bucket_spec(), id@))
                && v@ == self.objects()[(category.bucket_spec(), id@)],
            r == Err::<Vec<u8>, StorageError>(StorageError::NotFound) ==> !self.objects().contains_key(
                (category.bucket_spec(), id@),
            ),
            self.storage().infallible() ==> (r is Ok <==> self.objects().contains_key(
                (category.bucket_spec(), id@),
            )),
            self.storage().infallible() && r is Err ==> r == Err::<Vec<u8>, StorageError>(
                StorageError::NotFound,
            ),
    {
        let bucket = category.bucket();
        self.storage.get(&bucket, id)
    }
    /// Saves a raw image in the `raw` partition and returns its identifier.
    pub fn save_raw_image(&mut self, data: &[u8]) -> (r: Result<String, StorageError>)
        ensures
            final(self).generator() == old(self).generator(),
            r matches Ok(id) ==> id@ == old(self).id_of(data@) && final(self).objects()
                == old(self).objects_after_save(Category::RawImage, data@),
            r is Err ==> final(self).objects() == old(self).objects(),
            final(self).storage().infallible() == old(self).storage().infallible(),
            old(self).storage().infallible() ==> r is Ok,
    {
        self.save_file(Category::RawImage, data)
    }

    /// Reads the raw image stored under `id`.
    pub fn get_raw_image(&self, id: &String) -> (r: Result<Vec<u8>, StorageError>)
        ensures
            r matches Ok(v) ==> self.objects().contains_key((Category::RawImage.bucket_spec(), id@))
                && v@ == self.objects()[(Category::RawImage.bucket_spec(), id@)],
            r == Err::<Vec<u8>, StorageError>(StorageError::NotFound) ==> !self.objects().contains_key(
                (Category::RawImage.bucket_spec(), id@),
            ),
            self.storage().infallible() ==> (r is Ok <==> self.objects().contains_key(
                (Category::RawImage.bucket_spec(), id@),
            )),
            self.storage().infallible() && r is Err ==> r == Err::<Vec<u8>, StorageError>(
                StorageError::NotFound,
            ),
    {
        self.get_file(Category::RawImage, id)
    }

    /// Saves a sidecar in the `sidecar` partition and returns its identifier.
    pub fn save_sidecar(&mut self, data: &[u8]) -> (r: Result<String, StorageError>)
        ensures
            final(self).generator() == old(self).generator(),
            r matches Ok(id) ==> id@ == old(self).id_of(data@) && final(self).objects()
                == old(self).objects_after_save(Category::Sidecar, data@),
            r is Err ==> final(self).objects() == old(self).objects(),
            final(self).storage().infallible() == old(self).storage().infallible(),
            old(self).storage().infallible() ==> r is Ok,
    {
        self.save_file(Category::Sidecar, data)
    }

    /// Reads the sidecar stored under `id`.
    pub fn get_sidecar(&self, id: &String) -> (r: Result<Vec<u8>, StorageError>)
        ensures
            r matches Ok(v) ==> self.objects().contains_key((Category::Sidecar.bucket_spec(), id@))
                && v@ == self.objects()[(Category::Sidecar.bucket_spec(), id@)],
            r == Err::<Vec<u8>, StorageError>(StorageError::NotFound) ==> !self.objects().contains_key(
                (Category::Sidecar.bucket_spec(), id@),
            ),
            self.storage().infallible() ==> (r is Ok <==> self.objects().contains_key(
                (Category::Sidecar.bucket_spec(), id@),
            )),
            self.storage().infallible() && r is Err ==> r == Err::<Vec<u8>, StorageError>(
                StorageError::NotFound,
            ),
    {
        self.get_file(Category::Sidecar, id)
    }

    /// Saves a processed image in the `image` partition and returns its identifier.
    pub fn save_image(&mut self, data: &[u8]) -> (r: Result<String, StorageError>)
        ensures
            final(self).generator() == old(self).generator(),
            r matches Ok(id) ==> id@ == old(self).id_of(data@) && final(self).objects()
                == old(self).objects_after_save(Category::Image, data@),
            r is Err ==> final(self).objects() == old(self).objects(),
            final(self).storage().infallible() == old(self).storage().infallible(),
            old(self).storage().infallible() ==> r is Ok,
    {
        self.save_file(Category::Image, data)
    }

    /// Reads the processed image stored under `id`.
    pub fn get_image(&self, id: &String) -> (r: Result<Vec<u8>, StorageError>)
        ensures
            r matches Ok(v) ==> self.objects().contains_key((Category::Image.bucket_spec(), id@))
                && v@ == self.objects()[(Category::Image.bucket_spec(), id@)],
            r == Err::<Vec<u8>, StorageError>(StorageError::NotFound) ==> !self.objects().contains_key(
                (Category::Image.bucket_spec(), id@),
            ),
            self.storage().infallible() ==> (r is Ok <==> self.objects().contains_key(
                (Category::Image.bucket_spec(), id@),
            )),
            self.storage().infallible() && r is Err ==> r == Err::<Vec<u8>, StorageError>(
                StorageError::NotFound,
            ),
    {
        self.get_file(Category::Image, id)
    }
}

/// Saving a payload again, in the state that saving it once left, gives the same
/// identifier and changes nothing; the payload stays stored under that identifier.
pub proof fn lemma_save_idempotent<S: Storage, I: IdGenerator>(
    before: Store<S, I>,
    after: Store<S, I>,
    category: Category,
    data: Seq<u8>,
)
    requires
        after.generator() == before.generator(),
        after.objects() == before.objects_after_save(category, data),
    ensures
        after.id_of(data) == before.id_of(data),
        after.objects_after_save(category, data) == after.objects(),
        after.objects().contains_key(before.key_for(category, data)),
        after.objects()[before.key_for(category, data)] == data,
{
    assert(after.objects_after_save(category, data) =~= after.objects());
}

/// Once a payload is saved, reading it back in the same category under the
/// identifier that the save returned finds exactly that payload.
pub proof fn lemma_round_trip<S: Storage, I: IdGenerator>(
    before: Store<S, I>,
    after: Store<S, I>,
    category: Category,
    data: Seq<u8>,
    id: Seq<char>,
)
    requires
        id == before.id_of(data),
        after.objects() == before.objects_after_save(category, data),
    ensures
        after.objects().contains_key((category.bucket_spec(), id)),
        after.objects()[(category.bucket_spec(), id)] == data,
{
}

/// Saving in one category leaves the partition of every other category as it was.
pub proof fn lemma_categories_isolated<S: Storage, I: IdGenerator>(
    before: Store<S, I>,
    category: Category,
    other: Category,
    data: Seq<u8>,
    id: Seq<char>,
)
    requires
        category != other,
    ensures
        before.objects_after_save(category, data).contains_key((other.bucket_spec(), id))
            == before.objects().contains_key((other.bucket_spec(), id)),
        before.objects_after_save(category, data)[(other.bucket_spec(), id)]
            == before.objects()[(other.bucket_spec(), id)],
{
    category.lemma_bucket_injective(other);
}

} // verus!
