use image_store::{
    hex_encode, Category, DummyStorage, HashIdGenerator, IdGenerator, IdGeneratorStub, Storage,
    StorageError, Store,
};

fn hashing_store() -> Store<DummyStorage, HashIdGenerator> {
    Store::new(DummyStorage::new(), HashIdGenerator::new())
}

#[test]
fn hash_id_is_deterministic() {
    let generator = HashIdGenerator::new();
    let first = generator.get_id(b"payload");
    let second = generator.get_id(b"payload");
    assert_eq!(first, second);
    assert_eq!(first, HashIdGenerator::new().get_id(b"payload"));
}

#[test]
fn hash_id_is_sha256_hex() {
    let generator = HashIdGenerator::new();
    assert_eq!(
        generator.get_id(b"abc"),
        "ba7816bf8f01cfea414140de5dae2223b00361a396177a9cb410ff61f20015ad"
    );
    assert_eq!(
        generator.get_id(b""),
        "e3b0c44298fc1c149afbf4c8996fb92427ae41e4649b934ca495991b7852b855"
    );
}

#[test]
fn hash_id_differs_for_different_bytes() {
    let generator = HashIdGenerator::new();
    assert_ne!(generator.get_id(b"raw"), generator.get_id(b"raw "));
    assert_eq!(generator.get_id(b"raw").len(), 64);
}

#[test]
fn stub_id_ignores_input() {
    let generator = IdGeneratorStub::new();
    assert_eq!(generator.get_id(b""), "hash");
    assert_eq!(generator.get_id(b"anything at all"), "hash");
}

#[test]
fn hex_encode_gives_two_lowercase_digits_per_byte() {
    assert_eq!(hex_encode(&[0x00, 0xff, 0x1a, 0x09, 0xa0]), "00ff1a09a0");
    assert_eq!(hex_encode(b"raw"), "726177");
    assert_eq!(hex_encode(&[]), "");
}

#[test]
fn category_buckets() {
    assert_eq!(Category::RawImage.bucket(), "raw");
    assert_eq!(Category::Sidecar.bucket(), "sidecar");
    assert_eq!(Category::Image.bucket(), "image");
}

#[test]
fn save_twice_gives_same_id_and_payload() {
    let mut store = hashing_store();
    let first = store.save_file(Category::Sidecar, b"meta").unwrap();
    let second = store.save_file(Category::Sidecar, b"meta").unwrap();
    assert_eq!(first, second);
    assert_eq!(store.get_file(Category::Sidecar, &first).unwrap(), b"meta".to_vec());
}

#[test]
fn round_trip_in_every_category() {
    let mut store = hashing_store();
    let raw = store.save_raw_image(b"raw bytes").unwrap();
    let sidecar = store.save_sidecar(b"sidecar bytes").unwrap();
    let image = store.save_image(b"image bytes").unwrap();
    assert_eq!(store.get_raw_image(&raw).unwrap(), b"raw bytes".to_vec());
    assert_eq!(store.get_sidecar(&sidecar).unwrap(), b"sidecar bytes".to_vec());
    assert_eq!(store.get_image(&image).unwrap(), b"image bytes".to_vec());
}

#[test]
fn round_trip_of_empty_payload() {
    let mut store = hashing_store();
    let id = store.save_image(b"").unwrap();
    assert_eq!(store.get_image(&id).unwrap(), Vec::<u8>::new());
}

#[test]
fn categories_are_separate_partitions() {
    let mut store = hashing_store();
    let id = store.save_raw_image(b"raw").unwrap();
    assert_eq!(store.get_sidecar(&id), Err(StorageError::NotFound));
    assert_eq!(store.get_image(&id), Err(StorageError::NotFound));
    assert_eq!(store.get_raw_image(&id).unwrap(), b"raw".to_vec());
}

#[test]
fn same_bytes_in_two_categories_share_the_id() {
    let mut store = hashing_store();
    let raw = store.save_raw_image(b"same").unwrap();
    let image = store.save_image(b"same").unwrap();
    assert_eq!(raw, image);
    assert_eq!(store.get_raw_image(&raw).unwrap(), b"same".to_vec());
    assert_eq!(store.get_image(&image).unwrap(), b"same".to_vec());
}

#[test]
fn stub_routes_every_category_unchanged() {
    let mut store = Store::new(DummyStorage::new(), IdGeneratorStub::new());
    assert_eq!(store.save_raw_image(b"raw").unwrap(), "hash");
    assert_eq!(store.save_sidecar(b"sidecar").unwrap(), "hash");
    assert_eq!(store.save_image(b"raw").unwrap(), "hash");
    assert_eq!(store.get_raw_image(&"hash".to_string()).unwrap(), b"raw".to_vec());
    assert_eq!(store.get_sidecar(&"hash".to_string()).unwrap(), b"sidecar".to_vec());
    assert_eq!(store.get_image(&"hash".to_string()).unwrap(), b"raw".to_vec());
}

#[test]
fn save_then_get_raw_image() {
    let generator = HashIdGenerator::new();
    let mut store = hashing_store();
    let id = store.save_raw_image(b"raw").unwrap();
    assert_eq!(id, generator.get_id(b"raw"));
    let restored = store.get_raw_image(&id).unwrap();
    assert_eq!(restored.len(), 3);
    assert_eq!(restored.as_slice(), b"raw");
}

#[test]
fn get_of_unknown_id_is_not_found() {
    let store = hashing_store();
    assert_eq!(store.get_raw_image(&"never-saved".to_string()), Err(StorageError::NotFound));
}

#[test]
fn dummy_storage_last_write_wins() {
    let mut storage = DummyStorage::new();
    let bucket = "raw".to_string();
    let id = "key".to_string();
    assert_eq!(storage.store(&bucket, &id, b"first"), Ok(()));
    assert_eq!(storage.store(&bucket, &id, b"second"), Ok(()));
    assert_eq!(storage.get(&bucket, &id).unwrap(), b"second".to_vec());
    assert_eq!(storage.get(&"sidecar".to_string(), &id), Err(StorageError::NotFound));
}

#[test]
fn stub_overwrites_under_the_constant_id() {
    let mut store = Store::new(DummyStorage::new(), IdGeneratorStub::new());
    store.save_raw_image(b"one").unwrap();
    store.save_raw_image(b"two").unwrap();
    assert_eq!(store.get_raw_image(&"hash".to_string()).unwrap(), b"two".to_vec());
}
