use image_store::{DummyStorage, IdGeneratorStub, Store};

fn create_test_store() -> Store<DummyStorage, IdGeneratorStub> {
    Store::new(DummyStorage::new(), IdGeneratorStub::new())
}

#[test]
fn test_create() {
    let _story = create_test_store();
}

#[test]
fn test_save_raw_image() {
    let data = b"raw";
    let mut store = create_test_store();

    let id = store.save_raw_image(data).unwrap();

    assert_eq!("hash".to_string(), id);
}

#[test]
fn test_save_sidecar() {
    let data = b"sidecar";
    let mut store = create_test_store();

    let id = store.save_sidecar(data).unwrap();

    assert_eq!("hash".to_string(), id);
}

#[test]
fn test_save_image() {
    let data = b"raw";
    let mut store = create_test_store();

    let id = store.save_image(data).unwrap();

    assert_eq!("hash".to_string(), id);
}
