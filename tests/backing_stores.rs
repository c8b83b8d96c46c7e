use flutter_layer::backing_store::{check_backing_store_abi, BackingStore, BackingStores};
use flutter_layer::error::EmbedderError;

fn store(base: u32) -> BackingStore {
    BackingStore { framebuffer: base, texture: base + 1, renderbuffer: base + 2 }
}

#[test]
fn create_then_collect_leaves_nothing_registered() {
    let mut stores = BackingStores::new();
    let token = stores.register(store(10)).unwrap();
    assert_eq!(stores.get(token), Some(store(10)));
    assert_eq!(stores.collect(token), Ok(store(10)));
    assert_eq!(stores.get(token), None);
    assert_eq!(stores.collect(token), Err(EmbedderError::UnknownBackingStore));
}

#[test]
fn tokens_are_distinct_and_nonzero() {
    let mut stores = BackingStores::new();
    let a = stores.register(store(1)).unwrap();
    let b = stores.register(store(4)).unwrap();
    assert_eq!(a, 1);
    assert_eq!(b, 2);
    assert_eq!(stores.collect(a), Ok(store(1)));
    let c = stores.register(store(7)).unwrap();
    assert_eq!(c, 3);
    assert_eq!(stores.get(b), Some(store(4)));
    assert_eq!(stores.get(c), Some(store(7)));
    assert_eq!(stores.get(0), None);
}

#[test]
fn unknown_token_is_refused() {
    let mut stores = BackingStores::new();
    assert_eq!(stores.collect(5), Err(EmbedderError::UnknownBackingStore));
    let t = stores.register(store(1)).unwrap();
    assert_eq!(stores.collect(t + 1), Err(EmbedderError::UnknownBackingStore));
    assert_eq!(stores.get(t), Some(store(1)));
}

#[test]
fn short_backing_store_struct_is_rejected() {
    assert_eq!(check_backing_store_abi(31, 32), Err(EmbedderError::InvalidBackingStoreAbi));
    assert_eq!(check_backing_store_abi(0, 1), Err(EmbedderError::InvalidBackingStoreAbi));
    assert_eq!(check_backing_store_abi(32, 32), Ok(()));
    assert_eq!(check_backing_store_abi(48, 32), Ok(()));
}
