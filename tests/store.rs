use key_enroller::error::BootError;
use key_enroller::store::MemoryVariableStore;
use key_enroller::variables::{VendorScope, AUTHENTICATED_WRITE_ATTRIBUTES};

#[test]
fn write_then_read_returns_written_bytes() {
    let mut store = MemoryVariableStore::new();
    store.write("PK", VendorScope::GlobalVariable, AUTHENTICATED_WRITE_ATTRIBUTES, &[1, 2, 3]);
    assert_eq!(store.read("PK", VendorScope::GlobalVariable), Ok(vec![1, 2, 3]));
}

#[test]
fn read_of_missing_variable_is_not_found() {
    let store = MemoryVariableStore::new();
    assert_eq!(store.read("BootOrder", VendorScope::GlobalVariable), Err(BootError::NotFound));
}

#[test]
fn namespaces_are_separate() {
    let mut store = MemoryVariableStore::new();
    store.write("db", VendorScope::ImageSecurityDatabase, 0x27, &[5]);
    assert_eq!(store.read("db", VendorScope::GlobalVariable), Err(BootError::NotFound));
    assert_eq!(store.read("db", VendorScope::ImageSecurityDatabase), Ok(vec![5]));
}

#[test]
fn later_write_replaces_earlier() {
    let mut store = MemoryVariableStore::new();
    store.write("KEK", VendorScope::GlobalVariable, 0x27, &[1]);
    store.write("PK", VendorScope::GlobalVariable, 0x27, &[2]);
    store.write("KEK", VendorScope::GlobalVariable, 0x27, &[3, 4]);
    assert_eq!(store.read("KEK", VendorScope::GlobalVariable), Ok(vec![3, 4]));
    assert_eq!(store.read("PK", VendorScope::GlobalVariable), Ok(vec![2]));
}
