use key_enroller::enroll::{EnrollAction, EnrollError, EnrollStage, KeyEnroller};
use key_enroller::error::BootError;
use key_enroller::store::MemoryVariableStore;
use key_enroller::urls::{boot_image_url, key_url};
use key_enroller::variables::{SecureKey, VendorScope, AUTHENTICATED_WRITE_ATTRIBUTES};

/// Runs enrollment against `store`, answering each payload request from `payloads`,
/// and records the keys asked for and the keys written, in order.
fn run(
    store: &mut MemoryVariableStore,
    payloads: &dyn Fn(SecureKey) -> Result<Vec<u8>, BootError>,
) -> (Result<(), EnrollError>, Vec<SecureKey>, Vec<String>) {
    let (mut machine, mut action) = KeyEnroller::start();
    let mut asked = Vec::new();
    let mut written = Vec::new();
    loop {
        action = match action {
            EnrollAction::Obtain(key) => {
                asked.push(key);
                machine.on_payload(payloads(key))
            }
            EnrollAction::Write(w) => {
                assert_eq!(w.attributes, AUTHENTICATED_WRITE_ATTRIBUTES);
                written.push(w.name.clone());
                store.apply(w);
                machine.on_written(Ok(()))
            }
            EnrollAction::Finished(r) => return (r, asked, written),
        };
    }
}

fn assert_nothing_written(store: &MemoryVariableStore) {
    assert_eq!(store.read("PK", VendorScope::GlobalVariable), Err(BootError::NotFound));
    assert_eq!(store.read("KEK", VendorScope::GlobalVariable), Err(BootError::NotFound));
    assert_eq!(store.read("db", VendorScope::ImageSecurityDatabase), Err(BootError::NotFound));
}

#[test]
fn kek_download_failure_stops_before_db() {
    let mut store = MemoryVariableStore::new();
    let (r, asked, written) = run(&mut store, &|k| match k {
        SecureKey::Pk => Ok(vec![1, 1]),
        SecureKey::Kek => Err(BootError::NotFound),
        SecureKey::Db => Ok(vec![3]),
    });
    assert_eq!(r, Err(EnrollError { key: SecureKey::Kek, cause: BootError::NotFound }));
    assert_eq!(asked, vec![SecureKey::Pk, SecureKey::Kek]);
    assert!(written.is_empty());
    assert_nothing_written(&store);
}

#[test]
fn pk_download_failure_writes_nothing() {
    let mut store = MemoryVariableStore::new();
    let (r, asked, written) = run(&mut store, &|_| Err(BootError::Service(5)));
    assert_eq!(r, Err(EnrollError { key: SecureKey::Pk, cause: BootError::Service(5) }));
    assert_eq!(asked, vec![SecureKey::Pk]);
    assert!(written.is_empty());
    assert_nothing_written(&store);
}

#[test]
fn db_download_failure_writes_nothing() {
    let mut store = MemoryVariableStore::new();
    let (r, asked, written) = run(&mut store, &|k| match k {
        SecureKey::Db => Err(BootError::NoResponse),
        _ => Ok(vec![1]),
    });
    assert_eq!(r, Err(EnrollError { key: SecureKey::Db, cause: BootError::NoResponse }));
    assert_eq!(asked, vec![SecureKey::Pk, SecureKey::Kek, SecureKey::Db]);
    assert!(written.is_empty());
    assert_nothing_written(&store);
}

#[test]
fn all_keys_obtained_then_written_in_order() {
    let mut store = MemoryVariableStore::new();
    let (r, asked, written) = run(&mut store, &|k| match k {
        SecureKey::Pk => Ok(vec![1]),
        SecureKey::Kek => Ok(vec![2]),
        SecureKey::Db => Ok(vec![3]),
    });
    assert_eq!(r, Ok(()));
    assert_eq!(asked, vec![SecureKey::Pk, SecureKey::Kek, SecureKey::Db]);
    assert_eq!(written, vec!["PK".to_string(), "KEK".to_string(), "db".to_string()]);
    assert_eq!(store.read("PK", VendorScope::GlobalVariable), Ok(vec![1]));
    assert_eq!(store.read("KEK", VendorScope::GlobalVariable), Ok(vec![2]));
    assert_eq!(store.read("db", VendorScope::ImageSecurityDatabase), Ok(vec![3]));
    assert_eq!(store.read("db", VendorScope::GlobalVariable), Err(BootError::NotFound));
}

#[test]
fn no_write_before_db_payload() {
    let (mut m, _) = KeyEnroller::start();
    assert!(matches!(m.on_payload(Ok(vec![1])), EnrollAction::Obtain(SecureKey::Kek)));
    assert!(matches!(m.on_payload(Ok(vec![2])), EnrollAction::Obtain(SecureKey::Db)));
    match m.on_payload(Ok(vec![3, 3])) {
        EnrollAction::Write(w) => {
            assert_eq!(w.name, "PK");
            assert_eq!(w.vendor, VendorScope::GlobalVariable);
            assert_eq!(w.data, vec![1]);
        }
        other => panic!("unexpected action {:?}", other),
    }
    assert_eq!(m.stage(), EnrollStage::Writing(SecureKey::Pk));
}

#[test]
fn write_failure_names_key_and_stops() {
    let (mut m, _) = KeyEnroller::start();
    m.on_payload(Ok(vec![1]));
    m.on_payload(Ok(vec![2]));
    m.on_payload(Ok(vec![3]));
    match m.on_written(Ok(())) {
        EnrollAction::Write(w) => {
            assert_eq!(w.name, "KEK");
            assert_eq!(w.data, vec![2]);
        }
        other => panic!("unexpected action {:?}", other),
    }
    let a = m.on_written(Err(BootError::Service(0x8000_0000_0000_001a)));
    let expected = EnrollError { key: SecureKey::Kek, cause: BootError::Service(0x8000_0000_0000_001a) };
    assert!(matches!(a, EnrollAction::Finished(Err(e)) if e == expected));
    assert_eq!(m.stage(), EnrollStage::Failed(expected));
}

#[test]
fn db_write_goes_to_image_security_database() {
    let (mut m, _) = KeyEnroller::start();
    m.on_payload(Ok(vec![1]));
    m.on_payload(Ok(vec![2]));
    m.on_payload(Ok(vec![4, 4]));
    m.on_written(Ok(()));
    match m.on_written(Ok(())) {
        EnrollAction::Write(w) => {
            assert_eq!(w.name, "db");
            assert_eq!(w.vendor, VendorScope::ImageSecurityDatabase);
            assert_eq!(w.data, vec![4, 4]);
        }
        other => panic!("unexpected action {:?}", other),
    }
    assert!(matches!(m.on_written(Ok(())), EnrollAction::Finished(Ok(()))));
    assert_eq!(m.stage(), EnrollStage::Enrolled);
}

#[test]
fn key_urls() {
    assert_eq!(key_url("10.0.0.1", SecureKey::Pk), "http://10.0.0.1/PK.auth");
    assert_eq!(key_url("srv", SecureKey::Kek), "http://srv/KEK.auth");
    assert_eq!(key_url("srv", SecureKey::Db), "http://srv/DB.auth");
    assert_eq!(boot_image_url("srv.example"), "http://srv.example/bootx64.efi");
}
