use key_enroller::error::BootError;
use key_enroller::variables::{
    enroll_key, is_setup_mode, vendor_for_name, SecureKey, VendorScope,
    AUTHENTICATED_WRITE_ATTRIBUTES,
};

#[test]
fn setup_mode_absent_is_false() {
    assert!(!is_setup_mode(None));
}

#[test]
fn setup_mode_empty_is_false() {
    assert!(!is_setup_mode(Some(&[])));
}

#[test]
fn setup_mode_one_is_true() {
    assert!(is_setup_mode(Some(&[1])));
}

#[test]
fn setup_mode_other_values_are_false() {
    assert!(!is_setup_mode(Some(&[0])));
    assert!(!is_setup_mode(Some(&[2])));
    assert!(!is_setup_mode(Some(&[1, 0])));
    assert!(!is_setup_mode(Some(&[0, 1])));
}

#[test]
fn vendor_by_name() {
    assert_eq!(vendor_for_name("PK"), Ok(VendorScope::GlobalVariable));
    assert_eq!(vendor_for_name("KEK"), Ok(VendorScope::GlobalVariable));
    assert_eq!(vendor_for_name("db"), Ok(VendorScope::ImageSecurityDatabase));
    assert_eq!(vendor_for_name("dbx"), Ok(VendorScope::ImageSecurityDatabase));
}

#[test]
fn vendor_rejects_other_names() {
    assert_eq!(vendor_for_name("DB"), Err(BootError::InvalidParameter));
    assert_eq!(vendor_for_name("pk"), Err(BootError::InvalidParameter));
    assert_eq!(vendor_for_name(""), Err(BootError::InvalidParameter));
    assert_eq!(vendor_for_name("SetupMode"), Err(BootError::InvalidParameter));
}

#[test]
fn enroll_key_builds_authenticated_write() {
    let w = enroll_key("db", &[9, 8, 7]).unwrap();
    assert_eq!(w.name, "db");
    assert_eq!(w.vendor, VendorScope::ImageSecurityDatabase);
    assert_eq!(w.attributes, AUTHENTICATED_WRITE_ATTRIBUTES);
    assert_eq!(w.attributes, 0x27);
    assert_eq!(w.data, vec![9, 8, 7]);
}

#[test]
fn enroll_key_rejects_unknown_name() {
    assert!(matches!(enroll_key("MOK", &[1]), Err(BootError::InvalidParameter)));
}

#[test]
fn key_names() {
    assert_eq!(SecureKey::Pk.name(), "PK");
    assert_eq!(SecureKey::Kek.name(), "KEK");
    assert_eq!(SecureKey::Db.name(), "db");
}
