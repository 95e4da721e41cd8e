use vstd::prelude::*;
use vstd::string::StringExecFns;
use crate::error::BootError;
use crate::text::str_equals;

verus! {

/// Variable attribute: kept across resets.
pub const NON_VOLATILE: u32 = 0x01;

/// Variable attribute: readable while boot services run.
pub const BOOTSERVICE_ACCESS: u32 = 0x02;

/// Variable attribute: readable at runtime.
pub const RUNTIME_ACCESS: u32 = 0x04;

/// Variable attribute: a write must carry a time-based authentication envelope.
pub const TIME_BASED_AUTHENTICATED_WRITE_ACCESS: u32 = 0x20;

/// The attributes of a Secure Boot key write: non-volatile, boot and runtime access,
/// time-based authenticated write (`0x27`).
pub const AUTHENTICATED_WRITE_ATTRIBUTES: u32 = 0x27;

/// The attributes of boot-manager variables: non-volatile, boot and runtime access
/// (`0x07`).
pub const BOOT_VARIABLE_ATTRIBUTES: u32 = 0x07;

/// The vendor namespace a variable lives in.
#[derive(Debug, Clone, Copy, PartialEq, Eq, Structural)]
pub enum VendorScope {
    /// The platform's global namespace: `PK`, `KEK`, `SetupMode`, `Boot####`, `BootOrder`.
    GlobalVariable,
    /// The image security database namespace: `db`, `dbx`.
    ImageSecurityDatabase,
}

/// The Secure Boot keys this agent enrolls, in the order it enrolls them.
#[derive(Debug, Clone, Copy, PartialEq, Eq, Structural)]
pub enum SecureKey {
    /// The platform key.
    Pk,
    /// The key-exchange key.
    Kek,
    /// The signature database.
    Db,
}

/// The variable name of a key.
pub open spec fn key_name_spec(key: SecureKey) -> Seq<char> {
    match key {
        SecureKey::Pk => seq!['P', 'K'],
        SecureKey::Kek => seq!['K', 'E', 'K'],
        SecureKey::Db => seq!['d', 'b'],
    }
}

/// The namespace of a security variable by name: `PK` and `KEK` are global, `db` and
/// `dbx` belong to the image security database; no other name is a security variable.
pub open spec fn vendor_of_name(name: Seq<char>) -> Option<VendorScope> {
    if name == seq!['d', 'b'] || name == seq!['d', 'b', 'x'] {
        Some(VendorScope::ImageSecurityDatabase)
    } else if name == seq!['P', 'K'] || name == seq!['K', 'E', 'K'] {
        Some(VendorScope::GlobalVariable)
    } else {
        None
    }
}

impl SecureKey {
    /// The variable name of this key.
    pub fn name(&self) -> (r: &'static str)
        ensures
            r@ == key_name_spec(*self),
    {
        proof {
            reveal_strlit("PK");
            reveal_strlit("KEK");
            reveal_strlit("db");
        }
        let r = match self {
            SecureKey::Pk => "PK",
            SecureKey::Kek => "KEK",
            SecureKey::Db => "db",
        };
        assert(r@ =~= key_name_spec(*self));
        r
    }
}

/// The namespace of a security variable by name; any other name is refused.
pub fn vendor_for_name(name: &str) -> (r: Result<VendorScope, BootError>)
    ensures
        match vendor_of_name(name@) {
            Some(v) => r == Ok::<VendorScope, BootError>(v),
            None => r == Err::<VendorScope, BootError>(BootError::InvalidParameter),
        },
{
    proof {
        reveal_strlit("PK");
        reveal_strlit("KEK");
        reveal_strlit("db");
        reveal_strlit("dbx");
    }
    assert("db"@ =~= seq!['d', 'b']);
    assert("dbx"@ =~= seq!['d', 'b', 'x']);
    assert("PK"@ =~= seq!['P', 'K']);
    assert("KEK"@ =~= seq!['K', 'E', 'K']);
    if str_equals(name, "db") || str_equals(name, "dbx") {
        Ok(VendorScope::ImageSecurityDatabase)
    } else if str_equals(name, "PK") || str_equals(name, "KEK") {
        Ok(VendorScope::GlobalVariable)
    } else {
        Err(BootError::InvalidParameter)
    }
}

/// One write to the variable store.
#[derive(Debug)]
pub struct VariableWrite {
    pub name: String,
    pub vendor: VendorScope,
    pub attributes: u32,
    pub data: Vec<u8>,
}

/// The authenticated write that enrolls `data` under the security variable `name`;
/// refused for a name that is not a security variable.
pub fn enroll_key(name: &str, data: &[u8]) -> (r: Result<VariableWrite, BootError>)
    ensures
        match vendor_of_name(name@) {
            Some(v) => r matches Ok(w) && w.name@ == name@ && w.vendor == v && w.attributes
                == AUTHENTICATED_WRITE_ATTRIBUTES && w.data@ == data@,
            None => r matches Err(e) && e == BootError::InvalidParameter,
        },
{
    let vendor = vendor_for_name(name)?;
    let mut bytes: Vec<u8> = Vec::new();
    crate::bytes::push_all(&mut bytes, data);
    Ok(VariableWrite {
        name: String::from_str(name),
        vendor,
        attributes: AUTHENTICATED_WRITE_ATTRIBUTES,
        data: bytes,
    })
}

/// The `SetupMode` decision: the platform is in setup mode exactly when the variable
/// was read and holds the single byte 1.
pub open spec fn setup_mode_spec(value: Option<Seq<u8>>) -> bool {
    match value {
        Some(v) => v.len() == 1 && v[0] == 1,
        None => false,
    }
}

/// Decides setup mode from the result of reading `SetupMode` (`None` when the read
/// failed or the variable is absent).
pub fn is_setup_mode(value: Option<&[u8]>) -> (r: bool)
    ensures
        r == setup_mode_spec(
            match value {
                Some(v) => Some(v@),
                None => None,
            },
        ),
{
    match value {
        Some(v) => v.len() == 1 && v[0] == 1,
        None => false,
    }
}

} // verus!
