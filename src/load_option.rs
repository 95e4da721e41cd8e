use vstd::prelude::*;
use vstd::string::StringExecFns;
use crate::bytes::{le16, le16_seq, le32, push_all, push_le16, push_le16_seq, push_le32};
use crate::device_path::{
    compose_path, file_boot_device_path, file_path_node_spec, http_boot_device_path,
    interface_nodes_spec, uri_node_spec, MAX_FILE_PATH_UNITS, MAX_NODE_BODY,
};
use vstd::string::StringSliceAdditionalSpecFns;
use crate::error::BootError;
use crate::text::{hex4, push_hex4, utf16_of, utf16_units};

verus! {

/// The load-option attribute that marks an entry active.
pub const LOAD_OPTION_ACTIVE: u32 = 1;

/// The largest device path a load option can describe: its length is a 16-bit field.
pub const MAX_DEVICE_PATH_LEN: usize = 65535;

/// An active load option: attributes, device-path length, the null-terminated UTF-16
/// description, the device path, and no optional data.
pub open spec fn load_option_spec(description: Seq<char>, device_path: Seq<u8>) -> Seq<u8> {
    le32(LOAD_OPTION_ACTIVE) + le16(device_path.len() as u16) + le16_seq(
        utf16_of(description).push(0u16),
    ) + device_path
}

/// The name of boot entry `n`: `Boot` and four upper-case hexadecimal digits.
pub open spec fn boot_variable_name_spec(n: u16) -> Seq<char> {
    seq!['B', 'o', 'o', 't'] + hex4(n)
}

/// Builds the load option of a boot entry; refused when the device path is longer
/// than its 16-bit length field allows.
pub fn load_option(description: &str, device_path: &[u8]) -> (r: Result<Vec<u8>, BootError>)
    ensures
        device_path@.len() <= MAX_DEVICE_PATH_LEN ==> (r matches Ok(v) && v@ == load_option_spec(
            description@,
            device_path@,
        )),
        device_path@.len() > MAX_DEVICE_PATH_LEN ==> r == Err::<Vec<u8>, BootError>(
            BootError::InvalidParameter,
        ),
{
    if device_path.len() > MAX_DEVICE_PATH_LEN {
        return Err(BootError::InvalidParameter);
    }
    let mut units = utf16_units(description);
    units.push(0);
    let mut r: Vec<u8> = Vec::new();
    push_le32(&mut r, LOAD_OPTION_ACTIVE);
    push_le16(&mut r, device_path.len() as u16);
    push_le16_seq(&mut r, units.as_slice());
    push_all(&mut r, device_path);
    Ok(r)
}

/// The load option of a URI boot entry: the interface's nodes, the IPv4 node, the URI
/// node for `url` and the terminator, described by `description`.
pub fn http_boot_load_option(interface_path: &[u8], url: &str, description: &str) -> (r: Result<
    Vec<u8>,
    BootError,
>)
    ensures
        match interface_nodes_spec(interface_path@) {
            Some(nodes) => {
                let path = compose_path(nodes, uri_node_spec(url.spec_bytes()));
                if url.spec_bytes().len() <= MAX_NODE_BODY && path.len() <= MAX_DEVICE_PATH_LEN {
                    r matches Ok(v) && v@ == load_option_spec(description@, path)
                } else {
                    r == Err::<Vec<u8>, BootError>(BootError::InvalidParameter)
                }
            },
            None => r == Err::<Vec<u8>, BootError>(BootError::InvalidParameter),
        },
{
    let path = http_boot_device_path(interface_path, url)?;
    load_option(description, path.as_slice())
}

/// The load option of a file boot entry: the interface's nodes, the IPv4 node, the
/// file-path node for `path` and the terminator, described by `description`.
pub fn file_boot_load_option(interface_path: &[u8], path: &str, description: &str) -> (r: Result<
    Vec<u8>,
    BootError,
>)
    ensures
        match interface_nodes_spec(interface_path@) {
            Some(nodes) => {
                let p = compose_path(nodes, file_path_node_spec(path@));
                if utf16_of(path@).len() <= MAX_FILE_PATH_UNITS && p.len() <= MAX_DEVICE_PATH_LEN {
                    r matches Ok(v) && v@ == load_option_spec(description@, p)
                } else {
                    r == Err::<Vec<u8>, BootError>(BootError::InvalidParameter)
                }
            },
            None => r == Err::<Vec<u8>, BootError>(BootError::InvalidParameter),
        },
{
    let p = file_boot_device_path(interface_path, path)?;
    load_option(description, p.as_slice())
}

/// The variable name of boot entry `n`, such as `Boot0001`.
pub fn boot_variable_name(n: u16) -> (r: String)
    ensures
        r@ == boot_variable_name_spec(n),
{
    proof {
        reveal_strlit("Boot");
    }
    let mut r = String::from_str("Boot");
    push_hex4(&mut r, n);
    assert(r@ =~= boot_variable_name_spec(n));
    r
}

} // verus!
