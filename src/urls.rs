use vstd::prelude::*;
use vstd::string::StringExecFns;
use crate::variables::SecureKey;

verus! {

/// `http://`
pub open spec fn http_scheme() -> Seq<char> {
    seq!['h', 't', 't', 'p', ':', '/', '/']
}

/// The file a provisioning server offers a key under.
pub open spec fn key_file_spec(key: SecureKey) -> Seq<char> {
    match key {
        SecureKey::Pk => seq!['P', 'K', '.', 'a', 'u', 't', 'h'],
        SecureKey::Kek => seq!['K', 'E', 'K', '.', 'a', 'u', 't', 'h'],
        SecureKey::Db => seq!['D', 'B', '.', 'a', 'u', 't', 'h'],
    }
}

/// `http://{server}/{file}`
pub open spec fn server_url_spec(server: Seq<char>, file: Seq<char>) -> Seq<char> {
    http_scheme() + server + seq!['/'] + file
}

/// The boot image a network boot entry points at.
pub open spec fn boot_image_file() -> Seq<char> {
    seq!['b', 'o', 'o', 't', 'x', '6', '4', '.', 'e', 'f', 'i']
}

fn server_url(server: &str, file: &str) -> (r: String)
    ensures
        r@ == server_url_spec(server@, file@),
{
    proof {
        reveal_strlit("http://");
        reveal_strlit("/");
    }
    let mut r = String::from_str("http://");
    r.append(server);
    r.append("/");
    r.append(file);
    assert(r@ =~= server_url_spec(server@, file@));
    r
}

/// Where a provisioning server offers the payload of `key`: `http://{server}/PK.auth`,
/// `KEK.auth` or `DB.auth`.
pub fn key_url(server: &str, key: SecureKey) -> (r: String)
    ensures
        r@ == server_url_spec(server@, key_file_spec(key)),
{
    proof {
        reveal_strlit("PK.auth");
        reveal_strlit("KEK.auth");
        reveal_strlit("DB.auth");
    }
    let file = match key {
        SecureKey::Pk => "PK.auth",
        SecureKey::Kek => "KEK.auth",
        SecureKey::Db => "DB.auth",
    };
    assert(file@ =~= key_file_spec(key));
    server_url(server, file)
}

/// The boot image of a server: `http://{server}/bootx64.efi`.
pub fn boot_image_url(server: &str) -> (r: String)
    ensures
        r@ == server_url_spec(server@, boot_image_file()),
{
    proof {
        reveal_strlit("bootx64.efi");
    }
    assert("bootx64.efi"@ =~= boot_image_file());
    server_url(server, "bootx64.efi")
}

} // verus!
