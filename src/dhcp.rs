use vstd::prelude::*;
use vstd::string::StringExecFns;
use vstd::utf8::{decode_utf8, valid_utf8};
use crate::text::{decimal, push_decimal};

verus! {

/// DHCP option 66: the name of the boot (TFTP) server.
pub const OPTION_BOOT_SERVER_NAME: u8 = 66;

/// The option tag that ends the option list.
pub const OPTION_END: u8 = 255;

/// What discovery keeps of one DHCP packet.
#[derive(Debug)]
pub struct DhcpPacket {
    /// `yiaddr`: the address offered to this client.
    pub your_address: [u8; 4],
    /// `siaddr`: the next-server address.
    pub server_address: [u8; 4],
    /// The tag-length-value option bytes.
    pub options: Vec<u8>,
}

/// The packets one DHCP/PXE discovery exchange produced.
#[derive(Debug)]
pub struct DhcpDiscovery {
    /// The DHCP ACK, when one was received.
    pub ack: Option<DhcpPacket>,
    /// The PXE proxy offer, when one was received.
    pub proxy_offer: Option<DhcpPacket>,
    /// The PXE-specific reply, when one was received.
    pub pxe_reply: Option<DhcpPacket>,
}

/// The text of the first option 66 whose value is non-empty, well-formed UTF-8, met
/// while walking the options by their declared lengths; the walk stops at the end tag,
/// when fewer than three bytes remain, or at an option that would run past the buffer.
pub open spec fn server_name_spec(options: Seq<u8>) -> Option<Seq<char>>
    decreases options.len(),
{
    if options.len() < 3 || options[0] == OPTION_END {
        None
    } else {
        let len = options[1] as int;
        if 2 + len > options.len() {
            None
        } else {
            let value = options.subrange(2, 2 + len);
            if options[0] == OPTION_BOOT_SERVER_NAME && value.len() > 0 && valid_utf8(value) {
                Some(decode_utf8(value))
            } else {
                server_name_spec(options.subrange(2 + len, options.len() as int))
            }
        }
    }
}

/// The address 0.0.0.0, which names no server.
pub open spec fn is_zero_address(a: Seq<u8>) -> bool {
    a[0] == 0 && a[1] == 0 && a[2] == 0 && a[3] == 0
}

/// The dotted-quad text of an IPv4 address.
pub open spec fn dotted_quad_spec(a: Seq<u8>) -> Seq<char> {
    decimal(a[0] as nat) + seq!['.'] + decimal(a[1] as nat) + seq!['.'] + decimal(a[2] as nat)
        + seq!['.'] + decimal(a[3] as nat)
}

/// The boot server by precedence: the option-66 name, else the ACK's next-server
/// address, else the proxy offer's, else the PXE reply's; zero addresses are skipped.
pub open spec fn select_spec(
    name: Option<Seq<char>>,
    ack_server: Seq<u8>,
    proxy_server: Option<Seq<u8>>,
    pxe_server: Option<Seq<u8>>,
) -> Option<Seq<char>> {
    if name is Some {
        name
    } else if !is_zero_address(ack_server) {
        Some(dotted_quad_spec(ack_server))
    } else if proxy_server is Some && !is_zero_address(proxy_server->0) {
        Some(dotted_quad_spec(proxy_server->0))
    } else if pxe_server is Some && !is_zero_address(pxe_server->0) {
        Some(dotted_quad_spec(pxe_server->0))
    } else {
        None
    }
}

/// The next-server address of a packet that may be absent.
pub open spec fn server_of(p: Option<DhcpPacket>) -> Option<Seq<u8>> {
    match p {
        Some(p) => Some(p.server_address@),
        None => None,
    }
}

/// The boot server named by a discovery exchange; none without an ACK.
pub open spec fn resolve_spec(d: DhcpDiscovery) -> Option<Seq<char>> {
    match d.ack {
        Some(ack) => select_spec(
            server_name_spec(ack.options@),
            ack.server_address@,
            server_of(d.proxy_offer),
            server_of(d.pxe_reply),
        ),
        None => None,
    }
}

/// A resolved server name is never empty.
pub proof fn lemma_resolved_server_not_empty(d: DhcpDiscovery)
    ensures
        resolve_spec(d) matches Some(s) ==> s.len() > 0,
{
    if let Some(ack) = d.ack {
        lemma_server_name_not_empty(ack.options@);
    }
}

proof fn lemma_server_name_not_empty(options: Seq<u8>)
    ensures
        server_name_spec(options) matches Some(s) ==> s.len() > 0,
    decreases options.len(),
{
    if options.len() >= 3 && options[0] != OPTION_END {
        let len = options[1] as int;
        if 2 + len <= options.len() {
            let value = options.subrange(2, 2 + len);
            if options[0] == OPTION_BOOT_SERVER_NAME && value.len() > 0 && valid_utf8(value) {
                assert(decode_utf8(value).len() > 0);
            } else {
                lemma_server_name_not_empty(options.subrange(2 + len, options.len() as int));
            }
        }
    }
}

/// The text a string may hold.
pub open spec fn text_of(s: Option<String>) -> Option<Seq<char>> {
    match s {
        Some(s) => Some(s@),
        None => None,
    }
}

/// Relies on `core::str::from_utf8`: it accepts exactly the well-formed UTF-8 byte
/// sequences, and the text it returns holds the characters they encode.
#[verifier::external_body]
fn utf8_text(bytes: &[u8]) -> (r: Option<String>)
    ensures
        r is Some <==> valid_utf8(bytes@),
        r matches Some(s) ==> s@ == decode_utf8(bytes@),
{
    match core::str::from_utf8(bytes) {
        Ok(s) => Some(s.to_string()),
        Err(_) => None,
    }
}

/// Scans DHCP options for the boot server name (option 66).
pub fn server_name_option(options: &[u8]) -> (r: Option<String>)
    ensures
        text_of(r) == server_name_spec(options@),
{
    let n = options.len();
    let mut i: usize = 0;
    assert(options@.subrange(0, n as int) =~= options@);
    while n - i >= 3
        invariant
            n == options@.len(),
            i <= n,
            server_name_spec(options@) == server_name_spec(options@.subrange(i as int, n as int)),
        decreases n - i,
    {
        let ghost rest = options@.subrange(i as int, n as int);
        let code = options[i];
        if code == OPTION_END {
            return None;
        }
        let len = options[i + 1] as usize;
        if len > n - i - 2 {
            return None;
        }
        let start = i + 2;
        let end = start + len;
        assert(rest.subrange(2, 2 + len) =~= options@.subrange(start as int, end as int));
        if code == OPTION_BOOT_SERVER_NAME && len > 0 {
            let text = utf8_text(&options[start..end]);
            if text.is_some() {
                return text;
            }
        }
        assert(rest.subrange(2 + len, rest.len() as int) =~= options@.subrange(end as int, n as int));
        i = end;
    }
    None
}

/// Appends the dotted-quad text of `a`.
fn push_dotted_quad(out: &mut String, a: [u8; 4])
    ensures
        final(out)@ == old(out)@ + dotted_quad_spec(a@),
{
    proof {
        reveal_strlit(".");
    }
    push_decimal(out, a[0]);
    out.append(".");
    push_decimal(out, a[1]);
    out.append(".");
    push_decimal(out, a[2]);
    out.append(".");
    push_decimal(out, a[3]);
    assert(final(out)@ =~= old(out)@ + dotted_quad_spec(a@));
}

/// The dotted-quad text of an IPv4 address, such as `10.0.0.1`.
pub fn dotted_quad(a: [u8; 4]) -> (r: String)
    ensures
        r@ == dotted_quad_spec(a@),
{
    let mut r = String::new();
    push_dotted_quad(&mut r, a);
    assert(r@ =~= dotted_quad_spec(a@));
    r
}

fn is_zero(a: [u8; 4]) -> (r: bool)
    ensures
        r == is_zero_address(a@),
{
    a[0] == 0 && a[1] == 0 && a[2] == 0 && a[3] == 0
}

/// Applies the boot-server precedence to an option-66 name already decoded and to the
/// next-server addresses of the ACK, the proxy offer and the PXE reply.
pub fn select_boot_server(
    name: Option<String>,
    ack_server: [u8; 4],
    proxy_server: Option<[u8; 4]>,
    pxe_server: Option<[u8; 4]>,
) -> (r: Option<String>)
    ensures
        text_of(r) == select_spec(
            text_of(name),
            ack_server@,
            match proxy_server {
                Some(a) => Some(a@),
                None => None,
            },
            match pxe_server {
                Some(a) => Some(a@),
                None => None,
            },
        ),
{
    if name.is_some() {
        return name;
    }
    if !is_zero(ack_server) {
        return Some(dotted_quad(ack_server));
    }
    if let Some(a) = proxy_server {
        if !is_zero(a) {
            return Some(dotted_quad(a));
        }
    }
    if let Some(a) = pxe_server {
        if !is_zero(a) {
            return Some(dotted_quad(a));
        }
    }
    None
}

/// Names the boot server from a DHCP/PXE discovery exchange: option 66 of the ACK
/// first, then the next-server addresses of the ACK, the proxy offer and the PXE reply.
/// Without an ACK there is none.
pub fn request_dhcp_info(discovery: &DhcpDiscovery) -> (r: Option<String>)
    ensures
        text_of(r) == resolve_spec(*discovery),
        r matches Some(s) ==> s@.len() > 0,
{
    proof {
        lemma_resolved_server_not_empty(*discovery);
    }
    match &discovery.ack {
        None => None,
        Some(ack) => {
            let name = server_name_option(ack.options.as_slice());
            let proxy = match &discovery.proxy_offer {
                Some(p) => Some(p.server_address),
                None => None,
            };
            let pxe = match &discovery.pxe_reply {
                Some(p) => Some(p.server_address),
                None => None,
            };
            select_boot_server(name, ack.server_address, proxy, pxe)
        },
    }
}

} // verus!
