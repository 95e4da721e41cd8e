use vstd::prelude::*;
use crate::bytes::{le16, lemma_le16_seq_len, push_all, push_le16, push_le16_seq, le16_seq};
use crate::text::{utf16_of, utf16_units};
use crate::error::BootError;
use vstd::string::StringSliceAdditionalSpecFns;

verus! {

/// The most UTF-16 code units a file-path node can carry before its terminating null.
pub const MAX_FILE_PATH_UNITS: usize = 32764;

/// The largest body a device-path node can carry: its 16-bit length counts the 4-byte header.
pub const MAX_NODE_BODY: usize = 65531;

/// The declared length of the node whose header starts at byte 0 of `b`.
pub open spec fn node_length(b: Seq<u8>) -> int {
    b[2] as int + 256 * b[3] as int
}

/// The node at the start of `b` is an End-Entire-Device-Path node.
pub open spec fn is_end_node(b: Seq<u8>) -> bool {
    b[0] == 0x7f && b[1] == 0xff
}

/// The node at the start of `b` has a whole header, a length that covers its header,
/// and lies inside `b`.
pub open spec fn node_fits(b: Seq<u8>) -> bool {
    4 <= b.len() && 4 <= node_length(b) <= b.len()
}

/// The bytes of `b` after its first node.
pub open spec fn after_node(b: Seq<u8>) -> Seq<u8> {
    b.subrange(node_length(b), b.len() as int)
}

/// Where the walk over `b`, node by node by declared lengths, meets the first End node;
/// `None` when a node does not fit before an End node is met.
pub open spec fn end_of_path(b: Seq<u8>) -> Option<int>
    decreases b.len(),
{
    if !node_fits(b) {
        None
    } else if is_end_node(b) {
        Some(0)
    } else {
        match end_of_path(after_node(b)) {
            Some(j) => Some(j + node_length(b)),
            None => None,
        }
    }
}

/// `b` is a sequence of whole nodes, none of them an End node.
pub open spec fn node_chain(b: Seq<u8>) -> bool
    decreases b.len(),
{
    if b.len() == 0 {
        true
    } else {
        node_fits(b) && !is_end_node(b) && node_chain(after_node(b))
    }
}

/// The End-Entire-Device-Path node.
pub open spec fn end_node_spec() -> Seq<u8> {
    seq![0x7fu8, 0xffu8, 4u8, 0u8]
}

/// A device path: walking it by declared node lengths meets its one End node exactly
/// at its last four bytes, which are the terminator.
pub open spec fn well_formed_path(p: Seq<u8>) -> bool {
    &&& p.len() >= 4
    &&& end_of_path(p) == Some(p.len() - 4)
    &&& p.subrange(p.len() - 4, p.len() as int) == end_node_spec()
}

/// The IPv4 messaging node of a network boot path: every address, port and flag left
/// for DHCP to fill, protocol TCP.
pub open spec fn ipv4_node_spec() -> Seq<u8> {
    seq![
        0x03u8, 0x0cu8, 27u8, 0u8,
        0u8, 0u8, 0u8, 0u8,
        0u8, 0u8, 0u8, 0u8,
        0u8, 0u8,
        0u8, 0u8,
        6u8, 0u8,
        0u8,
        0u8, 0u8, 0u8, 0u8,
        0u8, 0u8, 0u8, 0u8,
    ]
}

/// The URI messaging node carrying the bytes of `url`.
pub open spec fn uri_node_spec(url: Seq<u8>) -> Seq<u8> {
    seq![0x03u8, 0x18u8] + le16((4 + url.len()) as u16) + url
}

/// The file-path media node carrying `path` as null-terminated UTF-16.
pub open spec fn file_path_node_spec(path: Seq<char>) -> Seq<u8> {
    let units = utf16_of(path).push(0u16);
    seq![0x04u8, 0x04u8] + le16((4 + 2 * units.len()) as u16) + le16_seq(units)
}

/// The path handed to the boot manager: the interface's nodes, the IPv4 node, the
/// target node and the terminator.
pub open spec fn compose_path(interface_nodes: Seq<u8>, target: Seq<u8>) -> Seq<u8> {
    interface_nodes + ipv4_node_spec() + target + end_node_spec()
}

/// The interface's nodes before its terminator, when its walk meets one.
pub open spec fn interface_nodes_spec(path: Seq<u8>) -> Option<Seq<u8>> {
    match end_of_path(path) {
        Some(j) => Some(path.subrange(0, j)),
        None => None,
    }
}

/// A walk that meets an End node has crossed whole non-End nodes only.
proof fn lemma_walk_prefix_is_chain(b: Seq<u8>)
    requires
        end_of_path(b) is Some,
    ensures
        0 <= end_of_path(b)->0,
        end_of_path(b)->0 + 4 <= b.len(),
        node_chain(b.subrange(0, end_of_path(b)->0)),
    decreases b.len(),
{
    if is_end_node(b) {
        assert(b.subrange(0, 0).len() == 0);
    } else {
        let rest = after_node(b);
        lemma_walk_prefix_is_chain(rest);
        let j = end_of_path(b)->0;
        let c = b.subrange(0, j);
        assert(c.subrange(0, 4) == b.subrange(0, 4));
        assert(c[2] == b[2] && c[3] == b[3] && c[0] == b[0] && c[1] == b[1]);
        assert(after_node(c) =~= rest.subrange(0, end_of_path(rest)->0));
    }
}

/// Whole non-End nodes in front of `c` shift its walk and change nothing else.
proof fn lemma_walk_after_chain(a: Seq<u8>, c: Seq<u8>)
    requires
        node_chain(a),
    ensures
        end_of_path(a + c) == match end_of_path(c) {
            Some(j) => Some(j + a.len()),
            None => None::<int>,
        },
    decreases a.len(),
{
    if a.len() == 0 {
        assert(a + c =~= c);
    } else {
        let ac = a + c;
        assert(ac[0] == a[0] && ac[1] == a[1] && ac[2] == a[2] && ac[3] == a[3]);
        assert(after_node(ac) =~= after_node(a) + c);
        lemma_walk_after_chain(after_node(a), c);
    }
}

/// Two chains of whole nodes make one.
proof fn lemma_chain_concat(a: Seq<u8>, c: Seq<u8>)
    requires
        node_chain(a),
        node_chain(c),
    ensures
        node_chain(a + c),
    decreases a.len(),
{
    if a.len() == 0 {
        assert(a + c =~= c);
    } else {
        let ac = a + c;
        assert(ac[0] == a[0] && ac[1] == a[1] && ac[2] == a[2] && ac[3] == a[3]);
        assert(after_node(ac) =~= after_node(a) + c);
        lemma_chain_concat(after_node(a), c);
    }
}

/// A single non-End node whose declared length is its size is a chain.
proof fn lemma_single_node_chain(n: Seq<u8>)
    requires
        4 <= n.len(),
        node_length(n) == n.len(),
        !is_end_node(n),
    ensures
        node_chain(n),
{
    assert(after_node(n).len() == 0);
    assert(node_chain(after_node(n)));
}

/// The interface's nodes, the IPv4 node, one more whole node and the terminator make
/// a well-formed path.
proof fn lemma_compose_well_formed(interface_path: Seq<u8>, target: Seq<u8>)
    requires
        interface_nodes_spec(interface_path) is Some,
        4 <= target.len(),
        node_length(target) == target.len(),
        !is_end_node(target),
    ensures
        well_formed_path(compose_path(interface_nodes_spec(interface_path)->0, target)),
{
    lemma_walk_prefix_is_chain(interface_path);
    let nodes = interface_nodes_spec(interface_path)->0;
    let ip = ipv4_node_spec();
    lemma_single_node_chain(ip);
    lemma_single_node_chain(target);
    lemma_chain_concat(nodes, ip);
    lemma_chain_concat(nodes + ip, target);
    let body = nodes + ip + target;
    let end = end_node_spec();
    assert(end_of_path(end) == Some(0int));
    lemma_walk_after_chain(body, end);
    let p = compose_path(nodes, target);
    assert(p =~= body + end);
    assert(p.subrange(p.len() - 4, p.len() as int) =~= end);
}

/// A composed URI boot path is well formed: its walk meets the terminator once, at its
/// last four bytes, and every node header gives the number of bytes of its node.
pub proof fn lemma_composed_path_well_formed(interface_path: Seq<u8>, url: Seq<u8>)
    requires
        interface_nodes_spec(interface_path) is Some,
        url.len() <= MAX_NODE_BODY,
    ensures
        well_formed_path(compose_path(interface_nodes_spec(interface_path)->0, uri_node_spec(url))),
{
    let uri = uri_node_spec(url);
    assert(uri[2] == ((4 + url.len()) as u16 % 256) as u8);
    assert(uri[3] == ((4 + url.len()) as u16 / 256) as u8);
    lemma_compose_well_formed(interface_path, uri);
}

/// A composed file-path boot path is well formed in the same sense.
pub proof fn lemma_composed_file_path_well_formed(interface_path: Seq<u8>, path: Seq<char>)
    requires
        interface_nodes_spec(interface_path) is Some,
        utf16_of(path).len() <= MAX_FILE_PATH_UNITS,
    ensures
        well_formed_path(
            compose_path(interface_nodes_spec(interface_path)->0, file_path_node_spec(path)),
        ),
{
    let units = utf16_of(path).push(0u16);
    lemma_le16_seq_len(units);
    let node = file_path_node_spec(path);
    let len = (4 + 2 * units.len()) as u16;
    assert(node[2] == (len % 256) as u8);
    assert(node[3] == (len / 256) as u8);
    lemma_compose_well_formed(interface_path, node);
}

/// Walks an interface's device path node by node, checking every node against the
/// bounds of `path`, and returns its nodes before the End node.
pub fn interface_nodes(path: &[u8]) -> (r: Result<Vec<u8>, BootError>)
    ensures
        match interface_nodes_spec(path@) {
            Some(nodes) => r matches Ok(v) && v@ == nodes,
            None => r == Err::<Vec<u8>, BootError>(BootError::InvalidParameter),
        },
{
    let n = path.len();
    let mut i: usize = 0;
    assert(path@.subrange(0, n as int) =~= path@);
    loop
        invariant
            n == path@.len(),
            i <= n,
            end_of_path(path@) == match end_of_path(path@.subrange(i as int, n as int)) {
                Some(j) => Some(j + i),
                None => None::<int>,
            },
        decreases n - i,
    {
        let ghost rest = path@.subrange(i as int, n as int);
        if n - i < 4 {
            return Err(BootError::InvalidParameter);
        }
        let len = path[i + 2] as usize + 256 * path[i + 3] as usize;
        assert(len == node_length(rest));
        if len < 4 || len > n - i {
            return Err(BootError::InvalidParameter);
        }
        if path[i] == 0x7f && path[i + 1] == 0xff {
            let mut out: Vec<u8> = Vec::new();
            push_all(&mut out, &path[0..i]);
            return Ok(out);
        }
        assert(after_node(rest) =~= path@.subrange((i + len) as int, n as int));
        i = i + len;
    }
}

/// The terminator node.
pub fn end_node() -> (r: Vec<u8>)
    ensures
        r@ == end_node_spec(),
{
    let r: Vec<u8> = vec![0x7f, 0xff, 4, 0];
    assert(r@ =~= end_node_spec());
    r
}

/// The IPv4 node of a network boot path.
pub fn ipv4_node() -> (r: Vec<u8>)
    ensures
        r@ == ipv4_node_spec(),
{
    let r: Vec<u8> = vec![
        0x03, 0x0c, 27, 0,
        0, 0, 0, 0,
        0, 0, 0, 0,
        0, 0,
        0, 0,
        6, 0,
        0,
        0, 0, 0, 0,
        0, 0, 0, 0,
    ];
    assert(r@ =~= ipv4_node_spec());
    r
}

/// The URI node for `url`; refused when its bytes do not fit one node.
pub fn uri_node(url: &str) -> (r: Result<Vec<u8>, BootError>)
    ensures
        url.spec_bytes().len() <= MAX_NODE_BODY ==> (r matches Ok(v) && v@ == uri_node_spec(
            url.spec_bytes(),
        )),
        url.spec_bytes().len() > MAX_NODE_BODY ==> r == Err::<Vec<u8>, BootError>(
            BootError::InvalidParameter,
        ),
{
    let bytes = url.as_bytes();
    if bytes.len() > MAX_NODE_BODY {
        return Err(BootError::InvalidParameter);
    }
    let mut r: Vec<u8> = Vec::new();
    r.push(0x03);
    r.push(0x18);
    push_le16(&mut r, (4 + bytes.len()) as u16);
    push_all(&mut r, bytes);
    assert(r@ =~= uri_node_spec(url.spec_bytes()));
    Ok(r)
}

/// The file-path node for `path`; refused when its code units do not fit one node.
pub fn file_path_node(path: &str) -> (r: Result<Vec<u8>, BootError>)
    ensures
        utf16_of(path@).len() <= MAX_FILE_PATH_UNITS ==> (r matches Ok(v) && v@
            == file_path_node_spec(path@)),
        utf16_of(path@).len() > MAX_FILE_PATH_UNITS ==> r == Err::<Vec<u8>, BootError>(
            BootError::InvalidParameter,
        ),
{
    let mut units = utf16_units(path);
    if units.len() > MAX_FILE_PATH_UNITS {
        return Err(BootError::InvalidParameter);
    }
    units.push(0);
    proof {
        lemma_le16_seq_len(units@);
    }
    let mut r: Vec<u8> = Vec::new();
    r.push(0x04);
    r.push(0x04);
    push_le16(&mut r, (4 + 2 * units.len()) as u16);
    push_le16_seq(&mut r, units.as_slice());
    assert(r@ =~= file_path_node_spec(path@));
    Ok(r)
}

/// Appends the IPv4 node, `target` and the terminator to the interface's nodes.
fn compose(interface_nodes: Vec<u8>, target: &[u8]) -> (r: Vec<u8>)
    ensures
        r@ == compose_path(interface_nodes@, target@),
{
    let mut r = interface_nodes;
    let ip = ipv4_node();
    push_all(&mut r, ip.as_slice());
    push_all(&mut r, target);
    let end = end_node();
    push_all(&mut r, end.as_slice());
    r
}

/// The device path of a URI boot entry: the interface's nodes, the IPv4 node, the URI
/// node for `url` and the terminator.
pub fn http_boot_device_path(interface_path: &[u8], url: &str) -> (r: Result<Vec<u8>, BootError>)
    ensures
        match interface_nodes_spec(interface_path@) {
            Some(nodes) => if url.spec_bytes().len() <= MAX_NODE_BODY {
                r matches Ok(v) && v@ == compose_path(nodes, uri_node_spec(url.spec_bytes()))
            } else {
                r == Err::<Vec<u8>, BootError>(BootError::InvalidParameter)
            },
            None => r == Err::<Vec<u8>, BootError>(BootError::InvalidParameter),
        },
{
    let nodes = interface_nodes(interface_path)?;
    let uri = uri_node(url)?;
    Ok(compose(nodes, uri.as_slice()))
}

/// The device path of a file boot entry: the interface's nodes, the IPv4 node, the
/// file-path node for `path` and the terminator.
pub fn file_boot_device_path(interface_path: &[u8], path: &str) -> (r: Result<Vec<u8>, BootError>)
    ensures
        match interface_nodes_spec(interface_path@) {
            Some(nodes) => if utf16_of(path@).len() <= MAX_FILE_PATH_UNITS {
                r matches Ok(v) && v@ == compose_path(nodes, file_path_node_spec(path@))
            } else {
                r == Err::<Vec<u8>, BootError>(BootError::InvalidParameter)
            },
            None => r == Err::<Vec<u8>, BootError>(BootError::InvalidParameter),
        },
{
    let nodes = interface_nodes(interface_path)?;
    let file = file_path_node(path)?;
    Ok(compose(nodes, file.as_slice()))
}

} // verus!
