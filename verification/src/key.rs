//! What tells one connection from another.

use vstd::prelude::*;
use vstd::slice::slice_to_vec;

verus! {

/// The length of the connection ids that the library makes up, and the longest that QUIC
/// knows.
pub const MAX_CONN_ID_LEN: usize = 20;

/// A socket address.
#[derive(Clone, Copy, PartialEq, Eq, Structural, Debug)]
pub enum SocketAddr {
    /// An IPv4 address, as a number, and a port.
    V4 { ip: u32, port: u16 },
    /// An IPv6 address, as a number, a port, and the flow and scope that go with it.
    V6 { ip6: u128, port: u16, flowinfo: u32, scope_id: u32 },
}

/// A connection id: some bytes.
#[derive(Debug)]
pub struct ConnectionId {
    bytes: Vec<u8>,
}

impl View for ConnectionId {
    type V = Seq<u8>;

    closed spec fn view(&self) -> Seq<u8> {
        self.bytes@
    }
}

impl ConnectionId {
    /// The id with the given bytes.
    pub fn from_vec(bytes: Vec<u8>) -> (id: ConnectionId)
        ensures
            id@ == bytes@,
    {
        ConnectionId { bytes }
    }

    /// The bytes of the id.
    pub fn as_bytes(&self) -> (bytes: &[u8])
        ensures
            bytes@ == self@,
    {
        self.bytes.as_slice()
    }
}

impl Clone for ConnectionId {
    fn clone(&self) -> (id: ConnectionId)
        ensures
            id@ == self@,
    {
        ConnectionId { bytes: slice_to_vec(self.bytes.as_slice()) }
    }
}

impl PartialEq for ConnectionId {
    fn eq(&self, other: &ConnectionId) -> (same: bool) {
        same_bytes(self.bytes.as_slice(), other.bytes.as_slice())
    }
}

impl vstd::std_specs::cmp::PartialEqSpecImpl for ConnectionId {
    open spec fn obeys_eq_spec() -> bool {
        true
    }

    open spec fn eq_spec(&self, other: &ConnectionId) -> bool {
        self@ == other@
    }
}

/// Where a packet comes from and where it arrives.
#[derive(Clone, Copy, PartialEq, Eq, Structural, Debug)]
pub struct PacketPath {
    /// The address that it was sent from.
    pub from: SocketAddr,
    /// The address that it was sent to.
    pub to: SocketAddr,
}

/// What tells one connection from another: the two addresses and this side's connection id.
#[derive(Debug)]
pub struct QuicKey {
    local: SocketAddr,
    remote: SocketAddr,
    conn_id: ConnectionId,
}

/// A [`QuicKey`] by its bytes.
pub struct KeyView {
    pub local: SocketAddr,
    pub remote: SocketAddr,
    pub conn_id: Seq<u8>,
}

impl View for QuicKey {
    type V = KeyView;

    closed spec fn view(&self) -> KeyView {
        KeyView { local: self.local, remote: self.remote, conn_id: self.conn_id@ }
    }
}

impl KeyView {
    /// The way of the packets that arrive for the connection.
    pub open spec fn path(self) -> PacketPath {
        PacketPath { from: self.remote, to: self.local }
    }
}

impl QuicKey {
    /// The key with the given parts.
    pub fn new(local: SocketAddr, remote: SocketAddr, conn_id: ConnectionId) -> (key: QuicKey)
        ensures
            key@ == (KeyView { local, remote, conn_id: conn_id@ }),
    {
        QuicKey { local, remote, conn_id }
    }

    /// The address on this side.
    pub fn local_addr(&self) -> (addr: SocketAddr)
        ensures
            addr == self@.local,
    {
        self.local
    }

    /// The address on the other side.
    pub fn remote_addr(&self) -> (addr: SocketAddr)
        ensures
            addr == self@.remote,
    {
        self.remote
    }

    /// The connection id.
    pub fn conn_id(&self) -> (id: &ConnectionId)
        ensures
            id@ == self@.conn_id,
    {
        &self.conn_id
    }

    /// The way of the packets that arrive for the connection: from the other side to this
    /// one.
    pub fn recv_info(&self) -> (path: PacketPath)
        ensures
            path == self@.path(),
    {
        PacketPath { from: self.remote, to: self.local }
    }
}

impl Clone for QuicKey {
    fn clone(&self) -> (key: QuicKey)
        ensures
            key@ == self@,
    {
        QuicKey { local: self.local, remote: self.remote, conn_id: self.conn_id.clone() }
    }
}

impl PartialEq for QuicKey {
    fn eq(&self, other: &QuicKey) -> (same: bool) {
        self.local == other.local && self.remote == other.remote && self.conn_id == other.conn_id
    }
}

impl vstd::std_specs::cmp::PartialEqSpecImpl for QuicKey {
    open spec fn obeys_eq_spec() -> bool {
        true
    }

    open spec fn eq_spec(&self, other: &QuicKey) -> bool {
        self@ == other@
    }
}

/// Whether two slices hold the same bytes.
fn same_bytes(a: &[u8], b: &[u8]) -> (same: bool)
    ensures
        same == (a@ == b@),
{
    if a.len() != b.len() {
        return false;
    }
    let mut i: usize = 0;
    while i < a.len()
        invariant
            i <= a@.len(),
            a@.len() == b@.len(),
            forall|j: int| 0 <= j < i ==> a@[j] == b@[j],
        decreases a@.len() - i,
    {
        if a[i] != b[i] {
            return false;
        }
        i += 1;
    }
    assert(a@ =~= b@);
    true
}

/// The packets that arrive for a connection come from the other side and go to this one.
pub proof fn law_packets_come_from_the_other_side(key: KeyView)
    ensures
        key.path().from == key.remote,
        key.path().to == key.local,
{
}

} // verus!
