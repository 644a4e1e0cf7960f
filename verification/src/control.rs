//! What the daemon answers over its control socket.

use vstd::hash_map::StringHashMap;
use vstd::prelude::*;
use vstd::string::StringExecFns;

verus! {

/// The state of the daemon.
#[derive(Debug)]
pub struct StatusReport {
    /// Our own virtual address.
    pub virtual_ip: String,
    /// Whether the daemon runs.
    pub is_active: bool,
    /// How many peers are connected.
    pub active_peers: i32,
}

/// Why a file is not sent.
#[derive(Debug)]
pub enum SendRefusal {
    /// There is no connection to the peer with this virtual address.
    NotConnected(String),
}

impl SendRefusal {
    /// What the caller is told.
    pub fn message(&self) -> (message: String)
        ensures
            self matches SendRefusal::NotConnected(vip) && message@ == "Peer VIP "@ + vip@
                + " not connected"@,
    {
        match self {
            SendRefusal::NotConnected(vip) => {
                let mut message = String::from_str("Peer VIP ");
                message.append(vip.as_str());
                message.append(" not connected");
                message
            },
        }
    }
}

/// Whether `c` is a lower-case hexadecimal digit.
pub open spec fn is_hex_digit(c: char) -> bool {
    '0' <= c <= '9' || 'a' <= c <= 'f'
}

/// Where the hyphens of a UUID stand.
pub open spec fn is_hyphen_position(i: int) -> bool {
    i == 8 || i == 13 || i == 18 || i == 23
}

/// Whether `id` has the form of a random UUID: 32 lower-case hexadecimal digits, with hyphens
/// behind the 8th, 12th, 16th and 20th, of which the 13th gives the version and the 17th the
/// variant.
pub open spec fn is_random_uuid(id: Seq<char>) -> bool {
    &&& id.len() == 36
    &&& forall|i: int|
        0 <= i < 36 ==> if is_hyphen_position(i) {
            #[trigger] id[i] == '-'
        } else {
            is_hex_digit(id[i])
        }
    &&& id[14] == '4'
    &&& id[19] == '8' || id[19] == '9' || id[19] == 'a' || id[19] == 'b'
}

/// Draws the name of a transfer: `uuid::Uuid::new_v4`, written out. Which one it is, is left to
/// chance. It panics on a machine that has no randomness to give.
#[verifier::external_body]
fn draw_transfer_id() -> (id: String)
    ensures
        is_random_uuid(id@),
{
    uuid::Uuid::new_v4().to_string()
}

/// Knows the connected peers by their virtual addresses, and answers for the daemon.
#[verifier::reject_recursive_types(C)]
pub struct ControlServiceImpl<C> {
    pub peers: StringHashMap<C>,
    pub local_vip: String,
}

impl<C> ControlServiceImpl<C> {
    /// Starts with no peer.
    pub fn new(local_vip: String) -> (service: Self)
        ensures
            service.peers@ == Map::<Seq<char>, C>::empty(),
            service.local_vip == local_vip,
    {
        ControlServiceImpl { peers: StringHashMap::new(), local_vip }
    }

    /// Notes the connection to a peer. A later connection takes the place of an earlier one.
    pub fn register_peer(&mut self, vip: String, connection: C)
        ensures
            final(self).peers@ == old(self).peers@.insert(vip@, connection),
            final(self).local_vip == old(self).local_vip,
    {
        self.peers.insert(vip, connection);
    }

    /// The state of the daemon.
    pub fn get_status(&self) -> (report: StatusReport)
        ensures
            report.virtual_ip@ == self.local_vip@,
            report.is_active,
            report.active_peers == self.peers@.len() as i32,
    {
        StatusReport {
            virtual_ip: self.local_vip.clone(),
            is_active: true,
            active_peers: self.peers.len() as i32,
        }
    }

    /// The connection over which a file goes to a peer, and a new name for the transfer.
    pub fn initiate_send(&self, peer_virtual_ip: &str) -> (accepted: Result<
        (&C, String),
        SendRefusal,
    >)
        ensures
            match accepted {
                Ok((connection, transfer_id)) => {
                    &&& self.peers@.contains_key(peer_virtual_ip@)
                    &&& *connection == self.peers@[peer_virtual_ip@]
                    &&& is_random_uuid(transfer_id@)
                },
                Err(SendRefusal::NotConnected(vip)) => !self.peers@.contains_key(peer_virtual_ip@)
                    && vip@ == peer_virtual_ip@,
            },
    {
        match self.peers.get(peer_virtual_ip) {
            Some(connection) => Ok((connection, draw_transfer_id())),
            None => Err(SendRefusal::NotConnected(String::from_str(peer_virtual_ip))),
        }
    }
}

} // verus!
