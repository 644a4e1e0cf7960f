//! Meeting a peer: whom to probe, whom to dial, whom to let in.

use crate::crypto::key_text::{
    decode, encodable, encode, law_text_tells_keys_apart, text_of,
};
use crate::traversal::address::{Endpoint, IpAddress};
use crate::traversal::signaling::{PeerFound, RegisterNode};
use vstd::prelude::*;

verus! {

/// The code under which a connection from an unknown node is closed.
pub const UNAUTHORIZED_CODE: u32 = 4001;

/// The reason that goes with it.
pub const UNAUTHORIZED_REASON: &'static str = "Unauthorized Node Public Key";

/// How long to wait between probing and dialing, in milliseconds.
pub const SETTLE_MILLIS: u64 = 100;

/// What to do about a peer besides probing it.
pub enum DialPlan {
    /// Nothing: it is not the peer that the node was started for.
    Wait,
    /// Nothing: its name is no public key.
    BadKey,
    /// Try these endpoints in order until one answers, and expect this public key there.
    Dial { candidates: Vec<Endpoint>, key: Vec<u8> },
}

/// What to do about a peer that the signaling server told of.
pub struct Rendezvous {
    /// Around which endpoint to probe.
    pub probe: Endpoint,
    /// What to do then.
    pub dial: DialPlan,
}

/// The port that a number of the server stands for: its lower 16 bits.
pub open spec fn low_port(port: u32) -> u16 {
    (port % 0x1_0000) as u16
}

/// Whether the node was started for the peer of this name.
pub open spec fn is_target(filter: Option<String>, node_id: Seq<char>) -> bool {
    filter matches Some(wanted) && wanted@ == node_id
}

/// Plans the meeting with a peer. `public_ip` and `local_ip` are its addresses, where they could be
/// read. Without a public address there is nothing to do. The peer's own network is tried before
/// the public address; a local address that could not be read counts as the public one.
pub fn plan_rendezvous(
    peer: &PeerFound,
    public_ip: Option<IpAddress>,
    local_ip: Option<IpAddress>,
    filter: &Option<String>,
) -> (plan: Option<Rendezvous>)
    ensures
        plan is Some <==> public_ip is Some,
        plan matches Some(plan) ==> {
            let port = low_port(peer.public_port);
            let public = Endpoint { ip: public_ip->0, port };
            let lan = Endpoint {
                ip: match local_ip {
                    Some(ip) => ip,
                    None => public_ip->0,
                },
                port,
            };
            &&& plan.probe == public
            &&& match plan.dial {
                DialPlan::Wait => !is_target(*filter, peer.target_node_id@),
                DialPlan::BadKey => is_target(*filter, peer.target_node_id@) && forall|
                    key: Seq<u8>,
                | #[trigger]
                    text_of(key) != peer.target_node_id@,
                DialPlan::Dial { candidates, key } => is_target(*filter, peer.target_node_id@)
                    && candidates@ == seq![lan, public] && text_of(key@) == peer.target_node_id@,
            }
        },
        plan matches Some(plan) ==> (peer.public_port <= 65_535 ==> plan.probe.port
            == peer.public_port && (plan.dial matches DialPlan::Dial { candidates, .. }
            ==> forall|i: int|
            0 <= i < candidates@.len() ==> (#[trigger] candidates@[i]).port == peer.public_port)),
{
    let target_ip = match public_ip {
        Some(ip) => ip,
        None => {
            return None;
        },
    };
    let port: u16 = (peer.public_port % 0x1_0000) as u16;
    let public = Endpoint { ip: target_ip, port };
    let ours: bool = match filter {
        Some(wanted) => *wanted == peer.target_node_id,
        None => false,
    };
    if !ours {
        return Some(Rendezvous { probe: public, dial: DialPlan::Wait });
    }
    let lan = Endpoint {
        ip: match local_ip {
            Some(ip) => ip,
            None => target_ip,
        },
        port,
    };
    match decode(peer.target_node_id.as_str()) {
        Ok(key) => {
            let candidates: Vec<Endpoint> = vec![lan, public];
            assert(candidates@ =~= seq![lan, public]);
            Some(Rendezvous { probe: public, dial: DialPlan::Dial { candidates, key } })
        },
        Err(_) => Some(Rendezvous { probe: public, dial: DialPlan::BadKey }),
    }
}

/// The name of a node: its public key as text.
pub fn node_id(public_key: &[u8]) -> (id: String)
    requires
        encodable(public_key@.len()),
    ensures
        id@ == text_of(public_key@),
{
    encode(public_key)
}

/// Whether a node that dialed in and proved to hold `remote_pub` is let in: any node is, unless
/// this one was started for a certain peer.
pub fn is_authorized(filter: &Option<String>, remote_pub: &[u8]) -> (allowed: bool)
    requires
        encodable(remote_pub@.len()),
    ensures
        allowed == (filter is None || is_target(*filter, text_of(remote_pub@))),
{
    let remote_id = encode(remote_pub);
    match filter {
        Some(wanted) => *wanted == remote_id,
        None => true,
    }
}

/// A node that was started for a certain peer lets in that peer and no other node.
pub proof fn law_only_the_wanted_node_is_let_in(
    filter: Option<String>,
    wanted: Seq<u8>,
    remote: Seq<u8>,
)
    requires
        is_target(filter, text_of(wanted)),
    ensures
        is_target(filter, text_of(remote)) <==> remote == wanted,
{
    if is_target(filter, text_of(remote)) {
        law_text_tells_keys_apart(remote, wanted);
    }
}

/// A port that the server tells of is the port that is meant: every number up to 65535 stands for
/// itself, and a larger one for what is left when 65536 is taken off as often as it goes.
pub proof fn law_a_port_stands_for_itself(port: u32)
    ensures
        port <= 65_535 ==> low_port(port) == port,
        port >= 65_536 ==> low_port(port) == low_port((port - 65_536) as u32),
{
}

/// The port under which a node registers is the port that its peers probe and dial.
pub proof fn law_a_registered_port_is_the_port_that_is_dialed(
    registered: RegisterNode,
    local_port: u16,
    peer: PeerFound,
)
    requires
        registered.public_port == local_port,
        peer.public_port == registered.public_port,
    ensures
        low_port(peer.public_port) == local_port,
{
}

/// A node was started for a peer exactly if the name it was given is the name of the peer, letter
/// by letter; without a name it was started for none.
pub proof fn law_a_target_is_named_in_full(filter: Option<String>, node_id: Seq<char>)
    ensures
        filter is None ==> !is_target(filter, node_id),
        filter matches Some(wanted) ==> (is_target(filter, node_id) <==> wanted@.len()
            == node_id.len() && forall|i: int|
            0 <= i < node_id.len() ==> wanted@[i] == node_id[i]),
{
    if let Some(wanted) = filter {
        if wanted@.len() == node_id.len() && (forall|i: int|
            0 <= i < node_id.len() ==> wanted@[i] == node_id[i]) {
            assert(wanted@ =~= node_id);
        }
    }
}

} // verus!
