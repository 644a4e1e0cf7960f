//! The messages that are exchanged with the signaling server.

use vstd::prelude::*;
use vstd::string::StringExecFns;

verus! {

/// Makes a node known to the server.
#[derive(Debug, Clone)]
pub struct RegisterNode {
    pub node_id: String,
    pub public_ip: String,
    pub public_port: u32,
    pub local_ip: String,
}

/// Asks the server to bring two nodes together.
#[derive(Debug, Clone)]
pub struct DialPeer {
    pub my_node_id: String,
    pub target_node_id: String,
}

/// Tells a node where another one is.
#[derive(Debug, Clone)]
pub struct PeerFound {
    pub target_node_id: String,
    pub public_ip: String,
    pub public_port: u32,
    pub local_ip: String,
}

/// What a message says.
#[derive(Debug, Clone)]
pub enum Payload {
    Register(RegisterNode),
    Dial(DialPeer),
    PeerFound(PeerFound),
}

/// A message to or from the server.
#[derive(Debug, Clone)]
pub struct SignalMessage {
    pub payload: Option<Payload>,
}

/// The server's answer to a message.
#[derive(Debug, Clone)]
pub struct SignalResponse {
    pub success: bool,
    pub message: String,
}

/// Why a dial request came to nothing.
#[derive(Debug)]
pub enum DialError {
    /// The server rejected it, for this reason.
    Rejected(String),
}

impl DialError {
    /// What the failure is reported as.
    pub fn message(&self) -> (message: String)
        ensures
            self matches DialError::Rejected(reason) && message@
                == "Signaling server rejected dial: "@ + reason@,
    {
        match self {
            DialError::Rejected(reason) => {
                let mut message = String::from_str("Signaling server rejected dial: ");
                message.append(reason.as_str());
                message
            },
        }
    }
}

/// Speaks to the signaling server for a node.
pub struct SignalingClient {
    server_addr: String,
    node_id: String,
}

impl SignalingClient {
    /// Where the server is.
    pub closed spec fn server(self) -> Seq<char> {
        self.server_addr@
    }

    /// The name of the node.
    pub closed spec fn node(self) -> Seq<char> {
        self.node_id@
    }

    /// A client of the server at `server_addr` for the node `node_id`.
    pub fn new(server_addr: String, node_id: String) -> (client: Self)
        ensures
            client.server() == server_addr@,
            client.node() == node_id@,
    {
        SignalingClient { server_addr, node_id }
    }

    /// Where to connect to.
    pub fn server_addr(&self) -> (server_addr: &str)
        ensures
            server_addr@ == self.server(),
    {
        self.server_addr.as_str()
    }

    /// The message that registers the node under a public address.
    pub fn registration(&self, public_ip: String, public_port: u16, local_ip: String) -> (message:
        SignalMessage)
        ensures
            message.payload matches Some(Payload::Register(r)) && {
                &&& r.node_id@ == self.node()
                &&& r.public_ip@ == public_ip@
                &&& r.public_port == public_port
                &&& r.local_ip@ == local_ip@
            },
    {
        SignalMessage {
            payload: Some(
                Payload::Register(
                    RegisterNode {
                        node_id: self.node_id.clone(),
                        public_ip,
                        public_port: public_port as u32,
                        local_ip,
                    },
                ),
            ),
        }
    }

    /// The message that asks the server to bring the node together with another one.
    pub fn dial_request(&self, target_node_id: &str) -> (message: SignalMessage)
        ensures
            message.payload matches Some(Payload::Dial(d)) && d.my_node_id@ == self.node()
                && d.target_node_id@ == target_node_id@,
    {
        SignalMessage {
            payload: Some(
                Payload::Dial(
                    DialPeer {
                        my_node_id: self.node_id.clone(),
                        target_node_id: String::from_str(target_node_id),
                    },
                ),
            ),
        }
    }
}

/// The peer that a message from the server tells of, if it tells of one. Other messages are passed
/// over.
pub fn discovered_peer(message: SignalMessage) -> (peer: Option<PeerFound>)
    ensures
        peer == match message.payload {
            Some(Payload::PeerFound(found)) => Some(found),
            _ => None,
        },
{
    match message.payload {
        Some(Payload::PeerFound(found)) => Some(found),
        _ => None,
    }
}

/// What the server's answer to a dial request means.
pub fn dial_outcome(response: SignalResponse) -> (outcome: Result<(), DialError>)
    ensures
        outcome == if response.success {
            Ok(())
        } else {
            Err(DialError::Rejected(response.message))
        },
{
    if response.success {
        Ok(())
    } else {
        Err(DialError::Rejected(response.message))
    }
}

} // verus!
