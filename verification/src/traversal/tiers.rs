//! Finding out our public address, one way after the other, and making it known.

use crate::traversal::address::Endpoint;
use vstd::prelude::*;

verus! {

/// What happened after a [`TierAction`].
pub enum TierEvent {
    /// The router was asked for a mapping; with the endpoint, if it gave one.
    Mapped(Option<Endpoint>),
    /// A STUN server was asked; with our address, if it told.
    Discovered(Option<Endpoint>),
    /// Whether the signaling server took our registration.
    Registered(bool),
}

/// What is to be done next.
pub enum TierAction {
    /// Ask the router for a mapping.
    MapPort,
    /// Ask a STUN server.
    Discover,
    /// Register with the signaling server under this endpoint.
    Register(Endpoint),
    /// Ask the signaling server to bring us together with the peer we were started for.
    Dial,
    /// Nothing more.
    Done,
}

/// How a node makes itself known.
pub struct Tiers {
    local_port: u16,
    has_target: bool,
    mapped: bool,
}

impl Tiers {
    /// The port that the node listens on.
    pub closed spec fn local_port(self) -> u16 {
        self.local_port
    }

    /// Whether the node was started to reach a certain peer.
    pub closed spec fn has_target(self) -> bool {
        self.has_target
    }

    /// Whether the router has a mapping for us, to be released at the end.
    pub closed spec fn mapped(self) -> bool {
        self.mapped
    }

    /// Starts by asking the router.
    pub fn new(local_port: u16, has_target: bool) -> (started: (Self, TierAction))
        ensures
            started.0.local_port() == local_port,
            started.0.has_target() == has_target,
            !started.0.mapped(),
            started.1 is MapPort,
    {
        (Tiers { local_port, has_target, mapped: false }, TierAction::MapPort)
    }

    /// Takes what came of the last action, and says what is to be done next. A mapping of the
    /// router is our public endpoint; failing that, the address that a STUN server tells is, with
    /// the port that we listen on. Under neither, there is nothing to register. Once registered,
    /// the peer that the node was started for is dialed.
    pub fn step(&mut self, event: TierEvent) -> (action: TierAction)
        ensures
            final(self).local_port() == old(self).local_port(),
            final(self).has_target() == old(self).has_target(),
            final(self).mapped() == (old(self).mapped() || (event matches TierEvent::Mapped(e) && e
                is Some)),
            action == match event {
                TierEvent::Mapped(Some(endpoint)) => TierAction::Register(endpoint),
                TierEvent::Mapped(None) => TierAction::Discover,
                TierEvent::Discovered(Some(seen)) => TierAction::Register(
                    Endpoint { ip: seen.ip, port: old(self).local_port() },
                ),
                TierEvent::Discovered(None) => TierAction::Done,
                TierEvent::Registered(done) => if done && old(self).has_target() {
                    TierAction::Dial
                } else {
                    TierAction::Done
                },
            },
    {
        match event {
            TierEvent::Mapped(Some(endpoint)) => {
                self.mapped = true;
                TierAction::Register(endpoint)
            },
            TierEvent::Mapped(None) => TierAction::Discover,
            TierEvent::Discovered(Some(seen)) => TierAction::Register(
                Endpoint { ip: seen.ip, port: self.local_port },
            ),
            TierEvent::Discovered(None) => TierAction::Done,
            TierEvent::Registered(done) => {
                if done && self.has_target {
                    TierAction::Dial
                } else {
                    TierAction::Done
                }
            },
        }
    }

    /// Whether the router has a mapping for us that has to be released.
    pub fn is_mapped(&self) -> (mapped: bool)
        ensures
            mapped == self.mapped(),
    {
        self.mapped
    }
}

} // verus!
