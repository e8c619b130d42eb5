//! The immutable description of one remote peer.
//!
//! A peer value is built by the parser only, after every field has been
//! resolved; it carries no validation of its own and never changes once
//! constructed.

use vstd::prelude::*;
use crate::address::Endpoint;
use crate::as_number::AsNumber;

verus! {

/// Which side initiates the transport handshake: `Active` connects,
/// `Passive` waits for the remote side.
#[derive(Copy, Clone, PartialEq, Eq, Structural, Debug)]
pub enum ConnectionEstablishmentMode {
    Active,
    Passive,
}

/// The mathematical value of a peer configuration.
pub ghost struct PeerView {
    pub name: Seq<char>,
    pub peer_address: Endpoint,
    pub local_address: Endpoint,
    pub remote_as_number: AsNumber,
    pub local_as_number: AsNumber,
    pub connection_mode: ConnectionEstablishmentMode,
}

/// The capability contract of a peer configuration: read-only access
/// to every resolved field.  One canonical implementation exists
/// today; the interface leaves room for alternate sources later.
pub trait BgpPeer {
    /// The mathematical value this peer exposes.
    spec fn peer_view(&self) -> PeerView;

    /// The endpoint of the remote side.
    fn peer_address(&self) -> (r: Endpoint)
        ensures
            r == self.peer_view().peer_address,
    ;

    /// The endpoint of the local side.
    fn local_address(&self) -> (r: Endpoint)
        ensures
            r == self.peer_view().local_address,
    ;

    /// The AS number of the remote side.
    fn remote_as_number(&self) -> (r: AsNumber)
        ensures
            r == self.peer_view().remote_as_number,
    ;

    /// The AS number of the local side.
    fn local_as_number(&self) -> (r: AsNumber)
        ensures
            r == self.peer_view().local_as_number,
    ;

    /// The connection-establishment mode.
    fn connection_mode(&self) -> (r: ConnectionEstablishmentMode)
        ensures
            r == self.peer_view().connection_mode,
    ;

    /// The peer's name.
    fn name(&self) -> (r: &String)
        ensures
            r@ == self.peer_view().name,
    ;
}

/// The configuration of one remote peer: a name, the two endpoints of
/// the session, the two AS numbers, and the connection mode.
#[derive(Clone, Debug)]
pub struct DefaultBgpPeer {
    peer_address: Endpoint,
    local_address: Endpoint,
    remote_as_number: AsNumber,
    local_as_number: AsNumber,
    connection_mode: ConnectionEstablishmentMode,
    name: String,
}

impl View for DefaultBgpPeer {
    type V = PeerView;

    closed spec fn view(&self) -> PeerView {
        PeerView {
            name: self.name@,
            peer_address: self.peer_address,
            local_address: self.local_address,
            remote_as_number: self.remote_as_number,
            local_as_number: self.local_as_number,
            connection_mode: self.connection_mode,
        }
    }
}

impl DefaultBgpPeer {
    /// Builds a peer from fully resolved fields; no validation happens
    /// here.
    pub fn new(
        peer_address: Endpoint,
        local_address: Endpoint,
        remote_as_number: AsNumber,
        local_as_number: AsNumber,
        connection_mode: ConnectionEstablishmentMode,
        name: &str,
    ) -> (r: DefaultBgpPeer)
        ensures
            r@ == (PeerView {
                name: name@,
                peer_address,
                local_address,
                remote_as_number,
                local_as_number,
                connection_mode,
            }),
    {
        DefaultBgpPeer {
            peer_address,
            local_address,
            remote_as_number,
            local_as_number,
            connection_mode,
            name: String::from_str(name),
        }
    }

}

impl BgpPeer for DefaultBgpPeer {
    open spec fn peer_view(&self) -> PeerView {
        self@
    }

    fn peer_address(&self) -> (r: Endpoint) {
        self.peer_address
    }

    fn local_address(&self) -> (r: Endpoint) {
        self.local_address
    }

    fn remote_as_number(&self) -> (r: AsNumber) {
        self.remote_as_number
    }

    fn local_as_number(&self) -> (r: AsNumber) {
        self.local_as_number
    }

    fn connection_mode(&self) -> (r: ConnectionEstablishmentMode) {
        self.connection_mode
    }

    fn name(&self) -> (r: &String) {
        &self.name
    }
}

} // verus!
