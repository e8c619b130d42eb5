//! The ordered registry of peer configurations.
//!
//! A registry is built once per load by appending resolved peers in
//! record order; it is handed off whole and read through a borrowed
//! snapshot, never mutated afterwards.  Name uniqueness is deliberately
//! not enforced at insertion: the whole-registry duplicate pass decides
//! whether a load fails, so that decision is made in one place.

use vstd::prelude::*;
use crate::peer::{DefaultBgpPeer, PeerView};

verus! {

/// The capability contract of a registry under construction: ordered
/// insertion while a load runs, and a read-only snapshot afterwards.
/// One canonical implementation exists today.
pub trait BgpConfig {
    /// The mathematical value this registry holds.
    spec fn config_view(&self) -> Seq<PeerView>;

    /// A read-only ordered snapshot of the current peers, in the order
    /// they were added.
    fn peers(&self) -> (r: &Vec<DefaultBgpPeer>)
        ensures
            r@.len() == self.config_view().len(),
            forall|i: int| 0 <= i < r@.len() ==> r@[i]@ == self.config_view()[i],
    ;

    /// Appends a peer, preserving insertion order; duplicates are
    /// accepted here by design — the whole-registry pass decides.
    fn add_peer(&mut self, peer: DefaultBgpPeer)
        ensures
            final(self).config_view() == old(self).config_view().push(peer@),
    ;
}

/// An insertion-ordered collection of peer configurations.
#[derive(Debug)]
pub struct DefaultBgpConfig {
    peers: Vec<DefaultBgpPeer>,
}

impl View for DefaultBgpConfig {
    type V = Seq<PeerView>;

    closed spec fn view(&self) -> Seq<PeerView> {
        Seq::new(self.peers@.len(), |i: int| self.peers@[i]@)
    }
}

impl DefaultBgpConfig {
    /// An empty registry.
    pub fn new() -> (r: DefaultBgpConfig)
        ensures
            r@ == Seq::<PeerView>::empty(),
    {
        let r = DefaultBgpConfig { peers: Vec::new() };
        proof {
            assert(r@ =~= Seq::<PeerView>::empty());
        }
        r
    }
}

impl BgpConfig for DefaultBgpConfig {
    open spec fn config_view(&self) -> Seq<PeerView> {
        self@
    }

    fn add_peer(&mut self, peer: DefaultBgpPeer)
        ensures
            final(self)@ == old(self)@.push(peer@),
    {
        let ghost p = peer@;
        self.peers.push(peer);
        proof {
            assert(self@ =~= old(self)@.push(p));
        }
    }

    fn peers(&self) -> (r: &Vec<DefaultBgpPeer>)
        ensures
            r@.len() == self@.len(),
            forall|i: int| 0 <= i < r@.len() ==> r@[i]@ == self@[i],
    {
        &self.peers
    }
}

} // verus!
