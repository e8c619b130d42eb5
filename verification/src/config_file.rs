//! Turning raw decoded records into a validated registry.
//!
//! Per record: an empty name or an unparseable address literal drops
//! that record alone; everything else is resolved (ports defaulted,
//! AS numbers normalized) into a peer that is appended in record
//! order.  After all records, a single whole-registry pass fails the
//! load if any peer name occurs twice — a structural ambiguity that
//! must not be resolved silently — naming the first offender.

use vstd::prelude::*;
use crate::address::{Endpoint, IpAddress};
use crate::as_number::{normalized_as, AsNumber};
use crate::errors::ConfigError;
use crate::ip_literal::{parse_ip, parse_ip_literal};
use crate::peer::{BgpPeer, ConnectionEstablishmentMode, DefaultBgpPeer, PeerView};
use crate::registry::{BgpConfig, DefaultBgpConfig};

verus! {

/// The standard service port of the protocol, used when a record names
/// no port.
pub const BGP_PORT_NUMBER: u16 = 179;

/// One raw decoded configuration record, exactly as the outer decoder
/// hands it over; nothing here is validated yet.
pub struct BgpPeerConfig {
    pub peer_name: String,
    pub local_address: String,
    pub local_port: Option<u16>,
    pub peer_address: String,
    pub peer_port: Option<u16>,
    pub local_as_number: u32,
    pub remote_as_number: u32,
    pub connection_establishment_mode: ConnectionEstablishmentMode,
}

/// A whole decoded configuration file: an ordered list of records.
pub struct ConfigFile {
    pub peers: Vec<BgpPeerConfig>,
}

/// The port a record names, or the standard port where it names none.
pub open spec fn effective_port(p: Option<u16>) -> u16 {
    match p {
        Some(v) => v,
        None => BGP_PORT_NUMBER,
    }
}

/// The peer a record resolves to, or `None` if the record is dropped:
/// a record resolves exactly when its name is non-empty and both
/// address fields are IP-address literals.
pub open spec fn resolved_peer(c: BgpPeerConfig) -> Option<PeerView> {
    if c.peer_name@.len() == 0 {
        None
    } else {
        match (parse_ip(c.local_address@), parse_ip(c.peer_address@)) {
            (Some(la), Some(pa)) => Some(
                PeerView {
                    name: c.peer_name@,
                    peer_address: Endpoint { address: pa, port: effective_port(c.peer_port) },
                    local_address: Endpoint { address: la, port: effective_port(c.local_port) },
                    remote_as_number: normalized_as(c.remote_as_number),
                    local_as_number: normalized_as(c.local_as_number),
                    connection_mode: c.connection_establishment_mode,
                },
            ),
            _ => None,
        }
    }
}

/// The peers that a record sequence resolves to, in record order,
/// dropped records left out.
pub open spec fn resolved_peers(rs: Seq<BgpPeerConfig>) -> Seq<PeerView>
    decreases rs.len(),
{
    if rs.len() == 0 {
        Seq::empty()
    } else {
        resolved_peers(rs.drop_last()) + (match resolved_peer(rs.last()) {
            Some(p) => seq![p],
            None => Seq::<PeerView>::empty(),
        })
    }
}

/// Peer `j` repeats the name of an earlier peer.
pub open spec fn dup_at(ps: Seq<PeerView>, j: int) -> bool {
    exists|i: int| 0 <= i < j && ps[i].name == ps[j].name
}

/// Some peer name occurs more than once.
pub open spec fn has_duplicate(ps: Seq<PeerView>) -> bool {
    exists|j: int| 0 < j < ps.len() && dup_at(ps, j)
}

/// Peer `j` is the first that repeats an earlier peer's name.
pub open spec fn is_first_dup(ps: Seq<PeerView>, j: int) -> bool {
    0 < j < ps.len() && dup_at(ps, j) && (forall|k: int| 0 <= k < j ==> !dup_at(ps, k))
}

impl ConfigFile {
    /// Resolves an address literal and pairs it with a port.
    pub fn parse_sock_addr(addr: &String, port: u16) -> (r: Result<Endpoint, ConfigError>)
        ensures
            parse_ip(addr@) matches Some(a) ==> (r matches Ok(ep) && ep == (Endpoint {
                address: a,
                port,
            })),
            parse_ip(addr@) is None ==> (r matches Err(e) && e matches
                ConfigError::AddressParseError { literal } && literal@ == addr@),
    {
        match parse_ip_literal(addr.as_str()) {
            Some(a) => Ok(Endpoint::new(a, port)),
            None => Err(ConfigError::AddressParseError { literal: addr.clone() }),
        }
    }

    /// Resolves one record into a peer, or says why it is dropped:
    /// an empty name first, then the local address, then the peer
    /// address.
    pub fn parse_bgp_peer_config(config: &BgpPeerConfig) -> (r: Result<
        DefaultBgpPeer,
        ConfigError,
    >)
        ensures
            r is Ok <==> resolved_peer(*config) is Some,
            r matches Ok(peer) ==> resolved_peer(*config) == Some(peer@),
            config.peer_name@.len() == 0 ==> (r matches Err(e) && e matches
                ConfigError::EmptyPeerName),
            config.peer_name@.len() > 0 && parse_ip(config.local_address@) is None ==> (r matches
                Err(e) && e matches ConfigError::AddressParseError { literal } && literal@
                == config.local_address@),
            config.peer_name@.len() > 0 && parse_ip(config.local_address@) is Some && parse_ip(
                config.peer_address@,
            ) is None ==> (r matches Err(e) && e matches ConfigError::AddressParseError { literal }
                && literal@ == config.peer_address@),
    {
        if config.peer_name.as_str().unicode_len() == 0 {
            return Err(ConfigError::EmptyPeerName);
        }
        let local_port = match config.local_port {
            Some(port) => port,
            None => BGP_PORT_NUMBER,
        };
        let local_addr = match Self::parse_sock_addr(&config.local_address, local_port) {
            Ok(sock_addr) => sock_addr,
            Err(err) => return Err(err),
        };
        let peer_port = match config.peer_port {
            Some(port) => port,
            None => BGP_PORT_NUMBER,
        };
        let peer_addr = match Self::parse_sock_addr(&config.peer_address, peer_port) {
            Ok(sock_addr) => sock_addr,
            Err(err) => return Err(err),
        };
        Ok(
            DefaultBgpPeer::new(
                peer_addr,
                local_addr,
                AsNumber::from(config.remote_as_number),
                AsNumber::from(config.local_as_number),
                config.connection_establishment_mode,
                config.peer_name.as_str(),
            ),
        )
    }

    /// Loads a whole file: resolves the records in order, then fails
    /// the load if any peer name occurs twice, naming the first
    /// offender; otherwise returns the registry.
    pub fn parse_config_file(config: &ConfigFile) -> (r: Result<DefaultBgpConfig, ConfigError>)
        ensures
            r is Ok <==> !has_duplicate(resolved_peers(config.peers@)),
            r matches Ok(reg) ==> reg@ == resolved_peers(config.peers@),
            r matches Err(e) ==> (e matches ConfigError::DuplicateName { name } && (exists|j: int|
                #[trigger] is_first_dup(resolved_peers(config.peers@), j) && name@
                == resolved_peers(config.peers@)[j].name)),
    {
        let ghost all = config.peers@;
        let mut bgp_config = DefaultBgpConfig::new();
        let mut idx: usize = 0;
        proof {
            assert(all.subrange(0, 0) =~= Seq::<BgpPeerConfig>::empty());
        }
        while idx < config.peers.len()
            invariant
                idx <= all.len(),
                all == config.peers@,
                bgp_config@ == resolved_peers(all.subrange(0, idx as int)),
            decreases all.len() - idx,
        {
            match Self::parse_bgp_peer_config(&config.peers[idx]) {
                Ok(bgp_peer) => {
                    bgp_config.add_peer(bgp_peer);
                },
                Err(_) => {},
            }
            proof {
                assert(all.subrange(0, idx + 1).drop_last() =~= all.subrange(0, idx as int));
                assert(all.subrange(0, idx + 1).last() == all[idx as int]);
                if resolved_peer(all[idx as int]) is None {
                    assert(resolved_peers(all.subrange(0, idx as int))
                        + Seq::<PeerView>::empty() =~= resolved_peers(
                        all.subrange(0, idx as int),
                    ));
                }
            }
            idx = idx + 1;
        }
        proof {
            assert(all.subrange(0, all.len() as int) =~= all);
        }
        let ghost ps = resolved_peers(all);
        let peers_vec = bgp_config.peers();
        let n = peers_vec.len();
        let mut j: usize = 1;
        while j < n
            invariant
                1 <= j,
                n == ps.len(),
                ps == resolved_peers(config.peers@),
                bgp_config@ == ps,
                peers_vec@.len() == n,
                forall|i: int| 0 <= i < n ==> peers_vec@[i]@ == ps[i],
                forall|jj: int| 0 < jj < j ==> !dup_at(ps, jj),
            decreases n - j,
        {
            let mut i: usize = 0;
            while i < j
                invariant
                    i <= j,
                    j < n,
                    n == ps.len(),
                    ps == resolved_peers(config.peers@),
                    peers_vec@.len() == n,
                    forall|k: int| 0 <= k < n ==> peers_vec@[k]@ == ps[k],
                    forall|jj: int| 0 < jj < j ==> !dup_at(ps, jj),
                    forall|ii: int| 0 <= ii < i ==> ps[ii].name != ps[j as int].name,
                decreases j - i,
            {
                if peers_vec[i].name().eq(peers_vec[j].name()) {
                    let offender = peers_vec[j].name().clone();
                    proof {
                        assert(0 <= i as int && (i as int) < (j as int) && ps[i as int].name
                            == ps[j as int].name);
                        assert(dup_at(ps, j as int));
                        assert(forall|k: int| 0 <= k < j as int ==> !dup_at(ps, k));
                        assert(is_first_dup(ps, j as int));
                        assert(has_duplicate(ps));
                    }
                    return Err(ConfigError::DuplicateName { name: offender });
                }
                i = i + 1;
            }
            proof {
                assert(!dup_at(ps, j as int));
            }
            j = j + 1;
        }
        proof {
            assert(!has_duplicate(ps));
        }
        Ok(bgp_config)
    }
}

/// Law: a record with a non-empty name and two valid address literals
/// resolves to exactly those addresses; each endpoint carries the
/// record's explicit port, or the standard port 179 where the record
/// names none.
pub proof fn lemma_endpoint_resolution(c: BgpPeerConfig)
    requires
        c.peer_name@.len() > 0,
        parse_ip(c.local_address@) is Some,
        parse_ip(c.peer_address@) is Some,
    ensures
        resolved_peer(c) matches Some(p) && parse_ip(c.local_address@) == Some(
            p.local_address.address,
        ) && parse_ip(c.peer_address@) == Some(p.peer_address.address),
        (c.local_port matches Some(pt) ==> (resolved_peer(c) matches Some(p)
            && p.local_address.port == pt)),
        (c.local_port is None ==> (resolved_peer(c) matches Some(p) && p.local_address.port
            == 179)),
        (c.peer_port matches Some(pt) ==> (resolved_peer(c) matches Some(p) && p.peer_address.port
            == pt)),
        (c.peer_port is None ==> (resolved_peer(c) matches Some(p) && p.peer_address.port == 179)),
{
}

/// Law: of two records that both resolve, identical names make the
/// resolved sequence carry a duplicate, and distinct names make the
/// load's resolved sequence hold both peers in record order.
pub proof fn lemma_duplicate_names(r1: BgpPeerConfig, r2: BgpPeerConfig, p1: PeerView, p2: PeerView)
    requires
        resolved_peer(r1) == Some(p1),
        resolved_peer(r2) == Some(p2),
    ensures
        resolved_peers(seq![r1, r2]) == seq![p1, p2],
        p1.name == p2.name ==> has_duplicate(resolved_peers(seq![r1, r2])),
        p1.name != p2.name ==> !has_duplicate(resolved_peers(seq![r1, r2])),
{
    let rs = seq![r1, r2];
    assert(rs.drop_last() =~= seq![r1]);
    assert(seq![r1].drop_last() =~= Seq::<BgpPeerConfig>::empty());
    assert(resolved_peers(Seq::<BgpPeerConfig>::empty()) =~= Seq::<PeerView>::empty());
    assert(seq![r1].last() == r1);
    assert(resolved_peers(seq![r1]) =~= seq![p1]);
    let ps = resolved_peers(rs);
    assert(ps =~= seq![p1, p2]);
    if p1.name == p2.name {
        assert(ps[0].name == ps[1].name);
        assert(dup_at(ps, 1));
        assert(has_duplicate(ps));
    }
    if p1.name != p2.name {
        assert forall|j: int| 0 < j < ps.len() implies !dup_at(ps, j) by {
            assert(j == 1);
            assert forall|i: int| 0 <= i < 1 implies #[trigger] ps[i].name != ps[1].name by {
                assert(i == 0);
            }
        }
    }
}

/// Resolution distributes over concatenation of record sequences.
pub proof fn lemma_resolved_peers_concat(a: Seq<BgpPeerConfig>, b: Seq<BgpPeerConfig>)
    ensures
        resolved_peers(a + b) == resolved_peers(a) + resolved_peers(b),
    decreases b.len(),
{
    if b.len() == 0 {
        assert(a + b =~= a);
        assert(resolved_peers(a) + resolved_peers(b) =~= resolved_peers(a));
    } else {
        lemma_resolved_peers_concat(a, b.drop_last());
        assert((a + b).drop_last() =~= a + b.drop_last());
        assert((a + b).last() == b.last());
        match resolved_peer(b.last()) {
            Some(p) => {
                assert(resolved_peers(a + b) =~= resolved_peers(a) + resolved_peers(b));
            },
            None => {
                assert(resolved_peers(a + b) =~= resolved_peers(a) + resolved_peers(b));
            },
        }
    }
}

/// Law: a record that does not resolve is excluded from the result
/// while its sibling records still load, unchanged and in order.
pub proof fn lemma_dropped_record_excluded(
    before: Seq<BgpPeerConfig>,
    c: BgpPeerConfig,
    after: Seq<BgpPeerConfig>,
)
    requires
        resolved_peer(c) is None,
    ensures
        resolved_peers(before + seq![c] + after) == resolved_peers(before + after),
{
    lemma_resolved_peers_concat(before, seq![c]);
    lemma_resolved_peers_concat(before + seq![c], after);
    lemma_resolved_peers_concat(before, after);
    assert(seq![c].drop_last() =~= Seq::<BgpPeerConfig>::empty());
    assert(resolved_peers(Seq::<BgpPeerConfig>::empty()) =~= Seq::<PeerView>::empty());
    assert(seq![c].last() == c);
    assert(resolved_peers(seq![c]) =~= Seq::<PeerView>::empty());
    assert(resolved_peers(before) + resolved_peers(seq![c]) =~= resolved_peers(before));
}

/// Law: a record with an empty name never resolves.
pub proof fn lemma_empty_name_not_resolved(c: BgpPeerConfig)
    requires
        c.peer_name@.len() == 0,
    ensures
        resolved_peer(c) is None,
{
}

/// Law: a record whose address field matches neither IPv4 nor IPv6
/// literal syntax never resolves.
pub proof fn lemma_bad_address_not_resolved(c: BgpPeerConfig)
    requires
        parse_ip(c.local_address@) is None || parse_ip(c.peer_address@) is None,
    ensures
        resolved_peer(c) is None,
{
}

} // verus!
