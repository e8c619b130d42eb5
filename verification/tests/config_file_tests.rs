use bgp_config::address::{Endpoint, IpAddress};
use bgp_config::as_number::AsNumber;
use bgp_config::config_file::{BgpPeerConfig, ConfigFile};
use bgp_config::errors::ConfigError;
use bgp_config::peer::{BgpPeer, ConnectionEstablishmentMode};
use bgp_config::registry::{BgpConfig, DefaultBgpConfig};

fn record(
    name: &str,
    local: &str,
    peer: &str,
    local_as: u32,
    remote_as: u32,
    mode: ConnectionEstablishmentMode,
) -> BgpPeerConfig {
    BgpPeerConfig {
        peer_name: name.to_string(),
        local_address: local.to_string(),
        local_port: None,
        peer_address: peer.to_string(),
        peer_port: None,
        local_as_number: local_as,
        remote_as_number: remote_as,
        connection_establishment_mode: mode,
    }
}

#[test]
fn resolves_explicit_ports() {
    let mut r = record(
        "n1",
        "10.0.0.1",
        "10.0.0.2",
        65000,
        65001,
        ConnectionEstablishmentMode::Active,
    );
    r.local_port = Some(1790);
    r.peer_port = Some(2790);
    let peer = ConfigFile::parse_bgp_peer_config(&r).expect("record should resolve");
    assert_eq!(
        peer.local_address(),
        Endpoint { address: IpAddress::V4(10, 0, 0, 1), port: 1790 }
    );
    assert_eq!(
        peer.peer_address(),
        Endpoint { address: IpAddress::V4(10, 0, 0, 2), port: 2790 }
    );
}

#[test]
fn defaults_missing_ports_to_179() {
    let r = record(
        "n1",
        "10.0.0.1",
        "fe80::1",
        65000,
        65001,
        ConnectionEstablishmentMode::Passive,
    );
    let peer = ConfigFile::parse_bgp_peer_config(&r).expect("record should resolve");
    assert_eq!(peer.local_address().port, 179);
    assert_eq!(peer.peer_address().port, 179);
    assert_eq!(
        peer.peer_address().address,
        IpAddress::V6(0xfe80, 0, 0, 0, 0, 0, 0, 1)
    );
    assert_eq!(peer.connection_mode(), ConnectionEstablishmentMode::Passive);
}

#[test]
fn port_zero_is_passed_through() {
    let mut r = record(
        "n1",
        "10.0.0.1",
        "10.0.0.2",
        65000,
        65001,
        ConnectionEstablishmentMode::Active,
    );
    r.peer_port = Some(0);
    let peer = ConfigFile::parse_bgp_peer_config(&r).expect("record should resolve");
    assert_eq!(peer.peer_address().port, 0);
}

#[test]
fn normalizes_as_numbers() {
    let r = record(
        "n1",
        "10.0.0.1",
        "10.0.0.2",
        65000,
        131072,
        ConnectionEstablishmentMode::Active,
    );
    let peer = ConfigFile::parse_bgp_peer_config(&r).expect("record should resolve");
    assert_eq!(peer.local_as_number(), AsNumber::Small(65000));
    assert_eq!(peer.remote_as_number(), AsNumber::Extended(131072));
    assert_eq!(peer.name().as_str(), "n1");
}

#[test]
fn empty_name_is_rejected() {
    let r = record(
        "",
        "10.0.0.1",
        "10.0.0.2",
        65000,
        65001,
        ConnectionEstablishmentMode::Active,
    );
    match ConfigFile::parse_bgp_peer_config(&r) {
        Err(ConfigError::EmptyPeerName) => {},
        _ => panic!("empty peer name should be rejected"),
    }
}

#[test]
fn bad_address_is_rejected_with_its_literal() {
    let r = record(
        "n1",
        "10.0.0.1",
        "no-such-host.example",
        65000,
        65001,
        ConnectionEstablishmentMode::Active,
    );
    match ConfigFile::parse_bgp_peer_config(&r) {
        Err(ConfigError::AddressParseError { literal }) => {
            assert_eq!(literal, "no-such-host.example");
        },
        _ => panic!("unparseable address should be rejected"),
    }
}

#[test]
fn error_messages_name_the_offender() {
    let err = ConfigError::AddressParseError { literal: "bad".to_string() };
    assert_eq!(err.message(), "Cannot parse IP address bad");
    let err = ConfigError::DuplicateName { name: "A".to_string() };
    assert_eq!(err.message(), "Duplicate peer definition A");
    assert_eq!(ConfigError::EmptyPeerName.message(), "Empty peer name found");
}

fn names(registry: &DefaultBgpConfig) -> Vec<String> {
    registry.peers().iter().map(|p| p.name().clone()).collect()
}

#[test]
fn distinct_names_load_in_insertion_order() {
    let config = ConfigFile {
        peers: vec![
            record("A", "10.0.0.1", "10.0.0.2", 1, 2, ConnectionEstablishmentMode::Active),
            record("B", "10.0.0.3", "10.0.0.4", 3, 4, ConnectionEstablishmentMode::Passive),
        ],
    };
    let registry = ConfigFile::parse_config_file(&config).expect("load should succeed");
    assert_eq!(names(&registry), vec!["A".to_string(), "B".to_string()]);
}

#[test]
fn duplicate_names_fail_the_whole_load() {
    let config = ConfigFile {
        peers: vec![
            record("A", "10.0.0.1", "10.0.0.2", 1, 2, ConnectionEstablishmentMode::Active),
            record("A", "10.0.0.3", "10.0.0.4", 3, 4, ConnectionEstablishmentMode::Passive),
        ],
    };
    match ConfigFile::parse_config_file(&config) {
        Err(ConfigError::DuplicateName { name }) => assert_eq!(name, "A"),
        _ => panic!("duplicate names should fail the load"),
    }
}

#[test]
fn invalid_records_are_skipped_but_siblings_load() {
    let config = ConfigFile {
        peers: vec![
            record("A", "10.0.0.1", "10.0.0.2", 1, 2, ConnectionEstablishmentMode::Active),
            record("", "10.0.0.5", "10.0.0.6", 5, 6, ConnectionEstablishmentMode::Active),
            record("B", "bogus", "10.0.0.4", 3, 4, ConnectionEstablishmentMode::Passive),
            record("C", "10.0.0.7", "10.0.0.8", 7, 8, ConnectionEstablishmentMode::Active),
        ],
    };
    let registry = ConfigFile::parse_config_file(&config).expect("load should succeed");
    assert_eq!(names(&registry), vec!["A".to_string(), "C".to_string()]);
}

#[test]
fn dropped_record_cannot_mask_a_duplicate() {
    let config = ConfigFile {
        peers: vec![
            record(
                "A",
                "10.0.0.1",
                "10.0.0.2",
                65000,
                65001,
                ConnectionEstablishmentMode::Active,
            ),
            record("", "10.0.0.5", "10.0.0.6", 5, 6, ConnectionEstablishmentMode::Active),
            record("A", "10.0.0.3", "10.0.0.4", 1, 2, ConnectionEstablishmentMode::Passive),
        ],
    };
    match ConfigFile::parse_config_file(&config) {
        Err(ConfigError::DuplicateName { name }) => assert_eq!(name, "A"),
        _ => panic!("the two remaining records share a name; the load must fail"),
    }
}

#[test]
fn peers_snapshot_keeps_add_order_and_is_stable() {
    let r1 = record("A", "10.0.0.1", "10.0.0.2", 1, 2, ConnectionEstablishmentMode::Active);
    let r2 = record("B", "10.0.0.3", "10.0.0.4", 3, 4, ConnectionEstablishmentMode::Passive);
    let mut registry = DefaultBgpConfig::new();
    registry.add_peer(ConfigFile::parse_bgp_peer_config(&r1).expect("resolves"));
    registry.add_peer(ConfigFile::parse_bgp_peer_config(&r2).expect("resolves"));
    let first = names(&registry);
    let second = names(&registry);
    assert_eq!(first, vec!["A".to_string(), "B".to_string()]);
    assert_eq!(first, second);
}
