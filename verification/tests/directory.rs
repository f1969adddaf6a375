use bully_election::directory::{enroll, find_peers, read_sighting, Discovery, Sighting};
use bully_election::monitor::{after_probe, is_alive, periodic_check, MonitorStep};
use bully_election::node::Node;
use bully_election::peer::{Address, PeerInfo};
use uuid::Uuid;

fn text(id: u128) -> String {
    Uuid::from_u128(id).to_string()
}

fn seen(address: u32, id: u128) -> Sighting {
    Sighting { address: Address::V4(address), reply: Some(text(id)) }
}

fn peer(address: u32, id: u128) -> PeerInfo {
    PeerInfo { id, address: Address::V4(address) }
}

#[test]
fn enroll_drops_self_and_the_silent() {
    assert_eq!(enroll(10, Address::V4(1), Some(20)), Some(peer(1, 20)));
    assert_eq!(enroll(10, Address::V6(1), Some(0)), Some(PeerInfo { id: 0, address: Address::V6(1) }));
    assert_eq!(enroll(10, Address::V4(1), Some(10)), None);
    assert_eq!(enroll(10, Address::V4(1), None), None);
}

#[test]
fn read_sighting_reads_the_identifier() {
    assert_eq!(read_sighting(&seen(1, 20)), Some(20));
    assert_eq!(read_sighting(&Sighting { address: Address::V4(1), reply: None }), None);
    let garbled = Sighting { address: Address::V4(1), reply: Some("<html>".to_string()) };
    assert_eq!(read_sighting(&garbled), None);
    let empty = Sighting { address: Address::V4(1), reply: Some(String::new()) };
    assert_eq!(read_sighting(&empty), None);
}

#[test]
fn find_peers_keeps_the_confirmed_in_order() {
    let sightings = vec![
        seen(1, 30),
        Sighting { address: Address::V4(2), reply: None },
        seen(3, 10),
        Sighting { address: Address::V4(4), reply: Some("not an id".to_string()) },
        seen(5, 20),
    ];
    assert_eq!(find_peers(10, &sightings), vec![peer(1, 30), peer(5, 20)]);
    assert_eq!(find_peers(99, &sightings), vec![peer(1, 30), peer(3, 10), peer(5, 20)]);
    assert_eq!(find_peers(10, &Vec::new()), Vec::<PeerInfo>::new());
}

#[test]
fn refresh_replaces_the_directory() {
    let mut node = Node::new(10, Address::V4(9));
    node.refresh(&vec![seen(1, 20), seen(2, 30)]);
    assert_eq!(node.known_peers(), &vec![peer(1, 20), peer(2, 30)]);
    node.refresh(&vec![seen(2, 30), seen(3, 40)]);
    assert_eq!(node.known_peers(), &vec![peer(2, 30), peer(3, 40)]);
    node.refresh(&Vec::new());
    assert!(node.known_peers().is_empty());
}

#[test]
fn refresh_touches_nothing_but_the_directory() {
    let mut node = Node::new(10, Address::V4(9));
    node.begin_election();
    node.finish_election(true);
    node.begin_election();
    node.refresh(&vec![seen(1, 20)]);
    assert_eq!(node.local(), peer(9, 10));
    assert_eq!(node.coordinator(), Some(peer(9, 10)));
    assert!(node.doing_election());
}

#[test]
fn failed_discovery_keeps_the_directory() {
    let mut node = Node::new(10, Address::V4(9));
    node.refresh(&vec![seen(1, 20)]);
    let step = periodic_check(&mut node, &Discovery::Failed);
    assert_eq!(step, MonitorStep::Elect);
    assert_eq!(node.known_peers(), &vec![peer(1, 20)]);
}

#[test]
fn monitor_elects_when_there_is_no_coordinator() {
    let mut node = Node::new(10, Address::V4(9));
    let step = periodic_check(&mut node, &Discovery::Found(vec![seen(1, 20)]));
    assert_eq!(step, MonitorStep::Elect);
    assert_eq!(node.known_peers(), &vec![peer(1, 20)]);
}

#[test]
fn monitor_probes_the_coordinator_it_follows() {
    let mut node = Node::new(10, Address::V4(9));
    node.refresh(&vec![seen(1, 20)]);
    node.accept_coordinator(20);
    let step = periodic_check(&mut node, &Discovery::Found(Vec::new()));
    assert_eq!(step, MonitorStep::Probe(peer(1, 20)));
    assert!(node.known_peers().is_empty());
    assert_eq!(node.coordinator(), Some(peer(1, 20)));
}

#[test]
fn is_alive_wants_the_canonical_identifier() {
    let candidate = peer(1, 0xa1a2a3a4b1b2c1c2d1d2d3d4d5d6d7d8);
    assert!(is_alive(&candidate, &Some("a1a2a3a4-b1b2-c1c2-d1d2-d3d4d5d6d7d8".to_string())));
    assert!(!is_alive(&candidate, &Some("A1A2A3A4-B1B2-C1C2-D1D2-D3D4D5D6D7D8".to_string())));
    assert!(!is_alive(&candidate, &Some("a1a2a3a4b1b2c1c2d1d2d3d4d5d6d7d8".to_string())));
    assert!(!is_alive(&candidate, &Some(text(20))));
    assert!(!is_alive(&candidate, &Some(String::new())));
    assert!(!is_alive(&candidate, &None));
}

#[test]
fn after_probe_elects_unless_confirmed() {
    let candidate = peer(1, 20);
    assert!(!after_probe(&candidate, &Some(text(20))));
    assert!(after_probe(&candidate, &Some(text(21))));
    assert!(after_probe(&candidate, &None));
}
