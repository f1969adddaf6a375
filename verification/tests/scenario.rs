//! Whole rounds of the protocol between nodes that share an in-memory
//! network: every request is answered by the handler of the node it goes to.

use bully_election::directory::{Discovery, Sighting};
use bully_election::election::{election_reply, Verdict};
use bully_election::monitor::{after_probe, periodic_check, MonitorStep};
use bully_election::node::Node;
use bully_election::peer::{Address, PeerInfo};
use bully_election::rpc::{get_id, receive_coordinator, receive_election};

fn address_of(index: usize) -> Address {
    Address::V4(0x0a00_0001 + index as u32)
}

fn cluster(ids: &[u128]) -> Vec<Node> {
    let mut nodes: Vec<Node> = ids
        .iter()
        .enumerate()
        .map(|(index, id)| Node::new(*id, address_of(index)))
        .collect();
    discover_all(&mut nodes);
    nodes
}

/// Every node asks every address, its own included, and takes what came back.
fn discover_all(nodes: &mut Vec<Node>) {
    let bodies: Vec<String> = nodes.iter().map(get_id).collect();
    for node in nodes.iter_mut() {
        let sightings: Vec<Sighting> = bodies
            .iter()
            .enumerate()
            .map(|(index, body)| Sighting { address: address_of(index), reply: Some(body.clone()) })
            .collect();
        node.refresh(&sightings);
    }
}

fn index_of(nodes: &[Node], peer: &PeerInfo) -> usize {
    nodes.iter().position(|node| node.local() == *peer).expect("the peer is a member")
}

/// Runs one election of `nodes[who]` to its end. Returns the peers that were
/// challenged and the members that contested and so owe an election of their
/// own.
fn hold_election(nodes: &mut Vec<Node>, who: usize) -> (Vec<PeerInfo>, Vec<usize>) {
    let round = match nodes[who].begin_election() {
        Some(round) => round,
        None => return (Vec::new(), Vec::new()),
    };
    let sender = get_id(&nodes[who]);
    let targets = round.targets();
    let mut replies: Vec<Option<String>> = Vec::new();
    let mut contesting: Vec<usize> = Vec::new();
    for target in &targets {
        let at = index_of(nodes, target);
        let contest = receive_election(&nodes[at], &sender).expect("a canonical identifier");
        if contest {
            contesting.push(at);
        }
        replies.push(Some(election_reply(contest).to_string()));
    }
    let verdict = round.conclude(&replies);
    let won = verdict.is_won();
    if let Verdict::Lead { announce_to } = verdict {
        for peer in &announce_to {
            let at = index_of(nodes, peer);
            receive_coordinator(&mut nodes[at], &sender).expect("a canonical identifier");
        }
    }
    nodes[who].finish_election(won);
    (targets, contesting)
}

fn coordinator_ids(nodes: &[Node]) -> Vec<Option<u128>> {
    nodes.iter().map(|node| node.coordinator().map(|peer| peer.id)).collect()
}

#[test]
fn lowest_of_three_challenges_both_and_defers() {
    let mut nodes = cluster(&[10, 20, 30]);
    let (targets, contesting) = hold_election(&mut nodes, 0);
    let challenged: Vec<u128> = targets.iter().map(|peer| peer.id).collect();
    assert_eq!(challenged, vec![20, 30]);
    assert_eq!(contesting, vec![1, 2]);
    assert_eq!(nodes[0].coordinator(), None);
    assert!(!nodes[0].doing_election());
    assert_eq!(coordinator_ids(&nodes), vec![None, None, None]);
}

#[test]
fn highest_of_three_challenges_nobody_and_leads() {
    let mut nodes = cluster(&[10, 20, 30]);
    let (targets, contesting) = hold_election(&mut nodes, 2);
    assert!(targets.is_empty());
    assert!(contesting.is_empty());
    assert_eq!(coordinator_ids(&nodes), vec![Some(30), Some(30), Some(30)]);
    assert_eq!(nodes[0].coordinator(), Some(nodes[2].local()));
    assert_eq!(nodes[1].coordinator(), Some(nodes[2].local()));
    assert_eq!(nodes[2].coordinator(), Some(nodes[2].local()));
}

#[test]
fn election_of_the_lowest_ends_with_the_highest_leading() {
    let mut nodes = cluster(&[10, 20, 30]);
    let mut pending = vec![0usize];
    let mut rounds = 0;
    while let Some(who) = pending.pop() {
        let (_, contesting) = hold_election(&mut nodes, who);
        pending.extend(contesting);
        rounds += 1;
        assert!(rounds < 20, "the elections settle");
    }
    assert_eq!(coordinator_ids(&nodes), vec![Some(30), Some(30), Some(30)]);
}

#[test]
fn at_most_one_member_follows_itself() {
    let ids: [u128; 5] = [7, 3, 99, 42, 15];
    for first in 0..ids.len() {
        let mut nodes = cluster(&ids);
        let mut pending = vec![first];
        while let Some(who) = pending.pop() {
            let (_, contesting) = hold_election(&mut nodes, who);
            pending.extend(contesting);
        }
        let leaders: Vec<u128> = nodes
            .iter()
            .filter(|node| node.coordinator() == Some(node.local()))
            .map(|node| node.local().id)
            .collect();
        assert_eq!(leaders, vec![99]);
        assert_eq!(coordinator_ids(&nodes), vec![Some(99); 5]);
    }
}

#[test]
fn a_single_node_elects_itself() {
    let mut nodes = cluster(&[5]);
    assert!(nodes[0].known_peers().is_empty());
    let (targets, _) = hold_election(&mut nodes, 0);
    assert!(targets.is_empty());
    assert_eq!(nodes[0].coordinator(), Some(nodes[0].local()));
}

#[test]
fn monitor_elects_once_when_the_coordinator_is_silent() {
    let mut nodes = cluster(&[10, 20, 30]);
    hold_election(&mut nodes, 2);
    let coordinator = nodes[2].local();
    assert_eq!(nodes[0].coordinator(), Some(coordinator));

    // The coordinator has gone: discovery no longer finds it, and the probe
    // of its address is refused.
    let survivors = vec![
        Sighting { address: address_of(0), reply: Some(get_id(&nodes[0])) },
        Sighting { address: address_of(1), reply: Some(get_id(&nodes[1])) },
        Sighting { address: address_of(2), reply: None },
    ];
    let mut elections = 0;
    let step = periodic_check(&mut nodes[0], &Discovery::Found(survivors));
    match step {
        MonitorStep::Elect => elections += 1,
        MonitorStep::Probe(candidate) => {
            assert_eq!(candidate, coordinator);
            if after_probe(&candidate, &None) {
                elections += 1;
            }
        }
    }
    assert_eq!(elections, 1);
    assert_eq!(nodes[0].known_peers(), &vec![nodes[1].local()]);
    // Until the election has run the stale coordinator stays on record.
    assert_eq!(nodes[0].coordinator(), Some(coordinator));
}

#[test]
fn after_the_coordinator_fails_the_next_highest_takes_over() {
    let mut nodes = cluster(&[10, 20, 30]);
    hold_election(&mut nodes, 2);
    nodes.pop();
    discover_all(&mut nodes);
    let mut pending = vec![0usize];
    while let Some(who) = pending.pop() {
        let (_, contesting) = hold_election(&mut nodes, who);
        pending.extend(contesting);
    }
    assert_eq!(coordinator_ids(&nodes), vec![Some(20), Some(20)]);
}
