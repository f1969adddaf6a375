//! The state that one member of the cluster keeps, and its model.

use crate::directory::{confirmed_peers, find_peers, Sighting};
use crate::election::Round;
use crate::ident::{is_random_id, random_id};
use crate::peer::{find_peer, lookup, Address, PeerInfo};
use vstd::prelude::*;

verus! {

/// The mathematical model of a node's state. Every transition of the protocol
/// is a function on this model, and the contracts of [`Node`] speak of it.
pub struct NodeView {
    /// Who this node is. Never changes.
    pub local: PeerInfo,
    /// The peer this node believes to be coordinator, itself included.
    pub coordinator: Option<PeerInfo>,
    /// The peers that the last successful discovery confirmed.
    pub known_peers: Seq<PeerInfo>,
    /// Whether an election of this node is under way.
    pub doing_election: bool,
}

impl NodeView {
    /// The directory never lists the node itself.
    pub open spec fn wf(self) -> bool {
        forall|i: int|
            0 <= i < self.known_peers.len() ==> (#[trigger] self.known_peers[i]).id
                != self.local.id
    }

    /// A node that has just started: it knows nobody and follows nobody.
    pub open spec fn initial(local: PeerInfo) -> NodeView {
        NodeView { local, coordinator: None, known_peers: Seq::empty(), doing_election: false }
    }

    /// The directory is replaced as a whole.
    pub open spec fn with_directory(self, peers: Seq<PeerInfo>) -> NodeView {
        NodeView { known_peers: peers, ..self }
    }

    /// Whether a request for an election opens a round: it does unless a
    /// round is under way.
    pub open spec fn opens_round(self) -> bool {
        !self.doing_election
    }

    /// An election is asked for. A round gets under way, unless one is
    /// already: then nothing changes.
    pub open spec fn begin_election(self) -> NodeView {
        NodeView { doing_election: true, ..self }
    }

    /// An election ends. The winner follows itself; the loser keeps whom it
    /// followed.
    pub open spec fn finish_election(self, won: bool) -> NodeView {
        NodeView {
            coordinator: if won {
                Some(self.local)
            } else {
                self.coordinator
            },
            doing_election: false,
            ..self
        }
    }

    /// A peer announced that `id` is coordinator. The node follows the first
    /// peer of its directory with that identifier; an identifier that the
    /// directory does not hold changes nothing.
    pub open spec fn accept_coordinator(self, id: u128) -> NodeView {
        match find_peer(self.known_peers, id) {
            Some(peer) => NodeView { coordinator: Some(peer), ..self },
            None => self,
        }
    }

    /// Whether this node contests a challenge sent by `sender`: it does when
    /// it outranks the sender.
    pub open spec fn contests(self, sender: u128) -> bool {
        sender < self.local.id
    }
}

/// The state of one member of the cluster.
pub struct Node {
    local: PeerInfo,
    coordinator: Option<PeerInfo>,
    known_peers: Vec<PeerInfo>,
    doing_election: bool,
}

impl View for Node {
    type V = NodeView;

    closed spec fn view(&self) -> NodeView {
        NodeView {
            local: self.local,
            coordinator: self.coordinator,
            known_peers: self.known_peers@,
            doing_election: self.doing_election,
        }
    }
}

impl Node {
    #[verifier::type_invariant]
    spec fn directory_excludes_self(self) -> bool {
        self@.wf()
    }

    /// A node with the given identity that knows nobody yet.
    pub fn new(id: u128, address: Address) -> (node: Node)
        ensures
            node@ == NodeView::initial(PeerInfo { id, address }),
            node@.wf(),
    {
        Node {
            local: PeerInfo { id, address },
            coordinator: None,
            known_peers: Vec::new(),
            doing_election: false,
        }
    }

    /// A node at the given address under an identifier drawn at random.
    pub fn with_random_id(address: Address) -> (node: Node)
        ensures
            node@ == NodeView::initial(node@.local),
            node@.local.address == address,
            is_random_id(node@.local.id),
            node@.wf(),
    {
        Node::new(random_id(), address)
    }

    /// This node's own identity.
    pub fn local(&self) -> (local: PeerInfo)
        ensures
            local == self@.local,
    {
        self.local
    }

    /// The peer this node follows, if it follows one.
    pub fn coordinator(&self) -> (coordinator: Option<PeerInfo>)
        ensures
            coordinator == self@.coordinator,
    {
        self.coordinator
    }

    /// The directory of known peers. It never lists the node itself.
    pub fn known_peers(&self) -> (peers: &Vec<PeerInfo>)
        ensures
            peers@ == self@.known_peers,
            self@.wf(),
    {
        proof {
            use_type_invariant(self);
        }
        &self.known_peers
    }

    /// Whether an election of this node is under way.
    pub fn doing_election(&self) -> (flag: bool)
        ensures
            flag == self@.doing_election,
    {
        self.doing_election
    }

    /// Whether this node contests a challenge from `sender`. A node that
    /// contests answers affirmatively and holds an election of its own.
    pub fn challenged_by(&self, sender: u128) -> (contest: bool)
        ensures
            contest == self@.contests(sender),
    {
        sender < self.local.id
    }

    /// Replaces the directory by what a discovery confirmed. Peers that were
    /// known and did not answer this time are gone, and nothing else changes.
    pub fn refresh(&mut self, sightings: &Vec<Sighting>)
        ensures
            final(self)@ == old(self)@.with_directory(
                confirmed_peers(sightings.deep_view(), old(self)@.local.id),
            ),
            final(self)@.wf(),
    {
        self.known_peers = find_peers(self.local.id, sightings);
    }

    /// Opens a round, unless one is under way. While a round is open a
    /// further call changes nothing and returns `None`; the request is
    /// dropped, not queued.
    pub fn begin_election(&mut self) -> (round: Option<Round>)
        ensures
            final(self)@ == old(self)@.begin_election(),
            round is Some <==> old(self)@.opens_round(),
            round matches Some(opened) ==> {
                &&& opened.sender == old(self)@.local.id
                &&& opened.snapshot@ == old(self)@.known_peers
            },
    {
        proof {
            use_type_invariant(&*self);
        }
        if self.doing_election {
            return None;
        }
        self.doing_election = true;
        Some(Round { sender: self.local.id, snapshot: self.known_peers.clone() })
    }

    /// Closes a round. A node that won follows itself from now on; one that
    /// did not keeps whom it followed and waits for the winner's
    /// announcement.
    pub fn finish_election(&mut self, won: bool)
        ensures
            final(self)@ == old(self)@.finish_election(won),
    {
        proof {
            use_type_invariant(&*self);
        }
        if won {
            self.coordinator = Some(self.local);
        }
        self.doing_election = false;
    }

    /// Takes note of an announcement that names `id` as coordinator.
    pub fn accept_coordinator(&mut self, id: u128)
        ensures
            final(self)@ == old(self)@.accept_coordinator(id),
    {
        proof {
            use_type_invariant(&*self);
        }
        match lookup(&self.known_peers, id) {
            Some(peer) => {
                self.coordinator = Some(peer);
            },
            None => {},
        }
    }
}

} // verus!
