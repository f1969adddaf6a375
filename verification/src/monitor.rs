//! The health monitor: what a node does each time its timer fires.
//!
//! The caller runs the timer and the network. On each tick it discovers the
//! peers and calls [`periodic_check`], which refreshes the directory and says
//! what comes next: an election, or a probe of the coordinator. After a probe
//! [`after_probe`] says whether an election follows.

use crate::directory::{confirmed_peers, Discovery};
use crate::ident::{canonical_text, id_to_text};
use crate::node::{Node, NodeView};
use crate::peer::PeerInfo;
use vstd::prelude::*;

verus! {

/// What the monitor does after it has refreshed the directory.
#[derive(Clone, Copy, Debug, PartialEq, Eq, Structural)]
pub enum MonitorStep {
    /// Ask this peer, the coordinator, for its identifier.
    Probe(PeerInfo),
    /// Hold an election: there is no coordinator.
    Elect,
}

/// Whether an answer to the identity query confirms the candidate: the query
/// was answered, and the body is the canonical text of the candidate's
/// identifier. A failure, a timeout and any other body do not confirm it.
pub open spec fn confirms(candidate: PeerInfo, reply: Option<Seq<char>>) -> bool {
    reply == Some(canonical_text(candidate.id))
}

/// The directory after a discovery: replaced by what was confirmed, or kept
/// as it was where the discovery failed.
pub open spec fn after_discovery(node: NodeView, discovery: Discovery) -> NodeView {
    match discovery {
        Discovery::Failed => node,
        Discovery::Found(sightings) => node.with_directory(
            confirmed_peers(sightings.deep_view(), node.local.id),
        ),
    }
}

/// What the monitor does next: it probes the coordinator where the node
/// follows one, and calls an election where it follows none.
pub open spec fn next_step(node: NodeView) -> MonitorStep {
    match node.coordinator {
        Some(coordinator) => MonitorStep::Probe(coordinator),
        None => MonitorStep::Elect,
    }
}

/// Decides from one probe whether the candidate is alive. A single failed
/// probe counts as the candidate being down.
pub fn is_alive(candidate: &PeerInfo, reply: &Option<String>) -> (alive: bool)
    ensures
        alive == confirms(*candidate, reply.deep_view()),
{
    match reply {
        Some(text) => {
            let expected = id_to_text(candidate.id);
            *text == expected
        },
        None => false,
    }
}

/// Starts a cycle of the monitor: takes in the discovery, then says what to
/// do about the coordinator.
pub fn periodic_check(node: &mut Node, discovery: &Discovery) -> (step: MonitorStep)
    ensures
        final(node)@ == after_discovery(old(node)@, *discovery),
        step == next_step(old(node)@),
{
    match discovery {
        Discovery::Failed => {},
        Discovery::Found(sightings) => {
            node.refresh(sightings);
        },
    }
    match node.coordinator() {
        Some(coordinator) => MonitorStep::Probe(coordinator),
        None => MonitorStep::Elect,
    }
}

/// Ends a cycle of the monitor that probed the coordinator: an election
/// follows exactly when the probe did not confirm it.
pub fn after_probe(candidate: &PeerInfo, reply: &Option<String>) -> (elect: bool)
    ensures
        elect == !confirms(*candidate, reply.deep_view()),
{
    !is_alive(candidate, reply)
}

} // verus!
