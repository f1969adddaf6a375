//! The requests between peers: the paths they go to, and the handlers that
//! answer them.
//!
//! Identifiers arrive as text, from peers that may misbehave. A handler reads
//! the text first and rejects a request whose identifier it cannot read; the
//! node's state is then left as it was.

use crate::ident::{canonical_text, id_to_text, parsed_id, text_to_id};
use crate::node::Node;
use vstd::prelude::*;

verus! {

/// The port on which every peer listens.
pub const PORT: u16 = 8080;

/// Why a request was rejected.
#[derive(Clone, Copy, Debug, PartialEq, Eq, Structural)]
pub enum RpcError {
    /// The identifier in the request's path could not be read.
    MalformedId,
}

/// The path of the identity query.
pub open spec fn identity_route() -> Seq<char> {
    "/get-id"@
}

/// The path of the election challenge that `sender` sends.
pub open spec fn election_route(sender: u128) -> Seq<char> {
    "/receive_election/"@ + canonical_text(sender)
}

/// The path of the announcement that `coordinator` has won.
pub open spec fn coordinator_route(coordinator: u128) -> Seq<char> {
    "/receive_coordinator/"@ + canonical_text(coordinator)
}

/// The last segment of a path that ends in an identifier: what the receiving
/// handler is handed.
pub open spec fn id_segment(path: Seq<char>) -> Seq<char> {
    path.subrange(path.len() - 36, path.len() as int)
}

/// The path to ask a peer for its identifier.
pub fn identity_path() -> (path: &'static str)
    ensures
        path@ == identity_route(),
{
    "/get-id"
}

/// The path to challenge a peer in the name of `sender`. The peer's handler
/// reads the sender's identifier back from its last segment.
pub fn election_path(sender: u128) -> (path: String)
    ensures
        path@ == election_route(sender),
        parsed_id(id_segment(path@)) == Some(sender),
{
    let text = id_to_text(sender);
    let mut path = "/receive_election/".to_owned();
    path.append(text.as_str());
    assert(id_segment(path@) =~= text@);
    path
}

/// The path to tell a peer that `coordinator` has won. The peer's handler
/// reads the coordinator's identifier back from its last segment.
pub fn coordinator_path(coordinator: u128) -> (path: String)
    ensures
        path@ == coordinator_route(coordinator),
        parsed_id(id_segment(path@)) == Some(coordinator),
{
    let text = id_to_text(coordinator);
    let mut path = "/receive_coordinator/".to_owned();
    path.append(text.as_str());
    assert(id_segment(path@) =~= text@);
    path
}

/// Answers the identity query: the node's identifier as canonical text. The
/// state is not touched.
pub fn get_id(node: &Node) -> (body: String)
    ensures
        body@ == canonical_text(node@.local.id),
        parsed_id(body@) == Some(node@.local.id),
{
    id_to_text(node.local().id)
}

/// Handles an election challenge. On `Ok(true)` the node contests: the caller
/// answers affirmatively and starts an election of its own without waiting
/// for it. On `Ok(false)` the caller answers negatively.
pub fn receive_election(node: &Node, sender: &str) -> (outcome: Result<bool, RpcError>)
    ensures
        outcome == match parsed_id(sender@) {
            Some(id) => Ok::<bool, RpcError>(node@.contests(id)),
            None => Err::<bool, RpcError>(RpcError::MalformedId),
        },
{
    match text_to_id(sender) {
        Some(id) => Ok(node.challenged_by(id)),
        None => Err(RpcError::MalformedId),
    }
}

/// Handles a coordinator announcement. On `Ok` the node follows the named
/// peer if its directory holds it, and the caller clears this node's own
/// coordinator mark either way.
pub fn receive_coordinator(node: &mut Node, coordinator: &str) -> (outcome: Result<(), RpcError>)
    ensures
        match parsed_id(coordinator@) {
            Some(id) => outcome == Ok::<(), RpcError>(()) && final(node)@ == old(
                node,
            )@.accept_coordinator(id),
            None => outcome == Err::<(), RpcError>(RpcError::MalformedId) && final(node)@ == old(
                node,
            )@,
        },
{
    match text_to_id(coordinator) {
        Some(id) => {
            node.accept_coordinator(id);
            Ok(())
        },
        None => Err(RpcError::MalformedId),
    }
}

} // verus!
