//! One round of the Bully election.
//!
//! A round runs in three steps, with the network in between. The node opens
//! the round ([`Node::begin_election`](crate::node::Node::begin_election)),
//! and the caller sends a challenge to each of [`Round::targets`] and waits
//! for every answer. [`Round::conclude`] then decides the round and says what
//! the node owes its peers. Once that is sent the caller closes the round
//! with [`Node::finish_election`](crate::node::Node::finish_election).

use crate::node::NodeView;
use crate::peer::{higher_peers, select_higher, PeerInfo};
use vstd::prelude::*;

verus! {

/// A round that a node has opened: who challenges, and the directory as it
/// stood when the round began.
pub struct Round {
    /// The identifier of the node that holds the election.
    pub sender: u128,
    /// The peers that the node knew when the round began.
    pub snapshot: Vec<PeerInfo>,
}

/// How a round ended, and what the node does about it.
pub enum Verdict {
    /// A peer that outranks the node objected. The node does nothing more
    /// and waits for the winner's announcement.
    Defer,
    /// Nobody objected. The node announces itself to each of these peers,
    /// without regard to whether an announcement arrives, and marks itself as
    /// coordinator.
    Lead { announce_to: Vec<PeerInfo> },
}

impl Verdict {
    /// Whether the round was won.
    pub open spec fn won(self) -> bool {
        self is Lead
    }

    /// Whether the round was won.
    pub fn is_won(&self) -> (won: bool)
        ensures
            won == self.won(),
    {
        match self {
            Verdict::Defer => false,
            Verdict::Lead { .. } => true,
        }
    }
}

impl Round {
    /// The peers to challenge: those of the snapshot that outrank the sender.
    pub fn targets(&self) -> (targets: Vec<PeerInfo>)
        ensures
            targets@ == higher_peers(self.snapshot@, self.sender),
    {
        select_higher(&self.snapshot, self.sender)
    }

    /// Decides the round from the answers to its challenges. The round is
    /// won exactly when nobody objected, and the winner announces itself to
    /// every peer of the snapshot, in the snapshot's order.
    pub fn conclude(self, replies: &Vec<Option<String>>) -> (verdict: Verdict)
        ensures
            verdict.won() == election_won(replies.deep_view()),
            verdict matches Verdict::Lead { announce_to } ==> announce_to@ == self.snapshot@,
    {
        if tally(replies) {
            Verdict::Lead { announce_to: self.snapshot }
        } else {
            Verdict::Defer
        }
    }
}

/// The body by which a challenged peer says that it contests.
pub open spec fn affirmative() -> Seq<char> {
    seq!['t', 'r', 'u', 'e']
}

/// The body by which a challenged peer says that it does not contest.
pub open spec fn negative() -> Seq<char> {
    seq!['f', 'a', 'l', 's', 'e']
}

/// The body of the answer to a challenge.
pub open spec fn reply_text(contest: bool) -> Seq<char> {
    if contest {
        affirmative()
    } else {
        negative()
    }
}

/// Whether an answer to a challenge is an objection. Only the affirmative
/// body is one: silence, an error and any other body are not.
pub open spec fn is_objection(reply: Option<Seq<char>>) -> bool {
    reply == Some(affirmative())
}

/// Whether any of the answers is an objection.
pub open spec fn objected(replies: Seq<Option<Seq<char>>>) -> bool {
    exists|i: int| 0 <= i < replies.len() && is_objection(#[trigger] replies[i])
}

/// Whether a round with these answers is won: nobody objected.
pub open spec fn election_won(replies: Seq<Option<Seq<char>>>) -> bool {
    !objected(replies)
}

/// The body with which to answer a challenge.
pub fn election_reply(contest: bool) -> (body: &'static str)
    ensures
        body@ == reply_text(contest),
{
    proof {
        reveal_strlit("true");
        reveal_strlit("false");
    }
    if contest {
        "true"
    } else {
        "false"
    }
}

/// Decides whether one answer is an objection.
pub fn objects(reply: &Option<String>) -> (objection: bool)
    ensures
        objection == is_objection(reply.deep_view()),
{
    match reply {
        Some(text) => {
            let yes = election_reply(true).to_owned();
            *text == yes
        },
        None => false,
    }
}

/// Decides a round from the answers of the challenged peers. The round is won
/// exactly when none of them objected; with nobody to challenge it is won.
pub fn tally(replies: &Vec<Option<String>>) -> (won: bool)
    ensures
        won == election_won(replies.deep_view()),
{
    let ghost all = replies.deep_view();
    let mut i: usize = 0;
    while i < replies.len()
        invariant
            i <= replies.len(),
            all == replies.deep_view(),
            forall|k: int| 0 <= k < i ==> !is_objection(#[trigger] all[k]),
        decreases replies.len() - i,
    {
        if objects(&replies[i]) {
            assert(is_objection(all[i as int]));
            return false;
        }
        i += 1;
    }
    true
}

/// Concurrent elections are idempotent. Once a node has been asked for an
/// election, a round is under way; asking again while it is opens no second
/// round, sends nothing, and leaves the state as it is.
pub proof fn lemma_second_request_is_dropped(node: NodeView)
    ensures
        node.begin_election().doing_election,
        !node.begin_election().opens_round(),
        node.begin_election().begin_election() == node.begin_election(),
{
}

/// Every peer that a round challenges outranks the challenger.
pub proof fn lemma_targets_outrank(snapshot: Seq<PeerInfo>, sender: u128, k: int)
    requires
        0 <= k < higher_peers(snapshot, sender).len(),
    ensures
        higher_peers(snapshot, sender)[k].id > sender,
        snapshot.contains(higher_peers(snapshot, sender)[k]),
{
    let outranks = |p: PeerInfo| p.id > sender;
    snapshot.lemma_filter_pred(outranks, k);
    snapshot.lemma_filter_contains_rev(outranks, higher_peers(snapshot, sender)[k]);
}

/// The tie-break is monotonic. A node never declares itself coordinator in a
/// round in which a peer that outranks it answered its challenge with an
/// objection: the round is lost, and the node still follows whom it
/// followed.
pub proof fn lemma_defers_to_higher(
    node: NodeView,
    snapshot: Seq<PeerInfo>,
    replies: Seq<Option<Seq<char>>>,
    higher: PeerInfo,
    k: int,
)
    requires
        higher.id > node.local.id,
        0 <= k < replies.len(),
        replies.len() == higher_peers(snapshot, node.local.id).len(),
        higher_peers(snapshot, node.local.id)[k] == higher,
        is_objection(replies[k]),
    ensures
        !election_won(replies),
        node.begin_election().finish_election(election_won(replies)).coordinator
            == node.coordinator,
{
}

} // verus!
