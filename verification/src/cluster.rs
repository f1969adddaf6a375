//! The protocol as a whole: a cluster of nodes, and the laws that hold of it.
//!
//! A cluster is a sequence of node models. The steps that change it are the
//! transitions of [`NodeView`], the very functions that the contracts of the
//! executable code state. The laws are proved for a cluster whose members
//! have distinct identifiers and reach one another: each directory lists the
//! other members and nothing else, and every challenge is answered by the
//! challenged node's own handler. Membership is fixed; what a member knows
//! and whom it follows changes step by step.

use crate::election::{election_won, is_objection, objected, reply_text};
use crate::node::NodeView;
use crate::peer::{find_peer, higher_peers, lemma_find_peer, PeerInfo};
use vstd::prelude::*;

verus! {

/// No two members carry the same identifier.
pub open spec fn distinct_ids(c: Seq<NodeView>) -> bool {
    forall|i: int, j: int|
        0 <= i < c.len() && 0 <= j < c.len() && i != j ==> (#[trigger] c[i]).local.id != (
        #[trigger] c[j]).local.id
}

/// `peer` is a member of the cluster other than member `i`.
pub open spec fn is_other_member(c: Seq<NodeView>, i: int, peer: PeerInfo) -> bool {
    exists|j: int| 0 <= j < c.len() && j != i && (#[trigger] c[j]).local == peer
}

/// `peers` lists every member other than member `i`, and only those: what a
/// discovery by `i` confirms when every member answers.
pub open spec fn lists_others(c: Seq<NodeView>, i: int, peers: Seq<PeerInfo>) -> bool {
    &&& forall|j: int| 0 <= j < c.len() && j != i ==> peers.contains((#[trigger] c[j]).local)
    &&& forall|k: int| 0 <= k < peers.len() ==> is_other_member(c, i, #[trigger] peers[k])
}

/// Every member's directory lists every other member, and only those.
pub open spec fn fully_connected(c: Seq<NodeView>) -> bool {
    forall|i: int| 0 <= i < c.len() ==> #[trigger] lists_others(c, i, c[i].known_peers)
}

/// Member `t` carries the highest identifier of the cluster.
pub open spec fn is_highest(c: Seq<NodeView>, t: int) -> bool {
    &&& 0 <= t < c.len()
    &&& forall|j: int| 0 <= j < c.len() ==> (#[trigger] c[j]).local.id <= c[t].local.id
}

/// `replies` are the answers to the challenges of a round of member `i` over
/// `snapshot` when no message is lost: one for each peer that the round
/// challenges, each the body that the challenged member's handler decides on.
pub open spec fn faithful_replies(
    c: Seq<NodeView>,
    i: int,
    snapshot: Seq<PeerInfo>,
    replies: Seq<Option<Seq<char>>>,
) -> bool {
    let targets = higher_peers(snapshot, c[i].local.id);
    &&& replies.len() == targets.len()
    &&& forall|k: int, j: int|
        0 <= k < targets.len() && 0 <= j < c.len() && (#[trigger] c[j]).local
            == #[trigger] targets[k] ==> replies[k] == Some(
            reply_text(c[j].contests(c[i].local.id)),
        )
}

/// A round that member `i` can have held in a cluster whose members reach
/// one another: it was opened on a directory of all other members, and no
/// message was lost.
pub open spec fn sound_round(
    c: Seq<NodeView>,
    i: int,
    snapshot: Seq<PeerInfo>,
    replies: Seq<Option<Seq<char>>>,
) -> bool {
    &&& 0 <= i < c.len()
    &&& lists_others(c, i, snapshot)
    &&& faithful_replies(c, i, snapshot, replies)
}

/// Whoever some member follows is the member with the highest identifier.
pub open spec fn agreed(c: Seq<NodeView>) -> bool {
    forall|i: int, t: int|
        0 <= i < c.len() && (#[trigger] c[i]).coordinator is Some && #[trigger] is_highest(c, t)
            ==> c[i].coordinator == Some(c[t].local)
}

/// What holds of every state that the cluster reaches.
pub open spec fn settled(c: Seq<NodeView>) -> bool {
    &&& c.len() > 0
    &&& distinct_ids(c)
    &&& fully_connected(c)
    &&& agreed(c)
}

/// One step of one member.
pub enum Step {
    /// The member is asked for an election.
    Begin { node: int },
    /// The member closes a round, opened on `snapshot`, on the answers it
    /// collected.
    Finish { node: int, snapshot: Seq<PeerInfo>, replies: Seq<Option<Seq<char>>> },
    /// An announcement of `from`, which won a round over `snapshot` on
    /// `replies`, reaches `to`.
    Announce { from: int, to: int, snapshot: Seq<PeerInfo>, replies: Seq<Option<Seq<char>>> },
    /// The member replaces its directory after a discovery.
    Refresh { node: int, peers: Seq<PeerInfo> },
}

/// Whether the step can be taken in a cluster whose members reach one
/// another.
pub open spec fn enabled(c: Seq<NodeView>, step: Step) -> bool {
    match step {
        Step::Begin { node } => 0 <= node < c.len(),
        Step::Finish { node, snapshot, replies } => sound_round(c, node, snapshot, replies),
        Step::Announce { from, to, snapshot, replies } => {
            &&& sound_round(c, from, snapshot, replies)
            &&& election_won(replies)
            &&& 0 <= to < c.len()
        },
        Step::Refresh { node, peers } => 0 <= node < c.len() && lists_others(c, node, peers),
    }
}

/// The cluster after the step.
pub open spec fn apply(c: Seq<NodeView>, step: Step) -> Seq<NodeView> {
    match step {
        Step::Begin { node } => c.update(node, c[node].begin_election()),
        Step::Finish { node, snapshot, replies } => c.update(
            node,
            c[node].finish_election(election_won(replies)),
        ),
        Step::Announce { from, to, snapshot, replies } => c.update(
            to,
            c[to].accept_coordinator(c[from].local.id),
        ),
        Step::Refresh { node, peers } => c.update(node, c[node].with_directory(peers)),
    }
}

/// The cluster after the steps, taken one after the other.
pub open spec fn run(c: Seq<NodeView>, steps: Seq<Step>) -> Seq<NodeView>
    decreases steps.len(),
{
    if steps.len() == 0 {
        c
    } else {
        apply(run(c, steps.drop_last()), steps.last())
    }
}

/// Whether each of the steps can be taken when its turn comes.
pub open spec fn runnable(c: Seq<NodeView>, steps: Seq<Step>) -> bool
    decreases steps.len(),
{
    steps.len() == 0 || (runnable(c, steps.drop_last()) && enabled(
        run(c, steps.drop_last()),
        steps.last(),
    ))
}

/// The steps by which member `t` takes over: it opens a round on `snapshot`,
/// closes it on `replies`, and its announcement reaches the first `reached`
/// members.
pub open spec fn takeover(
    t: int,
    snapshot: Seq<PeerInfo>,
    replies: Seq<Option<Seq<char>>>,
    reached: nat,
) -> Seq<Step> {
    seq![Step::Begin { node: t }, Step::Finish { node: t, snapshot, replies }] + Seq::new(
        reached,
        |k: int| Step::Announce { from: t, to: k, snapshot, replies },
    )
}

/// The two clusters have the same members in the same places.
pub open spec fn same_members(c: Seq<NodeView>, d: Seq<NodeView>) -> bool {
    &&& d.len() == c.len()
    &&& forall|i: int| 0 <= i < c.len() ==> (#[trigger] d[i]).local == c[i].local
}

/// A cluster that is not empty has a member with the highest identifier.
pub proof fn lemma_highest_exists(c: Seq<NodeView>)
    requires
        c.len() > 0,
    ensures
        exists|t: int| is_highest(c, t),
    decreases c.len(),
{
    if c.len() == 1 {
        assert(is_highest(c, 0));
    } else {
        let rest = c.drop_last();
        let last = c.len() - 1;
        lemma_highest_exists(rest);
        let r = choose|t: int| is_highest(rest, t);
        let t = if c[last].local.id <= c[r].local.id {
            r
        } else {
            last
        };
        assert forall|j: int| 0 <= j < c.len() implies (#[trigger] c[j]).local.id
            <= c[t].local.id by {
            if j < last {
                assert(c[j] == rest[j]);
                assert(rest[j].local.id <= rest[r].local.id);
            }
        }
        assert(is_highest(c, t));
    }
}

/// A round is won exactly by the member with the highest identifier. Any
/// other member challenges a peer that outranks it, and that peer objects;
/// the highest member has nobody to challenge.
pub proof fn lemma_winner_is_highest(
    c: Seq<NodeView>,
    i: int,
    snapshot: Seq<PeerInfo>,
    replies: Seq<Option<Seq<char>>>,
)
    requires
        distinct_ids(c),
        sound_round(c, i, snapshot, replies),
    ensures
        election_won(replies) <==> is_highest(c, i),
{
    let local = c[i].local.id;
    let outranks = |p: PeerInfo| p.id > local;
    let targets = higher_peers(snapshot, local);
    if is_highest(c, i) {
        if targets.len() > 0 {
            // Whoever is challenged is a member that outranks the highest.
            snapshot.lemma_filter_pred(outranks, 0);
            snapshot.lemma_filter_contains_rev(outranks, targets[0]);
            let k = choose|k: int| 0 <= k < snapshot.len() && snapshot[k] == targets[0];
            assert(is_other_member(c, i, snapshot[k]));
            let j = choose|j: int| 0 <= j < c.len() && j != i && (#[trigger] c[j]).local == snapshot[k];
            assert(c[j].local.id <= c[i].local.id);
            assert(false);
        }
        assert(replies.len() == 0);
    } else {
        // Some member outranks `i`; it is challenged, and it objects.
        let j = choose|j: int| 0 <= j < c.len() && !((#[trigger] c[j]).local.id <= c[i].local.id);
        assert(snapshot.contains(c[j].local));
        let k = choose|k: int| 0 <= k < snapshot.len() && snapshot[k] == c[j].local;
        snapshot.lemma_filter_contains(outranks, k);
        let m = choose|m: int| 0 <= m < targets.len() && targets[m] == c[j].local;
        assert(replies[m] == Some(reply_text(c[j].contests(local))));
        assert(is_objection(replies[m]));
        assert(objected(replies));
    }
}

/// No split brain: of two members that each hold an election, at most one
/// wins.
pub proof fn lemma_single_winner(
    c: Seq<NodeView>,
    a: int,
    snapshot_a: Seq<PeerInfo>,
    replies_a: Seq<Option<Seq<char>>>,
    b: int,
    snapshot_b: Seq<PeerInfo>,
    replies_b: Seq<Option<Seq<char>>>,
)
    requires
        distinct_ids(c),
        a != b,
        sound_round(c, a, snapshot_a, replies_a),
        sound_round(c, b, snapshot_b, replies_b),
    ensures
        !(election_won(replies_a) && election_won(replies_b)),
{
    lemma_winner_is_highest(c, a, snapshot_a, replies_a);
    lemma_winner_is_highest(c, b, snapshot_b, replies_b);
    if is_highest(c, a) && is_highest(c, b) {
        assert(c[a].local.id <= c[b].local.id);
        assert(c[b].local.id <= c[a].local.id);
    }
}

/// An announcement of member `t` makes every other member follow `t`: its
/// directory holds one member under that identifier, which is `t`. On `t`
/// itself the announcement changes nothing.
pub proof fn lemma_announcement_is_followed(c: Seq<NodeView>, t: int, j: int)
    requires
        distinct_ids(c),
        0 <= t < c.len(),
        0 <= j < c.len(),
        lists_others(c, j, c[j].known_peers),
    ensures
        j != t ==> c[j].accept_coordinator(c[t].local.id).coordinator == Some(c[t].local),
        j == t ==> c[j].accept_coordinator(c[t].local.id) == c[j],
{
    let id = c[t].local.id;
    let peers = c[j].known_peers;
    lemma_find_peer(peers, id);
    match find_peer(peers, id) {
        Some(p) => {
            // The peer found is a member other than `j`, and by its
            // identifier it is `t`.
            let k = choose|k: int| 0 <= k < peers.len() && #[trigger] peers[k] == p && p.id == id;
            assert(is_other_member(c, j, peers[k]));
            let m = choose|m: int| 0 <= m < c.len() && m != j && (#[trigger] c[m]).local == p;
            assert(m == t);
        },
        None => {
            if j != t {
                assert(peers.contains(c[t].local));
                let k = choose|k: int| 0 <= k < peers.len() && peers[k] == c[t].local;
                assert(peers[k].id == id);
                assert(false);
            }
        },
    }
}

/// What is said of identities alone carries over to a cluster of the same
/// members.
proof fn lemma_same_members(c: Seq<NodeView>, d: Seq<NodeView>)
    requires
        same_members(c, d),
    ensures
        distinct_ids(c) ==> distinct_ids(d),
        forall|t: int| is_highest(c, t) ==> is_highest(d, t),
        forall|i: int, peers: Seq<PeerInfo>| #[trigger]
            lists_others(c, i, peers) ==> lists_others(d, i, peers),
        forall|i: int, snapshot: Seq<PeerInfo>, replies: Seq<Option<Seq<char>>>| #[trigger]
            sound_round(c, i, snapshot, replies) ==> sound_round(d, i, snapshot, replies),
{
    if distinct_ids(c) {
        assert forall|i: int, j: int| 0 <= i < d.len() && 0 <= j < d.len() && i != j implies (
        #[trigger] d[i]).local.id != (#[trigger] d[j]).local.id by {
            assert(c[i].local.id != c[j].local.id);
        }
    }
    assert forall|t: int| is_highest(c, t) implies is_highest(d, t) by {
        assert forall|j: int| 0 <= j < d.len() implies (#[trigger] d[j]).local.id
            <= d[t].local.id by {
            assert(c[j].local.id <= c[t].local.id);
        }
    }
    assert forall|i: int, peers: Seq<PeerInfo>| #[trigger] lists_others(c, i, peers) implies lists_others(
        d,
        i,
        peers,
    ) by {
        lemma_still_lists_others(c, d, i, peers);
    }
    assert forall|i: int, snapshot: Seq<PeerInfo>, replies: Seq<Option<Seq<char>>>| #[trigger]
        sound_round(c, i, snapshot, replies) implies sound_round(d, i, snapshot, replies) by {
        lemma_still_lists_others(c, d, i, snapshot);
        let targets = higher_peers(snapshot, d[i].local.id);
        assert forall|k: int, j: int|
            0 <= k < targets.len() && 0 <= j < d.len() && (#[trigger] d[j]).local
                == #[trigger] targets[k] implies replies[k] == Some(
            reply_text(d[j].contests(d[i].local.id)),
        ) by {
            assert(c[j].local == targets[k]);
        }
    }
}

/// A list of the other members is one in any cluster of the same members.
proof fn lemma_still_lists_others(c: Seq<NodeView>, d: Seq<NodeView>, i: int, peers: Seq<PeerInfo>)
    requires
        same_members(c, d),
        lists_others(c, i, peers),
    ensures
        lists_others(d, i, peers),
{
    assert forall|j: int| 0 <= j < d.len() && j != i implies peers.contains(
        (#[trigger] d[j]).local,
    ) by {
        assert(peers.contains(c[j].local));
    }
    assert forall|k: int| 0 <= k < peers.len() implies is_other_member(d, i, #[trigger] peers[k]) by {
        assert(is_other_member(c, i, peers[k]));
        let j = choose|j: int| 0 <= j < c.len() && j != i && (#[trigger] c[j]).local == peers[k];
        assert(d[j].local == peers[k]);
    }
}

/// At the start nobody follows anybody, and the invariant holds.
pub proof fn lemma_invariant_at_start(c: Seq<NodeView>)
    requires
        c.len() > 0,
        distinct_ids(c),
        fully_connected(c),
        forall|i: int| 0 <= i < c.len() ==> (#[trigger] c[i]).coordinator is None,
    ensures
        settled(c),
{
}

/// Every step keeps the invariant.
pub proof fn lemma_step_keeps_invariant(c: Seq<NodeView>, step: Step)
    requires
        settled(c),
        enabled(c, step),
    ensures
        settled(apply(c, step)),
{
    let d = apply(c, step);
    assert(same_members(c, d));
    assert(same_members(d, c));
    lemma_same_members(c, d);
    lemma_same_members(d, c);
    assert forall|i: int| 0 <= i < d.len() implies #[trigger] lists_others(
        d,
        i,
        d[i].known_peers,
    ) by {
        if step is Refresh && step->Refresh_node == i {
            assert(d[i].known_peers == step->peers);
        } else {
            assert(d[i].known_peers == c[i].known_peers);
            assert(lists_others(c, i, c[i].known_peers));
        }
    }
    assert forall|i: int, t: int|
        0 <= i < d.len() && (#[trigger] d[i]).coordinator is Some && #[trigger] is_highest(
            d,
            t,
        ) implies d[i].coordinator == Some(d[t].local) by {
        assert(is_highest(c, t));
        assert(lists_others(c, i, c[i].known_peers));
        match step {
            Step::Finish { node, snapshot, replies } => {
                if i == node && election_won(replies) {
                    lemma_winner_is_highest(c, node, snapshot, replies);
                    lemma_highest_is_one(c, node, t);
                }
            },
            Step::Announce { from, to, snapshot, replies } => {
                if i == to {
                    lemma_winner_is_highest(c, from, snapshot, replies);
                    lemma_highest_is_one(c, from, t);
                    lemma_announcement_is_followed(c, from, to);
                }
            },
            _ => {},
        }
        if d[i].coordinator != Some(d[t].local) {
            assert(d[i].coordinator == c[i].coordinator);
        }
    }
}

/// Only one member carries the highest identifier.
proof fn lemma_highest_is_one(c: Seq<NodeView>, s: int, t: int)
    requires
        distinct_ids(c),
        is_highest(c, s),
        is_highest(c, t),
    ensures
        s == t,
{
    assert(c[s].local.id <= c[t].local.id);
    assert(c[t].local.id <= c[s].local.id);
}

/// No split brain, however the steps interleave: the invariant holds after
/// every run that starts where it holds.
pub proof fn lemma_run_keeps_invariant(c: Seq<NodeView>, steps: Seq<Step>)
    requires
        settled(c),
        runnable(c, steps),
    ensures
        settled(run(c, steps)),
    decreases steps.len(),
{
    if steps.len() > 0 {
        lemma_run_keeps_invariant(c, steps.drop_last());
        lemma_step_keeps_invariant(run(c, steps.drop_last()), steps.last());
    }
}

/// What the invariant gives: all members that follow anybody follow the same
/// peer, and at most one member follows itself.
pub proof fn lemma_agreement(c: Seq<NodeView>, i: int, j: int)
    requires
        settled(c),
        0 <= i < c.len(),
        0 <= j < c.len(),
        c[i].coordinator is Some,
        c[j].coordinator is Some,
    ensures
        c[i].coordinator == c[j].coordinator,
        c[i].coordinator == Some(c[i].local) && c[j].coordinator == Some(c[j].local) ==> i == j,
{
    lemma_highest_exists(c);
    let t = choose|t: int| is_highest(c, t);
    assert(c[i].coordinator == Some(c[t].local));
    assert(c[j].coordinator == Some(c[t].local));
}

/// An election reaches the highest member. When member `i` holds a round
/// and no message is lost, the member `t` with the highest identifier is
/// among the challenged and contests, and so owes an election of its own,
/// unless it is `i` itself.
pub proof fn lemma_highest_is_challenged(
    c: Seq<NodeView>,
    i: int,
    snapshot: Seq<PeerInfo>,
    t: int,
)
    requires
        distinct_ids(c),
        0 <= i < c.len(),
        lists_others(c, i, snapshot),
        is_highest(c, t),
        i != t,
    ensures
        higher_peers(snapshot, c[i].local.id).contains(c[t].local),
        c[t].contests(c[i].local.id),
{
    let local = c[i].local.id;
    let outranks = |p: PeerInfo| p.id > local;
    assert(c[i].local.id <= c[t].local.id);
    assert(c[i].local.id != c[t].local.id);
    assert(snapshot.contains(c[t].local));
    let k = choose|k: int| 0 <= k < snapshot.len() && snapshot[k] == c[t].local;
    snapshot.lemma_filter_contains(outranks, k);
}

/// The highest member prevails. From any state of a cluster whose members
/// reach one another, once the member `t` with the highest identifier holds
/// its election and no message is lost, every step of its takeover can be
/// taken, and when its announcement has reached the first `reached` members
/// each of them follows `t`, as does `t` itself.
pub proof fn lemma_takeover_settles(
    c: Seq<NodeView>,
    t: int,
    snapshot: Seq<PeerInfo>,
    replies: Seq<Option<Seq<char>>>,
    reached: nat,
)
    requires
        distinct_ids(c),
        fully_connected(c),
        is_highest(c, t),
        sound_round(c, t, snapshot, replies),
        reached <= c.len(),
    ensures
        runnable(c, takeover(t, snapshot, replies, reached)),
        same_members(c, run(c, takeover(t, snapshot, replies, reached))),
        fully_connected(run(c, takeover(t, snapshot, replies, reached))),
        run(c, takeover(t, snapshot, replies, reached))[t].coordinator == Some(c[t].local),
        forall|j: int|
            0 <= j < reached ==> (#[trigger] run(
                c,
                takeover(t, snapshot, replies, reached),
            )[j]).coordinator == Some(c[t].local),
    decreases reached,
{
    let steps = takeover(t, snapshot, replies, reached);
    lemma_winner_is_highest(c, t, snapshot, replies);
    if reached == 0 {
        let begin = Step::Begin { node: t };
        let finish = Step::Finish { node: t, snapshot, replies };
        assert(steps =~= seq![begin, finish]);
        assert(steps.drop_last() =~= seq![begin]);
        assert(steps.drop_last().drop_last() =~= Seq::<Step>::empty());
        assert(steps.drop_last().last() == begin);
        assert(run(c, steps.drop_last().drop_last()) == c);
        let opened = apply(c, begin);
        assert(run(c, steps.drop_last()) == opened);
        assert(same_members(c, opened));
        lemma_same_members(c, opened);
        assert(runnable(c, steps.drop_last().drop_last()));
        assert(enabled(c, begin));
        assert(runnable(c, steps.drop_last()));
        assert(enabled(opened, finish));
        let closed = apply(opened, finish);
        assert(run(c, steps) == closed);
        assert forall|i: int| 0 <= i < closed.len() implies #[trigger] lists_others(
            closed,
            i,
            closed[i].known_peers,
        ) by {
            assert(lists_others(c, i, c[i].known_peers));
            lemma_still_lists_others(c, closed, i, c[i].known_peers);
        }
    } else {
        let before = takeover(t, snapshot, replies, (reached - 1) as nat);
        let last = Step::Announce { from: t, to: reached - 1, snapshot, replies };
        lemma_takeover_settles(c, t, snapshot, replies, (reached - 1) as nat);
        assert(steps.drop_last() =~= before);
        assert(steps.last() == last);
        let d = run(c, before);
        lemma_same_members(c, d);
        assert(enabled(d, last));
        let e = apply(d, last);
        assert(run(c, steps) == e);
        assert(lists_others(d, reached - 1, d[reached - 1].known_peers));
        lemma_announcement_is_followed(d, t, reached - 1);
        assert(same_members(d, e));
        assert forall|i: int| 0 <= i < e.len() implies #[trigger] lists_others(
            e,
            i,
            e[i].known_peers,
        ) by {
            assert(lists_others(d, i, d[i].known_peers));
            lemma_still_lists_others(d, e, i, d[i].known_peers);
        }
        assert forall|j: int| 0 <= j < reached implies (#[trigger] e[j]).coordinator == Some(
            c[t].local,
        ) by {
            if j < reached - 1 {
                assert(d[j].coordinator == Some(c[t].local));
            }
        }
    }
}

} // verus!
