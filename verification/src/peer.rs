//! Peers: who they are and where they are reached.

use vstd::prelude::*;

verus! {

/// A network address, held as the bits of an IPv4 or IPv6 address.
#[derive(Clone, Copy, Debug, PartialEq, Eq, Structural)]
pub enum Address {
    V4(u32),
    V6(u128),
}

/// One member of the cluster. Peers are ordered by `id` alone.
#[derive(Clone, Copy, Debug, PartialEq, Eq, Structural)]
pub struct PeerInfo {
    pub id: u128,
    pub address: Address,
}

/// The peers of `peers` whose identifier is above `local`, in their order.
pub open spec fn higher_peers(peers: Seq<PeerInfo>, local: u128) -> Seq<PeerInfo> {
    peers.filter(|p: PeerInfo| p.id > local)
}

/// The first peer of `peers` that carries `id`, if any does.
pub open spec fn find_peer(peers: Seq<PeerInfo>, id: u128) -> Option<PeerInfo>
    decreases peers.len(),
{
    if peers.len() == 0 {
        None
    } else if peers.first().id == id {
        Some(peers.first())
    } else {
        find_peer(peers.drop_first(), id)
    }
}

/// Whether some peer of `peers` carries `id`.
pub open spec fn knows(peers: Seq<PeerInfo>, id: u128) -> bool {
    exists|i: int| 0 <= i < peers.len() && (#[trigger] peers[i]).id == id
}

/// `find_peer` returns the match with the least index, and fails exactly when
/// no peer carries the identifier.
pub proof fn lemma_find_peer(peers: Seq<PeerInfo>, id: u128)
    ensures
        match find_peer(peers, id) {
            Some(p) => exists|i: int|
                0 <= i < peers.len() && #[trigger] peers[i] == p && p.id == id && forall|j: int|
                    0 <= j < i ==> (#[trigger] peers[j]).id != id,
            None => !knows(peers, id),
        },
    decreases peers.len(),
{
    if peers.len() > 0 && peers.first().id != id {
        let rest = peers.drop_first();
        lemma_find_peer(rest, id);
        match find_peer(rest, id) {
            Some(p) => {
                let i = choose|i: int|
                    0 <= i < rest.len() && #[trigger] rest[i] == p && p.id == id && forall|j: int|
                        0 <= j < i ==> (#[trigger] rest[j]).id != id;
                assert forall|j: int| 0 <= j < i + 1 implies (#[trigger] peers[j]).id != id by {
                    if j > 0 {
                        assert(peers[j] == rest[j - 1]);
                    }
                }
            },
            None => {
                assert forall|i: int| 0 <= i < peers.len() implies (#[trigger] peers[i]).id
                    != id by {
                    if i > 0 {
                        assert(peers[i] == rest[i - 1]);
                    }
                }
            },
        }
    }
}

/// Picks the peers that outrank `local`.
pub fn select_higher(peers: &Vec<PeerInfo>, local: u128) -> (higher: Vec<PeerInfo>)
    ensures
        higher@ == higher_peers(peers@, local),
{
    let mut higher: Vec<PeerInfo> = Vec::new();
    let mut i: usize = 0;
    proof {
        reveal(Seq::filter);
    }
    while i < peers.len()
        invariant
            i <= peers.len(),
            higher@ == higher_peers(peers@.take(i as int), local),
        decreases peers.len() - i,
    {
        let p = peers[i];
        proof {
            let pred = |p: PeerInfo| p.id > local;
            assert(peers@.take(i + 1) =~= peers@.take(i as int).push(p));
            peers@.take(i as int).lemma_filter_push(p, pred);
        }
        if p.id > local {
            higher.push(p);
        }
        i += 1;
    }
    proof {
        assert(peers@.take(peers.len() as int) =~= peers@);
    }
    higher
}

/// Looks a peer up by its identifier.
pub fn lookup(peers: &Vec<PeerInfo>, id: u128) -> (found: Option<PeerInfo>)
    ensures
        found == find_peer(peers@, id),
{
    let mut i: usize = 0;
    proof {
        assert(peers@.skip(0) =~= peers@);
    }
    while i < peers.len()
        invariant
            i <= peers.len(),
            find_peer(peers@, id) == find_peer(peers@.skip(i as int), id),
        decreases peers.len() - i,
    {
        let p = peers[i];
        proof {
            assert(peers@.skip(i as int).drop_first() =~= peers@.skip(i + 1));
        }
        if p.id == id {
            return Some(p);
        }
        i += 1;
    }
    None
}

} // verus!
