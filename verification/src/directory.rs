//! Discovery: from what the candidates answered to the peers that are known.
//!
//! The caller resolves the service name and asks each address for its
//! identifier. What came back, one [`Sighting`] per address, is turned here
//! into the directory: the peers that answered with an identifier, without
//! the node itself.

use crate::ident::{parsed_id, text_to_id};
use crate::peer::{Address, PeerInfo};
use vstd::prelude::*;

verus! {

/// What one candidate address answered to the identity query. `reply` is the
/// body of the answer, or `None` where the query failed or timed out.
pub struct Sighting {
    pub address: Address,
    pub reply: Option<String>,
}

/// The model of a [`Sighting`].
pub struct SightingView {
    pub address: Address,
    pub reply: Option<Seq<char>>,
}

impl DeepView for Sighting {
    type V = SightingView;

    open spec fn deep_view(&self) -> SightingView {
        SightingView { address: self.address, reply: self.reply.deep_view() }
    }
}

/// What one discovery brought.
pub enum Discovery {
    /// The service name could not be resolved.
    Failed,
    /// The name resolved to these addresses, each asked once.
    Found(Vec<Sighting>),
}

/// The identifier that a candidate answered with, if it answered with one.
pub open spec fn sighted_id(sighting: SightingView) -> Option<u128> {
    match sighting.reply {
        Some(text) => parsed_id(text),
        None => None,
    }
}

/// The peer that a candidate at `address` which answered `answer` is admitted
/// as. A candidate that gave no identifier is dropped, and so is the node
/// itself.
pub open spec fn admitted(local: u128, address: Address, answer: Option<u128>) -> Option<
    PeerInfo,
> {
    match answer {
        Some(id) => if id != local {
            Some(PeerInfo { id, address })
        } else {
            None
        },
        None => None,
    }
}

/// The directory that a discovery yields: the admitted candidates, in the
/// order in which their addresses came.
pub open spec fn confirmed_peers(sightings: Seq<SightingView>, local: u128) -> Seq<PeerInfo> {
    sightings.filter_map(|s: SightingView| admitted(local, s.address, sighted_id(s)))
}

/// The node itself is filtered out: no peer of the directory that a
/// discovery yields carries the node's own identifier.
pub proof fn lemma_confirmed_excludes_self(sightings: Seq<SightingView>, local: u128)
    ensures
        forall|i: int|
            0 <= i < confirmed_peers(sightings, local).len() ==> (#[trigger] confirmed_peers(
                sightings,
                local,
            )[i]).id != local,
    decreases sightings.len(),
{
    if sightings.len() > 0 {
        lemma_confirmed_excludes_self(sightings.drop_last(), local);
    }
}

/// Decides whether a candidate enters the directory.
pub fn enroll(local: u128, address: Address, answer: Option<u128>) -> (peer: Option<PeerInfo>)
    ensures
        peer == admitted(local, address, answer),
{
    match answer {
        Some(id) => if id != local {
            Some(PeerInfo { id, address })
        } else {
            None
        },
        None => None,
    }
}

/// Reads the identifier out of a candidate's answer.
pub fn read_sighting(sighting: &Sighting) -> (answer: Option<u128>)
    ensures
        answer == sighted_id(sighting.deep_view()),
{
    match &sighting.reply {
        Some(text) => text_to_id(text.as_str()),
        None => None,
    }
}

/// Builds the directory from the answers of the candidates.
pub fn find_peers(local: u128, sightings: &Vec<Sighting>) -> (peers: Vec<PeerInfo>)
    ensures
        peers@ == confirmed_peers(sightings.deep_view(), local),
        forall|i: int| 0 <= i < peers.len() ==> (#[trigger] peers[i]).id != local,
{
    let ghost all = sightings.deep_view();
    let ghost pick = |s: SightingView| admitted(local, s.address, sighted_id(s));
    let mut peers: Vec<PeerInfo> = Vec::new();
    let mut i: usize = 0;
    while i < sightings.len()
        invariant
            i <= sightings.len(),
            all == sightings.deep_view(),
            all.len() == sightings.len(),
            pick == |s: SightingView| admitted(local, s.address, sighted_id(s)),
            peers@ == all.take(i as int).filter_map(pick),
        decreases sightings.len() - i,
    {
        let sighting = &sightings[i];
        let entry = enroll(local, sighting.address, read_sighting(sighting));
        proof {
            all.lemma_filter_map_take_succ(pick, i as int);
        }
        match entry {
            Some(peer) => {
                peers.push(peer);
            },
            None => {},
        }
        i += 1;
    }
    proof {
        assert(all.take(all.len() as int) =~= all);
        lemma_confirmed_excludes_self(all, local);
    }
    peers
}

} // verus!
