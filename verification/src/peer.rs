//! Peer identities and the operator-facing roster of peer dispositions.
//!
//! The core stores a peer identity only as an association key; the transport
//! collaborator owns the real identifier and hands the core a stable number
//! for it. The roster backs the administrative surface: listing peers and
//! toggling a peer between honest and adversarial at runtime.

use vstd::prelude::*;

use crate::policy::Disposition;

verus! {

/// Opaque unique identifier for a peer, stable for the process lifetime.
#[derive(Clone, Copy, PartialEq, Eq, Structural, Debug)]
pub struct PeerId(pub u64);

/// One known peer together with its currently assigned disposition.
#[derive(Clone, Copy, PartialEq, Eq, Structural, Debug)]
pub struct PeerRecord {
    pub id: PeerId,
    pub disposition: Disposition,
}

/// The operator-visible list of known peers and their dispositions.
pub struct PeerRoster {
    peers: Vec<PeerRecord>,
}

impl PeerRoster {
    pub closed spec fn spec_peers(self) -> Seq<PeerRecord> {
        self.peers@
    }

    pub fn new() -> (r: PeerRoster)
        ensures
            r.spec_peers() == Seq::<PeerRecord>::empty(),
    {
        PeerRoster { peers: Vec::new() }
    }

    pub fn len(&self) -> (n: usize)
        ensures
            n == self.spec_peers().len(),
    {
        self.peers.len()
    }

    pub fn get(&self, i: usize) -> (p: PeerRecord)
        requires
            i < self.spec_peers().len(),
        ensures
            p == self.spec_peers()[i as int],
    {
        self.peers[i]
    }

    /// Register one more peer at the end of the list.
    pub fn add_peer(&mut self, id: PeerId, disposition: Disposition)
        ensures
            final(self).spec_peers() == old(self).spec_peers().push(
                PeerRecord { id, disposition },
            ),
    {
        self.peers.push(PeerRecord { id, disposition });
    }

    /// The disposition currently assigned to the given peer, read fresh at
    /// command-processing time; `None` for an unknown peer. The first entry
    /// with a matching identifier is authoritative.
    pub fn disposition_of(&self, id: PeerId) -> (d: Option<Disposition>)
        ensures
            d == spec_disposition_of(self.spec_peers(), id),
    {
        let n = self.peers.len();
        let mut i: usize = 0;
        proof {
            assert(self.spec_peers().skip(0) =~= self.spec_peers());
        }
        while i < n
            invariant
                0 <= i <= n,
                n == self.spec_peers().len(),
                forall|k: int| 0 <= k < i ==> self.spec_peers()[k].id != id,
                spec_disposition_of(self.spec_peers(), id) == spec_disposition_of(
                    self.spec_peers().skip(i as int),
                    id,
                ),
            decreases n - i,
        {
            proof {
                assert(self.spec_peers().skip(i as int).first() == self.spec_peers()[i as int]);
                assert(self.spec_peers().skip(i as int).drop_first() =~= self.spec_peers().skip(
                    i + 1,
                ));
            }
            if self.peers[i].id == id {
                return Some(self.peers[i].disposition);
            }
            i = i + 1;
        }
        proof {
            assert(self.spec_peers().skip(n as int) =~= Seq::<PeerRecord>::empty());
        }
        None
    }

    /// Flip the disposition of every entry recorded for the given peer and
    /// leave all other entries untouched.
    pub fn toggle(&mut self, id: PeerId)
        ensures
            final(self).spec_peers().len() == old(self).spec_peers().len(),
            forall|k: int|
                0 <= k < old(self).spec_peers().len() ==> #[trigger] final(self).spec_peers()[k]
                    == (if old(self).spec_peers()[k].id == id {
                    PeerRecord {
                        id: old(self).spec_peers()[k].id,
                        disposition: old(self).spec_peers()[k].disposition.spec_toggled(),
                    }
                } else {
                    old(self).spec_peers()[k]
                }),
    {
        let n = self.peers.len();
        let mut i: usize = 0;
        while i < n
            invariant
                0 <= i <= n,
                n == self.spec_peers().len(),
                forall|k: int|
                    i <= k < n ==> #[trigger] self.spec_peers()[k] == old(self).spec_peers()[k],
                forall|k: int|
                    0 <= k < i ==> #[trigger] self.spec_peers()[k]
                        == (if old(self).spec_peers()[k].id == id {
                        PeerRecord {
                            id: old(self).spec_peers()[k].id,
                            disposition: old(self).spec_peers()[k].disposition.spec_toggled(),
                        }
                    } else {
                        old(self).spec_peers()[k]
                    }),
            decreases n - i,
        {
            if self.peers[i].id == id {
                let flipped = self.peers[i].disposition.toggled();
                self.peers[i] = PeerRecord { id, disposition: flipped };
            }
            i = i + 1;
        }
    }
}

/// The disposition the roster assigns to `id`: that of the first matching
/// entry, or `None` when no entry matches.
pub open spec fn spec_disposition_of(peers: Seq<PeerRecord>, id: PeerId) -> Option<Disposition>
    decreases peers.len(),
{
    if peers.len() == 0 {
        None
    } else if peers.first().id == id {
        Some(peers.first().disposition)
    } else {
        spec_disposition_of(peers.drop_first(), id)
    }
}

} // verus!
