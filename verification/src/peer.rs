//! The HYDRA peers a node knows of.
use vstd::prelude::*;
use vstd::string::StringExecFns;

use crate::strmap::str_eq;
use crate::time::Timestamp;

verus! {

/// A known peer and when it was seen.
#[derive(Debug)]
pub struct PeerInfo {
    pub node_id: String,
    pub onion_address: String,
    pub first_seen: Timestamp,
    pub last_seen: Timestamp,
    pub last_sync: Option<Timestamp>,
}

/// The peers a node knows of, in the order they were first seen.
#[derive(Debug, Clone)]
pub struct PeerList {
    pub peers: Vec<PeerInfo>,
}

/// `i` is the first position of a peer with node id `id`.
pub open spec fn first_with_id(s: Seq<PeerInfo>, id: Seq<char>, i: int) -> bool {
    &&& 0 <= i < s.len()
    &&& s[i].node_id@ == id
    &&& forall|j: int| 0 <= j < i ==> (#[trigger] s[j]).node_id@ != id
}

/// Some peer has node id `id`.
pub open spec fn has_id(s: Seq<PeerInfo>, id: Seq<char>) -> bool {
    exists|i: int| 0 <= i < s.len() && (#[trigger] s[i]).node_id@ == id
}

/// The peers that are kept when `id` is removed.
pub open spec fn without_id(s: Seq<PeerInfo>, id: Seq<char>) -> Seq<PeerInfo> {
    s.filter(|p: PeerInfo| p.node_id@ != id)
}

/// `new` is `old` after the peer `id` was added at `addr`, or the first
/// peer with that id moved to `addr`; seen now either way.
pub open spec fn upserted(old: Seq<PeerInfo>, new: Seq<PeerInfo>, id: Seq<char>, addr: Seq<char>) -> bool {
    if has_id(old, id) {
        exists|i: int|
            #![trigger old[i]]
            first_with_id(old, id, i) && {
                let p = old[i];
                let q = new[i];
                &&& new.len() == old.len()
                &&& forall|j: int| 0 <= j < old.len() && j != i ==> #[trigger] new[j] == old[j]
                &&& q.node_id == p.node_id
                &&& q.onion_address@ == addr
                &&& q.first_seen == p.first_seen
                &&& q.last_sync == p.last_sync
            }
    } else {
        let q = new.last();
        &&& new == old.push(q)
        &&& q.node_id@ == id
        &&& q.onion_address@ == addr
        &&& q.first_seen == q.last_seen
        &&& q.last_sync is None
    }
}

/// After an upsert of `id` at `addr`, the first peer with that id is at
/// `addr`, and the list grew by one exactly when the id was new.
pub proof fn lemma_upsert_then_get(old: Seq<PeerInfo>, new: Seq<PeerInfo>, id: Seq<char>, addr: Seq<char>)
    requires
        upserted(old, new, id, addr),
    ensures
        exists|i: int| first_with_id(new, id, i) && (#[trigger] new[i]).onion_address@ == addr,
        new.len() == old.len() + (if has_id(old, id) {
            0int
        } else {
            1int
        }),
{
    if has_id(old, id) {
        let i = choose|i: int|
            #![trigger old[i]]
            first_with_id(old, id, i) && {
                let p = old[i];
                let q = new[i];
                &&& new.len() == old.len()
                &&& forall|j: int| 0 <= j < old.len() && j != i ==> #[trigger] new[j] == old[j]
                &&& q.node_id == p.node_id
                &&& q.onion_address@ == addr
                &&& q.first_seen == p.first_seen
                &&& q.last_sync == p.last_sync
            };
        assert forall|j: int| 0 <= j < i implies (#[trigger] new[j]).node_id@ != id by {
            assert(new[j] == old[j]);
        }
        assert(first_with_id(new, id, i));
    } else {
        let n = old.len() as int;
        assert forall|j: int| 0 <= j < n implies (#[trigger] new[j]).node_id@ != id by {
            assert(new[j] == old[j]);
        }
        assert(first_with_id(new, id, n));
    }
}

/// Once `id` is removed no peer has it, and the others stay in order.
pub proof fn lemma_remove_then_absent(s: Seq<PeerInfo>, id: Seq<char>)
    ensures
        !has_id(without_id(s, id), id),
        forall|i: int|
            0 <= i < s.len() && s[i].node_id@ != id ==> without_id(s, id).contains(#[trigger] s[i]),
{
    let f = |p: PeerInfo| p.node_id@ != id;
    s.filter_lemma(f);
    assert forall|i: int|
        0 <= i < s.len() && s[i].node_id@ != id implies without_id(s, id).contains(#[trigger] s[i]) by {
        assert(f(s[i]));
    }
}

/// The position of the first peer with node id `id`, if any.
fn position(peers: &Vec<PeerInfo>, id: &str) -> (r: Option<usize>)
    ensures
        match r {
            Some(i) => first_with_id(peers@, id@, i as int),
            None => !has_id(peers@, id@),
        },
{
    let mut i: usize = 0;
    while i < peers.len()
        invariant
            i <= peers@.len(),
            forall|j: int| 0 <= j < i ==> (#[trigger] peers@[j]).node_id@ != id@,
        decreases peers@.len() - i,
    {
        if str_eq(peers[i].node_id.as_str(), id) {
            return Some(i);
        }
        i = i + 1;
    }
    None
}

impl PeerList {
    /// No peers.
    pub fn new() -> (l: Self)
        ensures
            l.peers@.len() == 0,
    {
        PeerList { peers: Vec::new() }
    }

    /// Add a peer, or update the address of a known one (the first with
    /// that node id); either way it was seen now.
    pub fn upsert(&mut self, node_id: &str, onion_address: &str)
        ensures
            upserted(old(self).peers@, final(self).peers@, node_id@, onion_address@),
    {
        let now = Timestamp::now();
        match position(&self.peers, node_id) {
            Some(i) => {
                let p = &self.peers[i];
                let q = PeerInfo {
                    node_id: p.node_id.clone(),
                    onion_address: String::from_str(onion_address),
                    first_seen: p.first_seen,
                    last_seen: now,
                    last_sync: p.last_sync,
                };
                self.peers.set(i, q);
            },
            None => {
                self.peers.push(
                    PeerInfo {
                        node_id: String::from_str(node_id),
                        onion_address: String::from_str(onion_address),
                        first_seen: now,
                        last_seen: now,
                        last_sync: None,
                    },
                );
            },
        }
    }

    /// Remove every peer with node id `node_id`; whether there was one.
    pub fn remove(&mut self, node_id: &str) -> (removed: bool)
        ensures
            final(self).peers@ == without_id(old(self).peers@, node_id@),
            removed == has_id(old(self).peers@, node_id@),
    {
        let ghost old_peers = self.peers@;
        let mut kept: Vec<PeerInfo> = Vec::new();
        let mut i: usize = 0;
        while i < self.peers.len()
            invariant
                old_peers == self.peers@,
                i <= old_peers.len(),
                kept@ == without_id(old_peers.take(i as int), node_id@),
                kept@.len() <= i,
                kept@.len() == i <==> !has_id(old_peers.take(i as int), node_id@),
            decreases old_peers.len() - i,
        {
            let same = str_eq(self.peers[i].node_id.as_str(), node_id);
            if !same {
                kept.push(self.peers[i].clone());
            }
            proof {
                let t = old_peers.take(i + 1);
                assert(t.drop_last() =~= old_peers.take(i as int));
                assert(t.last() == old_peers[i as int]);
                reveal(Seq::filter);
                if has_id(old_peers.take(i as int), node_id@) {
                    let k = choose|k: int|
                        0 <= k < i && (#[trigger] old_peers.take(i as int)[k]).node_id@ == node_id@;
                    assert(t[k] == old_peers.take(i as int)[k]);
                }
                if same {
                    assert(t[i as int] == old_peers[i as int]);
                }
                if has_id(t, node_id@) && !same {
                    let k = choose|k: int| 0 <= k < i + 1 && (#[trigger] t[k]).node_id@ == node_id@;
                    assert(old_peers.take(i as int)[k] == t[k]);
                }
            }
            i = i + 1;
        }
        assert(old_peers.take(old_peers.len() as int) =~= old_peers);
        let removed = kept.len() < self.peers.len();
        self.peers = kept;
        removed
    }

    /// The first peer with node id `node_id`.
    pub fn get(&self, node_id: &str) -> (r: Option<&PeerInfo>)
        ensures
            match r {
                Some(p) => exists|i: int| first_with_id(self.peers@, node_id@, i) && *p == self.peers@[i],
                None => !has_id(self.peers@, node_id@),
            },
    {
        match position(&self.peers, node_id) {
            Some(i) => Some(&self.peers[i]),
            None => None,
        }
    }

    /// The first peer with node id `node_id`, to be changed in place; what
    /// is written through it lands at that peer's position.
    pub fn get_mut(&mut self, node_id: &str) -> (r: Option<&mut PeerInfo>)
        ensures
            match r {
                Some(p) => exists|i: int|
                    #![trigger old(self).peers@[i]]
                    first_with_id(old(self).peers@, node_id@, i) && *p == old(self).peers@[i]
                        && final(self).peers@ == old(self).peers@.update(i, *final(p)),
                None => !has_id(old(self).peers@, node_id@) && final(self).peers@ == old(
                    self,
                ).peers@,
            },
    {
        match position(&self.peers, node_id) {
            Some(i) => Some(&mut self.peers[i]),
            None => None,
        }
    }

    /// Note a completed sync with the first peer with node id `node_id`:
    /// it was synced with and seen now.
    pub fn record_sync(&mut self, node_id: &str)
        ensures
            !has_id(old(self).peers@, node_id@) ==> final(self).peers@ == old(self).peers@,
            has_id(old(self).peers@, node_id@) ==> exists|i: int|
                #![trigger old(self).peers@[i]]
                first_with_id(old(self).peers@, node_id@, i) && {
                    let p = old(self).peers@[i];
                    let q = final(self).peers@[i];
                    &&& final(self).peers@.len() == old(self).peers@.len()
                    &&& forall|j: int|
                        0 <= j < old(self).peers@.len() && j != i ==> #[trigger] final(self).peers@[j]
                            == old(self).peers@[j]
                    &&& q.node_id == p.node_id
                    &&& q.onion_address == p.onion_address
                    &&& q.first_seen == p.first_seen
                    &&& q.last_sync is Some
                },
    {
        if let Some(peer) = self.get_mut(node_id) {
            peer.last_sync = Some(Timestamp::now());
            peer.last_seen = Timestamp::now();
        }
    }

    /// The number of known peers.
    pub fn count(&self) -> (n: usize)
        ensures
            n == self.peers@.len(),
    {
        self.peers.len()
    }
}

impl Clone for PeerInfo {
    fn clone(&self) -> (r: PeerInfo)
        ensures
            r == *self,
    {
        PeerInfo {
            node_id: self.node_id.clone(),
            onion_address: self.onion_address.clone(),
            first_seen: self.first_seen,
            last_seen: self.last_seen,
            last_sync: self.last_sync,
        }
    }
}

} // verus!
