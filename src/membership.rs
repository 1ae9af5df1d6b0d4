//! The membership view: the peers that discovery reports as reachable and
//! that the gossip topic forwards to.

use vstd::prelude::*;

verus! {

/// Whether two byte strings are equal.
pub fn same_bytes(a: &Vec<u8>, b: &Vec<u8>) -> (r: bool)
    ensures
        r == (a@ == b@),
{
    if a.len() != b.len() {
        return false;
    }
    let mut i: usize = 0;
    while i < a.len()
        invariant
            a@.len() == b@.len(),
            i <= a@.len(),
            a@.subrange(0, i as int) == b@.subrange(0, i as int),
        decreases a@.len() - i,
    {
        if a[i] != b[i] {
            return false;
        }
        assert(a@.subrange(0, i + 1) =~= a@.subrange(0, i as int).push(a@[i as int]));
        assert(b@.subrange(0, i + 1) =~= b@.subrange(0, i as int).push(b@[i as int]));
        i = i + 1;
    }
    assert(a@ =~= a@.subrange(0, a@.len() as int));
    assert(b@ =~= b@.subrange(0, b@.len() as int));
    true
}

/// The set of peers, each named by the bytes of its peer identifier.
pub struct Membership {
    peers: Vec<Vec<u8>>,
}

impl View for Membership {
    type V = Set<Seq<u8>>;

    closed spec fn view(&self) -> Set<Seq<u8>> {
        Set::new(|p: Seq<u8>| exists|i: int| 0 <= i < self.peers@.len() && self.peers@[i]@ == p)
    }
}

impl Membership {
    pub fn new() -> (r: Membership)
        ensures
            r@ == Set::<Seq<u8>>::empty(),
    {
        let r = Membership { peers: Vec::new() };
        assert(r@ =~= Set::<Seq<u8>>::empty());
        r
    }

    pub fn contains(&self, peer: &Vec<u8>) -> (r: bool)
        ensures
            r == self@.contains(peer@),
    {
        let mut i: usize = 0;
        while i < self.peers.len()
            invariant
                i <= self.peers@.len(),
                forall|j: int| 0 <= j < i ==> self.peers@[j]@ != peer@,
            decreases self.peers@.len() - i,
        {
            if same_bytes(&self.peers[i], peer) {
                return true;
            }
            i = i + 1;
        }
        false
    }

    /// A peer was discovered: it joins the view, whatever the view held.
    pub fn joined(&mut self, peer: Vec<u8>)
        ensures
            final(self)@ == old(self)@.insert(peer@),
    {
        if !self.contains(&peer) {
            let ghost p = peer@;
            self.peers.push(peer);
            assert forall|q: Seq<u8>| #[trigger] self@.contains(q) == old(self)@.insert(p).contains(q) by {
                if old(self)@.contains(q) {
                    let i = choose|i: int| 0 <= i < old(self).peers@.len() && old(self).peers@[i]@ == q;
                    assert(self.peers@[i] == old(self).peers@[i]);
                }
                if q == p {
                    assert(self.peers@[old(self).peers@.len() as int]@ == p);
                }
            }
            assert(self@ =~= old(self)@.insert(p));
        } else {
            assert(old(self)@.insert(peer@) =~= old(self)@);
        }
    }

    /// A peer expired. It leaves the view only where discovery no longer
    /// reports it as reachable, which is what the result says: `true` when
    /// it must also leave the gossip topic's partial view.
    pub fn left(&mut self, peer: &Vec<u8>, still_reachable: bool) -> (dropped: bool)
        ensures
            dropped == !still_reachable,
            still_reachable ==> final(self)@ == old(self)@,
            !still_reachable ==> final(self)@ == old(self)@.remove(peer@),
            still_reachable && old(self)@.contains(peer@) ==> final(self)@.contains(peer@),
            !still_reachable ==> !final(self)@.contains(peer@),
    {
        if still_reachable {
            return false;
        }
        let mut kept: Vec<Vec<u8>> = Vec::new();
        let mut i: usize = 0;
        while i < self.peers.len()
            invariant
                i <= self.peers@.len(),
                forall|j: int| 0 <= j < kept@.len() ==> kept@[j]@ != peer@,
                forall|j: int|
                    0 <= j < kept@.len() ==> exists|k: int|
                        0 <= k < i && #[trigger] self.peers@[k]@ == #[trigger] kept@[j]@,
                forall|k: int|
                    0 <= k < i && self.peers@[k]@ != peer@ ==> exists|j: int|
                        0 <= j < kept@.len() && #[trigger] kept@[j]@ == #[trigger] self.peers@[k]@,
            decreases self.peers@.len() - i,
        {
            let item = self.peers[i].clone();
            let ghost before = kept@;
            if !same_bytes(&item, peer) {
                kept.push(item);
                assert(kept@[before.len() as int]@ == self.peers@[i as int]@);
                assert forall|j: int| 0 <= j < kept@.len() implies exists|k: int|
                    0 <= k < i + 1 && #[trigger] self.peers@[k]@ == #[trigger] kept@[j]@ by {
                    if j < before.len() {
                        assert(kept@[j] == before[j]);
                    }
                }
            }
            assert forall|k: int|
                0 <= k < i + 1 && self.peers@[k]@ != peer@ implies exists|j: int|
                0 <= j < kept@.len() && #[trigger] kept@[j]@ == #[trigger] self.peers@[k]@ by {
                if k < i {
                    let j = choose|j: int|
                        0 <= j < before.len() && #[trigger] before[j]@ == #[trigger] self.peers@[k]@;
                    assert(kept@[j] == before[j]);
                } else {
                    assert(kept@[before.len() as int]@ == self.peers@[k]@);
                }
            }
            i = i + 1;
        }
        let ghost old_peers = self.peers@;
        self.peers = kept;
        assert forall|q: Seq<u8>| #[trigger] self@.contains(q) == old(self)@.remove(peer@).contains(q) by {
            if old(self)@.remove(peer@).contains(q) {
                let k = choose|k: int| 0 <= k < old_peers.len() && old_peers[k]@ == q;
                assert(old_peers[k]@ != peer@);
            }
        }
        assert(self@ =~= old(self)@.remove(peer@));
        true
    }
}

} // verus!
