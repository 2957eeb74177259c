//! The peer view: a deduplicated cache of the identities that discovery
//! currently reports, written only from discovery notifications.

use vstd::prelude::*;

verus! {

/// The peers currently visible, each identity held once, in arrival
/// order.
pub struct PeerView {
    pub peers: Vec<String>,
}

impl View for PeerView {
    type V = Seq<Seq<char>>;

    open spec fn view(&self) -> Seq<Seq<char>> {
        self.peers@.map_values(|s: String| s@)
    }
}

impl PeerView {
    /// No identity occurs twice.
    pub open spec fn wf(&self) -> bool {
        forall|i: int, j: int|
            0 <= i < self@.len() && 0 <= j < self@.len() && i != j ==> self@[i] != self@[j]
    }

    /// An empty view: nothing discovered yet.
    pub fn new() -> (r: PeerView)
        ensures
            r@ == Seq::<Seq<char>>::empty(),
            r.wf(),
    {
        let r = PeerView { peers: Vec::new() };
        proof {
            assert(r@ =~= Seq::<Seq<char>>::empty());
        }
        r
    }

    /// Whether this identity is present.
    pub fn knows(&self, p: &String) -> (r: bool)
        ensures
            r == self@.contains(p@),
    {
        let mut i: usize = 0;
        while i < self.peers.len()
            invariant
                i <= self@.len(),
                self@.len() == self.peers@.len(),
                forall|k: int| 0 <= k < i ==> self@[k] != p@,
            decreases self@.len() - i,
        {
            if self.peers[i] == *p {
                proof {
                    assert(self@[i as int] == p@);
                }
                return true;
            }
            i = i + 1;
        }
        proof {
            if self@.contains(p@) {
                let k = choose|k: int| 0 <= k < self@.len() && self@[k] == p@;
                assert(self@[k] != p@);
            }
        }
        false
    }

    /// A peer appeared: remember its identity unless it is already here.
    pub fn add_peer(&mut self, p: String)
        requires
            old(self).wf(),
        ensures
            final(self).wf(),
            final(self)@ == if old(self)@.contains(p@) {
                old(self)@
            } else {
                old(self)@.push(p@)
            },
    {
        if !self.knows(&p) {
            let ghost pre = self@;
            self.peers.push(p);
            proof {
                assert(self@ =~= pre.push(p@));
                assert forall|i: int, j: int|
                    0 <= i < self@.len() && 0 <= j < self@.len() && i != j implies self@[i]
                    != self@[j] by {
                    if i < pre.len() && j < pre.len() {
                    } else if j == pre.len() {
                        assert(!pre.contains(self@[j]));
                    } else {
                        assert(!pre.contains(self@[i]));
                    }
                }
            }
        }
    }

    /// A peer expired: forget its identity, unless a liveness check still
    /// reports it reachable.
    pub fn remove_peer(&mut self, p: &String, still_reachable: bool)
        requires
            old(self).wf(),
        ensures
            final(self).wf(),
            final(self)@ == if still_reachable || !old(self)@.contains(p@) {
                old(self)@
            } else {
                old(self)@.remove(old(self)@.index_of(p@))
            },
    {
        if still_reachable {
            return ;
        }
        let ghost pre = self@;
        let mut i: usize = 0;
        while i < self.peers.len()
            invariant
                !still_reachable,
                i <= self@.len(),
                self@ == pre,
                self@.len() == self.peers@.len(),
                old(self).wf(),
                pre == old(self)@,
                forall|k: int| 0 <= k < i ==> self@[k] != p@,
            decreases self@.len() - i,
        {
            if self.peers[i] == *p {
                proof {
                    assert(pre[i as int] == p@);
                    assert(pre.contains(p@));
                    assert(pre.index_of(p@) == i as int) by {
                        let f = pre.index_of(p@);
                        if f != i as int {
                            assert(pre[f] == p@);
                        }
                    }
                }
                self.peers.remove(i);
                proof {
                    assert(self@ =~= pre.remove(i as int));
                    assert forall|a: int, b: int|
                        0 <= a < self@.len() && 0 <= b < self@.len() && a != b implies self@[a]
                        != self@[b] by {
                        let a0: int = if a < i { a } else { a + 1 };
                        let b0: int = if b < i { b } else { b + 1 };
                        assert(self@[a] == pre[a0] && self@[b] == pre[b0]);
                    }
                }
                return ;
            }
            i = i + 1;
        }
        proof {
            if pre.contains(p@) {
                let k = choose|k: int| 0 <= k < pre.len() && pre[k] == p@;
                assert(pre[k] != p@);
            }
        }
    }

    /// The identities currently visible, deduplicated.
    pub fn current_peers(&self) -> (r: &Vec<String>)
        ensures
            r@.map_values(|s: String| s@) == self@,
    {
        &self.peers
    }
}

} // verus!
