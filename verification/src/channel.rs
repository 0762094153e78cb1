//! Bookkeeping for an engine channel: in-flight queries, the socket
//! interest set, and the exactly-once completion guarantee.
//!
//! The engine performs its protocol work inside the embedder's event
//! loop; this module keeps the model of that loop's obligations. A
//! submitted query stays pending until its handler fires — through
//! [`Channel::complete`] when the engine delivers an outcome, or through
//! [`Channel::destroy`] when the channel is torn down with queries still
//! pending. Readiness and timeout ticks go straight to the engine; every
//! completion they trigger funnels through [`Channel::complete`], so the
//! invariants here cover any sequence of them.

use vstd::prelude::*;
use crate::error::AresError;

verus! {

/// One in-flight query: the opaque identity under which its completion
/// handler was registered with the engine, and the descriptor the engine
/// works it on.
#[derive(Clone, Copy, Debug)]
pub struct PendingQuery {
    pub id: u64,
    pub fd: i32,
}

/// One entry of the socket interest set: a descriptor the embedder must
/// watch this round, and for which directions.
#[derive(Clone, Copy, Debug, PartialEq, Eq, Structural)]
pub struct SocketInterest {
    pub fd: i32,
    pub readable: bool,
    pub writable: bool,
}

/// Holds when no identity occurs twice in a sequence.
pub open spec fn distinct_ids(s: Seq<u64>) -> bool {
    forall|i: int, j: int| 0 <= i < j < s.len() ==> s[i] != s[j]
}

/// The bookkeeping of one engine channel.
pub struct Channel {
    /// The identity the next submitted query receives.
    pub next_id: u64,
    /// The queries submitted and not yet completed, oldest first.
    pub pending: Vec<PendingQuery>,
    /// The identities whose handlers have fired, in firing order.
    pub fired: Ghost<Seq<u64>>,
}

impl Channel {
    /// The identities of the in-flight queries, oldest first.
    pub open spec fn pending_ids(self) -> Seq<u64> {
        self.pending@.map_values(|p: PendingQuery| p.id)
    }

    /// Every issued identity is pending or fired, never both, and none
    /// occurs twice on either side.
    pub open spec fn wf(self) -> bool {
        &&& distinct_ids(self.pending_ids())
        &&& distinct_ids(self.fired@)
        &&& forall|i: int|
            0 <= i < self.pending_ids().len() ==> (#[trigger] self.pending_ids()[i])
                < self.next_id
        &&& forall|i: int| 0 <= i < self.fired@.len() ==> (#[trigger] self.fired@[i]) < self.next_id
        &&& forall|i: int, j: int|
            0 <= i < self.fired@.len() && 0 <= j < self.pending_ids().len() ==> (
            #[trigger] self.fired@[i]) != (#[trigger] self.pending_ids()[j])
        &&& forall|q: u64|
            q < self.next_id ==> self.pending_ids().contains(q) || self.fired@.contains(q)
    }

    /// A fresh channel: nothing submitted, nothing fired.
    pub fn new() -> (ch: Channel)
        ensures
            ch.wf(),
            ch.pending@.len() == 0,
            ch.fired@.len() == 0,
            ch.next_id == 0,
    {
        Channel { next_id: 0, pending: Vec::new(), fired: Ghost(Seq::empty()) }
    }

    /// Submits one query worked on descriptor `fd`; the returned identity
    /// is fresh and stays pending until its handler fires.
    pub fn submit(&mut self, fd: i32) -> (id: u64)
        requires
            old(self).wf(),
            old(self).next_id < u64::MAX,
        ensures
            final(self).wf(),
            id == old(self).next_id,
            final(self).next_id == old(self).next_id + 1,
            final(self).pending@ == old(self).pending@.push(PendingQuery { id, fd }),
            final(self).fired == old(self).fired,
            final(self).pending_ids() == old(self).pending_ids().push(id),
    {
        let id = self.next_id;
        self.next_id = self.next_id + 1;
        self.pending.push(PendingQuery { id, fd });
        proof {
            let ghost pre_ids = old(self).pending_ids();
            assert(self.pending_ids() =~= pre_ids.push(id));
            assert forall|q: u64| q < self.next_id implies self.pending_ids().contains(q)
                || self.fired@.contains(q) by {
                if q == id {
                    assert(self.pending_ids()[pre_ids.len() as int] == id);
                } else {
                    assert(q < old(self).next_id);
                    if pre_ids.contains(q) {
                        let w = choose|w: int| 0 <= w < pre_ids.len() && pre_ids[w] == q;
                        assert(self.pending_ids()[w] == q);
                    }
                }
            }
        }
        id
    }

    /// The complete interest set for this round, recomputed from scratch:
    /// one read-interest entry per in-flight query. With no outstanding
    /// queries the set is empty, and the embedder may stop polling.
    pub fn get_sock(&self) -> (socks: Vec<SocketInterest>)
        ensures
            socks@.len() == self.pending@.len(),
            forall|k: int|
                0 <= k < socks@.len() ==> (#[trigger] socks@[k]) == (SocketInterest {
                    fd: self.pending@[k].fd,
                    readable: true,
                    writable: false,
                }),
            socks@.len() == 0 <==> self.pending@.len() == 0,
    {
        let mut socks: Vec<SocketInterest> = Vec::new();
        let mut i: usize = 0;
        while i < self.pending.len()
            invariant
                i <= self.pending@.len(),
                socks@.len() == i,
                forall|k: int|
                    0 <= k < i ==> (#[trigger] socks@[k]) == (SocketInterest {
                        fd: self.pending@[k].fd,
                        readable: true,
                        writable: false,
                    }),
            decreases self.pending@.len() - i,
        {
            let p = self.pending[i];
            socks.push(SocketInterest { fd: p.fd, readable: true, writable: false });
            i += 1;
        }
        socks
    }

    /// Fires the handler of query `id`, if it is still pending: the query
    /// leaves the pending set and its identity joins the fired record.
    /// An identity that is not pending — never issued, or fired already —
    /// changes nothing and reports `false`, so no handler can fire twice.
    pub fn complete(&mut self, id: u64) -> (found: bool)
        requires
            old(self).wf(),
        ensures
            final(self).wf(),
            final(self).next_id == old(self).next_id,
            found <==> old(self).pending_ids().contains(id),
            found ==> final(self).fired@ == old(self).fired@.push(id)
                && !(final(self).pending_ids().contains(id))
                && (exists|w: int|
                    0 <= w < old(self).pending@.len()
                    && old(self).pending_ids()[w] == id
                    && final(self).pending@ == old(self).pending@.remove(w)),
            !found ==> *final(self) == *old(self),
    {
        let ghost pre = *old(self);
        let mut i: usize = 0;
        while i < self.pending.len()
            invariant
                *self == pre,
                pre == *old(self),
                pre.wf(),
                i <= self.pending@.len(),
                forall|k: int| 0 <= k < i ==> (#[trigger] pre.pending_ids()[k]) != id,
            decreases self.pending@.len() - i,
        {
            if self.pending[i].id == id {
                proof {
                    assert(pre.pending_ids()[i as int] == id);
                }
                self.pending.remove(i);
                self.fired = Ghost(self.fired@.push(id));
                proof {
                    let ids_pre = pre.pending_ids();
                    let ids_post = self.pending_ids();
                    pre.pending@.remove_ensures(i as int);
                    ids_pre.remove_ensures(i as int);
                    assert(ids_post =~= ids_pre.remove(i as int));
                    assert(distinct_ids(ids_pre));
                    assert forall|k: int| 0 <= k < ids_post.len() implies (
                    #[trigger] ids_post[k]) != id by {
                        if k < i {
                            assert(ids_post[k] == ids_pre[k]);
                        } else {
                            assert(ids_post[k] == ids_pre[k + 1]);
                            assert(ids_pre[i as int] == id);
                            assert(ids_pre[i as int] != ids_pre[k + 1]);
                        }
                    }
                    assert(!ids_post.contains(id));
                    assert(distinct_ids(ids_post)) by {
                        assert forall|a: int, b: int|
                            0 <= a < b < ids_post.len() implies ids_post[a] != ids_post[b] by {
                            let a0 = if a < i {
                                a
                            } else {
                                a + 1
                            };
                            let b0 = if b < i {
                                b
                            } else {
                                b + 1
                            };
                            assert(ids_post[a] == ids_pre[a0]);
                            assert(ids_post[b] == ids_pre[b0]);
                            assert(0 <= a0 < b0 < ids_pre.len());
                            assert(ids_pre[a0] != ids_pre[b0]);
                        }
                    }
                    assert forall|q: u64| q < self.next_id implies ids_post.contains(q)
                        || self.fired@.contains(q) by {
                        if q == id {
                            assert(self.fired@[self.fired@.len() - 1] == id);
                        } else if pre.pending_ids().contains(q) {
                            let w = choose|w: int|
                                0 <= w < ids_pre.len() && ids_pre[w] == q;
                            if w < i {
                                assert(ids_post[w] == q);
                            } else {
                                assert(w != i);
                                assert(ids_post[w - 1] == q);
                            }
                        } else {
                            assert(pre.fired@.contains(q));
                            let w = choose|w: int|
                                0 <= w < pre.fired@.len() && pre.fired@[w] == q;
                            assert(self.fired@[w] == q);
                        }
                    }
                    assert forall|a: int, b: int|
                        0 <= a < self.fired@.len() && 0 <= b < ids_post.len() implies (
                    #[trigger] self.fired@[a]) != (#[trigger] ids_post[b]) by {
                        if a < pre.fired@.len() {
                            let b0 = if b < i {
                                b
                            } else {
                                b + 1
                            };
                            assert(ids_post[b] == ids_pre[b0]);
                            assert(pre.fired@[a] != ids_pre[b0]);
                        } else {
                            assert(self.fired@[a] == id);
                        }
                    }
                    assert(distinct_ids(self.fired@)) by {
                        assert forall|a: int, b: int|
                            0 <= a < b < self.fired@.len() implies self.fired@[a]
                            != self.fired@[b] by {
                            if b < pre.fired@.len() {
                            } else {
                                assert(self.fired@[b] == id);
                                assert(self.fired@[a] == pre.fired@[a]);
                                assert(pre.pending_ids()[i as int] == id);
                                assert(pre.fired@[a] != pre.pending_ids()[i as int]);
                            }
                        }
                    }
                }
                return true;
            }
            i += 1;
        }
        proof {
            assert forall|w: int|
                0 <= w < pre.pending_ids().len() implies (#[trigger] pre.pending_ids()[w])
                != id by {}
            assert(!pre.pending_ids().contains(id));
        }
        false
    }

    /// Tears the channel down with queries still pending: every pending
    /// handler fires once with `EDESTRUCTION`, in submission order, and
    /// none with any other outcome; nothing stays pending.
    pub fn destroy(&mut self) -> (completions: Vec<(u64, AresError)>)
        requires
            old(self).wf(),
        ensures
            final(self).wf(),
            final(self).next_id == old(self).next_id,
            final(self).pending@.len() == 0,
            completions@.len() == old(self).pending@.len(),
            forall|k: int|
                0 <= k < completions@.len() ==> (#[trigger] completions@[k]).0 == old(
                    self,
                ).pending_ids()[k] && completions@[k].1 == AresError::EDESTRUCTION,
            final(self).fired@ == old(self).fired@ + old(self).pending_ids(),
    {
        let ghost pre = *old(self);
        let mut completions: Vec<(u64, AresError)> = Vec::new();
        while self.pending.len() > 0
            invariant
                self.next_id == pre.next_id,
                completions@.len() + self.pending@.len() == pre.pending@.len(),
                self.pending@ == pre.pending@.skip(completions@.len() as int),
                forall|k: int|
                    0 <= k < completions@.len() ==> (#[trigger] completions@[k]).0
                        == pre.pending_ids()[k] && completions@[k].1 == AresError::EDESTRUCTION,
                self.fired@ == pre.fired@ + pre.pending_ids().take(completions@.len() as int),
            decreases self.pending@.len(),
        {
            let ghost done = completions@.len() as int;
            let p = self.pending.remove(0);
            proof {
                assert(p == pre.pending@[done]);
                assert(self.pending@ =~= pre.pending@.skip(done + 1));
                assert(pre.pending_ids()[done] == p.id);
            }
            completions.push((p.id, AresError::EDESTRUCTION));
            self.fired = Ghost(self.fired@.push(p.id));
            proof {
                assert(self.fired@ =~= pre.fired@ + pre.pending_ids().take(done + 1));
            }
        }
        proof {
            assert(pre.pending_ids().take(completions@.len() as int) =~= pre.pending_ids());
            let post_fired = self.fired@;
            assert(post_fired == pre.fired@ + pre.pending_ids());
            assert(self.pending_ids().len() == 0);
            assert(distinct_ids(self.pending_ids()));
            assert(distinct_ids(post_fired)) by {
                assert forall|a: int, b: int|
                    0 <= a < b < post_fired.len() implies post_fired[a] != post_fired[b] by {
                    let nf = pre.fired@.len() as int;
                    if b < nf {
                    } else if a >= nf {
                        assert(post_fired[a] == pre.pending_ids()[a - nf]);
                        assert(post_fired[b] == pre.pending_ids()[b - nf]);
                    } else {
                        assert(post_fired[a] == pre.fired@[a]);
                        assert(post_fired[b] == pre.pending_ids()[b - nf]);
                    }
                }
            }
            assert forall|i: int| 0 <= i < post_fired.len() implies (#[trigger] post_fired[i])
                < self.next_id by {
                let nf = pre.fired@.len() as int;
                if i < nf {
                    assert(post_fired[i] == pre.fired@[i]);
                } else {
                    assert(post_fired[i] == pre.pending_ids()[i - nf]);
                }
            }
            assert forall|q: u64| q < self.next_id implies self.pending_ids().contains(q)
                || post_fired.contains(q) by {
                if pre.pending_ids().contains(q) {
                    let w = choose|w: int|
                        0 <= w < pre.pending_ids().len() && pre.pending_ids()[w] == q;
                    assert(post_fired[pre.fired@.len() + w] == q);
                } else {
                    assert(pre.fired@.contains(q));
                    let w = choose|w: int| 0 <= w < pre.fired@.len() && pre.fired@[w] == q;
                    assert(post_fired[w] == q);
                }
            }
        }
        completions
    }
}

/// Exactly-once invocation: any identity the channel has issued is still
/// pending or has fired — one of the two, never both — and the fired
/// record never holds an identity twice. So across any sequence of
/// readiness, timeout, and teardown events, each submitted query's
/// handler fires exactly once.
pub proof fn lemma_exactly_once(ch: Channel, q: u64)
    requires
        ch.wf(),
        q < ch.next_id,
    ensures
        ch.pending_ids().contains(q) || ch.fired@.contains(q),
        !(ch.pending_ids().contains(q) && ch.fired@.contains(q)),
        forall|i: int, j: int|
            0 <= i < j < ch.fired@.len() ==> !(ch.fired@[i] == q && ch.fired@[j] == q),
{
    if ch.pending_ids().contains(q) && ch.fired@.contains(q) {
        let i = choose|i: int| 0 <= i < ch.fired@.len() && ch.fired@[i] == q;
        let j = choose|j: int| 0 <= j < ch.pending_ids().len() && ch.pending_ids()[j] == q;
        assert(ch.fired@[i] != ch.pending_ids()[j]);
        assert(false);
    }
}

} // verus!
