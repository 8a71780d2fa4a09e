//! The broadcast bus: one-to-many delivery with independent consumer pacing
//! and bounded memory.
//!
//! Every subscriber owns a bounded queue that trails the shared publish
//! history. A publish appends to every active subscriber's queue; when a
//! queue is full the oldest undelivered event is dropped for that subscriber
//! only (lagging-receiver semantics: lossy under load, never blocking).
//! A subscription created at history length `h` sees only events published
//! at index `h` or later. Each backlog is a contiguous window of the shared
//! history, so all subscribers observe events in the same published order.

use vstd::prelude::*;

use crate::message::Message;

verus! {

/// How many undelivered events one subscriber may trail by.
pub const BACKLOG_CAPACITY: usize = 100;

/// One subscription handle's server-side state.
pub struct Subscriber {
    /// Undelivered events, oldest first.
    pub pending: Vec<Message>,
    /// History index of the oldest undelivered event.
    pub cursor: Ghost<int>,
    /// History length at subscribe time.
    pub joined_at: Ghost<int>,
    /// Cleared on unsubscribe; an inactive slot receives nothing.
    pub active: bool,
}

/// The bus: the ghost publish history and every subscriber's backlog.
pub struct Bus {
    pub subs: Vec<Subscriber>,
    pub history: Ghost<Seq<Message>>,
}

/// A subscriber's backlog is a capacity-bounded suffix window of the history.
pub open spec fn sub_wf(sub: Subscriber, history: Seq<Message>) -> bool {
    &&& sub.active ==> {
        &&& 0 <= sub.joined_at@ <= sub.cursor@
        &&& sub.cursor@ + sub.pending@.len() == history.len()
        &&& sub.pending@ == history.subrange(sub.cursor@, history.len() as int)
        &&& sub.pending@.len() <= BACKLOG_CAPACITY
    }
    &&& !sub.active ==> sub.pending@.len() == 0
}

/// What one publish does to one subscriber: nothing when inactive; append
/// when there is room; drop the oldest undelivered event, then append, when
/// the backlog is full.
pub open spec fn delivered_one(pre: Subscriber, post: Subscriber, m: Message) -> bool {
    &&& post.active == pre.active
    &&& post.joined_at == pre.joined_at
    &&& !pre.active ==> post == pre
    &&& pre.active && pre.pending@.len() < BACKLOG_CAPACITY ==> post.pending@ == pre.pending@
        + seq![m] && post.cursor == pre.cursor
    &&& pre.active && pre.pending@.len() >= BACKLOG_CAPACITY ==> post.pending@
        == pre.pending@.subrange(1, pre.pending@.len() as int) + seq![m] && post.cursor@
        == pre.cursor@ + 1
}

impl Bus {
    /// Every backlog is well-formed against the shared history.
    pub open spec fn wf(self) -> bool {
        forall|i: int|
            0 <= i < self.subs@.len() ==> sub_wf(#[trigger] self.subs@[i], self.history@)
    }

    /// A bus with no history and no subscribers.
    pub fn new() -> (r: Bus)
        ensures
            r.wf(),
            r.history@ == Seq::<Message>::empty(),
            r.subs@.len() == 0,
    {
        Bus { subs: Vec::new(), history: Ghost(Seq::empty()) }
    }

    /// Creates a fresh subscription that sees only future events.
    pub fn subscribe(&mut self) -> (id: usize)
        requires
            old(self).wf(),
        ensures
            final(self).wf(),
            id == old(self).subs@.len(),
            final(self).subs@.len() == old(self).subs@.len() + 1,
            final(self).history@ == old(self).history@,
            forall|i: int| 0 <= i < id ==> final(self).subs@[i] == old(self).subs@[i],
            final(self).subs@[id as int].active,
            final(self).subs@[id as int].pending@.len() == 0,
            final(self).subs@[id as int].cursor@ == old(self).history@.len(),
            final(self).subs@[id as int].joined_at@ == old(self).history@.len(),
    {
        let id = self.subs.len();
        let ghost hlen: int = self.history@.len() as int;
        let sub = Subscriber {
            pending: Vec::new(),
            cursor: Ghost(hlen),
            joined_at: Ghost(hlen),
            active: true,
        };
        self.subs.push(sub);
        proof {
            assert(self.subs@[id as int].pending@ =~= self.history@.subrange(hlen, hlen));
        }
        id
    }

    /// Publishes one event to every active subscriber; never blocks on a
    /// slow subscriber.
    pub fn publish(&mut self, message: Message)
        requires
            old(self).wf(),
        ensures
            final(self).wf(),
            final(self).history@ == old(self).history@ + seq![message],
            final(self).subs@.len() == old(self).subs@.len(),
            forall|k: int|
                0 <= k < old(self).subs@.len() ==> delivered_one(
                    old(self).subs@[k],
                    #[trigger] final(self).subs@[k],
                    message,
                ),
    {
        self.history = Ghost(self.history@ + seq![message]);
        let n = self.subs.len();
        let mut i: usize = 0;
        while i < n
            invariant
                n == self.subs@.len(),
                n == old(self).subs@.len(),
                0 <= i <= n,
                self.history@ == old(self).history@ + seq![message],
                old(self).wf(),
                forall|k: int|
                    0 <= k < i ==> delivered_one(
                        old(self).subs@[k],
                        #[trigger] self.subs@[k],
                        message,
                    ),
                forall|k: int| 0 <= k < i ==> sub_wf(#[trigger] self.subs@[k], self.history@),
                forall|k: int| i <= k < n ==> self.subs@[k] == old(self).subs@[k],
            decreases n - i,
        {
            let ghost pre = self.subs@[i as int];
            let ghost subs_before = self.subs@;
            let mut sub = self.subs.remove(i);
            if sub.active {
                if sub.pending.len() >= BACKLOG_CAPACITY {
                    let _ = sub.pending.remove(0);
                    sub.cursor = Ghost(sub.cursor@ + 1);
                }
                sub.pending.push(message.duplicate());
            }
            self.subs.insert(i, sub);
            proof {
                assert forall|k: int| 0 <= k < n implies self.subs@[k] == (if k == i as int {
                    sub
                } else {
                    subs_before[k]
                }) by {
                    subs_before.remove_ensures(i as int);
                    subs_before.remove(i as int).insert_ensures(i as int, sub);
                    assert(self.subs@ == subs_before.remove(i as int).insert(i as int, sub));
                }
                assert(pre == old(self).subs@[i as int]);
                assert(sub_wf(pre, old(self).history@));
                assert(delivered_one(pre, sub, message)) by {
                    if pre.active {
                        if pre.pending@.len() >= BACKLOG_CAPACITY {
                            assert(sub.pending@ =~= pre.pending@.subrange(
                                1,
                                pre.pending@.len() as int,
                            ) + seq![message]);
                        } else {
                            assert(sub.pending@ =~= pre.pending@ + seq![message]);
                        }
                    }
                }
                assert(sub_wf(sub, self.history@)) by {
                    if pre.active {
                        assert(sub.pending@ =~= self.history@.subrange(
                            sub.cursor@,
                            self.history@.len() as int,
                        ));
                    }
                }
            }
            i = i + 1;
        }
    }

    /// Hands out the oldest undelivered event of subscription `id`, if any.
    pub fn recv(&mut self, id: usize) -> (r: Option<Message>)
        requires
            old(self).wf(),
            id < old(self).subs@.len(),
        ensures
            final(self).wf(),
            final(self).history@ == old(self).history@,
            final(self).subs@.len() == old(self).subs@.len(),
            forall|k: int|
                0 <= k < old(self).subs@.len() && k != id ==> #[trigger] final(self).subs@[k]
                    == old(self).subs@[k],
            ({
                let pre = old(self).subs@[id as int];
                let post = final(self).subs@[id as int];
                &&& (pre.active && pre.pending@.len() > 0) ==> {
                    &&& r == Some(pre.pending@[0])
                    &&& r == Some(old(self).history@[pre.cursor@])
                    &&& post.pending@ == pre.pending@.subrange(1, pre.pending@.len() as int)
                    &&& post.cursor@ == pre.cursor@ + 1
                    &&& post.active
                    &&& post.joined_at == pre.joined_at
                }
                &&& !(pre.active && pre.pending@.len() > 0) ==> r is None && post == pre
            }),
    {
        let ghost pre = self.subs@[id as int];
        let ghost subs_before = self.subs@;
        let mut sub = self.subs.remove(id);
        let r = if sub.active && sub.pending.len() > 0 {
            let m = sub.pending.remove(0);
            sub.cursor = Ghost(sub.cursor@ + 1);
            Some(m)
        } else {
            None
        };
        self.subs.insert(id, sub);
        proof {
            assert forall|k: int| 0 <= k < subs_before.len() implies self.subs@[k] == (if k
                == id as int {
                sub
            } else {
                subs_before[k]
            }) by {
                subs_before.remove_ensures(id as int);
                subs_before.remove(id as int).insert_ensures(id as int, sub);
                assert(self.subs@ == subs_before.remove(id as int).insert(id as int, sub));
            }
            if pre.active && pre.pending@.len() > 0 {
                assert(pre.pending@[0] == self.history@[pre.cursor@]);
                assert(sub.pending@ =~= pre.pending@.subrange(1, pre.pending@.len() as int));
                assert(sub.pending@ =~= self.history@.subrange(
                    sub.cursor@,
                    self.history@.len() as int,
                ));
            }
        }
        r
    }

    /// Releases subscription `id`; a no-op when already released.
    pub fn unsubscribe(&mut self, id: usize)
        requires
            old(self).wf(),
            id < old(self).subs@.len(),
        ensures
            final(self).wf(),
            final(self).history@ == old(self).history@,
            final(self).subs@.len() == old(self).subs@.len(),
            forall|k: int|
                0 <= k < old(self).subs@.len() && k != id ==> #[trigger] final(self).subs@[k]
                    == old(self).subs@[k],
            !final(self).subs@[id as int].active,
            final(self).subs@[id as int].pending@.len() == 0,
            !old(self).subs@[id as int].active ==> final(self).subs@[id as int] == old(
                self,
            ).subs@[id as int],
    {
        let ghost subs_before = self.subs@;
        let mut sub = self.subs.remove(id);
        if sub.active {
            sub.active = false;
            sub.pending.clear();
        }
        self.subs.insert(id, sub);
        proof {
            assert forall|k: int| 0 <= k < subs_before.len() implies self.subs@[k] == (if k
                == id as int {
                sub
            } else {
                subs_before[k]
            }) by {
                subs_before.remove_ensures(id as int);
                subs_before.remove(id as int).insert_ensures(id as int, sub);
                assert(self.subs@ == subs_before.remove(id as int).insert(id as int, sub));
            }
        }
    }
}

/// Every undelivered backlog is a contiguous, capacity-bounded window at the
/// end of the publish history: a subscriber observes events in published
/// order, never an event older than its drop threshold, and never one
/// published before it subscribed.
pub proof fn lemma_backlog_window(b: Bus, i: int)
    requires
        b.wf(),
        0 <= i < b.subs@.len(),
        b.subs@[i].active,
    ensures
        b.subs@[i].pending@ == b.history@.subrange(b.subs@[i].cursor@, b.history@.len() as int),
        forall|k: int|
            0 <= k < b.subs@[i].pending@.len() ==> #[trigger] b.subs@[i].pending@[k]
                == b.history@[b.subs@[i].cursor@ + k],
        b.history@.len() - BACKLOG_CAPACITY <= b.subs@[i].cursor@,
        b.subs@[i].joined_at@ <= b.subs@[i].cursor@,
{
    assert(sub_wf(b.subs@[i], b.history@));
}

/// A published event reaches every subscriber active at publish time: it
/// becomes the newest entry of that subscriber's backlog, so it is observed
/// once the subscriber drains far enough (modulo the drop policy while it
/// lags).
pub proof fn lemma_publish_reaches_active_subscriber(pre: Subscriber, post: Subscriber, m: Message)
    requires
        delivered_one(pre, post, m),
        pre.active,
    ensures
        post.pending@.len() > 0,
        post.pending@.last() == m,
{
}

/// Total order across subscribers: two active subscribers hold any commonly
/// undelivered event at positions that agree with the one publish history,
/// so both observe shared events in the same relative order.
pub proof fn lemma_total_order(b: Bus, i: int, j: int)
    requires
        b.wf(),
        0 <= i < b.subs@.len(),
        0 <= j < b.subs@.len(),
        b.subs@[i].active,
        b.subs@[j].active,
    ensures
        forall|p: int|
            b.subs@[i].cursor@ <= p && b.subs@[j].cursor@ <= p && p < b.history@.len()
                ==> b.subs@[i].pending@[p - b.subs@[i].cursor@] == #[trigger] b.history@[p]
                && b.subs@[j].pending@[p - b.subs@[j].cursor@] == b.history@[p],
{
    assert(sub_wf(b.subs@[i], b.history@));
    assert(sub_wf(b.subs@[j], b.history@));
}

} // verus!
