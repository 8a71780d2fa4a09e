//! The shared chat server state: the participant directory and the
//! broadcast bus, with the registration operations that tie the two
//! together. Registering publishes exactly one `UserJoined` event;
//! unregistering a present identity publishes exactly one `UserLeft` event
//! and is a no-op otherwise.

use vstd::prelude::*;

use crate::bus::Bus;
use crate::bus::delivered_one;
use crate::directory::Directory;
use crate::message::Message;

verus! {

broadcast use vstd::set::group_set_axioms, vstd::map::group_map_axioms;

/// What one publish does to the bus: one event appended to the history and
/// delivered to every subscriber's backlog under the drop-oldest policy.
pub open spec fn publish_effect(pre: Bus, post: Bus, m: Message) -> bool {
    &&& post.history@ == pre.history@ + seq![m]
    &&& post.subs@.len() == pre.subs@.len()
    &&& forall|k: int|
        0 <= k < pre.subs@.len() ==> delivered_one(pre.subs@[k], #[trigger] post.subs@[k], m)
}

/// Registration: the entry is inserted (overwriting any entry already held
/// for the identity) and one `UserJoined` event is published.
pub open spec fn spec_register(
    users: Map<u64, String>,
    history: Seq<Message>,
    identity: u64,
    name: String,
) -> (Map<u64, String>, Seq<Message>) {
    (users.insert(identity, name), history + seq![Message::UserJoined(name)])
}

/// Unregistration: a present entry is removed and one `UserLeft` event is
/// published with the registered name; an absent identity changes nothing.
pub open spec fn spec_unregister(
    users: Map<u64, String>,
    history: Seq<Message>,
    identity: u64,
) -> (Map<u64, String>, Seq<Message>) {
    if users.dom().contains(identity) {
        (users.remove(identity), history + seq![Message::UserLeft(users[identity])])
    } else {
        (users, history)
    }
}

/// The shared state behind one group chat.
pub struct ChatServer {
    pub directory: Directory,
    pub bus: Bus,
}

impl ChatServer {
    pub open spec fn wf(self) -> bool {
        self.directory.wf() && self.bus.wf()
    }

    /// The live participants, by connection identity.
    pub open spec fn users(self) -> Map<u64, String> {
        self.directory@
    }

    /// Every event published so far, in publish order.
    pub open spec fn history(self) -> Seq<Message> {
        self.bus.history@
    }

    /// A server with no participants, no subscribers and no history.
    pub fn new() -> (r: ChatServer)
        ensures
            r.wf(),
            r.users() == Map::<u64, String>::empty(),
            r.users().dom().len() == 0,
            r.history() == Seq::<Message>::empty(),
            r.bus.subs@.len() == 0,
    {
        ChatServer { directory: Directory::new(), bus: Bus::new() }
    }

    /// Publishes one event to every subscriber.
    pub fn broacast(&mut self, message: Message)
        requires
            old(self).wf(),
        ensures
            final(self).wf(),
            final(self).directory == old(self).directory,
            publish_effect(old(self).bus, final(self).bus, message),
    {
        self.bus.publish(message);
    }

    /// Registers `username` under `addr` and announces the join.
    pub fn add_user(&mut self, username: String, addr: u64)
        requires
            old(self).wf(),
        ensures
            final(self).wf(),
            (final(self).users(), final(self).history()) == spec_register(
                old(self).users(),
                old(self).history(),
                addr,
                username,
            ),
            publish_effect(old(self).bus, final(self).bus, Message::UserJoined(username)),
    {
        let stored = username.clone();
        self.directory.register(addr, stored);
        self.bus.publish(Message::UserJoined(username));
    }

    /// Removes the entry for `addr`, if any, and announces the leave.
    /// Safe to call from both normal and error-path teardown: a second call
    /// for the same identity is a no-op and publishes nothing.
    pub fn remove_user(&mut self, addr: u64)
        requires
            old(self).wf(),
        ensures
            final(self).wf(),
            (final(self).users(), final(self).history()) == spec_unregister(
                old(self).users(),
                old(self).history(),
                addr,
            ),
            old(self).users().dom().contains(addr) ==> publish_effect(
                old(self).bus,
                final(self).bus,
                Message::UserLeft(old(self).users()[addr]),
            ),
            !old(self).users().dom().contains(addr) ==> *final(self) == *old(self),
    {
        match self.directory.unregister(addr) {
            Some(username) => {
                self.bus.publish(Message::UserLeft(username));
            }
            None => {},
        }
    }

    /// A snapshot of the live participant count.
    pub fn user_count(&self) -> (r: usize)
        requires
            self.wf(),
        ensures
            r == self.users().dom().len(),
    {
        self.directory.count()
    }

    /// A read-only snapshot of the name registered under `addr`.
    pub fn get_username(&self, addr: u64) -> (r: Option<String>)
        requires
            self.wf(),
        ensures
            self.users().dom().contains(addr) ==> r == Some(self.users()[addr]),
            !self.users().dom().contains(addr) ==> r is None,
    {
        self.directory.lookup(addr)
    }
}

/// Unregistering twice for one identity publishes one `UserLeft` event in
/// all: the second unregistration changes nothing and publishes nothing.
pub proof fn lemma_unregister_idempotent(users: Map<u64, String>, history: Seq<Message>, id: u64)
    ensures
        ({
            let once = spec_unregister(users, history, id);
            let twice = spec_unregister(once.0, once.1, id);
            &&& twice == once
            &&& users.dom().contains(id) ==> once.1 == history + seq![Message::UserLeft(
                users[id],
            )]
            &&& !users.dom().contains(id) ==> once.1 == history
        }),
{
    if users.dom().contains(id) {
        assert(!users.remove(id).dom().contains(id));
    }
}

/// One directory operation, for stating laws over whole runs.
pub enum DirectoryOp {
    Register(u64, String),
    Unregister(u64),
}

/// The state reached after one operation.
pub open spec fn apply_op(
    s: (Map<u64, String>, Seq<Message>),
    op: DirectoryOp,
) -> (Map<u64, String>, Seq<Message>) {
    match op {
        DirectoryOp::Register(id, name) => spec_register(s.0, s.1, id, name),
        DirectoryOp::Unregister(id) => spec_unregister(s.0, s.1, id),
    }
}

/// The state reached after a sequence of operations, first to last.
pub open spec fn apply_ops(
    s: (Map<u64, String>, Seq<Message>),
    ops: Seq<DirectoryOp>,
) -> (Map<u64, String>, Seq<Message>)
    decreases ops.len(),
{
    if ops.len() == 0 {
        s
    } else {
        apply_op(apply_ops(s, ops.drop_last()), ops.last())
    }
}

/// A successful run: every registration is of a fresh identity and every
/// unregistration is of a present one.
pub open spec fn ops_allowed(s: (Map<u64, String>, Seq<Message>), ops: Seq<DirectoryOp>) -> bool
    decreases ops.len(),
{
    ops.len() == 0 || {
        &&& ops_allowed(s, ops.drop_last())
        &&& match ops.last() {
            DirectoryOp::Register(id, _) => !apply_ops(s, ops.drop_last()).0.dom().contains(id),
            DirectoryOp::Unregister(id) => apply_ops(s, ops.drop_last()).0.dom().contains(id),
        }
    }
}

/// How many of the operations register.
pub open spec fn num_registers(ops: Seq<DirectoryOp>) -> int
    decreases ops.len(),
{
    if ops.len() == 0 {
        0
    } else {
        num_registers(ops.drop_last()) + if ops.last() is Register {
            1int
        } else {
            0int
        }
    }
}

/// How many of the operations unregister.
pub open spec fn num_unregisters(ops: Seq<DirectoryOp>) -> int
    decreases ops.len(),
{
    if ops.len() == 0 {
        0
    } else {
        num_unregisters(ops.drop_last()) + if ops.last() is Unregister {
            1int
        } else {
            0int
        }
    }
}

/// After N fresh registrations and M unregistrations of present identities,
/// the participant count has grown by exactly N - M, and exactly one event
/// was published per operation.
pub proof fn lemma_count_after_ops(s: (Map<u64, String>, Seq<Message>), ops: Seq<DirectoryOp>)
    requires
        s.0.dom().finite(),
        ops_allowed(s, ops),
    ensures
        apply_ops(s, ops).0.dom().finite(),
        apply_ops(s, ops).0.dom().len() == s.0.dom().len() + num_registers(ops) - num_unregisters(
            ops,
        ),
        apply_ops(s, ops).1.len() == s.1.len() + ops.len(),
    decreases ops.len(),
{
    if ops.len() > 0 {
        lemma_count_after_ops(s, ops.drop_last());
        let mid = apply_ops(s, ops.drop_last());
        match ops.last() {
            DirectoryOp::Register(id, name) => {
                assert(!mid.0.dom().contains(id));
                assert(mid.0.insert(id, name).dom() =~= mid.0.dom().insert(id));
            }
            DirectoryOp::Unregister(id) => {
                assert(mid.0.dom().contains(id));
                assert(mid.0.remove(id).dom() =~= mid.0.dom().remove(id));
            }
        }
    }
}

} // verus!
