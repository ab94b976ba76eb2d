//! The client-side command multiplexer: many concurrent callers share one
//! physical connection to the store service.
//!
//! A bounded queue carries commands from any number of cloned producer
//! handles to a single consuming manager. The manager owns the sole
//! connection; it takes commands strictly in queue order, performs each
//! over the connection, and sends the result back through the command's
//! single-use responder. Once every producer handle has been dropped and
//! the queue is empty the manager observes closure and stops. Dropping a
//! responder before the manager replies is cancellation: delivery reports
//! a no-op failure that the manager observes and ignores.
//!
//! This module holds the multiplexer's decisions; suspension (a full
//! queue, an empty queue, the connection itself) is the surrounding
//! runtime's business. A producer whose send is refused suspends and
//! retries once a slot frees; a manager told to wait suspends until a
//! command or closure arrives.

use vstd::prelude::*;
use crate::command::{Command, Reply, Request, apply_command, reply_matches, handle_request};
use crate::store::ShardedStore;

verus! {

/// The mathematical state of the command queue: the commands now queued
/// in order, the fixed capacity, and how many producer handles are still
/// alive.
pub struct QueueModel {
    pub items: Seq<Command>,
    pub capacity: int,
    pub senders: int,
}

/// The bounded FIFO command queue. Producer handles are counted, not
/// materialized: cloning and dropping a handle adjust the count, and the
/// queue counts as closed once the count reaches zero.
pub struct CommandQueue {
    items: Vec<Command>,
    capacity: usize,
    senders: usize,
}

impl View for CommandQueue {
    type V = QueueModel;

    closed spec fn view(&self) -> QueueModel {
        QueueModel {
            items: self.items@,
            capacity: self.capacity as int,
            senders: self.senders as int,
        }
    }
}

/// What the manager does next: perform a command over the connection,
/// suspend until something arrives, or terminate.
#[derive(Debug, Clone, PartialEq, Eq)]
pub enum ManagerAction {
    Issue(Command),
    Wait,
    Stop,
}

/// The manager's decision on a queue state: the front command when one
/// is queued (FIFO, one in-flight command at a time); stop once the last
/// producer handle is gone and the queue is drained; otherwise wait.
pub open spec fn manager_action(m: QueueModel) -> ManagerAction {
    if m.items.len() > 0 {
        ManagerAction::Issue(m.items[0])
    } else if m.senders == 0 {
        ManagerAction::Stop
    } else {
        ManagerAction::Wait
    }
}

/// The queue state after one manager step: the front command leaves;
/// waiting and stopping change nothing.
pub open spec fn manager_next(m: QueueModel) -> QueueModel {
    if m.items.len() > 0 {
        QueueModel { items: m.items.subrange(1, m.items.len() as int), ..m }
    } else {
        m
    }
}

impl CommandQueue {
    /// Well-formed: positive capacity, never more commands than capacity.
    pub open spec fn wf(&self) -> bool {
        0 < self@.capacity && self@.items.len() <= self@.capacity
    }

    /// Creates an empty queue of fixed `capacity` with one producer
    /// handle.
    pub fn new(capacity: usize) -> (q: CommandQueue)
        requires
            capacity > 0,
        ensures
            q.wf(),
            q@ == (QueueModel { items: Seq::<Command>::empty(), capacity: capacity as int, senders: 1 }),
    {
        let q = CommandQueue { items: Vec::new(), capacity, senders: 1 };
        proof {
            assert(q@ =~= (QueueModel {
                items: Seq::<Command>::empty(),
                capacity: capacity as int,
                senders: 1,
            }));
        }
        q
    }

    /// Clones a producer handle: one more sender shares the queue.
    pub fn clone_handle(&mut self)
        requires
            old(self).wf(),
            old(self)@.senders >= 1,
            old(self)@.senders < usize::MAX,
        ensures
            final(self).wf(),
            final(self)@ == (QueueModel { senders: old(self)@.senders + 1, ..old(self)@ }),
    {
        self.senders = self.senders + 1;
    }

    /// Drops a producer handle. The queue closes only once the last
    /// handle is released.
    pub fn drop_handle(&mut self)
        requires
            old(self).wf(),
            old(self)@.senders >= 1,
        ensures
            final(self).wf(),
            final(self)@ == (QueueModel { senders: old(self)@.senders - 1, ..old(self)@ }),
    {
        self.senders = self.senders - 1;
    }

    /// A producer hands a command to the manager. The command is queued
    /// exactly when a slot is free; on a full queue nothing is lost and
    /// nothing changes — the producer suspends and tries again once the
    /// manager drains a slot (backpressure).
    pub fn try_send(&mut self, cmd: Command) -> (accepted: bool)
        requires
            old(self).wf(),
            old(self)@.senders >= 1,
        ensures
            final(self).wf(),
            accepted <==> old(self)@.items.len() < old(self)@.capacity,
            accepted ==> final(self)@ == (QueueModel {
                items: old(self)@.items.push(cmd),
                ..old(self)@
            }),
            !accepted ==> final(self)@ == old(self)@,
    {
        if self.items.len() < self.capacity {
            self.items.push(cmd);
            true
        } else {
            false
        }
    }

    /// One manager step: dequeues the front command to issue, or reports
    /// closure or the need to wait; the queue changes exactly as
    /// [`manager_next`] says.
    pub fn manager_step(&mut self) -> (a: ManagerAction)
        requires
            old(self).wf(),
        ensures
            final(self).wf(),
            a == manager_action(old(self)@),
            final(self)@ == manager_next(old(self)@),
    {
        if self.items.len() > 0 {
            let c = self.items.remove(0);
            proof {
                assert(self.items@ =~= old(self)@.items.subrange(1, old(self)@.items.len() as int));
            }
            ManagerAction::Issue(c)
        } else if self.senders == 0 {
            ManagerAction::Stop
        } else {
            ManagerAction::Wait
        }
    }
}

/// Once every producer handle has been dropped and the queue has been
/// drained, the manager observes closure and stops, and nothing is left
/// queued or in flight.
pub proof fn lemma_closed_queue_stops(m: QueueModel)
    requires
        m.senders == 0,
        m.items.len() == 0,
    ensures
        manager_action(m) == ManagerAction::Stop,
        manager_next(m) == m,
{
}

/// The commands the manager issues from a queue state, in order, when no
/// producer interferes.
pub open spec fn issued_from(m: QueueModel) -> Seq<Command>
    decreases m.items.len(),
{
    if m.items.len() > 0 {
        seq![m.items[0]] + issued_from(manager_next(m))
    } else {
        Seq::<Command>::empty()
    }
}

/// The manager issues exactly the queued commands, in the order they
/// were enqueued: FIFO, no reordering, no loss, no duplication.
pub proof fn lemma_manager_fifo(m: QueueModel)
    ensures
        issued_from(m) == m.items,
    decreases m.items.len(),
{
    if m.items.len() > 0 {
        lemma_manager_fifo(manager_next(m));
        assert(issued_from(m) =~= m.items);
    } else {
        assert(issued_from(m) =~= m.items);
    }
}

/// What the store's mapping becomes once a sequence of commands is
/// applied front to back.
pub open spec fn apply_commands(m: Map<Seq<u8>, Seq<u8>>, cmds: Seq<Command>) -> Map<
    Seq<u8>,
    Seq<u8>,
>
    decreases cmds.len(),
{
    if cmds.len() == 0 {
        m
    } else {
        apply_commands(apply_command(m, cmds[0]), cmds.subrange(1, cmds.len() as int))
    }
}

/// Applying one more command at the back applies it to the result of the
/// front.
pub proof fn lemma_apply_commands_push(m: Map<Seq<u8>, Seq<u8>>, s: Seq<Command>, c: Command)
    ensures
        apply_commands(m, s.push(c)) == apply_command(apply_commands(m, s), c),
    decreases s.len(),
{
    if s.len() == 0 {
        assert(s.push(c)[0] == c);
        assert(s.push(c).subrange(1, 1) =~= Seq::<Command>::empty());
        assert(apply_commands(m, s.push(c)) == apply_commands(
            apply_command(m, c),
            s.push(c).subrange(1, 1),
        ));
        assert(apply_commands(apply_command(m, c), Seq::<Command>::empty()) == apply_command(
            m,
            c,
        ));
    } else {
        assert(s.push(c)[0] == s[0]);
        assert(s.push(c).subrange(1, s.len() + 1 as int) =~= s.subrange(
            1,
            s.len() as int,
        ).push(c));
        lemma_apply_commands_push(apply_command(m, s[0]), s.subrange(1, s.len() as int), c);
    }
}

/// Serves a closed queue to completion against a store: the manager
/// loop, with the connection round trip collapsed to the handler's
/// dispatch step. Commands are performed strictly in the order they were
/// enqueued, the store ends as that command sequence dictates, and the
/// i-th reply answers the i-th command against exactly the store state
/// the commands before it produced.
pub fn serve_queue(q: &mut CommandQueue, store: &mut ShardedStore) -> (replies: Vec<Reply>)
    requires
        old(q).wf(),
        old(store).wf(),
        old(q)@.senders == 0,
    ensures
        final(q).wf(),
        final(store).wf(),
        final(q)@.items.len() == 0,
        final(q)@.senders == 0,
        final(store)@ == apply_commands(old(store)@, old(q)@.items),
        final(store).spec_num_shards() == old(store).spec_num_shards(),
        replies@.len() == old(q)@.items.len(),
        forall|i: int|
            0 <= i < replies@.len() ==> reply_matches(
                replies@[i],
                apply_commands(old(store)@, old(q)@.items.subrange(0, i)),
                Request::Cmd(old(q)@.items[i]),
            ),
{
    let ghost cmds = q@.items;
    let ghost m0 = store@;
    let ghost n0 = store.spec_num_shards();
    let mut replies: Vec<Reply> = Vec::new();
    proof {
        assert(q@.items =~= cmds.subrange(0, cmds.len() as int));
        assert(cmds.subrange(0, 0) =~= Seq::<Command>::empty());
    }
    loop
        invariant
            q.wf(),
            store.wf(),
            q@.senders == 0,
            replies@.len() <= cmds.len(),
            q@.items == cmds.subrange(replies@.len() as int, cmds.len() as int),
            store@ == apply_commands(m0, cmds.subrange(0, replies@.len() as int)),
            store.spec_num_shards() == n0,
            forall|j: int|
                0 <= j < replies@.len() ==> reply_matches(
                    replies@[j],
                    apply_commands(m0, cmds.subrange(0, j)),
                    Request::Cmd(cmds[j]),
                ),
        ensures
            q.wf(),
            store.wf(),
            q@.senders == 0,
            q@.items.len() == 0,
            replies@.len() == cmds.len(),
            store@ == apply_commands(m0, cmds),
            store.spec_num_shards() == n0,
            forall|j: int|
                0 <= j < replies@.len() ==> reply_matches(
                    replies@[j],
                    apply_commands(m0, cmds.subrange(0, j)),
                    Request::Cmd(cmds[j]),
                ),
        decreases q@.items.len(),
    {
        let ghost items_before = q@.items;
        match q.manager_step() {
            ManagerAction::Issue(c) => {
                let ghost k = replies@.len() as int;
                proof {
                    assert(items_before[0] == cmds[k]);
                }
                let r = handle_request(store, Request::Cmd(c));
                replies.push(r);
                proof {
                    assert(cmds.subrange(0, k + 1) =~= cmds.subrange(0, k).push(cmds[k]));
                    lemma_apply_commands_push(m0, cmds.subrange(0, k), cmds[k]);
                    assert(q@.items =~= cmds.subrange(k + 1, cmds.len() as int));
                }
            },
            ManagerAction::Stop => {
                proof {
                    assert(cmds.subrange(replies@.len() as int, cmds.len() as int).len() == 0);
                    assert(replies@.len() == cmds.len());
                    assert(cmds.subrange(0, cmds.len() as int) =~= cmds);
                }
                break ;
            },
            ManagerAction::Wait => {
                // with every producer handle gone the manager never has
                // to wait: a step either issues or observes closure
                proof {
                    assert(false);
                }
                break ;
            },
        }
    }
    replies
}

/// The single-use reply channel created for one command: the issuing
/// caller owns the receiving end, the manager the sending end. At most
/// one value is ever sent (sending consumes the responder); a caller that
/// lost interest drops the receiving end, which cancels delivery without
/// disturbing anything else.
pub struct Responder {
    receiver_alive: bool,
}

impl Responder {
    /// Whether the receiving end still waits for the reply.
    pub closed spec fn receiver_alive(&self) -> bool {
        self.receiver_alive
    }

    /// Creates a responder whose receiving end is held by the caller.
    pub fn new() -> (r: Responder)
        ensures
            r.receiver_alive(),
    {
        Responder { receiver_alive: true }
    }

    /// The caller abandons interest: the receiving end is dropped before
    /// the reply arrives.
    pub fn drop_receiver(&mut self)
        ensures
            !final(self).receiver_alive(),
    {
        self.receiver_alive = false;
    }

    /// The manager sends the reply. The receiver observes exactly the
    /// reply when it still listens, and nothing otherwise; a send to a
    /// dropped receiver is a no-op failure the manager can observe and
    /// ignore — never a fault. Sending consumes the responder, so at most
    /// one value is ever sent on it.
    pub fn send(self, reply: Reply) -> (received: Option<Reply>)
        ensures
            self.receiver_alive() ==> received == Some(reply),
            !self.receiver_alive() ==> received is None,
    {
        if self.receiver_alive {
            Some(reply)
        } else {
            None
        }
    }
}

} // verus!
