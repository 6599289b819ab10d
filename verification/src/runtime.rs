//! The runtime: the process-wide owner of all channels, handles and node
//! instances, and the sole arbiter of label checks.
//!
//! The handle table is an arena of slots indexed by the handle value, with a
//! liveness bit per slot, so that a bad handle is detected in constant time
//! and a revoked slot is never confused with a live one. Handles are opaque
//! 64-bit values; the value 0 never names a handle.

use vstd::prelude::*;

use crate::channel::{Channel, Message};
use crate::label::Label;
use crate::node::{NodeInstance, NodeState};
use crate::status::OakStatus;

verus! {

/// The node identity under which the bootstrap caller acts before any node
/// exists; it is never registered, so it carries the public-trusted label.
pub const TEST_NODE_ID: u64 = 0;

/// The direction a handle gives into its channel.
#[derive(Clone, Copy, Debug, PartialEq, Eq, Structural)]
pub enum Direction {
    Read,
    Write,
}

/// Who may currently use a handle: the node owning it, or nobody while the
/// handle travels inside a not-yet-delivered message.
#[derive(Clone, Copy, Debug, PartialEq, Eq, Structural)]
pub enum HandleOwner {
    Node(u64),
    InTransit,
}

/// One slot of the handle table. A slot whose `live` bit is cleared has been
/// revoked; its other fields are meaningless thereafter.
#[derive(Clone, Copy, Debug)]
pub struct HandleEntry {
    pub live: bool,
    pub channel: usize,
    pub direction: Direction,
    pub owner: HandleOwner,
}

/// The static configuration of one named node.
pub struct NodeConfiguration {
    pub module_name: Vec<u8>,
}

/// The static bootstrap configuration: named node configurations, the entry
/// module's logical name, and the entrypoint export name.
pub struct Configuration {
    pub nodes: Vec<(Vec<u8>, NodeConfiguration)>,
    pub entry_module: Vec<u8>,
    pub entrypoint: Vec<u8>,
}

/// One entry of the node registry.
pub struct NodeEntry {
    pub node_id: u64,
    pub name: Vec<u8>,
    pub label: Label,
    pub state: NodeState,
    pub instance: Option<NodeInstance>,
    pub initial_handles: Vec<u64>,
}

/// The runtime: the node registry, the global handle table, and the set of
/// channels, bounded in lifetime by `create` and `stop`.
pub struct Runtime {
    pub configuration: Configuration,
    pub channels: Vec<Channel>,
    pub handles: Vec<HandleEntry>,
    pub nodes: Vec<NodeEntry>,
    pub next_node_id: u64,
    pub stopped: bool,
}

impl Runtime {
    /// Every handle slot names a channel the runtime owns, and node
    /// identities are never reused while the runtime is alive.
    pub open spec fn wf(self) -> bool {
        &&& forall|i: int|
            0 <= i < self.handles@.len() ==> (#[trigger] self.handles@[i]).channel
                < self.channels@.len()
        &&& forall|i: int, j: int|
            0 <= i < j < self.nodes@.len() ==> (#[trigger] self.nodes@[i]).node_id != (
            #[trigger] self.nodes@[j]).node_id
    }

    /// Some registry entry carries this node identity.
    pub open spec fn spec_has_node(self, node_id: u64) -> bool {
        exists|i: int| 0 <= i < self.nodes@.len() && (#[trigger] self.nodes@[i]).node_id == node_id
    }

    /// The label of the context acting as `node_id` can flow to `target`.
    /// An unregistered caller (the bootstrap context) acts under the
    /// public-trusted label, which flows to `target` exactly when `target`
    /// demands no integrity endorsement.
    pub open spec fn spec_caller_flows(self, node_id: u64, target: Label) -> bool {
        if self.spec_has_node(node_id) {
            forall|i: int|
                0 <= i < self.nodes@.len() && (#[trigger] self.nodes@[i]).node_id == node_id
                    ==> self.nodes@[i].label.spec_can_flow_to(target)
        } else {
            target.integrity_tags@.len() == 0
        }
    }

    /// The handle value names a slot of the table.
    pub open spec fn spec_handle_in_table(self, h: u64) -> bool {
        1 <= h <= self.handles@.len()
    }

    /// The slot behind a handle value.
    pub open spec fn spec_handle_entry(self, h: u64) -> HandleEntry {
        self.handles@[h - 1]
    }

    /// `node_id` may use handle `h` in direction `dir`: the slot exists, is
    /// live, is owned by that node, and gives that direction.
    pub open spec fn spec_handle_usable(self, node_id: u64, h: u64, dir: Direction) -> bool {
        &&& self.spec_handle_in_table(h)
        &&& self.spec_handle_entry(h).live
        &&& self.spec_handle_entry(h).owner == HandleOwner::Node(node_id)
        &&& self.spec_handle_entry(h).direction == dir
    }

    /// `node_id` may transfer handle `h` inside a message: the slot exists,
    /// is live and is owned by that node (either direction).
    pub open spec fn spec_handle_transferable(self, node_id: u64, h: u64) -> bool {
        &&& self.spec_handle_in_table(h)
        &&& self.spec_handle_entry(h).live
        &&& self.spec_handle_entry(h).owner == HandleOwner::Node(node_id)
    }

    /// Every handle of `hs` is transferable by `node_id`.
    pub open spec fn spec_all_transferable(self, node_id: u64, hs: Seq<u64>) -> bool {
        forall|i: int| 0 <= i < hs.len() ==> self.spec_handle_transferable(node_id, #[trigger] hs[i])
    }
}

/// The handle table with the owner of `h` replaced (a slot that does not
/// exist is left alone).
pub open spec fn spec_set_owner(table: Seq<HandleEntry>, h: u64, owner: HandleOwner) -> Seq<
    HandleEntry,
> {
    if 1 <= h <= table.len() {
        table.update(h - 1, (HandleEntry { owner, ..table[h - 1] }))
    } else {
        table
    }
}

/// The handle table with the owner of every handle of `hs` replaced, in
/// order.
pub open spec fn spec_set_owners(table: Seq<HandleEntry>, hs: Seq<u64>, owner: HandleOwner) -> Seq<
    HandleEntry,
>
    decreases hs.len(),
{
    if hs.len() == 0 {
        table
    } else {
        spec_set_owners(spec_set_owner(table, hs[0], owner), hs.drop_first(), owner)
    }
}

proof fn lemma_set_owners_push(table: Seq<HandleEntry>, hs: Seq<u64>, h: u64, owner: HandleOwner)
    ensures
        spec_set_owners(table, hs.push(h), owner) == spec_set_owner(
            spec_set_owners(table, hs, owner),
            h,
            owner,
        ),
    decreases hs.len(),
{
    reveal_with_fuel(spec_set_owners, 3);
    if hs.len() == 0 {
        assert(hs.push(h)[0] == h);
        assert(hs.push(h).drop_first() =~= Seq::<u64>::empty());
        assert(spec_set_owners(spec_set_owner(table, h, owner), hs.push(h).drop_first(), owner)
            == spec_set_owner(table, h, owner));
    } else {
        assert(hs.push(h)[0] == hs[0]);
        assert(hs.push(h).drop_first() =~= hs.drop_first().push(h));
        lemma_set_owners_push(spec_set_owner(table, hs[0], owner), hs.drop_first(), h, owner);
    }
}

proof fn lemma_set_owners_frame(table: Seq<HandleEntry>, hs: Seq<u64>, owner: HandleOwner)
    ensures
        spec_set_owners(table, hs, owner).len() == table.len(),
        forall|i: int|
            0 <= i < table.len() ==> (#[trigger] spec_set_owners(table, hs, owner)[i]).channel
                == table[i].channel && spec_set_owners(table, hs, owner)[i].direction
                == table[i].direction && spec_set_owners(table, hs, owner)[i].live
                == table[i].live,
    decreases hs.len(),
{
    if hs.len() > 0 {
        lemma_set_owners_frame(spec_set_owner(table, hs[0], owner), hs.drop_first(), owner);
    }
}

impl Runtime {
    /// Builds an empty runtime over a static configuration: no channels, no
    /// handles, no registered nodes.
    pub fn create(configuration: Configuration) -> (r: Runtime)
        ensures
            r.wf(),
            r.configuration == configuration,
            r.channels@.len() == 0,
            r.handles@.len() == 0,
            r.nodes@.len() == 0,
            r.next_node_id == 1u64,
            !r.stopped,
    {
        Runtime {
            configuration,
            channels: Vec::new(),
            handles: Vec::new(),
            nodes: Vec::new(),
            next_node_id: 1,
            stopped: false,
        }
    }

    /// A fresh runtime proxy for a not-yet-identified node: it acts under the
    /// next unassigned node identity.
    pub fn new_runtime_proxy(&mut self) -> (r: RuntimeProxy)
        requires
            old(self).next_node_id < u64::MAX,
        ensures
            r.node_id == old(self).next_node_id,
            final(self).next_node_id == old(self).next_node_id + 1,
            final(self).configuration == old(self).configuration,
            final(self).channels == old(self).channels,
            final(self).handles == old(self).handles,
            final(self).nodes == old(self).nodes,
            final(self).stopped == old(self).stopped,
    {
        let id = self.next_node_id;
        self.next_node_id = id + 1;
        RuntimeProxy { node_id: id }
    }

    fn find_node(&self, node_id: u64) -> (r: Option<usize>)
        ensures
            (match r {
                Some(i) => i < self.nodes@.len() && self.nodes@[i as int].node_id == node_id,
                None => !self.spec_has_node(node_id),
            }),
    {
        let mut i: usize = 0;
        while i < self.nodes.len()
            invariant
                i <= self.nodes@.len(),
                forall|j: int| 0 <= j < i ==> (#[trigger] self.nodes@[j]).node_id != node_id,
            decreases self.nodes@.len() - i,
        {
            if self.nodes[i].node_id == node_id {
                return Some(i);
            }
            i = i + 1;
        }
        None
    }

    /// Decides whether the context acting as `node_id` may create or reach an
    /// object carrying `target`.
    pub fn caller_can_flow_to(&self, node_id: u64, target: &Label) -> (r: bool)
        requires
            self.wf(),
        ensures
            r == self.spec_caller_flows(node_id, *target),
    {
        match self.find_node(node_id) {
            Some(i) => {
                let r = self.nodes[i].label.can_flow_to(target);
                proof {
                    assert(forall|j: int|
                        0 <= j < self.nodes@.len() && (#[trigger] self.nodes@[j]).node_id == node_id
                            ==> j == i);
                }
                r
            },
            None => target.integrity_tags.len() == 0,
        }
    }

    /// The post-state relation of a successful channel creation: one fresh
    /// empty channel under `label` with one write and one read handle, both
    /// owned by the creator; everything else untouched.
    pub open spec fn spec_new_channel_ok(
        pre: Runtime,
        post: Runtime,
        node_id: u64,
        label: Label,
        w: u64,
        rd: u64,
    ) -> bool {
        &&& post.channels@.len() == pre.channels@.len() + 1
        &&& forall|i: int|
            0 <= i < pre.channels@.len() ==> post.channels@[i] == #[trigger] pre.channels@[i]
        &&& post.channels@.last().label == label
        &&& post.channels@.last().pending@.len() == 0
        &&& post.channels@.last().reader_count == 1
        &&& post.channels@.last().writer_count == 1
        &&& post.handles@.len() == pre.handles@.len() + 2
        &&& forall|i: int|
            0 <= i < pre.handles@.len() ==> post.handles@[i] == #[trigger] pre.handles@[i]
        &&& w == pre.handles@.len() + 1
        &&& rd == pre.handles@.len() + 2
        &&& post.spec_handle_entry(w) == (HandleEntry {
            live: true,
            channel: pre.channels@.len() as usize,
            direction: Direction::Write,
            owner: HandleOwner::Node(node_id),
        })
        &&& post.spec_handle_entry(rd) == (HandleEntry {
            live: true,
            channel: pre.channels@.len() as usize,
            direction: Direction::Read,
            owner: HandleOwner::Node(node_id),
        })
        &&& post.configuration == pre.configuration
        &&& post.nodes == pre.nodes
        &&& post.next_node_id == pre.next_node_id
        &&& post.stopped == pre.stopped
    }

    /// What `new_channel` returns and does, for every outcome: handles on
    /// success iff the caller's label flows to the requested label, else
    /// `ErrPermissionDenied` and no change.
    pub open spec fn spec_new_channel_result(
        pre: Runtime,
        post: Runtime,
        node_id: u64,
        label: Label,
        r: Result<(u64, u64), OakStatus>,
    ) -> bool {
        match r {
            Ok((w, rd)) => pre.spec_caller_flows(node_id, label)
                && Runtime::spec_new_channel_ok(pre, post, node_id, label, w, rd),
            Err(st) => st == OakStatus::ErrPermissionDenied && !pre.spec_caller_flows(
                node_id,
                label,
            ) && post == pre,
        }
    }

    /// Allocates a new empty channel under `label` and returns a write and a
    /// read handle owned by the caller, after checking the caller's label
    /// can flow to `label`.
    pub fn new_channel(&mut self, node_id: u64, label: Label) -> (r: Result<(u64, u64), OakStatus>)
        requires
            old(self).wf(),
            old(self).handles@.len() + 2 < u64::MAX,
        ensures
            final(self).wf(),
            Runtime::spec_new_channel_result(*old(self), *final(self), node_id, label, r),
    {
        if !self.caller_can_flow_to(node_id, &label) {
            return Err(OakStatus::ErrPermissionDenied);
        }
        let ci = self.channels.len();
        self.channels.push(
            Channel { label, pending: Vec::new(), reader_count: 1, writer_count: 1 },
        );
        let w = self.handles.len() as u64 + 1;
        self.handles.push(
            HandleEntry {
                live: true,
                channel: ci,
                direction: Direction::Write,
                owner: HandleOwner::Node(node_id),
            },
        );
        let rd = self.handles.len() as u64 + 1;
        self.handles.push(
            HandleEntry {
                live: true,
                channel: ci,
                direction: Direction::Read,
                owner: HandleOwner::Node(node_id),
            },
        );
        Ok((w, rd))
    }
}

impl Runtime {
    /// The post-state relation of a successful write: the message stands at
    /// the tail of the channel's queue, and the ownership of every handle it
    /// carries has left the sender, in transit to the receiver; nothing else
    /// changes.
    pub open spec fn spec_write_ok(
        pre: Runtime,
        post: Runtime,
        node_id: u64,
        handle: u64,
        msg: Message,
    ) -> bool {
        let c = pre.spec_handle_entry(handle).channel as int;
        &&& post.channels@.len() == pre.channels@.len()
        &&& forall|j: int|
            0 <= j < pre.channels@.len() && j != c ==> post.channels@[j] == #[trigger] pre.channels@[j]
        &&& post.channels@[c].label == pre.channels@[c].label
        &&& post.channels@[c].reader_count == pre.channels@[c].reader_count
        &&& post.channels@[c].writer_count == pre.channels@[c].writer_count
        &&& post.channels@[c].pending@ == pre.channels@[c].pending@.push(msg)
        &&& post.handles@ == spec_set_owners(pre.handles@, msg.handles@, HandleOwner::InTransit)
        &&& post.configuration == pre.configuration
        &&& post.nodes == pre.nodes
        &&& post.next_node_id == pre.next_node_id
        &&& post.stopped == pre.stopped
    }

    /// What `channel_write` returns and does, for every outcome.
    pub open spec fn spec_write_result(
        pre: Runtime,
        post: Runtime,
        node_id: u64,
        handle: u64,
        msg: Message,
        r: Result<(), OakStatus>,
    ) -> bool {
        match r {
            Ok(()) => {
                let c = pre.spec_handle_entry(handle).channel as int;
                &&& pre.spec_handle_usable(node_id, handle, Direction::Write)
                &&& !pre.channels@[c].read_side_closed()
                &&& !pre.channels@[c].write_side_closed()
                &&& pre.spec_caller_flows(node_id, pre.channels@[c].label)
                &&& pre.spec_all_transferable(node_id, msg.handles@)
                &&& Runtime::spec_write_ok(pre, post, node_id, handle, msg)
            },
            Err(st) => post == pre && ({
                if !pre.spec_handle_usable(node_id, handle, Direction::Write) {
                    st == OakStatus::ErrBadHandle
                } else {
                    let c = pre.spec_handle_entry(handle).channel as int;
                    if pre.channels@[c].read_side_closed()
                        || pre.channels@[c].write_side_closed() {
                        st == OakStatus::ErrChannelClosed
                    } else if !pre.spec_caller_flows(node_id, pre.channels@[c].label) {
                        st == OakStatus::ErrPermissionDenied
                    } else {
                        st == OakStatus::ErrBadHandle && !pre.spec_all_transferable(
                            node_id,
                            msg.handles@,
                        )
                    }
                }
            }),
        }
    }

    /// Enqueues `msg` at the tail of the channel behind `handle`. Fails with
    /// `ErrBadHandle` on a handle `node_id` does not own for writing or on a
    /// non-transferable handle inside the message, with `ErrChannelClosed` if
    /// either side of the channel has closed, and with `ErrPermissionDenied`
    /// if the writer's label cannot flow to the channel's label; the label
    /// check is atomic with the enqueue. Handles inside the message are
    /// revoked from the sender atomically with the message becoming visible.
    pub fn channel_write(&mut self, node_id: u64, handle: u64, msg: Message) -> (r: Result<
        (),
        OakStatus,
    >)
        requires
            old(self).wf(),
        ensures
            final(self).wf(),
            Runtime::spec_write_result(*old(self), *final(self), node_id, handle, msg, r),
    {
        if !(handle >= 1 && handle <= self.handles.len() as u64) {
            return Err(OakStatus::ErrBadHandle);
        }
        let idx = (handle - 1) as usize;
        let e = self.handles[idx];
        if !e.live || e.owner != HandleOwner::Node(node_id) || e.direction != Direction::Write {
            return Err(OakStatus::ErrBadHandle);
        }
        let ci = e.channel;
        if self.channels[ci].reader_count == 0 || self.channels[ci].writer_count == 0 {
            return Err(OakStatus::ErrChannelClosed);
        }
        if !self.caller_can_flow_to(node_id, &self.channels[ci].label) {
            return Err(OakStatus::ErrPermissionDenied);
        }
        let mut k: usize = 0;
        while k < msg.handles.len()
            invariant
                *self == *old(self),
                old(self).wf(),
                old(self).spec_handle_usable(node_id, handle, Direction::Write),
                ci == old(self).spec_handle_entry(handle).channel,
                !old(self).channels@[ci as int].read_side_closed(),
                !old(self).channels@[ci as int].write_side_closed(),
                old(self).spec_caller_flows(node_id, old(self).channels@[ci as int].label),
                k <= msg.handles@.len(),
                forall|j: int|
                    0 <= j < k ==> self.spec_handle_transferable(
                        node_id,
                        #[trigger] msg.handles@[j],
                    ),
            decreases msg.handles@.len() - k,
        {
            let h = msg.handles[k];
            if !(h >= 1 && h <= self.handles.len() as u64) {
                return Err(OakStatus::ErrBadHandle);
            }
            let he = self.handles[(h - 1) as usize];
            if !he.live || he.owner != HandleOwner::Node(node_id) {
                return Err(OakStatus::ErrBadHandle);
            }
            k = k + 1;
        }
        let ghost table0 = self.handles@;
        let mut t: usize = 0;
        while t < msg.handles.len()
            invariant
                t <= msg.handles@.len(),
                old(self).spec_all_transferable(node_id, msg.handles@),
                table0 == old(self).handles@,
                self.handles@ == spec_set_owners(
                    table0,
                    msg.handles@.take(t as int),
                    HandleOwner::InTransit,
                ),
                self.channels == old(self).channels,
                self.configuration == old(self).configuration,
                self.nodes == old(self).nodes,
                self.next_node_id == old(self).next_node_id,
                self.stopped == old(self).stopped,
            decreases msg.handles@.len() - t,
        {
            proof {
                lemma_set_owners_frame(
                    table0,
                    msg.handles@.take(t as int),
                    HandleOwner::InTransit,
                );
            }
            let ghost tcur = self.handles@;
            let h = msg.handles[t];
            assert(old(self).spec_handle_transferable(node_id, msg.handles@[t as int]));
            assert(1 <= h && h <= tcur.len());
            let hidx = (h - 1) as usize;
            let mut he = self.handles[hidx];
            he.owner = HandleOwner::InTransit;
            self.handles.set(hidx, he);
            proof {
                assert(hidx as int == h - 1);
                assert(he == (HandleEntry { owner: HandleOwner::InTransit, ..tcur[h - 1] }));
                assert(self.handles@ == spec_set_owner(tcur, h, HandleOwner::InTransit));
                lemma_set_owners_push(
                    table0,
                    msg.handles@.take(t as int),
                    h,
                    HandleOwner::InTransit,
                );
                assert(msg.handles@.take(t as int + 1) =~= msg.handles@.take(t as int).push(h));
            }
            t = t + 1;
        }
        proof {
            assert(msg.handles@.take(msg.handles@.len() as int) =~= msg.handles@);
            lemma_set_owners_frame(table0, msg.handles@, HandleOwner::InTransit);
        }
        let ch = &mut self.channels[ci];
        ch.pending.push(msg);
        Ok(())
    }

    /// The post-state relation of a read that delivered a message: the head
    /// message has left the queue, and `node_id` now owns every handle the
    /// message carried; nothing else changes.
    pub open spec fn spec_read_ok(
        pre: Runtime,
        post: Runtime,
        node_id: u64,
        handle: u64,
        msg: Message,
    ) -> bool {
        let c = pre.spec_handle_entry(handle).channel as int;
        &&& pre.channels@[c].pending@.len() > 0
        &&& msg == pre.channels@[c].pending@[0]
        &&& post.channels@.len() == pre.channels@.len()
        &&& forall|j: int|
            0 <= j < pre.channels@.len() && j != c ==> post.channels@[j] == #[trigger] pre.channels@[j]
        &&& post.channels@[c].label == pre.channels@[c].label
        &&& post.channels@[c].reader_count == pre.channels@[c].reader_count
        &&& post.channels@[c].writer_count == pre.channels@[c].writer_count
        &&& post.channels@[c].pending@ == pre.channels@[c].pending@.drop_first()
        &&& post.handles@ == spec_set_owners(pre.handles@, msg.handles@, HandleOwner::Node(node_id))
        &&& post.configuration == pre.configuration
        &&& post.nodes == pre.nodes
        &&& post.next_node_id == pre.next_node_id
        &&& post.stopped == pre.stopped
    }

    /// What `channel_read` returns and does, for every outcome.
    pub open spec fn spec_read_result(
        pre: Runtime,
        post: Runtime,
        node_id: u64,
        handle: u64,
        r: Result<Option<Message>, OakStatus>,
    ) -> bool {
        match r {
            Ok(Some(msg)) => pre.spec_handle_usable(node_id, handle, Direction::Read)
                && Runtime::spec_read_ok(pre, post, node_id, handle, msg),
            Ok(None) => {
                let c = pre.spec_handle_entry(handle).channel as int;
                &&& pre.spec_handle_usable(node_id, handle, Direction::Read)
                &&& pre.channels@[c].pending@.len() == 0
                &&& !pre.channels@[c].write_side_closed()
                &&& post == pre
            },
            Err(st) => post == pre && ({
                if !pre.spec_handle_usable(node_id, handle, Direction::Read) {
                    st == OakStatus::ErrBadHandle
                } else {
                    let c = pre.spec_handle_entry(handle).channel as int;
                    &&& st == OakStatus::ErrChannelClosed
                    &&& pre.channels@[c].pending@.len() == 0
                    &&& pre.channels@[c].write_side_closed()
                }
            }),
        }
    }

    /// Dequeues the head message of the channel behind `handle`, in strict
    /// first-in-first-out order, never blocking: `Ok(None)` on an empty queue
    /// whose write side is still open, `ErrChannelClosed` once a closed write
    /// side has been drained, `ErrBadHandle` on a handle `node_id` does not
    /// own for reading. Ownership of the handles inside the delivered message
    /// moves to `node_id` atomically with the delivery.
    pub fn channel_read(&mut self, node_id: u64, handle: u64) -> (r: Result<
        Option<Message>,
        OakStatus,
    >)
        requires
            old(self).wf(),
        ensures
            final(self).wf(),
            Runtime::spec_read_result(*old(self), *final(self), node_id, handle, r),
    {
        if !(handle >= 1 && handle <= self.handles.len() as u64) {
            return Err(OakStatus::ErrBadHandle);
        }
        let idx = (handle - 1) as usize;
        let e = self.handles[idx];
        if !e.live || e.owner != HandleOwner::Node(node_id) || e.direction != Direction::Read {
            return Err(OakStatus::ErrBadHandle);
        }
        let ci = e.channel;
        if self.channels[ci].pending.len() == 0 {
            if self.channels[ci].writer_count == 0 {
                return Err(OakStatus::ErrChannelClosed);
            }
            return Ok(None);
        }
        let ch = &mut self.channels[ci];
        let msg = ch.pending.remove(0);
        let ghost chans1 = self.channels@;
        proof {
            assert(chans1[ci as int].pending@ =~= old(self).channels@[
                ci as int
            ].pending@.drop_first());
            assert(msg == old(self).channels@[ci as int].pending@[0]);
        }
        let ghost table0 = self.handles@;
        let mut t: usize = 0;
        while t < msg.handles.len()
            invariant
                t <= msg.handles@.len(),
                table0 == old(self).handles@,
                self.handles@ == spec_set_owners(
                    table0,
                    msg.handles@.take(t as int),
                    HandleOwner::Node(node_id),
                ),
                self.channels@ == chans1,
                self.configuration == old(self).configuration,
                self.nodes == old(self).nodes,
                self.next_node_id == old(self).next_node_id,
                self.stopped == old(self).stopped,
            decreases msg.handles@.len() - t,
        {
            proof {
                lemma_set_owners_frame(
                    table0,
                    msg.handles@.take(t as int),
                    HandleOwner::Node(node_id),
                );
            }
            let ghost tcur = self.handles@;
            let h = msg.handles[t];
            if h >= 1 && h <= self.handles.len() as u64 {
                let hidx = (h - 1) as usize;
                let mut he = self.handles[hidx];
                he.owner = HandleOwner::Node(node_id);
                self.handles.set(hidx, he);
                proof {
                    assert(hidx as int == h - 1);
                    assert(he == (HandleEntry { owner: HandleOwner::Node(node_id), ..tcur[h - 1] }));
                    assert(self.handles@ == spec_set_owner(tcur, h, HandleOwner::Node(node_id)));
                }
            } else {
                proof {
                    assert(self.handles@ == spec_set_owner(tcur, h, HandleOwner::Node(node_id)));
                }
            }
            proof {
                lemma_set_owners_push(
                    table0,
                    msg.handles@.take(t as int),
                    h,
                    HandleOwner::Node(node_id),
                );
                assert(msg.handles@.take(t as int + 1) =~= msg.handles@.take(t as int).push(h));
            }
            t = t + 1;
        }
        proof {
            assert(msg.handles@.take(msg.handles@.len() as int) =~= msg.handles@);
            lemma_set_owners_frame(table0, msg.handles@, HandleOwner::Node(node_id));
        }
        Ok(Some(msg))
    }

    /// The post-state relation of a successful close: the slot is revoked and
    /// the channel's count for the handle's direction drops by one (already-
    /// zero counts stay zero); nothing else changes. A channel both of whose
    /// counts have reached zero is destroyed.
    pub open spec fn spec_close_ok(pre: Runtime, post: Runtime, node_id: u64, handle: u64) -> bool {
        let e = pre.spec_handle_entry(handle);
        let c = e.channel as int;
        let ch = pre.channels@[c];
        &&& post.handles@ == pre.handles@.update(handle - 1, (HandleEntry { live: false, ..e }))
        &&& post.channels@.len() == pre.channels@.len()
        &&& forall|j: int|
            0 <= j < pre.channels@.len() && j != c ==> post.channels@[j] == #[trigger] pre.channels@[j]
        &&& post.channels@[c] == (match e.direction {
            Direction::Read => (Channel {
                reader_count: if ch.reader_count > 0 {
                    (ch.reader_count - 1) as u64
                } else {
                    0u64
                },
                ..ch
            }),
            Direction::Write => (Channel {
                writer_count: if ch.writer_count > 0 {
                    (ch.writer_count - 1) as u64
                } else {
                    0u64
                },
                ..ch
            }),
        })
        &&& post.configuration == pre.configuration
        &&& post.nodes == pre.nodes
        &&& post.next_node_id == pre.next_node_id
        &&& post.stopped == pre.stopped
    }

    /// What `channel_close` returns and does, for every outcome.
    pub open spec fn spec_close_result(
        pre: Runtime,
        post: Runtime,
        node_id: u64,
        handle: u64,
        r: Result<(), OakStatus>,
    ) -> bool {
        match r {
            Ok(()) => pre.spec_handle_transferable(node_id, handle) && Runtime::spec_close_ok(
                pre,
                post,
                node_id,
                handle,
            ),
            Err(st) => st == OakStatus::ErrBadHandle && !pre.spec_handle_transferable(
                node_id,
                handle,
            ) && post == pre,
        }
    }

    /// Closes a handle owned by `node_id`: revokes the slot and decrements
    /// its side's reference count on the channel. Closing the last handle of
    /// one side marks that side permanently closed.
    pub fn channel_close(&mut self, node_id: u64, handle: u64) -> (r: Result<(), OakStatus>)
        requires
            old(self).wf(),
        ensures
            final(self).wf(),
            Runtime::spec_close_result(*old(self), *final(self), node_id, handle, r),
    {
        if !(handle >= 1 && handle <= self.handles.len() as u64) {
            return Err(OakStatus::ErrBadHandle);
        }
        let idx = (handle - 1) as usize;
        let e = self.handles[idx];
        if !e.live || e.owner != HandleOwner::Node(node_id) {
            return Err(OakStatus::ErrBadHandle);
        }
        let mut e2 = e;
        e2.live = false;
        self.handles.set(idx, e2);
        let ch = &mut self.channels[e.channel];
        match e.direction {
            Direction::Read => {
                if ch.reader_count > 0 {
                    ch.reader_count = ch.reader_count - 1;
                }
            },
            Direction::Write => {
                if ch.writer_count > 0 {
                    ch.writer_count = ch.writer_count - 1;
                }
            },
        }
        Ok(())
    }

    /// A read handle is ready for `wait`: it has a pending message, its write
    /// side has closed, or it is not a usable read handle at all (so a wait
    /// on it must not block).
    pub open spec fn spec_handle_ready(self, node_id: u64, h: u64) -> bool {
        if !self.spec_handle_usable(node_id, h, Direction::Read) {
            true
        } else {
            let c = self.spec_handle_entry(h).channel as int;
            self.channels@[c].pending@.len() > 0 || self.channels@[c].write_side_closed()
        }
    }

    /// The first ready handle of `hs`, if any.
    pub open spec fn spec_first_ready(self, node_id: u64, hs: Seq<u64>) -> Option<u64>
        decreases hs.len(),
    {
        if hs.len() == 0 {
            None
        } else if self.spec_handle_ready(node_id, hs[0]) {
            Some(hs[0])
        } else {
            self.spec_first_ready(node_id, hs.drop_first())
        }
    }

    /// The decision basis of `wait`: the first of the given read handles with
    /// a pending message or a closed write side (or one that is no usable
    /// read handle at all), `None` if every one of them would block. The
    /// caller blocks and retries while this returns `None`.
    pub fn ready_handle(&self, node_id: u64, handles: &Vec<u64>) -> (r: Option<u64>)
        requires
            self.wf(),
        ensures
            r == self.spec_first_ready(node_id, handles@),
    {
        proof {
            assert(handles@.skip(0) =~= handles@);
        }
        let mut i: usize = 0;
        while i < handles.len()
            invariant
                self.wf(),
                i <= handles@.len(),
                self.spec_first_ready(node_id, handles@) == self.spec_first_ready(
                    node_id,
                    handles@.skip(i as int),
                ),
            decreases handles@.len() - i,
        {
            let h = handles[i];
            let mut ready: bool = true;
            if h >= 1 && h <= self.handles.len() as u64 {
                let e = self.handles[(h - 1) as usize];
                if e.live && e.owner == HandleOwner::Node(node_id) && e.direction
                    == Direction::Read {
                    let ci = e.channel;
                    ready = self.channels[ci].pending.len() > 0 || self.channels[ci].writer_count
                        == 0;
                }
            }
            proof {
                assert(handles@.skip(i as int)[0] == handles@[i as int]);
                assert(handles@.skip(i as int).drop_first() =~= handles@.skip(i as int + 1));
            }
            if ready {
                return Some(h);
            }
            i = i + 1;
        }
        proof {
            assert(handles@.skip(i as int) =~= Seq::<u64>::empty());
        }
        None
    }
}

impl Runtime {
    /// Registers and starts a node instance under `node_id`:
    /// 1. checks the starting context's label can flow to the requested node
    ///    label, else `ErrPermissionDenied` and no further action;
    /// 2. validates the instance without running any of its code;
    /// 3. on validation failure, records `FailedToStart`, admits no execution
    ///    context, and returns the validation error;
    /// 4. on success, records the node as `Running`, holding the validated
    ///    instance and its initial handles for the execution context that
    ///    will drive it.
    pub fn node_start_instance(
        &mut self,
        node_id: u64,
        node_name: Vec<u8>,
        node_instance: NodeInstance,
        label: Label,
        initial_handles: Vec<u64>,
    ) -> (r: Result<(), OakStatus>)
        requires
            old(self).wf(),
            !old(self).spec_has_node(node_id),
        ensures
            final(self).wf(),
            final(self).configuration == old(self).configuration,
            final(self).channels == old(self).channels,
            final(self).handles == old(self).handles,
            final(self).next_node_id == old(self).next_node_id,
            final(self).stopped == old(self).stopped,
            (match r {
                Ok(()) => {
                    &&& old(self).spec_caller_flows(node_id, label)
                    &&& node_instance.spec_valid()
                    &&& final(self).nodes@ == old(self).nodes@.push(
                        (NodeEntry {
                            node_id,
                            name: node_name,
                            label,
                            state: NodeState::Running,
                            instance: Some(node_instance),
                            initial_handles,
                        }),
                    )
                },
                Err(st) => {
                    if !old(self).spec_caller_flows(node_id, label) {
                        st == OakStatus::ErrPermissionDenied && final(self).nodes == old(
                            self,
                        ).nodes
                    } else {
                        &&& st == OakStatus::ErrInvalidArgs
                        &&& !node_instance.spec_valid()
                        &&& final(self).nodes@ == old(self).nodes@.push(
                            (NodeEntry {
                                node_id,
                                name: node_name,
                                label,
                                state: NodeState::FailedToStart,
                                instance: None,
                                initial_handles,
                            }),
                        )
                    }
                },
            }),
    {
        if !self.caller_can_flow_to(node_id, &label) {
            return Err(OakStatus::ErrPermissionDenied);
        }
        match node_instance.validate() {
            Err(st) => {
                self.nodes.push(
                    NodeEntry {
                        node_id,
                        name: node_name,
                        label,
                        state: NodeState::FailedToStart,
                        instance: None,
                        initial_handles,
                    },
                );
                Err(st)
            },
            Ok(()) => {
                self.nodes.push(
                    NodeEntry {
                        node_id,
                        name: node_name,
                        label,
                        state: NodeState::Running,
                        instance: Some(node_instance),
                        initial_handles,
                    },
                );
                Ok(())
            },
        }
    }

    /// The recorded lifecycle state of `node_id`, if it was ever registered.
    pub fn node_state(&self, node_id: u64) -> (r: Option<NodeState>)
        requires
            self.wf(),
        ensures
            (match r {
                Some(st) => exists|i: int|
                    0 <= i < self.nodes@.len() && (#[trigger] self.nodes@[i]).node_id == node_id
                        && self.nodes@[i].state == st,
                None => !self.spec_has_node(node_id),
            }),
    {
        match self.find_node(node_id) {
            Some(i) => Some(self.nodes[i].state),
            None => None,
        }
    }

    /// The live handles currently owned by `node_id`, in table order: the
    /// handles a terminating node must release.
    pub fn owned_handles(&self, node_id: u64) -> (r: Vec<u64>)
        ensures
            forall|k: int|
                0 <= k < r@.len() ==> self.spec_handle_transferable(node_id, #[trigger] r@[k]),
            forall|h: u64| self.spec_handle_transferable(node_id, h) ==> r@.contains(h),
    {
        let mut out: Vec<u64> = Vec::new();
        let mut i: usize = 0;
        while i < self.handles.len()
            invariant
                i <= self.handles@.len(),
                forall|k: int|
                    0 <= k < out@.len() ==> self.spec_handle_transferable(
                        node_id,
                        #[trigger] out@[k],
                    ),
                forall|h: u64|
                    1 <= h <= i && self.spec_handle_transferable(node_id, h) ==> out@.contains(h),
            decreases self.handles@.len() - i,
        {
            let e = self.handles[i];
            let ghost out0 = out@;
            if e.live && e.owner == HandleOwner::Node(node_id) {
                out.push((i as u64) + 1);
            }
            proof {
                assert forall|h: u64|
                    1 <= h <= i + 1 && self.spec_handle_transferable(node_id, h)
                    implies out@.contains(h) by {
                    if h == i + 1 {
                        assert(self.spec_handle_entry(h) == self.handles@[i as int]);
                        assert(out@.last() == h);
                    } else {
                        assert(out0.contains(h));
                        let k = choose|k: int| 0 <= k < out0.len() && out0[k] == h;
                        assert(out@[k] == h);
                    }
                };
            }
            i = i + 1;
        }
        out
    }

    /// Records the ending of a running node: `Trapped` if its execution
    /// faulted, `Completed` on a normal return. Every other part of the
    /// runtime is untouched; the node's handles are released separately,
    /// one [`Runtime::channel_close`] each.
    pub fn mark_node_finished(&mut self, node_id: u64, trapped: bool)
        requires
            old(self).wf(),
        ensures
            final(self).wf(),
            final(self).configuration == old(self).configuration,
            final(self).channels == old(self).channels,
            final(self).handles == old(self).handles,
            final(self).next_node_id == old(self).next_node_id,
            final(self).stopped == old(self).stopped,
            final(self).nodes@.len() == old(self).nodes@.len(),
            forall|i: int|
                0 <= i < old(self).nodes@.len() ==> final(self).nodes@[i] == (NodeEntry {
                    state: (if old(self).nodes@[i].node_id == node_id && old(
                        self,
                    ).nodes@[i].state == NodeState::Running {
                        if trapped {
                            NodeState::Trapped
                        } else {
                            NodeState::Completed
                        }
                    } else {
                        old(self).nodes@[i].state
                    }),
                    ..(#[trigger] old(self).nodes@[i])
                }),
    {
        let mut i: usize = 0;
        while i < self.nodes.len()
            invariant
                old(self).wf(),
                i <= self.nodes@.len(),
                self.configuration == old(self).configuration,
                self.channels == old(self).channels,
                self.handles == old(self).handles,
                self.next_node_id == old(self).next_node_id,
                self.stopped == old(self).stopped,
                self.nodes@.len() == old(self).nodes@.len(),
                forall|j: int|
                    0 <= j < i ==> self.nodes@[j] == (NodeEntry {
                        state: (if old(self).nodes@[j].node_id == node_id && old(
                            self,
                        ).nodes@[j].state == NodeState::Running {
                            if trapped {
                                NodeState::Trapped
                            } else {
                                NodeState::Completed
                            }
                        } else {
                            old(self).nodes@[j].state
                        }),
                        ..(#[trigger] old(self).nodes@[j])
                    }),
                forall|j: int|
                    i <= j < self.nodes@.len() ==> self.nodes@[j] == #[trigger] old(
                        self,
                    ).nodes@[j],
            decreases self.nodes@.len() - i,
        {
            let n = &mut self.nodes[i];
            let is_target = n.node_id == node_id && n.state == NodeState::Running;
            if is_target {
                if trapped {
                    n.state = NodeState::Trapped;
                } else {
                    n.state = NodeState::Completed;
                }
            }
            i = i + 1;
        }
        proof {
            assert forall|a: int, b: int|
                0 <= a < b < self.nodes@.len() implies (#[trigger] self.nodes@[a]).node_id != (
            #[trigger] self.nodes@[b]).node_id by {
                assert(self.nodes@[a].node_id == old(self).nodes@[a].node_id);
                assert(self.nodes@[b].node_id == old(self).nodes@[b].node_id);
            };
        }
    }

    /// Transitions the runtime to its final drained state: every handle is
    /// revoked, both reference counts of every channel drop to zero (so every
    /// channel is destroyed and its buffered messages become unreachable),
    /// every running node is recorded `Terminated`, and the runtime is marked
    /// stopped. Stopping never fails: it asks nothing of the history that
    /// went before — a runtime that never started a node, or whose starts all
    /// failed, stops just the same.
    pub fn stop(&mut self)
        requires
            old(self).wf(),
        ensures
            final(self).wf(),
            final(self).stopped,
            final(self).configuration == old(self).configuration,
            final(self).next_node_id == old(self).next_node_id,
            final(self).handles@.len() == old(self).handles@.len(),
            forall|i: int|
                0 <= i < old(self).handles@.len() ==> final(self).handles@[i] == (HandleEntry {
                    live: false,
                    ..(#[trigger] old(self).handles@[i])
                }),
            final(self).channels@.len() == old(self).channels@.len(),
            forall|i: int|
                0 <= i < old(self).channels@.len() ==> final(self).channels@[i] == (Channel {
                    reader_count: 0u64,
                    writer_count: 0u64,
                    ..(#[trigger] old(self).channels@[i])
                }),
            forall|i: int|
                0 <= i < old(self).channels@.len()
                    ==> (#[trigger] final(self).channels@[i]).is_destroyed(),
            final(self).nodes@.len() == old(self).nodes@.len(),
            forall|i: int|
                0 <= i < old(self).nodes@.len() ==> final(self).nodes@[i] == (NodeEntry {
                    state: (if old(self).nodes@[i].state == NodeState::Running {
                        NodeState::Terminated
                    } else {
                        old(self).nodes@[i].state
                    }),
                    ..(#[trigger] old(self).nodes@[i])
                }),
    {
        let mut i: usize = 0;
        while i < self.handles.len()
            invariant
                old(self).wf(),
                i <= self.handles@.len(),
                self.configuration == old(self).configuration,
                self.channels == old(self).channels,
                self.nodes == old(self).nodes,
                self.next_node_id == old(self).next_node_id,
                self.stopped == old(self).stopped,
                self.handles@.len() == old(self).handles@.len(),
                forall|j: int|
                    0 <= j < i ==> self.handles@[j] == (HandleEntry {
                        live: false,
                        ..(#[trigger] old(self).handles@[j])
                    }),
                forall|j: int|
                    i <= j < self.handles@.len() ==> self.handles@[j] == #[trigger] old(
                        self,
                    ).handles@[j],
            decreases self.handles@.len() - i,
        {
            let mut e = self.handles[i];
            e.live = false;
            self.handles.set(i, e);
            i = i + 1;
        }
        let ghost handles1 = self.handles@;
        let mut c: usize = 0;
        while c < self.channels.len()
            invariant
                old(self).wf(),
                c <= self.channels@.len(),
                self.configuration == old(self).configuration,
                self.handles@ == handles1,
                self.nodes == old(self).nodes,
                self.next_node_id == old(self).next_node_id,
                self.stopped == old(self).stopped,
                self.channels@.len() == old(self).channels@.len(),
                forall|j: int|
                    0 <= j < c ==> self.channels@[j] == (Channel {
                        reader_count: 0u64,
                        writer_count: 0u64,
                        ..(#[trigger] old(self).channels@[j])
                    }),
                forall|j: int|
                    c <= j < self.channels@.len() ==> self.channels@[j] == #[trigger] old(
                        self,
                    ).channels@[j],
            decreases self.channels@.len() - c,
        {
            let ch = &mut self.channels[c];
            ch.reader_count = 0;
            ch.writer_count = 0;
            c = c + 1;
        }
        let ghost channels1 = self.channels@;
        let mut n: usize = 0;
        while n < self.nodes.len()
            invariant
                old(self).wf(),
                n <= self.nodes@.len(),
                self.configuration == old(self).configuration,
                self.handles@ == handles1,
                self.channels@ == channels1,
                self.next_node_id == old(self).next_node_id,
                self.stopped == old(self).stopped,
                self.nodes@.len() == old(self).nodes@.len(),
                forall|j: int|
                    0 <= j < n ==> self.nodes@[j] == (NodeEntry {
                        state: (if old(self).nodes@[j].state == NodeState::Running {
                            NodeState::Terminated
                        } else {
                            old(self).nodes@[j].state
                        }),
                        ..(#[trigger] old(self).nodes@[j])
                    }),
                forall|j: int|
                    n <= j < self.nodes@.len() ==> self.nodes@[j] == #[trigger] old(
                        self,
                    ).nodes@[j],
            decreases self.nodes@.len() - n,
        {
            let e = &mut self.nodes[n];
            let running = e.state == NodeState::Running;
            if running {
                e.state = NodeState::Terminated;
            }
            n = n + 1;
        }
        self.stopped = true;
        proof {
            assert forall|i: int|
                0 <= i < self.channels@.len() implies (#[trigger] self.channels@[i]).is_destroyed() by {
                assert(self.channels@[i] == (Channel {
                    reader_count: 0u64,
                    writer_count: 0u64,
                    ..old(self).channels@[i]
                }));
            };
            assert forall|i: int|
                0 <= i < self.handles@.len() implies (#[trigger] self.handles@[i]).channel
                < self.channels@.len() by {
                assert(self.handles@[i] == (HandleEntry { live: false, ..old(self).handles@[i] }));
                assert(old(self).handles@[i].channel < old(self).channels@.len());
            };
            assert forall|a: int, b: int|
                0 <= a < b < self.nodes@.len() implies (#[trigger] self.nodes@[a]).node_id != (
            #[trigger] self.nodes@[b]).node_id by {
                assert(self.nodes@[a].node_id == old(self).nodes@[a].node_id);
                assert(self.nodes@[b].node_id == old(self).nodes@[b].node_id);
            };
        }
    }
}

// ---------------------------------------------------------------------------
// Laws of the runtime
// ---------------------------------------------------------------------------

/// Law (stoppable after a failed start): a start whose validation failed has
/// registered the node as `FailedToStart` and touched nothing else, so the
/// runtime is exactly as well-formed as before — and well-formedness is all
/// `stop` requires, so stopping completes without error even though no node
/// ever ran.
pub proof fn lemma_failed_start_keeps_runtime_stoppable(
    pre: Runtime,
    post: Runtime,
    node_id: u64,
    node_name: Vec<u8>,
    label: Label,
    initial_handles: Vec<u64>,
)
    requires
        pre.wf(),
        !pre.spec_has_node(node_id),
        post.channels == pre.channels,
        post.handles == pre.handles,
        post.nodes@ == pre.nodes@.push(
            (NodeEntry {
                node_id,
                name: node_name,
                label,
                state: NodeState::FailedToStart,
                instance: None,
                initial_handles,
            }),
        ),
    ensures
        post.wf(),
{
    assert forall|i: int, j: int|
        0 <= i < j < post.nodes@.len() implies (#[trigger] post.nodes@[i]).node_id != (
    #[trigger] post.nodes@[j]).node_id by {
        if j == post.nodes@.len() - 1 {
            assert(post.nodes@[i] == pre.nodes@[i]);
        } else {
            assert(post.nodes@[i] == pre.nodes@[i]);
            assert(post.nodes@[j] == pre.nodes@[j]);
        }
    };
}

/// Law (round trip): a message written onto an empty channel is read back
/// from the paired read handle exactly once and unchanged — byte-identical
/// payload, the same transferred handles — and the queue is empty again
/// afterwards, so no later read can yield it a second time.
pub proof fn lemma_message_round_trip(
    pre: Runtime,
    mid: Runtime,
    wnode: u64,
    rnode: u64,
    wh: u64,
    rh: u64,
    msg: Message,
)
    requires
        pre.spec_handle_usable(wnode, wh, Direction::Write),
        mid.spec_handle_entry(rh).channel == pre.spec_handle_entry(wh).channel,
        pre.channels@[pre.spec_handle_entry(wh).channel as int].pending@.len() == 0,
        Runtime::spec_write_ok(pre, mid, wnode, wh, msg),
        pre.spec_handle_entry(wh).channel < pre.channels@.len(),
    ensures
        ({
            let c = mid.spec_handle_entry(rh).channel as int;
            &&& mid.channels@[c].pending@.len() == 1
            &&& mid.channels@[c].pending@[0] == msg
            &&& forall|post: Runtime, m2: Message|
                #[trigger] Runtime::spec_read_ok(mid, post, rnode, rh, m2) ==> m2 == msg
                    && post.channels@[c].pending@.len() == 0
        }),
{
    let c = mid.spec_handle_entry(rh).channel as int;
    assert(mid.channels@[c].pending@ == pre.channels@[c].pending@.push(msg));
    assert forall|post: Runtime, m2: Message|
        #[trigger] Runtime::spec_read_ok(mid, post, rnode, rh, m2) implies m2 == msg
        && post.channels@[c].pending@.len() == 0 by {
        assert(post.channels@[c].pending@ == mid.channels@[c].pending@.drop_first());
    }
}

/// Law (drain then close): once a channel's write side has closed, a read
/// through a live read handle still delivers every buffered message, head
/// first and in order, with the write side staying closed; only a fully
/// drained queue reports the closure, and a delivery is impossible then.
pub proof fn lemma_drained_channel_reports_closure(rt: Runtime, node_id: u64, h: u64)
    requires
        rt.spec_handle_usable(node_id, h, Direction::Read),
        rt.spec_handle_entry(h).channel < rt.channels@.len(),
        rt.channels@[rt.spec_handle_entry(h).channel as int].write_side_closed(),
    ensures
        ({
            let c = rt.spec_handle_entry(h).channel as int;
            forall|post: Runtime, m: Message|
                #[trigger] Runtime::spec_read_ok(rt, post, node_id, h, m) ==> m
                    == rt.channels@[c].pending@[0] && post.channels@[c].pending@
                    == rt.channels@[c].pending@.drop_first()
                    && post.channels@[c].write_side_closed()
                    && rt.channels@[c].pending@.len() > 0
        }),
{
}

/// A node-scoped facade over the runtime: the only surface a running node
/// may call. It fixes the node identity under which every operation acts.
#[derive(Clone, Copy, Debug)]
pub struct RuntimeProxy {
    pub node_id: u64,
}

impl RuntimeProxy {
    /// Creates a channel on the node's behalf; see [`Runtime::new_channel`].
    pub fn new_channel(&self, runtime: &mut Runtime, label: Label) -> (r: Result<
        (u64, u64),
        OakStatus,
    >)
        requires
            old(runtime).wf(),
            old(runtime).handles@.len() + 2 < u64::MAX,
        ensures
            final(runtime).wf(),
            Runtime::spec_new_channel_result(
                *old(runtime),
                *final(runtime),
                self.node_id,
                label,
                r,
            ),
    {
        runtime.new_channel(self.node_id, label)
    }

    /// Writes on the node's behalf; see [`Runtime::channel_write`].
    pub fn channel_write(&self, runtime: &mut Runtime, handle: u64, msg: Message) -> (r: Result<
        (),
        OakStatus,
    >)
        requires
            old(runtime).wf(),
        ensures
            final(runtime).wf(),
            Runtime::spec_write_result(
                *old(runtime),
                *final(runtime),
                self.node_id,
                handle,
                msg,
                r,
            ),
    {
        runtime.channel_write(self.node_id, handle, msg)
    }

    /// Reads on the node's behalf; see [`Runtime::channel_read`].
    pub fn channel_read(&self, runtime: &mut Runtime, handle: u64) -> (r: Result<
        Option<Message>,
        OakStatus,
    >)
        requires
            old(runtime).wf(),
        ensures
            final(runtime).wf(),
            Runtime::spec_read_result(*old(runtime), *final(runtime), self.node_id, handle, r),
    {
        runtime.channel_read(self.node_id, handle)
    }

    /// Closes a handle on the node's behalf; see [`Runtime::channel_close`].
    pub fn channel_close(&self, runtime: &mut Runtime, handle: u64) -> (r: Result<(), OakStatus>)
        requires
            old(runtime).wf(),
        ensures
            final(runtime).wf(),
            Runtime::spec_close_result(*old(runtime), *final(runtime), self.node_id, handle, r),
    {
        runtime.channel_close(self.node_id, handle)
    }

    /// The node's `wait` decision basis; see [`Runtime::ready_handle`].
    pub fn ready_handle(&self, runtime: &Runtime, handles: &Vec<u64>) -> (r: Option<u64>)
        requires
            runtime.wf(),
        ensures
            r == runtime.spec_first_ready(self.node_id, handles@),
    {
        runtime.ready_handle(self.node_id, handles)
    }
}

} // verus!
