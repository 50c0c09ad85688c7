//! The dispatcher: which chunk goes to which node, and what becomes of it.
//!
//! The caller owns the tasks, the network and the disk. For each node it keeps
//! a [`NodeWorker`], wakes it, performs the action that it is handed, and
//! reports each task's end as an event. All decisions fall here.

use vstd::prelude::*;
use vstd::string::*;
use vstd::multiset::*;
use crate::chunk::{chunk_views, fresh_chunk, fresh_chunks, Chunk, ChunkView};
use crate::error::{ErrorKind, VideoEncodeError};
use crate::node::service::EncodeChunkResponse;
use crate::paths::{join, joined};
use crate::text::{concat3, decimal, format_decimal};

verus! {

/// The chunks of one job that wait for a node, and those that are done.
#[derive(Debug)]
pub struct EncodingTaskState {
    /// Chunks that wait for a node; the next one to go is the last.
    pub pending_chunks: Vec<Chunk>,
    /// Chunks whose encoded result lies on the client's disk, in the order in
    /// which they came back.
    pub completed_chunks: Vec<Chunk>,
}

/// An [`EncodingTaskState`] as plain values.
pub struct TaskView {
    pub pending: Seq<ChunkView>,
    pub completed: Seq<ChunkView>,
}

impl View for EncodingTaskState {
    type V = TaskView;

    open spec fn view(&self) -> TaskView {
        TaskView {
            pending: chunk_views(self.pending_chunks@),
            completed: chunk_views(self.completed_chunks@),
        }
    }
}

impl EncodingTaskState {
    /// The state of a job that has not begun: every chunk waits.
    pub fn new(initial_chunks: Vec<Chunk>) -> (state: EncodingTaskState)
        ensures
            state@ == (TaskView {
                pending: chunk_views(initial_chunks@),
                completed: Seq::empty(),
            }),
    {
        let state = EncodingTaskState {
            pending_chunks: initial_chunks,
            completed_chunks: Vec::new(),
        };
        proof {
            assert(chunk_views(state.completed_chunks@) =~= Seq::<ChunkView>::empty());
        }
        state
    }
}

/// Opens a job with the chunks that were cut from the source.
///
/// A source that gave no chunks leaves nothing to do: there is no job, and
/// the caller has only to clear its scratch space. Otherwise the job begins
/// with every chunk waiting.
pub fn begin_job(chunks: Vec<Chunk>) -> (job: Option<EncodingTaskState>)
    ensures
        chunks@.len() == 0 ==> job is None,
        chunks@.len() > 0 ==> job is Some && job->0@ == (TaskView {
            pending: chunk_views(chunks@),
            completed: Seq::empty(),
        }),
{
    if chunks.len() == 0 {
        None
    } else {
        Some(EncodingTaskState::new(chunks))
    }
}

/// The dispatcher's hold on one node: how many requests the node takes at a
/// time, and the chunks that are with it now.
#[derive(Debug)]
pub struct NodeWorker {
    address: String,
    encoded_chunk_dir: String,
    slots: usize,
    active: Vec<Chunk>,
    draining: bool,
}

/// A [`NodeWorker`] as plain values.
pub struct WorkerView {
    /// The node's address.
    pub address: Seq<char>,
    /// The client's directory for encoded chunks.
    pub encoded_dir: Seq<char>,
    /// How many requests the node takes at a time.
    pub slots: nat,
    /// The chunks that are with the node, each holding one slot.
    pub active: Seq<ChunkView>,
    /// Whether the worker has seen the queue empty and takes no more chunks.
    pub draining: bool,
}

impl View for NodeWorker {
    type V = WorkerView;

    closed spec fn view(&self) -> WorkerView {
        WorkerView {
            address: self.address@,
            encoded_dir: self.encoded_chunk_dir@,
            slots: self.slots as nat,
            active: chunk_views(self.active@),
            draining: self.draining,
        }
    }
}

/// What the caller reports to a worker.
#[derive(Debug, Clone, PartialEq, Eq)]
pub enum WorkerEvent {
    /// The worker's loop comes round: it may take a chunk.
    Wake,
    /// The node has answered the request for the chunk with this index.
    Answered { index: usize, response: EncodeChunkResponse },
    /// The request for the chunk with this index did not get through, or the
    /// chunk's source could not be read.
    Unreachable { index: usize },
    /// The encoded chunk with this index has been written to disk.
    Stored { index: usize },
    /// The encoded chunk with this index could not be written to disk.
    StoreFailed { index: usize },
}

/// A [`WorkerEvent`] as plain values.
pub enum WorkerEventView {
    Wake,
    Answered { index: nat, success: bool, data: Seq<u8> },
    Unreachable { index: nat },
    Stored { index: nat },
    StoreFailed { index: nat },
}

impl View for WorkerEvent {
    type V = WorkerEventView;

    open spec fn view(&self) -> WorkerEventView {
        match self {
            WorkerEvent::Wake => WorkerEventView::Wake,
            WorkerEvent::Answered { index, response } => WorkerEventView::Answered {
                index: *index as nat,
                success: response.success,
                data: response.encoded_chunk_data@,
            },
            WorkerEvent::Unreachable { index } => WorkerEventView::Unreachable {
                index: *index as nat,
            },
            WorkerEvent::Stored { index } => WorkerEventView::Stored { index: *index as nat },
            WorkerEvent::StoreFailed { index } => WorkerEventView::StoreFailed {
                index: *index as nat,
            },
        }
    }
}

/// What the caller is to do for a worker.
#[derive(Debug, Clone, PartialEq, Eq)]
pub enum WorkerAction {
    /// Start a task that reads this chunk's source and sends it to the node.
    Send { chunk: Chunk },
    /// Write `data` to the file `path`: the encoded chunk with this index.
    Store { index: usize, path: String, data: Vec<u8> },
    /// Every slot is taken: wait for one of this node's tasks to end.
    AwaitTask,
    /// Nothing can be done now: let other tasks run, then wake the worker.
    Yield,
    /// Wake the worker again.
    Resume,
    /// The worker is done: the queue was empty and its tasks have ended.
    Finish,
}

/// A [`WorkerAction`] as plain values.
pub enum WorkerActionView {
    Send(ChunkView),
    Store { index: nat, path: Seq<char>, data: Seq<u8> },
    AwaitTask,
    Yield,
    Resume,
    Finish,
}

impl View for WorkerAction {
    type V = WorkerActionView;

    open spec fn view(&self) -> WorkerActionView {
        match self {
            WorkerAction::Send { chunk } => WorkerActionView::Send(chunk@),
            WorkerAction::Store { index, path, data } => WorkerActionView::Store {
                index: *index as nat,
                path: path@,
                data: data@,
            },
            WorkerAction::AwaitTask => WorkerActionView::AwaitTask,
            WorkerAction::Yield => WorkerActionView::Yield,
            WorkerAction::Resume => WorkerActionView::Resume,
            WorkerAction::Finish => WorkerActionView::Finish,
        }
    }
}

/// The file in which the client keeps the encoded chunk with index `index`.
pub open spec fn encoded_chunk_path(encoded_dir: Seq<char>, index: nat) -> Seq<char> {
    joined(encoded_dir, "encoded_chunk_"@ + decimal(index) + ".mkv"@)
}

/// The position of the first chunk of `active` that has index `index`; the
/// length of `active` where there is none.
pub open spec fn position(active: Seq<ChunkView>, index: nat) -> int
    decreases active.len(),
{
    if active.len() == 0 {
        0
    } else if active[0].index == index {
        0
    } else {
        1 + position(active.drop_first(), index)
    }
}

/// The step that gives the chunk at position `k` of the worker's active
/// chunks back to the queue, as it was taken from it.
pub open spec fn requeue(t: TaskView, w: WorkerView, k: int) -> (TaskView, WorkerView) {
    (
        TaskView { pending: t.pending.push(w.active[k]), ..t },
        WorkerView { active: w.active.remove(k), ..w },
    )
}

/// What the worker is told when it cannot take a chunk: wait for one of its
/// tasks where it has any, otherwise `idle`.
pub open spec fn wait_or(w: WorkerView, idle: WorkerActionView) -> WorkerActionView {
    if w.active.len() > 0 {
        WorkerActionView::AwaitTask
    } else {
        idle
    }
}

/// One step of a worker: the queue, the worker and the action that follow
/// from the event `e`.
///
/// Waking: a worker that is draining waits for its tasks and then finishes. A
/// worker whose slots are all taken waits for a task. A worker that finds the
/// queue empty starts draining. Otherwise the worker takes the last chunk of
/// the queue, which then holds a slot, and sends it.
///
/// A task's end: a chunk that the node encoded is to be stored under its
/// name in the client's directory, and once it is stored it joins the
/// completed chunks with that path recorded. A chunk whose request failed in
/// any way goes back to the end of the queue as it was. Either way the slot
/// is free again only when the chunk has left the active ones. An event for
/// a chunk that is not with this worker changes nothing.
pub open spec fn worker_step(t: TaskView, w: WorkerView, e: WorkerEventView) -> (
    TaskView,
    WorkerView,
    WorkerActionView,
) {
    match e {
        WorkerEventView::Wake => if w.draining {
            (t, w, wait_or(w, WorkerActionView::Finish))
        } else if w.active.len() >= w.slots {
            (t, w, wait_or(w, WorkerActionView::Yield))
        } else if t.pending.len() == 0 {
            (t, WorkerView { draining: true, ..w }, wait_or(w, WorkerActionView::Finish))
        } else {
            (
                TaskView { pending: t.pending.drop_last(), ..t },
                WorkerView { active: w.active.push(t.pending.last()), ..w },
                WorkerActionView::Send(t.pending.last()),
            )
        },
        WorkerEventView::Answered { index, success, data } => {
            let k = position(w.active, index);
            if k >= w.active.len() {
                (t, w, WorkerActionView::Resume)
            } else if success {
                (
                    t,
                    w,
                    WorkerActionView::Store {
                        index,
                        path: encoded_chunk_path(w.encoded_dir, index),
                        data,
                    },
                )
            } else {
                (requeue(t, w, k).0, requeue(t, w, k).1, WorkerActionView::Resume)
            }
        },
        WorkerEventView::Unreachable { index } => {
            let k = position(w.active, index);
            if k >= w.active.len() {
                (t, w, WorkerActionView::Resume)
            } else {
                (requeue(t, w, k).0, requeue(t, w, k).1, WorkerActionView::Resume)
            }
        },
        WorkerEventView::StoreFailed { index } => {
            let k = position(w.active, index);
            if k >= w.active.len() {
                (t, w, WorkerActionView::Resume)
            } else {
                (requeue(t, w, k).0, requeue(t, w, k).1, WorkerActionView::Resume)
            }
        },
        WorkerEventView::Stored { index } => {
            let k = position(w.active, index);
            if k >= w.active.len() {
                (t, w, WorkerActionView::Resume)
            } else {
                (
                    TaskView {
                        completed: t.completed.push(
                            ChunkView {
                                encoded_path: Some(encoded_chunk_path(w.encoded_dir, index)),
                                ..w.active[k]
                            },
                        ),
                        ..t
                    },
                    WorkerView { active: w.active.remove(k), ..w },
                    WorkerActionView::Resume,
                )
            }
        },
    }
}

impl NodeWorker {
    /// A worker for the node at `address` that takes `slots` requests at a
    /// time; encoded chunks are kept in `encoded_chunk_dir`.
    pub fn new(address: String, slots: usize, encoded_chunk_dir: String) -> (worker: NodeWorker)
        ensures
            worker@ == (WorkerView {
                address: address@,
                encoded_dir: encoded_chunk_dir@,
                slots: slots as nat,
                active: Seq::empty(),
                draining: false,
            }),
    {
        let worker = NodeWorker {
            address,
            encoded_chunk_dir,
            slots,
            active: Vec::new(),
            draining: false,
        };
        proof {
            assert(chunk_views(worker.active@) =~= Seq::<ChunkView>::empty());
        }
        worker
    }

    /// How many of the node's slots are free.
    pub fn available_permits(&self) -> (free: usize)
        ensures
            free == if self@.active.len() <= self@.slots {
                self@.slots - self@.active.len()
            } else {
                0
            },
    {
        if self.active.len() <= self.slots {
            self.slots - self.active.len()
        } else {
            0
        }
    }

    /// How many chunks are with the node.
    pub fn in_flight(&self) -> (count: usize)
        ensures
            count == self@.active.len(),
    {
        self.active.len()
    }

    fn find(&self, index: usize) -> (k: usize)
        ensures
            k == position(self@.active, index as nat),
            k <= self.active@.len(),
            k < self.active@.len() ==> self.active@[k as int].index == index,
    {
        let n = self.active.len();
        let ghost all = chunk_views(self.active@);
        let mut k: usize = 0;
        proof {
            assert(all.subrange(0, n as int) =~= all);
        }
        while k < n
            invariant
                k <= n,
                n == self.active@.len(),
                all == chunk_views(self.active@),
                position(all, index as nat) == k + position(
                    all.subrange(k as int, n as int),
                    index as nat,
                ),
            decreases n - k,
        {
            assert(all[k as int] == self.active@[k as int]@);
            assert(all.subrange(k as int, n as int)[0] == all[k as int]);
            if self.active[k].index == index {
                return k;
            }
            proof {
                assert(all.subrange(k as int, n as int).drop_first() =~= all.subrange(
                    k + 1,
                    n as int,
                ));
            }
            k += 1;
        }
        k
    }

    fn stored_path(&self, index: usize) -> (path: String)
        ensures
            path@ == encoded_chunk_path(self@.encoded_dir, index as nat),
    {
        let number = format_decimal(index as u64);
        let name = concat3("encoded_chunk_", number.as_str(), ".mkv");
        join(self.encoded_chunk_dir.as_str(), name.as_str())
    }

    fn give_back(&mut self, task_state: &mut EncodingTaskState, k: usize)
        requires
            k < old(self)@.active.len(),
        ensures
            final(task_state)@ == requeue(old(task_state)@, old(self)@, k as int).0,
            final(self)@ == requeue(old(task_state)@, old(self)@, k as int).1,
    {
        let ghost before = self.active@;
        let ghost queue = task_state.pending_chunks@;
        let chunk = self.active.remove(k);
        task_state.pending_chunks.push(chunk);
        proof {
            assert(chunk_views(self.active@) =~= chunk_views(before).remove(k as int));
            assert(chunk_views(task_state.pending_chunks@) =~= chunk_views(queue).push(
                chunk_views(before)[k as int],
            ));
        }
    }
}

/// Takes the worker for one node one step further.
///
/// Given what the caller reports, the queue and the worker become what
/// [`worker_step`] says, and the action it names is handed out.
pub fn process_chunks_on_node_worker(
    worker: &mut NodeWorker,
    task_state: &mut EncodingTaskState,
    event: WorkerEvent,
) -> (action: WorkerAction)
    ensures
        final(task_state)@ == worker_step(old(task_state)@, old(worker)@, event@).0,
        final(worker)@ == worker_step(old(task_state)@, old(worker)@, event@).1,
        action@ == worker_step(old(task_state)@, old(worker)@, event@).2,
{
    match event {
        WorkerEvent::Wake => {
            if worker.draining {
                if worker.active.len() > 0 {
                    WorkerAction::AwaitTask
                } else {
                    WorkerAction::Finish
                }
            } else if worker.active.len() >= worker.slots {
                if worker.active.len() > 0 {
                    WorkerAction::AwaitTask
                } else {
                    WorkerAction::Yield
                }
            } else {
                let ghost queue = task_state.pending_chunks@;
                let ghost held = worker.active@;
                match task_state.pending_chunks.pop() {
                    None => {
                        worker.draining = true;
                        if worker.active.len() > 0 {
                            WorkerAction::AwaitTask
                        } else {
                            WorkerAction::Finish
                        }
                    },
                    Some(chunk) => {
                        let copy = chunk.duplicate();
                        worker.active.push(chunk);
                        proof {
                            assert(chunk_views(task_state.pending_chunks@) =~= chunk_views(
                                queue,
                            ).drop_last());
                            assert(chunk_views(worker.active@) =~= chunk_views(held).push(
                                chunk_views(queue).last(),
                            ));
                        }
                        WorkerAction::Send { chunk: copy }
                    },
                }
            }
        },
        WorkerEvent::Answered { index, response } => {
            let k = worker.find(index);
            if k >= worker.active.len() {
                WorkerAction::Resume
            } else if response.success {
                WorkerAction::Store {
                    index,
                    path: worker.stored_path(index),
                    data: response.encoded_chunk_data,
                }
            } else {
                worker.give_back(task_state, k);
                WorkerAction::Resume
            }
        },
        WorkerEvent::Unreachable { index } => {
            let k = worker.find(index);
            if k < worker.active.len() {
                worker.give_back(task_state, k);
            }
            WorkerAction::Resume
        },
        WorkerEvent::StoreFailed { index } => {
            let k = worker.find(index);
            if k < worker.active.len() {
                worker.give_back(task_state, k);
            }
            WorkerAction::Resume
        },
        WorkerEvent::Stored { index } => {
            let k = worker.find(index);
            if k < worker.active.len() {
                let ghost before = worker.active@;
                let ghost done = task_state.completed_chunks@;
                let path = worker.stored_path(index);
                let mut chunk = worker.active.remove(k);
                chunk.set_encoded_path(path);
                task_state.completed_chunks.push(chunk);
                proof {
                    assert(chunk_views(worker.active@) =~= chunk_views(before).remove(k as int));
                    assert(chunk_views(task_state.completed_chunks@) =~= chunk_views(done).push(
                        ChunkView {
                            encoded_path: Some(
                                encoded_chunk_path(old(worker)@.encoded_dir, index as nat),
                            ),
                            ..chunk_views(before)[k as int]
                        },
                    ));
                }
            }
            WorkerAction::Resume
        },
    }
}


// ---------------------------------------------------------------------------
// What holds of every run
// ---------------------------------------------------------------------------

/// The indices of a list of chunks, in order.
pub open spec fn indices(chunks: Seq<ChunkView>) -> Seq<nat> {
    chunks.map_values(|c: ChunkView| c.index)
}

/// The indices of a list of chunks, each as often as it occurs.
pub open spec fn index_bag(chunks: Seq<ChunkView>) -> Multiset<nat> {
    indices(chunks).to_multiset()
}

/// The indices of the chunks that the queue, the completed list and one
/// worker hold between them.
pub open spec fn held(t: TaskView, w: WorkerView) -> Multiset<nat> {
    index_bag(t.pending).add(index_bag(w.active)).add(index_bag(t.completed))
}

/// Whether `bag` holds each of the indices `0` to `total - 1` once, and
/// nothing else.
pub open spec fn covers(bag: Multiset<nat>, total: nat) -> bool {
    forall|i: nat|
        #[trigger] bag.count(i) == if i < total {
            1nat
        } else {
            0nat
        }
}

/// Whether no chunk of `chunks` has an encoded result recorded.
pub open spec fn all_unencoded(chunks: Seq<ChunkView>) -> bool {
    forall|k: int| 0 <= k < chunks.len() ==> (#[trigger] chunks[k]).encoded_path is None
}

/// Whether every chunk of `chunks` has an encoded result recorded.
pub open spec fn all_encoded(chunks: Seq<ChunkView>) -> bool {
    forall|k: int| 0 <= k < chunks.len() ==> (#[trigger] chunks[k]).encoded_path is Some
}

/// The data model's rule: a chunk that waits or is with a node has no encoded
/// result, a completed one has.
pub open spec fn paths_in_order(t: TaskView, w: WorkerView) -> bool {
    &&& all_unencoded(t.pending)
    &&& all_unencoded(w.active)
    &&& all_encoded(t.completed)
}

proof fn lemma_bag_push(chunks: Seq<ChunkView>, c: ChunkView)
    ensures
        index_bag(chunks.push(c)) == index_bag(chunks).insert(c.index),
{
    broadcast use vstd::seq_lib::group_to_multiset_ensures;

    assert(indices(chunks.push(c)) =~= indices(chunks).push(c.index));
}

proof fn lemma_bag_remove(chunks: Seq<ChunkView>, k: int)
    requires
        0 <= k < chunks.len(),
    ensures
        index_bag(chunks.remove(k)) == index_bag(chunks).remove(chunks[k].index),
        index_bag(chunks).count(chunks[k].index) > 0,
{
    broadcast use vstd::seq_lib::group_to_multiset_ensures;

    assert(indices(chunks.remove(k)) =~= indices(chunks).remove(k));
    assert(indices(chunks)[k] == chunks[k].index);
    assert(indices(chunks).contains(chunks[k].index));
}

proof fn lemma_position(active: Seq<ChunkView>, index: nat)
    ensures
        0 <= position(active, index) <= active.len(),
        position(active, index) < active.len() ==> active[position(active, index)].index == index,
    decreases active.len(),
{
    if active.len() > 0 && active[0].index != index {
        lemma_position(active.drop_first(), index);
    }
}

proof fn lemma_move(from: Seq<ChunkView>, to: Seq<ChunkView>, k: int, moved: ChunkView)
    requires
        0 <= k < from.len(),
        moved.index == from[k].index,
    ensures
        forall|i: nat|
            #![all_triggers]
            index_bag(from.remove(k)).count(i) + index_bag(to.push(moved)).count(i) == index_bag(
                from,
            ).count(i) + index_bag(to).count(i),
{
    broadcast use vstd::multiset::group_multiset_axioms;

    lemma_bag_remove(from, k);
    lemma_bag_push(to, moved);
}

/// No step makes or loses a chunk: the indices that the queue, the completed
/// list and the worker hold between them are the same after the step as
/// before it.
pub proof fn lemma_step_conserves_chunks(t: TaskView, w: WorkerView, e: WorkerEventView)
    ensures
        held(worker_step(t, w, e).0, worker_step(t, w, e).1) == held(t, w),
        worker_step(t, w, e).0.pending.len() + worker_step(t, w, e).1.active.len() + worker_step(
            t,
            w,
            e,
        ).0.completed.len() == t.pending.len() + w.active.len() + t.completed.len(),
{
    broadcast use vstd::multiset::group_multiset_axioms;

    let after = worker_step(t, w, e);
    match e {
        WorkerEventView::Wake => {
            if !w.draining && w.active.len() < w.slots && t.pending.len() > 0 {
                let k = t.pending.len() - 1;
                assert(t.pending.drop_last() =~= t.pending.remove(k));
                lemma_move(t.pending, w.active, k, t.pending.last());
            }
        },
        WorkerEventView::Answered { index, success, data } => {
            lemma_position(w.active, index);
            let k = position(w.active, index);
            if k < w.active.len() && !success {
                lemma_move(w.active, t.pending, k, w.active[k]);
            }
        },
        WorkerEventView::Unreachable { index } => {
            lemma_position(w.active, index);
            let k = position(w.active, index);
            if k < w.active.len() {
                lemma_move(w.active, t.pending, k, w.active[k]);
            }
        },
        WorkerEventView::StoreFailed { index } => {
            lemma_position(w.active, index);
            let k = position(w.active, index);
            if k < w.active.len() {
                lemma_move(w.active, t.pending, k, w.active[k]);
            }
        },
        WorkerEventView::Stored { index } => {
            lemma_position(w.active, index);
            let k = position(w.active, index);
            if k < w.active.len() {
                let done = ChunkView {
                    encoded_path: Some(encoded_chunk_path(w.encoded_dir, index)),
                    ..w.active[k]
                };
                lemma_move(w.active, t.completed, k, done);
            }
        },
    }
    assert forall|i: nat| held(after.0, after.1).count(i) == held(t, w).count(i) by {
        assert(index_bag(after.0.pending).count(i) + index_bag(after.1.active).count(i)
            + index_bag(after.0.completed).count(i) == index_bag(t.pending).count(i) + index_bag(
            w.active,
        ).count(i) + index_bag(t.completed).count(i));
    }
    assert(held(after.0, after.1) =~= held(t, w));
}

/// With the chunks that other nodes hold left as they are, a step of one
/// worker keeps the job whole: if every index below `total` was held once
/// before the step, by the queue, the completed list, this worker or the
/// others, then so it is after.
pub proof fn lemma_step_keeps_job_whole(
    t: TaskView,
    w: WorkerView,
    e: WorkerEventView,
    others: Multiset<nat>,
    total: nat,
)
    requires
        covers(held(t, w).add(others), total),
    ensures
        covers(held(worker_step(t, w, e).0, worker_step(t, w, e).1).add(others), total),
{
    lemma_step_conserves_chunks(t, w, e);
}

/// A node never has more chunks than it has slots.
pub proof fn lemma_step_respects_slots(t: TaskView, w: WorkerView, e: WorkerEventView)
    requires
        w.active.len() <= w.slots,
    ensures
        worker_step(t, w, e).1.active.len() <= worker_step(t, w, e).1.slots,
        worker_step(t, w, e).1.slots == w.slots,
{
    match e {
        WorkerEventView::Wake => {},
        WorkerEventView::Answered { index, success, data } => {
            lemma_position(w.active, index);
        },
        WorkerEventView::Unreachable { index } => {
            lemma_position(w.active, index);
        },
        WorkerEventView::StoreFailed { index } => {
            lemma_position(w.active, index);
        },
        WorkerEventView::Stored { index } => {
            lemma_position(w.active, index);
        },
    }
}

/// Every step keeps the data model's rule on encoded paths.
pub proof fn lemma_step_keeps_paths_in_order(t: TaskView, w: WorkerView, e: WorkerEventView)
    requires
        paths_in_order(t, w),
    ensures
        paths_in_order(worker_step(t, w, e).0, worker_step(t, w, e).1),
{
    match e {
        WorkerEventView::Wake => {},
        WorkerEventView::Answered { index, success, data } => {
            lemma_position(w.active, index);
        },
        WorkerEventView::Unreachable { index } => {
            lemma_position(w.active, index);
        },
        WorkerEventView::StoreFailed { index } => {
            lemma_position(w.active, index);
        },
        WorkerEventView::Stored { index } => {
            lemma_position(w.active, index);
        },
    }
}

/// A node that reports failure leaves no file behind and loses no chunk: the
/// answer `success = false` for a chunk that is with the worker stores
/// nothing, puts that very chunk at the end of the queue, where the next
/// worker to wake finds it, and leaves the completed chunks alone. A file is
/// only ever stored for an answer that reports success.
pub proof fn lemma_failed_answer_requeues(
    t: TaskView,
    w: WorkerView,
    index: nat,
    data: Seq<u8>,
    e: WorkerEventView,
)
    ensures
        ({
            let failed = WorkerEventView::Answered { index, success: false, data };
            let k = position(w.active, index);
            k < w.active.len() ==> {
                &&& worker_step(t, w, failed).2 == WorkerActionView::Resume
                &&& worker_step(t, w, failed).0.pending == t.pending.push(w.active[k])
                &&& worker_step(t, w, failed).0.completed == t.completed
                &&& worker_step(t, w, failed).1.active == w.active.remove(k)
            }
        }),
        worker_step(t, w, e).2 is Store ==> e is Answered && e->Answered_success,
        worker_step(t, w, e).0.completed != t.completed ==> e is Stored,
{
    lemma_position(w.active, index);
}

/// The job as it begins is whole: the fresh chunks of `n` segments hold each
/// index below `n` once, and none has an encoded result.
pub proof fn lemma_fresh_job_is_whole(segments: Seq<Seq<char>>, parameters: Seq<Seq<char>>)
    ensures
        covers(index_bag(fresh_chunks(segments, parameters)), segments.len()),
        all_unencoded(fresh_chunks(segments, parameters)),
    decreases segments.len(),
{
    broadcast use vstd::multiset::group_multiset_axioms;
    broadcast use vstd::seq_lib::group_to_multiset_ensures;

    let chunks = fresh_chunks(segments, parameters);
    if segments.len() == 0 {
        assert(indices(chunks) =~= Seq::<nat>::empty());
    } else {
        let shorter = segments.drop_last();
        lemma_fresh_job_is_whole(shorter, parameters);
        let last = chunks.last();
        assert(chunks =~= fresh_chunks(shorter, parameters).push(last));
        lemma_bag_push(fresh_chunks(shorter, parameters), last);
    }
}

/// When nothing waits and nothing is with a node, the completed chunks are
/// the whole job: there are `total` of them, no index occurs twice, and the
/// indices are exactly those below `total`.
pub proof fn lemma_finished_job_is_complete(completed: Seq<ChunkView>, total: nat)
    requires
        covers(index_bag(completed), total),
    ensures
        indices(completed).no_duplicates(),
        forall|k: int| 0 <= k < completed.len() ==> (#[trigger] completed[k]).index < total,
        forall|i: nat| i < total ==> indices(completed).contains(i),
        indices(completed).to_set() == Set::new(|i: nat| i < total),
{
    broadcast use vstd::multiset::group_multiset_axioms;
    broadcast use vstd::seq_lib::group_to_multiset_ensures;

    let ids = indices(completed);
    ids.lemma_multiset_has_no_duplicates_conv();
    assert forall|k: int| 0 <= k < completed.len() implies (#[trigger] completed[k]).index
        < total by {
        assert(ids[k] == completed[k].index);
        assert(ids.contains(ids[k]));
        assert(ids.to_multiset().count(ids[k]) > 0);
    }
    assert forall|i: nat| i < total implies ids.contains(i) by {
        assert(ids.to_multiset().count(i) == 1);
    }
    assert forall|i: nat| ids.to_set().contains(i) <==> i < total by {
        if ids.to_set().contains(i) {
            assert(ids.contains(i));
            assert(ids.to_multiset().count(i) > 0);
        }
    }
    assert(ids.to_set() =~= Set::new(|i: nat| i < total));
}


// ---------------------------------------------------------------------------
// The end of a job
// ---------------------------------------------------------------------------

/// Whether the indices of `chunks` never fall from one chunk to the next.
pub open spec fn sorted_by_index(chunks: Seq<ChunkView>) -> bool {
    forall|i: int, j: int| 0 <= i < j < chunks.len() ==> chunks[i].index <= chunks[j].index
}

/// A chunk as it was cut, whatever became of it since.
pub open spec fn origin(c: ChunkView) -> ChunkView {
    ChunkView { encoded_path: None, ..c }
}

/// The chunks of a list as they were cut, in order.
pub open spec fn origins(chunks: Seq<ChunkView>) -> Seq<ChunkView> {
    chunks.map_values(|c: ChunkView| origin(c))
}

/// The chunks, as they were cut, that the queue, the completed list and one
/// worker hold between them.
pub open spec fn held_origins(t: TaskView, w: WorkerView) -> Multiset<ChunkView> {
    origins(t.pending).to_multiset().add(origins(w.active).to_multiset()).add(
        origins(t.completed).to_multiset(),
    )
}

/// What tells the chunks with index `v` from the others.
pub open spec fn with_index(v: nat) -> spec_fn(ChunkView) -> bool {
    |c: ChunkView| c.index == v
}

/// Whether `sorted` holds the chunks of `chunks` in the order of their
/// indices, with chunks of the same index in the order in which they stand
/// in `chunks`.
pub open spec fn is_sorted_by_index(sorted: Seq<ChunkView>, chunks: Seq<ChunkView>) -> bool {
    &&& sorted_by_index(sorted)
    &&& sorted.to_multiset() == chunks.to_multiset()
    &&& forall|v: nat| #[trigger]
        sorted.filter(with_index(v)) == chunks.filter(with_index(v))
}

proof fn lemma_filter_none(s: Seq<ChunkView>, v: nat)
    requires
        forall|i: int| 0 <= i < s.len() ==> (#[trigger] s[i]).index != v,
    ensures
        s.filter(with_index(v)) == Seq::<ChunkView>::empty(),
    decreases s.len(),
{
    reveal(Seq::filter);
    if s.len() > 0 {
        assert forall|i: int| 0 <= i < s.drop_last().len() implies (
        #[trigger] s.drop_last()[i]).index != v by {
            assert(s.drop_last()[i] == s[i]);
        }
        lemma_filter_none(s.drop_last(), v);
        assert(s.last() == s[s.len() - 1]);
    }
}

proof fn lemma_insert_keeps_order_of_equals(
    placed: Seq<ChunkView>,
    tail: Seq<ChunkView>,
    p: int,
    c: ChunkView,
    v: nat,
)
    requires
        0 <= p <= placed.len(),
        forall|i: int| 0 <= i < p ==> (#[trigger] placed[i]).index < c.index,
        placed.filter(with_index(v)) == tail.filter(with_index(v)),
    ensures
        placed.insert(p, c).filter(with_index(v)) == (seq![c] + tail).filter(with_index(v)),
{
    let f = with_index(v);
    let pre = placed.subrange(0, p);
    let suf = placed.subrange(p, placed.len() as int);
    assert(placed =~= pre + suf);
    assert(placed.insert(p, c) =~= pre.push(c) + suf);
    Seq::filter_distributes_over_add(pre, suf, f);
    Seq::filter_distributes_over_add(pre.push(c), suf, f);
    Seq::filter_distributes_over_add(seq![c], tail, f);
    pre.lemma_filter_push(c, f);
    Seq::<ChunkView>::empty().lemma_filter_push(c, f);
    lemma_filter_none(Seq::<ChunkView>::empty(), v);
    assert(seq![c] =~= Seq::<ChunkView>::empty().push(c));
    if c.index == v {
        assert forall|i: int| 0 <= i < pre.len() implies (#[trigger] pre[i]).index != v by {
            assert(pre[i] == placed[i]);
        }
        lemma_filter_none(pre, v);
        assert(pre.filter(f).push(c) + suf.filter(f) =~= seq![c] + (pre.filter(f) + suf.filter(
            f,
        )));
    } else {
        assert(seq![c].filter(f) + tail.filter(f) =~= tail.filter(f));
    }
}

/// Puts `chunks` in the order of their indices; chunks of the same index
/// keep the order in which they stood.
pub fn sort_by_index(chunks: Vec<Chunk>) -> (out: Vec<Chunk>)
    ensures
        is_sorted_by_index(chunk_views(out@), chunk_views(chunks@)),
        out@.len() == chunks@.len(),
{
    broadcast use vstd::multiset::group_multiset_axioms;
    broadcast use vstd::seq_lib::group_to_multiset_ensures;

    let ghost all = chunk_views(chunks@);
    let mut rest = chunks;
    let mut out: Vec<Chunk> = Vec::new();
    proof {
        assert(chunk_views(out@) =~= Seq::<ChunkView>::empty());
        assert(chunk_views(out@).to_multiset().add(chunk_views(rest@).to_multiset())
            =~= all.to_multiset());
        assert(all.subrange(all.len() as int, all.len() as int) =~= Seq::<ChunkView>::empty());
    }
    while rest.len() > 0
        invariant
            sorted_by_index(chunk_views(out@)),
            chunk_views(out@).to_multiset().add(chunk_views(rest@).to_multiset())
                == all.to_multiset(),
            out@.len() + rest@.len() == all.len(),
            chunk_views(rest@) == all.subrange(0, rest@.len() as int),
            forall|v: nat| #[trigger]
                chunk_views(out@).filter(with_index(v)) == all.subrange(
                    rest@.len() as int,
                    all.len() as int,
                ).filter(with_index(v)),
        decreases rest@.len(),
    {
        let ghost placed = chunk_views(out@);
        let ghost waiting = chunk_views(rest@);
        let ghost m = rest@.len() as int;
        let chunk = rest.pop().unwrap();
        proof {
            assert(chunk_views(rest@) =~= waiting.remove(waiting.len() - 1));
            assert(chunk@ == waiting[waiting.len() - 1]);
            assert(chunk_views(rest@) =~= all.subrange(0, m - 1));
            assert(chunk@ == all[m - 1]);
        }
        let mut p: usize = 0;
        while p < out.len() && out[p].index < chunk.index
            invariant
                p <= out@.len(),
                placed == chunk_views(out@),
                forall|i: int| 0 <= i < p ==> (#[trigger] placed[i]).index < chunk.index,
            decreases out@.len() - p,
        {
            p += 1;
        }
        out.insert(p, chunk);
        proof {
            let now = chunk_views(out@);
            assert(now =~= placed.insert(p as int, chunk@));
            vstd::seq_lib::to_multiset_insert(placed, p as int, chunk@);
            vstd::seq_lib::to_multiset_remove(waiting, waiting.len() - 1);
            assert(waiting.contains(chunk@));
            vstd::seq_lib::to_multiset_contains(waiting, chunk@);
            assert(waiting.to_multiset().count(chunk@) > 0);
            assert forall|c: ChunkView|
                now.to_multiset().count(c) + chunk_views(rest@).to_multiset().count(c)
                    == placed.to_multiset().count(c) + waiting.to_multiset().count(c) by {}
            assert forall|c: ChunkView|
                now.to_multiset().add(chunk_views(rest@).to_multiset()).count(c)
                    == placed.to_multiset().add(waiting.to_multiset()).count(c) by {}
            assert(now.to_multiset().add(chunk_views(rest@).to_multiset()) =~= all.to_multiset());
            assert forall|i: int, j: int| 0 <= i < j < now.len() implies now[i].index
                <= now[j].index by {
                if j < p {
                    assert(now[i] == placed[i] && now[j] == placed[j]);
                } else if j == p {
                    assert(now[i] == placed[i]);
                } else if i < p {
                    assert(now[i] == placed[i] && now[j] == placed[j - 1]);
                } else if i == p {
                    assert(now[j] == placed[j - 1]);
                    assert(placed[p as int].index <= placed[j - 1].index || j - 1 == p);
                } else {
                    assert(now[i] == placed[i - 1] && now[j] == placed[j - 1]);
                }
            }
            let tail = all.subrange(m, all.len() as int);
            assert(all.subrange(m - 1, all.len() as int) =~= seq![chunk@] + tail);
            assert forall|v: nat| #[trigger]
                now.filter(with_index(v)) == all.subrange(m - 1, all.len() as int).filter(
                    with_index(v),
                ) by {
                assert(placed.filter(with_index(v)) == tail.filter(with_index(v)));
                lemma_insert_keeps_order_of_equals(placed, tail, p as int, chunk@, v);
            }
        }
    }
    proof {
        assert(chunk_views(rest@) =~= Seq::<ChunkView>::empty());
        assert(chunk_views(out@).to_multiset() =~= all.to_multiset());
        assert(all.subrange(0, all.len() as int) =~= all);
    }
    out
}

/// The error for a job whose workers have all finished and left work undone.
pub open spec fn incomplete_job() -> Seq<char> {
    "Encoding failed: Not all chunks were processed successfully."@
}

/// Closes a job once every worker has finished.
///
/// The job is done when nothing waits and `total` chunks are completed. Its
/// completed chunks are then handed back in the order of their indices, which
/// is the order for stitching. Otherwise the job has failed.
pub fn finish_job(task_state: EncodingTaskState, total: usize) -> (r: Result<
    Vec<Chunk>,
    VideoEncodeError,
>)
    ensures
        task_state@.pending.len() == 0 && task_state@.completed.len() == total ==> r is Ok && {
            &&& is_sorted_by_index(chunk_views(r->Ok_0@), task_state@.completed)
            &&& r->Ok_0@.len() == total
        },
        !(task_state@.pending.len() == 0 && task_state@.completed.len() == total) ==> r is Err
            && r->Err_0.says(ErrorKind::ChunkProcessing, incomplete_job()),
{
    if task_state.pending_chunks.len() != 0 || task_state.completed_chunks.len() != total {
        return Err(
            VideoEncodeError::ChunkProcessing(
                String::from_str("Encoding failed: Not all chunks were processed successfully."),
            ),
        );
    }
    Ok(sort_by_index(task_state.completed_chunks))
}

proof fn lemma_sorted_distinct_below(ids: Seq<nat>, total: nat, i: int)
    requires
        ids.len() == total,
        ids.no_duplicates(),
        forall|a: int, b: int| 0 <= a < b < ids.len() ==> ids[a] <= ids[b],
        forall|k: int| 0 <= k < ids.len() ==> ids[k] < total,
        0 <= i < ids.len(),
    ensures
        ids[i] >= i,
        ids[i] <= i,
{
    lemma_at_least(ids, i);
    lemma_at_most(ids, total, i);
}

proof fn lemma_at_least(ids: Seq<nat>, i: int)
    requires
        ids.no_duplicates(),
        forall|a: int, b: int| 0 <= a < b < ids.len() ==> ids[a] <= ids[b],
        0 <= i < ids.len(),
    ensures
        ids[i] >= i,
    decreases i,
{
    if i > 0 {
        lemma_at_least(ids, i - 1);
        assert(ids[i - 1] <= ids[i] && ids[i - 1] != ids[i]);
    }
}

proof fn lemma_at_most(ids: Seq<nat>, total: nat, i: int)
    requires
        ids.len() == total,
        ids.no_duplicates(),
        forall|a: int, b: int| 0 <= a < b < ids.len() ==> ids[a] <= ids[b],
        forall|k: int| 0 <= k < ids.len() ==> ids[k] < total,
        0 <= i < ids.len(),
    ensures
        ids[i] <= i,
    decreases ids.len() - i,
{
    if i < ids.len() - 1 {
        lemma_at_most(ids, total, i + 1);
        assert(ids[i] <= ids[i + 1] && ids[i] != ids[i + 1]);
    }
}

/// In a finished job that is put in index order every chunk stands at its
/// index: position `i` holds the chunk with index `i`.
pub proof fn lemma_sorted_job_is_in_place(sorted: Seq<ChunkView>, total: nat)
    requires
        covers(index_bag(sorted), total),
        sorted_by_index(sorted),
    ensures
        sorted.len() == total,
        forall|i: int| 0 <= i < sorted.len() ==> (#[trigger] sorted[i]).index == i,
{
    broadcast use vstd::multiset::group_multiset_axioms;
    broadcast use vstd::seq_lib::group_to_multiset_ensures;

    lemma_finished_job_is_complete(sorted, total);
    let ids = indices(sorted);
    ids.unique_seq_to_set();
    lemma_below_cardinality(total);
    assert(ids.len() == total);
    assert forall|a: int, b: int| 0 <= a < b < ids.len() implies ids[a] <= ids[b] by {
        assert(ids[a] == sorted[a].index && ids[b] == sorted[b].index);
    }
    assert forall|k: int| 0 <= k < ids.len() implies ids[k] < total by {
        assert(ids[k] == sorted[k].index);
    }
    assert forall|i: int| 0 <= i < sorted.len() implies (#[trigger] sorted[i]).index == i by {
        lemma_sorted_distinct_below(ids, total, i);
        assert(ids[i] == sorted[i].index);
    }
}

proof fn lemma_below_cardinality(n: nat)
    ensures
        Set::new(|i: nat| i < n).finite(),
        Set::new(|i: nat| i < n).len() == n,
    decreases n,
{
    broadcast use vstd::set::group_set_axioms;

    if n == 0 {
        assert(Set::new(|i: nat| i < n) =~= Set::<nat>::empty());
    } else {
        lemma_below_cardinality((n - 1) as nat);
        assert(Set::new(|i: nat| i < n) =~= Set::new(|i: nat| i < (n - 1) as nat).insert(
            (n - 1) as nat,
        ));
    }
}


proof fn lemma_origins_move(from: Seq<ChunkView>, to: Seq<ChunkView>, k: int, moved: ChunkView)
    requires
        0 <= k < from.len(),
        origin(moved) == origin(from[k]),
    ensures
        forall|c: ChunkView|
            #![all_triggers]
            origins(from.remove(k)).to_multiset().count(c) + origins(
                to.push(moved),
            ).to_multiset().count(c) == origins(from).to_multiset().count(c) + origins(
                to,
            ).to_multiset().count(c),
{
    broadcast use vstd::multiset::group_multiset_axioms;
    broadcast use vstd::seq_lib::group_to_multiset_ensures;

    assert(origins(from.remove(k)) =~= origins(from).remove(k));
    assert(origins(to.push(moved)) =~= origins(to).push(origin(moved)));
    assert(origins(from)[k] == origin(from[k]));
    assert(origins(from).contains(origin(from[k])));
    vstd::seq_lib::to_multiset_contains(origins(from), origin(from[k]));
}

/// No step changes what a chunk is: the chunks that the queue, the completed
/// list and the worker hold between them are, but for the encoded path, the
/// same after the step as before it.
pub proof fn lemma_step_conserves_origins(t: TaskView, w: WorkerView, e: WorkerEventView)
    ensures
        held_origins(worker_step(t, w, e).0, worker_step(t, w, e).1) == held_origins(t, w),
{
    broadcast use vstd::multiset::group_multiset_axioms;

    let after = worker_step(t, w, e);
    match e {
        WorkerEventView::Wake => {
            if !w.draining && w.active.len() < w.slots && t.pending.len() > 0 {
                let k = t.pending.len() - 1;
                assert(t.pending.drop_last() =~= t.pending.remove(k));
                lemma_origins_move(t.pending, w.active, k, t.pending.last());
            }
        },
        WorkerEventView::Answered { index, success, data } => {
            lemma_position(w.active, index);
            let k = position(w.active, index);
            if k < w.active.len() && !success {
                lemma_origins_move(w.active, t.pending, k, w.active[k]);
            }
        },
        WorkerEventView::Unreachable { index } => {
            lemma_position(w.active, index);
            let k = position(w.active, index);
            if k < w.active.len() {
                lemma_origins_move(w.active, t.pending, k, w.active[k]);
            }
        },
        WorkerEventView::StoreFailed { index } => {
            lemma_position(w.active, index);
            let k = position(w.active, index);
            if k < w.active.len() {
                lemma_origins_move(w.active, t.pending, k, w.active[k]);
            }
        },
        WorkerEventView::Stored { index } => {
            lemma_position(w.active, index);
            let k = position(w.active, index);
            if k < w.active.len() {
                let done = ChunkView {
                    encoded_path: Some(encoded_chunk_path(w.encoded_dir, index)),
                    ..w.active[k]
                };
                lemma_origins_move(w.active, t.completed, k, done);
            }
        },
    }
    assert forall|c: ChunkView| held_origins(after.0, after.1).count(c) == held_origins(
        t,
        w,
    ).count(c) by {
        assert(origins(after.0.pending).to_multiset().count(c) + origins(
            after.1.active,
        ).to_multiset().count(c) + origins(after.0.completed).to_multiset().count(c) == origins(
            t.pending,
        ).to_multiset().count(c) + origins(w.active).to_multiset().count(c) + origins(
            t.completed,
        ).to_multiset().count(c));
    }
    assert(held_origins(after.0, after.1) =~= held_origins(t, w));
}

/// Reassembly in index order is the order of the segments: when the
/// completed chunks are, but for their encoded paths, the fresh chunks of
/// `segments`, then in index order the chunk at position `i` is the one that
/// was cut from segment `i`.
pub proof fn lemma_sorted_job_matches_segments(
    sorted: Seq<ChunkView>,
    segments: Seq<Seq<char>>,
    parameters: Seq<Seq<char>>,
)
    requires
        origins(sorted).to_multiset() == fresh_chunks(segments, parameters).to_multiset(),
        sorted_by_index(sorted),
    ensures
        sorted.len() == segments.len(),
        forall|i: int|
            0 <= i < sorted.len() ==> origin(#[trigger] sorted[i]) == fresh_chunk(
                segments[i],
                i as nat,
                parameters,
            ),
{
    broadcast use vstd::multiset::group_multiset_axioms;
    broadcast use vstd::seq_lib::group_to_multiset_ensures;

    let fresh = fresh_chunks(segments, parameters);
    let total = segments.len();
    let cut = origins(sorted);
    vstd::seq_lib::to_multiset_len(cut);
    vstd::seq_lib::to_multiset_len(fresh);
    assert(cut.len() == fresh.len());
    assert(fresh.no_duplicates()) by {
        assert forall|a: int, b: int| 0 <= a < fresh.len() && 0 <= b < fresh.len() && a
            != b implies fresh[a] != fresh[b] by {
            assert(fresh[a].index == a && fresh[b].index == b);
        }
    }
    fresh.lemma_multiset_has_no_duplicates();
    cut.lemma_multiset_has_no_duplicates_conv();
    // Each chunk is one of the fresh ones, and its index says which.
    assert forall|k: int| 0 <= k < sorted.len() implies 0 <= (#[trigger] sorted[k]).index < total
        && origin(sorted[k]) == fresh[sorted[k].index as int] by {
        assert(cut[k] == origin(sorted[k]));
        assert(cut.contains(cut[k]));
        vstd::seq_lib::to_multiset_contains(cut, cut[k]);
        vstd::seq_lib::to_multiset_contains(fresh, cut[k]);
        let j = choose|j: int| 0 <= j < fresh.len() && fresh[j] == cut[k];
        assert(fresh[j].index == j);
    }
    let ids = indices(sorted);
    assert(ids.no_duplicates()) by {
        assert forall|a: int, b: int| 0 <= a < ids.len() && 0 <= b < ids.len() && a
            != b implies ids[a] != ids[b] by {
            if ids[a] == ids[b] {
                assert(ids[a] == sorted[a].index && ids[b] == sorted[b].index);
                assert(cut[a] == origin(sorted[a]) && cut[b] == origin(sorted[b]));
                assert(cut[a] == cut[b]);
            }
        }
    }
    assert forall|a: int, b: int| 0 <= a < b < ids.len() implies ids[a] <= ids[b] by {
        assert(ids[a] == sorted[a].index && ids[b] == sorted[b].index);
    }
    assert forall|k: int| 0 <= k < ids.len() implies ids[k] < total by {
        assert(ids[k] == sorted[k].index);
    }
    assert forall|i: int| 0 <= i < sorted.len() implies origin(#[trigger] sorted[i])
        == fresh_chunk(segments[i], i as nat, parameters) by {
        lemma_sorted_distinct_below(ids, total, i);
        assert(ids[i] == sorted[i].index);
        assert(fresh[i] == fresh_chunk(segments[i], i as nat, parameters));
    }
}


// ---------------------------------------------------------------------------
// A whole job
// ---------------------------------------------------------------------------

/// A job as the dispatcher sees it: the queue and the completed chunks,
/// and one worker for each node.
pub struct JobView {
    pub tasks: TaskView,
    pub workers: Seq<WorkerView>,
}

/// The job after the worker at position `who` has taken a step on the event
/// `e`; an event for a worker that is not there changes nothing.
pub open spec fn job_step(job: JobView, who: int, e: WorkerEventView) -> JobView {
    if 0 <= who < job.workers.len() {
        JobView {
            tasks: worker_step(job.tasks, job.workers[who], e).0,
            workers: job.workers.update(who, worker_step(job.tasks, job.workers[who], e).1),
        }
    } else {
        job
    }
}

/// The job after the steps `steps`, each a worker's position and the event
/// that it is given, in order.
pub open spec fn job_run(job: JobView, steps: Seq<(int, WorkerEventView)>) -> JobView
    decreases steps.len(),
{
    if steps.len() == 0 {
        job
    } else {
        job_step(job_run(job, steps.drop_last()), steps.last().0, steps.last().1)
    }
}

/// The chunks, as they were cut, that are with the nodes.
pub open spec fn in_flight_origins(workers: Seq<WorkerView>) -> Multiset<ChunkView>
    decreases workers.len(),
{
    if workers.len() == 0 {
        Multiset::empty()
    } else {
        in_flight_origins(workers.drop_last()).add(origins(workers.last().active).to_multiset())
    }
}

/// The chunks of a job, as they were cut: those that wait, those that are
/// with the nodes, and those that are completed.
pub open spec fn job_origins(job: JobView) -> Multiset<ChunkView> {
    origins(job.tasks.pending).to_multiset().add(in_flight_origins(job.workers)).add(
        origins(job.tasks.completed).to_multiset(),
    )
}

/// Whether no chunk is with any node.
pub open spec fn nothing_in_flight(workers: Seq<WorkerView>) -> bool {
    forall|k: int| 0 <= k < workers.len() ==> (#[trigger] workers[k]).active.len() == 0
}

/// The job of cutting `segments` as it begins: every chunk waits, and the
/// workers, whatever their slots, hold none.
pub open spec fn is_fresh_job(job: JobView, segments: Seq<Seq<char>>, parameters: Seq<Seq<char>>)
    -> bool {
    &&& job.tasks.pending == fresh_chunks(segments, parameters)
    &&& job.tasks.completed.len() == 0
    &&& nothing_in_flight(job.workers)
}

proof fn lemma_in_flight_update(workers: Seq<WorkerView>, who: int, after: WorkerView)
    requires
        0 <= who < workers.len(),
    ensures
        forall|c: ChunkView|
            #![all_triggers]
            in_flight_origins(workers.update(who, after)).count(c) + origins(
                workers[who].active,
            ).to_multiset().count(c) == in_flight_origins(workers).count(c) + origins(
                after.active,
            ).to_multiset().count(c),
    decreases workers.len(),
{
    broadcast use vstd::multiset::group_multiset_axioms;

    let updated = workers.update(who, after);
    if who == workers.len() - 1 {
        assert(updated.drop_last() =~= workers.drop_last());
        assert(updated.last() == after);
    } else {
        assert(updated.drop_last() =~= workers.drop_last().update(who, after));
        assert(updated.last() == workers.last());
        assert(workers.drop_last()[who] == workers[who]);
        lemma_in_flight_update(workers.drop_last(), who, after);
    }
}

proof fn lemma_nothing_in_flight(workers: Seq<WorkerView>)
    requires
        nothing_in_flight(workers),
    ensures
        in_flight_origins(workers) == Multiset::<ChunkView>::empty(),
    decreases workers.len(),
{
    broadcast use vstd::multiset::group_multiset_axioms;
    broadcast use vstd::seq_lib::group_to_multiset_ensures;

    if workers.len() > 0 {
        assert(nothing_in_flight(workers.drop_last())) by {
            assert forall|k: int| 0 <= k < workers.drop_last().len() implies (
            #[trigger] workers.drop_last()[k]).active.len() == 0 by {
                assert(workers.drop_last()[k] == workers[k]);
            }
        }
        lemma_nothing_in_flight(workers.drop_last());
        assert(workers.last() == workers[workers.len() - 1]);
        assert(origins(workers.last().active) =~= Seq::<ChunkView>::empty());
        assert(in_flight_origins(workers) =~= Multiset::<ChunkView>::empty());
    }
}

/// A step of any worker keeps the chunks of the job what they are.
pub proof fn lemma_job_step_conserves(job: JobView, who: int, e: WorkerEventView)
    ensures
        job_origins(job_step(job, who, e)) == job_origins(job),
        job_step(job, who, e).workers.len() == job.workers.len(),
{
    broadcast use vstd::multiset::group_multiset_axioms;

    if 0 <= who < job.workers.len() {
        let w = job.workers[who];
        let after = worker_step(job.tasks, w, e);
        lemma_step_conserves_origins(job.tasks, w, e);
        lemma_in_flight_update(job.workers, who, after.1);
        assert forall|c: ChunkView| job_origins(job_step(job, who, e)).count(c) == job_origins(
            job,
        ).count(c) by {
            assert(held_origins(after.0, after.1).count(c) == held_origins(job.tasks, w).count(c));
        }
        assert(job_origins(job_step(job, who, e)) =~= job_origins(job));
    }
}

/// Whatever the workers do, in whatever order, the chunks of the job stay
/// what they are: none is lost, none is made, none is changed but for its
/// encoded path.
pub proof fn lemma_job_run_conserves(job: JobView, steps: Seq<(int, WorkerEventView)>)
    ensures
        job_origins(job_run(job, steps)) == job_origins(job),
        job_run(job, steps).workers.len() == job.workers.len(),
    decreases steps.len(),
{
    if steps.len() > 0 {
        lemma_job_run_conserves(job, steps.drop_last());
        lemma_job_step_conserves(job_run(job, steps.drop_last()), steps.last().0, steps.last().1);
    }
}

/// The dispatcher delivers the whole job, in order.
///
/// Take the job of cutting `segments`, with any number of workers of any
/// number of slots, and let the workers take any steps in any order. If then
/// nothing waits and nothing is with a node, the completed chunks are the
/// chunks of the job: as many as there were segments, each index from zero
/// up once. Put in the order of their indices, the chunk at position `i` is
/// the one that was cut from segment `i`.
pub proof fn lemma_dispatcher_delivers_the_job(
    job: JobView,
    segments: Seq<Seq<char>>,
    parameters: Seq<Seq<char>>,
    steps: Seq<(int, WorkerEventView)>,
    sorted: Seq<ChunkView>,
)
    requires
        is_fresh_job(job, segments, parameters),
        job_run(job, steps).tasks.pending.len() == 0,
        nothing_in_flight(job_run(job, steps).workers),
        sorted_by_index(sorted),
        sorted.to_multiset() == job_run(job, steps).tasks.completed.to_multiset(),
    ensures
        job_run(job, steps).tasks.completed.len() == segments.len(),
        covers(index_bag(job_run(job, steps).tasks.completed), segments.len()),
        indices(job_run(job, steps).tasks.completed).to_set() == Set::new(
            |i: nat| i < segments.len(),
        ),
        indices(job_run(job, steps).tasks.completed).no_duplicates(),
        sorted.len() == segments.len(),
        forall|i: int|
            0 <= i < sorted.len() ==> origin(#[trigger] sorted[i]) == fresh_chunk(
                segments[i],
                i as nat,
                parameters,
            ),
{
    broadcast use vstd::multiset::group_multiset_axioms;
    broadcast use vstd::seq_lib::group_to_multiset_ensures;

    let end = job_run(job, steps);
    let fresh = fresh_chunks(segments, parameters);
    lemma_job_run_conserves(job, steps);
    lemma_nothing_in_flight(job.workers);
    lemma_nothing_in_flight(end.workers);
    lemma_fresh_job_is_whole(segments, parameters);
    // At the start every chunk waits, untouched.
    assert(origins(job.tasks.pending) =~= fresh) by {
        assert forall|k: int| 0 <= k < fresh.len() implies origins(job.tasks.pending)[k]
            == fresh[k] by {}
    }
    assert(origins(job.tasks.completed) =~= Seq::<ChunkView>::empty());
    assert(job_origins(job) =~= fresh.to_multiset());
    // At the end every chunk is completed.
    assert(origins(end.tasks.pending) =~= Seq::<ChunkView>::empty());
    assert(job_origins(end) =~= origins(end.tasks.completed).to_multiset());
    let done = end.tasks.completed;
    assert(origins(done).to_multiset() == fresh.to_multiset());
    lemma_origins_of_equal_bags(sorted, done);
    lemma_sorted_job_matches_segments(sorted, segments, parameters);
    // The indices of the completed chunks are those of the sorted ones.
    lemma_indices_of_equal_bags(sorted, done);
    assert(index_bag(sorted) == index_bag(done));
    assert(indices(sorted) =~= Seq::new(segments.len(), |i: int| i as nat)) by {
        assert forall|i: int| 0 <= i < sorted.len() implies indices(sorted)[i] == i as nat by {
            assert(origin(sorted[i]).index == sorted[i].index);
        }
    }
    assert(indices(fresh) =~= Seq::new(segments.len(), |i: int| i as nat));
    assert(index_bag(sorted) == index_bag(fresh));
    vstd::seq_lib::to_multiset_len(sorted);
    vstd::seq_lib::to_multiset_len(done);
    lemma_finished_job_is_complete(done, segments.len());
}

/// The dispatcher completes any queue.
///
/// Take a queue that holds each index below `total` once, in any order,
/// with nothing completed and nothing with a node, any number of workers of
/// any number of slots, and let the workers take any steps in any order,
/// failures and repeated sends among them. If then nothing waits and nothing
/// is with a node, the completed chunks are `total` in number, no two of
/// them share an index, and their indices are exactly those below `total`.
pub proof fn lemma_dispatcher_completes_any_queue(
    job: JobView,
    total: nat,
    steps: Seq<(int, WorkerEventView)>,
)
    requires
        covers(index_bag(job.tasks.pending), total),
        job.tasks.completed.len() == 0,
        nothing_in_flight(job.workers),
        job_run(job, steps).tasks.pending.len() == 0,
        nothing_in_flight(job_run(job, steps).workers),
    ensures
        job_run(job, steps).tasks.completed.len() == total,
        covers(index_bag(job_run(job, steps).tasks.completed), total),
        indices(job_run(job, steps).tasks.completed).no_duplicates(),
        indices(job_run(job, steps).tasks.completed).to_set() == Set::new(|i: nat| i < total),
        forall|i: nat| i < total ==> indices(job_run(job, steps).tasks.completed).contains(i),
{
    broadcast use vstd::multiset::group_multiset_axioms;
    broadcast use vstd::seq_lib::group_to_multiset_ensures;

    let end = job_run(job, steps);
    let start = job.tasks.pending;
    let done = end.tasks.completed;
    lemma_job_run_conserves(job, steps);
    lemma_nothing_in_flight(job.workers);
    lemma_nothing_in_flight(end.workers);
    assert(origins(job.tasks.completed) =~= Seq::<ChunkView>::empty());
    assert(job_origins(job) =~= origins(start).to_multiset());
    assert(origins(end.tasks.pending) =~= Seq::<ChunkView>::empty());
    assert(job_origins(end) =~= origins(done).to_multiset());
    lemma_map_of_equal_bags(origins(done), origins(start), |c: ChunkView| c.index);
    assert(origins(done).map_values(|c: ChunkView| c.index) =~= indices(done));
    assert(origins(start).map_values(|c: ChunkView| c.index) =~= indices(start));
    assert(index_bag(done) == index_bag(start));
    lemma_finished_job_is_complete(done, total);
    let ids = indices(done);
    ids.unique_seq_to_set();
    lemma_below_cardinality(total);
}

proof fn lemma_map_of_equal_bags<B>(a: Seq<ChunkView>, b: Seq<ChunkView>, f: spec_fn(ChunkView) -> B)
    requires
        a.to_multiset() == b.to_multiset(),
    ensures
        a.map_values(f).to_multiset() == b.map_values(f).to_multiset(),
    decreases a.len(),
{
    broadcast use vstd::multiset::group_multiset_axioms;
    broadcast use vstd::seq_lib::group_to_multiset_ensures;

    vstd::seq_lib::to_multiset_len(a);
    vstd::seq_lib::to_multiset_len(b);
    if a.len() == 0 {
        assert(a.map_values(f) =~= b.map_values(f));
    } else {
        let x = a.last();
        assert(a.contains(x)) by {
            assert(a[a.len() - 1] == x);
        }
        vstd::seq_lib::to_multiset_contains(a, x);
        vstd::seq_lib::to_multiset_contains(b, x);
        let k = choose|k: int| 0 <= k < b.len() && b[k] == x;
        let a1 = a.drop_last();
        let b1 = b.remove(k);
        assert(a1 =~= a.remove(a.len() - 1));
        vstd::seq_lib::to_multiset_remove(a, a.len() - 1);
        vstd::seq_lib::to_multiset_remove(b, k);
        lemma_map_of_equal_bags(a1, b1, f);
        assert(a.map_values(f) =~= a1.map_values(f).push(f(x)));
        assert(b1.map_values(f) =~= b.map_values(f).remove(k));
        vstd::seq_lib::to_multiset_remove(b.map_values(f), k);
        assert(b.map_values(f)[k] == f(x));
        assert(b.map_values(f).contains(f(x)));
        vstd::seq_lib::to_multiset_contains(b.map_values(f), f(x));
        assert(a.map_values(f).to_multiset() =~= b.map_values(f).to_multiset());
    }
}

proof fn lemma_origins_of_equal_bags(a: Seq<ChunkView>, b: Seq<ChunkView>)
    requires
        a.to_multiset() == b.to_multiset(),
    ensures
        origins(a).to_multiset() == origins(b).to_multiset(),
{
    lemma_map_of_equal_bags(a, b, |c: ChunkView| origin(c));
    assert(origins(a) =~= a.map_values(|c: ChunkView| origin(c)));
    assert(origins(b) =~= b.map_values(|c: ChunkView| origin(c)));
}

proof fn lemma_indices_of_equal_bags(a: Seq<ChunkView>, b: Seq<ChunkView>)
    requires
        a.to_multiset() == b.to_multiset(),
    ensures
        index_bag(a) == index_bag(b),
{
    lemma_map_of_equal_bags(a, b, |c: ChunkView| c.index);
    assert(indices(a) =~= a.map_values(|c: ChunkView| c.index));
    assert(indices(b) =~= b.map_values(|c: ChunkView| c.index));
}

} // verus!
