//! The transfer queue, the registry of live connections, and the decisions
//! of the worker that carries the transfers out.
use vstd::prelude::*;
use std::sync::Arc;
use crate::domain::{TaskState, TransferTask};
use crate::text::text_eq;

verus! {

broadcast use vstd::string::group_string_axioms;

/// The tasks of `s`, those with identifier `id` set to state `st`.
pub open spec fn with_state(s: Seq<TransferTask>, id: Seq<char>, st: TaskState) -> Seq<TransferTask> {
    Seq::new(
        s.len(),
        |i: int|
            if s[i].id@ == id {
                TransferTask { state: st, ..s[i] }
            } else {
                s[i]
            },
    )
}

/// The tasks of `s`, those with identifier `id` given new progress figures.
pub open spec fn with_progress(s: Seq<TransferTask>, id: Seq<char>, transferred: u64, speed: u64) -> Seq<
    TransferTask,
> {
    Seq::new(
        s.len(),
        |i: int|
            if s[i].id@ == id {
                TransferTask { transferred_bytes: transferred, speed: Some(speed), ..s[i] }
            } else {
                s[i]
            },
    )
}

/// Setting a state or progress changes no task's place, identity,
/// direction, paths or size: only the state, or only the progress figures,
/// of the tasks with that identifier.
pub proof fn lemma_updates_keep_tasks(s: Seq<TransferTask>, id: Seq<char>, st: TaskState, transferred: u64, speed: u64)
    ensures
        with_state(s, id, st).len() == s.len(),
        with_progress(s, id, transferred, speed).len() == s.len(),
        forall|i: int|
            0 <= i < s.len() ==> (#[trigger] with_state(s, id, st)[i]) == (TransferTask {
                state: with_state(s, id, st)[i].state,
                ..s[i]
            }),
        forall|i: int|
            0 <= i < s.len() ==> (#[trigger] with_progress(s, id, transferred, speed)[i]) == (
            TransferTask {
                transferred_bytes: with_progress(s, id, transferred, speed)[i].transferred_bytes,
                speed: with_progress(s, id, transferred, speed)[i].speed,
                ..s[i]
            }),
        forall|i: int| 0 <= i < s.len() && s[i].id@ != id ==> #[trigger] with_state(s, id, st)[i] == s[i],
{
}

/// After a state is set for an identifier, every task with that identifier
/// has exactly that state, whatever it is; after progress is recorded, every
/// such task shows exactly those figures.
pub proof fn lemma_update_sets_value(s: Seq<TransferTask>, id: Seq<char>, st: TaskState, transferred: u64, speed: u64)
    ensures
        forall|i: int| 0 <= i < s.len() && s[i].id@ == id ==> #[trigger] with_state(s, id, st)[i].state == st,
        forall|i: int| 0 <= i < s.len() && s[i].id@ == id ==> {
            &&& #[trigger] with_progress(s, id, transferred, speed)[i].transferred_bytes == transferred
            &&& with_progress(s, id, transferred, speed)[i].speed == Some(speed)
        },
{
}

/// Transfers waiting to be carried out, first in first out.
pub struct TransferQueue {
    tasks: Vec<TransferTask>,
}

impl View for TransferQueue {
    type V = Seq<TransferTask>;

    closed spec fn view(&self) -> Seq<TransferTask> {
        self.tasks@
    }
}

impl Default for TransferQueue {
    fn default() -> (q: TransferQueue)
        ensures
            q@ == Seq::<TransferTask>::empty(),
    {
        TransferQueue::new()
    }
}

impl TransferQueue {
    /// An empty queue.
    pub fn new() -> (q: TransferQueue)
        ensures
            q@ == Seq::<TransferTask>::empty(),
    {
        TransferQueue { tasks: Vec::new() }
    }

    /// Number of tasks waiting.
    pub fn len(&self) -> (n: usize)
        ensures
            n == self@.len(),
    {
        self.tasks.len()
    }

    /// Whether no task waits.
    pub fn is_empty(&self) -> (b: bool)
        ensures
            b == (self@.len() == 0),
    {
        self.tasks.len() == 0
    }

    /// Appends a task at the back.
    pub fn push(&mut self, task: TransferTask)
        ensures
            final(self)@ == old(self)@.push(task),
    {
        self.tasks.push(task);
    }

    /// Takes the task at the front, if any.
    pub fn pop(&mut self) -> (r: Option<TransferTask>)
        ensures
            old(self)@.len() == 0 ==> r is None && final(self)@ == old(self)@,
            old(self)@.len() > 0 ==> r == Some(old(self)@[0]) && final(self)@ == old(self)@.drop_first(),
    {
        if self.tasks.len() == 0 {
            None
        } else {
            let t = self.tasks.remove(0);
            assert(self.tasks@ =~= old(self)@.drop_first());
            Some(t)
        }
    }

    /// A copy of the waiting tasks, front first.
    pub fn snapshot(&self) -> (v: Vec<TransferTask>)
        ensures
            v@ == self@,
    {
        let mut v: Vec<TransferTask> = Vec::new();
        let mut i: usize = 0;
        while i < self.tasks.len()
            invariant
                i <= self.tasks@.len(),
                v@ == self.tasks@.take(i as int),
            decreases self.tasks@.len() - i,
        {
            assert(self.tasks@.take(i + 1) =~= self.tasks@.take(i as int).push(self.tasks@[i as int]));
            v.push(self.tasks[i].copy());
            i = i + 1;
        }
        assert(self.tasks@.take(self.tasks@.len() as int) =~= self.tasks@);
        v
    }

    /// Sets the state of the waiting tasks with identifier `id`.
    pub fn update_state(&mut self, id: &str, state: TaskState)
        ensures
            final(self)@ == with_state(old(self)@, id@, state),
            forall|i: int| 0 <= i < old(self)@.len() && old(self)@[i].id@ == id@ ==> #[trigger] final(self)@[i].state == state,
    {
        let mut i: usize = 0;
        while i < self.tasks.len()
            invariant
                i <= self.tasks@.len(),
                self.tasks@.len() == old(self)@.len(),
                forall|j: int|
                    0 <= j < self.tasks@.len() ==> self.tasks@[j] == if j < i {
                        with_state(old(self)@, id@, state)[j]
                    } else {
                        old(self)@[j]
                    },
            decreases self.tasks@.len() - i,
        {
            if text_eq(self.tasks[i].id.as_str(), id) {
                let mut t = crate::panes::replace_at(&mut self.tasks, i, placeholder_task());
                t.state = state.copy();
                crate::panes::replace_at(&mut self.tasks, i, t);
            }
            i = i + 1;
        }
        assert(self.tasks@ =~= with_state(old(self)@, id@, state));
        proof {
            lemma_update_sets_value(old(self)@, id@, state, 0, 0);
        }
    }

    /// Records the progress of the waiting tasks with identifier `id`.
    pub fn update_progress(&mut self, id: &str, transferred: u64, speed: u64)
        ensures
            final(self)@ == with_progress(old(self)@, id@, transferred, speed),
    {
        let mut i: usize = 0;
        while i < self.tasks.len()
            invariant
                i <= self.tasks@.len(),
                self.tasks@.len() == old(self)@.len(),
                forall|j: int|
                    0 <= j < self.tasks@.len() ==> self.tasks@[j] == if j < i {
                        with_progress(old(self)@, id@, transferred, speed)[j]
                    } else {
                        old(self)@[j]
                    },
            decreases self.tasks@.len() - i,
        {
            if text_eq(self.tasks[i].id.as_str(), id) {
                let mut t = crate::panes::replace_at(&mut self.tasks, i, placeholder_task());
                t.transferred_bytes = transferred;
                t.speed = Some(speed);
                crate::panes::replace_at(&mut self.tasks, i, t);
            }
            i = i + 1;
        }
        assert(self.tasks@ =~= with_progress(old(self)@, id@, transferred, speed));
    }
}

fn placeholder_task() -> (r: TransferTask)
    ensures
        r.id@.len() == 0,
        r.kind == crate::domain::TransferKind::Upload,
        r.connection_id@.len() == 0,
        r.local_path@.len() == 0,
        r.remote_path@.len() == 0,
        r.file_name@.len() == 0,
        r.total_bytes == 0,
        r.transferred_bytes == 0,
        r.state is Queued,
        r.speed is None,
        r.eta_secs is None,
{
    TransferTask {
        id: String::new(),
        kind: crate::domain::TransferKind::Upload,
        connection_id: String::new(),
        local_path: String::new(),
        remote_path: String::new(),
        file_name: String::new(),
        total_bytes: 0,
        transferred_bytes: 0,
        state: TaskState::Queued,
        speed: None,
        eta_secs: None,
    }
}

/// Popping returns tasks in the order they were pushed.
pub proof fn lemma_queue_fifo(q: Seq<TransferTask>, a: TransferTask, b: TransferTask)
    ensures
        q.len() == 0 ==> q.push(a).push(b)[0] == a && q.push(a).push(b).drop_first()[0] == b,
        q.len() > 0 ==> q.push(a)[0] == q[0] && q.push(a).drop_first() == q.drop_first().push(a),
{
    if q.len() > 0 {
        assert(q.push(a).drop_first() =~= q.drop_first().push(a));
    }
}

/// The live connections, by connection id, each with the handle the
/// transfers go through.
pub struct RemoteRegistry<F> {
    entries: Vec<(String, F)>,
}

impl<F> RemoteRegistry<F> {
    /// No connection id occurs twice.
    #[verifier::type_invariant]
    closed spec fn ids_unique(self) -> bool {
        forall|i: int, j: int|
            0 <= i < j < self.entries@.len() ==> self.entries@[i].0@ != self.entries@[j].0@
    }

    /// Whether some entry has id `k`.
    closed spec fn has(self, k: Seq<char>) -> bool {
        exists|i: int| 0 <= i < self.entries@.len() && self.entries@[i].0@ == k
    }

    /// The position of the entry with id `k`.
    closed spec fn position(self, k: Seq<char>) -> int {
        choose|i: int| 0 <= i < self.entries@.len() && self.entries@[i].0@ == k
    }
}

impl<F> View for RemoteRegistry<F> {
    type V = Map<Seq<char>, F>;

    closed spec fn view(&self) -> Map<Seq<char>, F> {
        Map::new(|k: Seq<char>| self.has(k), |k: Seq<char>| self.entries@[self.position(k)].1)
    }
}

impl<F> RemoteRegistry<F> {
    /// A registry with no connection.
    pub fn new() -> (r: RemoteRegistry<F>)
        ensures
            r@ == Map::<Seq<char>, F>::empty(),
    {
        let r = RemoteRegistry { entries: Vec::new() };
        assert(r@ =~= Map::<Seq<char>, F>::empty());
        r
    }

    fn index_of(&self, id: &str) -> (r: Option<usize>)
        ensures
            match r {
                Some(i) => i < self.entries@.len() && self.entries@[i as int].0@ == id@,
                None => !self.has(id@),
            },
    {
        let mut i: usize = 0;
        while i < self.entries.len()
            invariant
                i <= self.entries@.len(),
                forall|j: int| 0 <= j < i ==> self.entries@[j].0@ != id@,
            decreases self.entries@.len() - i,
        {
            if text_eq(self.entries[i].0.as_str(), id) {
                return Some(i);
            }
            i = i + 1;
        }
        None
    }

    /// The handle of connection `id`, if it is live.
    pub fn get(&self, id: &str) -> (r: Option<&F>)
        ensures
            r == if self@.contains_key(id@) {
                Some(&self@[id@])
            } else {
                None
            },
    {
        proof {
            use_type_invariant(self);
        }
        match self.index_of(id) {
            Some(i) => {
                proof {
                    assert(self.has(id@));
                    let p = self.position(id@);
                    assert(p == i);
                }
                Some(&self.entries[i].1)
            },
            None => None,
        }
    }

    /// Number of live connections.
    pub fn len(&self) -> (n: usize)
        ensures
            n == self@.len(),
    {
        proof {
            use_type_invariant(self);
            self.lemma_view_len();
        }
        self.entries.len()
    }

    proof fn lemma_view_len(self)
        requires
            self.ids_unique(),
        ensures
            self@.len() == self.entries@.len(),
            self@.dom().finite(),
        decreases self.entries@.len(),
    {
        let ks = self.entries@.map_values(|e: (String, F)| e.0@);
        assert(self@.dom() =~= ks.to_set()) by {
            assert forall|k: Seq<char>| self@.dom().contains(k) implies ks.to_set().contains(k) by {
                let i = self.position(k);
                assert(ks[i] == k);
            }
            assert forall|k: Seq<char>| ks.to_set().contains(k) implies self@.dom().contains(k) by {
                let i = choose|i: int| 0 <= i < ks.len() && ks[i] == k;
                assert(self.entries@[i].0@ == k);
            }
        }
        assert(ks.no_duplicates());
        ks.unique_seq_to_set();
    }

    /// Registers `handle` as connection `id`, replacing any handle that id had.
    pub fn insert(&mut self, id: String, handle: F)
        ensures
            final(self)@ == old(self)@.insert(id@, handle),
    {
        proof {
            use_type_invariant(&*self);
        }
        let ghost k = id@;
        let ghost old_entries = self.entries@;
        match self.index_of(id.as_str()) {
            Some(i) => {
                let mut entries: Vec<(String, F)> = Vec::new();
                std::mem::swap(&mut entries, &mut self.entries);
                crate::panes::replace_at(&mut entries, i, (id, handle));
                self.entries = entries;
                proof {
                    assert forall|q: Seq<char>| self.has(q) == (q == k || old(self).has(q)) by {
                        if old(self).has(q) {
                            let j = choose|j: int| 0 <= j < old_entries.len() && old_entries[j].0@ == q;
                            assert(self.entries@[j].0@ == q);
                        }
                        if q == k {
                            assert(self.entries@[i as int].0@ == q);
                        }
                        if self.has(q) {
                            let j = choose|j: int|
                                0 <= j < self.entries@.len() && self.entries@[j].0@ == q;
                            if j != i {
                                assert(old_entries[j].0@ == q);
                            }
                        }
                    }
                }
            },
            None => {
                let mut entries: Vec<(String, F)> = Vec::new();
                std::mem::swap(&mut entries, &mut self.entries);
                entries.push((id, handle));
                self.entries = entries;
                proof {
                    assert forall|q: Seq<char>| self.has(q) == (q == k || old(self).has(q)) by {
                        if old(self).has(q) {
                            let j = choose|j: int| 0 <= j < old_entries.len() && old_entries[j].0@ == q;
                            assert(self.entries@[j].0@ == q);
                        }
                        if q == k {
                            assert(self.entries@[old_entries.len() as int].0@ == q);
                        }
                        if self.has(q) {
                            let j = choose|j: int|
                                0 <= j < self.entries@.len() && self.entries@[j].0@ == q;
                            if j < old_entries.len() {
                                assert(old_entries[j].0@ == q);
                            }
                        }
                    }
                }
            },
        }
        proof {
            assert forall|q: Seq<char>| #[trigger] self.has(q) implies self.entries@[self.position(
                q,
            )].1 == if q == k {
                handle
            } else {
                old_entries[old(self).position(q)].1
            } by {
                let p = self.position(q);
                if q != k {
                    let po = old(self).position(q);
                    assert(self.entries@[po].0@ == q);
                    assert(p == po);
                } else {
                    assert(self.entries@[p].0@ == k);
                }
            }
            assert(self@ =~= old(self)@.insert(k, handle));
        }
    }
}

/// Getting a connection back after registering it gives the handle that was
/// registered; registering one connection leaves every other as it was.
pub proof fn lemma_registry_insert_get<F>(m: Map<Seq<char>, F>, id: Seq<char>, handle: F, other: Seq<char>)
    requires
        other != id,
    ensures
        m.insert(id, handle).contains_key(id) && m.insert(id, handle)[id] == handle,
        m.insert(id, handle).contains_key(other) == m.contains_key(other),
        m.contains_key(other) ==> m.insert(id, handle)[other] == m[other],
{
}

/// The transfer queue together with the registry of live connections.
pub struct TransferManager<R> {
    pub queue: TransferQueue,
    pub registry: Arc<R>,
}

impl<R> TransferManager<R> {
    /// A manager with an empty queue over `registry`.
    pub fn new(registry: Arc<R>) -> (m: Arc<TransferManager<R>>)
        ensures
            m.queue@ == Seq::<TransferTask>::empty(),
            m.registry == registry,
    {
        Arc::new(TransferManager { queue: TransferQueue::new(), registry })
    }

    /// The registry of live connections.
    pub fn registry(&self) -> (r: &R)
        ensures
            *r == *self.registry,
    {
        &*self.registry
    }
}

/// What the worker does after looking at the front of the queue.
pub enum WorkerStep {
    /// Nothing waits: sleep, then look again.
    Idle,
    /// The front task was not waiting to run; it went to the back: sleep,
    /// then look again.
    Requeued,
    /// The task to transfer now; its state is already `Running`.
    Start(TransferTask),
}

/// The worker takes the front task of the queue: a task that is not queued
/// goes back to the end; a queued one is started, and every task still in
/// the queue with its identifier is marked running too.
pub fn worker_take(queue: &mut TransferQueue) -> (step: WorkerStep)
    ensures
        old(queue)@.len() == 0 ==> step is Idle && final(queue)@ == old(queue)@,
        old(queue)@.len() > 0 && !(old(queue)@[0].state is Queued) ==> step is Requeued
            && final(queue)@ == old(queue)@.drop_first().push(old(queue)@[0]),
        old(queue)@.len() > 0 && old(queue)@[0].state is Queued ==> (step matches WorkerStep::Start(t)
            && t == (TransferTask { state: TaskState::Running, ..old(queue)@[0] }) && final(queue)@
            == with_state(old(queue)@.drop_first(), old(queue)@[0].id@, TaskState::Running)),
{
    match queue.pop() {
        None => WorkerStep::Idle,
        Some(t) => {
            if !t.state.is_queued() {
                queue.push(t);
                WorkerStep::Requeued
            } else {
                let mut t = t;
                t.state = TaskState::Running;
                queue.update_state(t.id.as_str(), TaskState::Running);
                WorkerStep::Start(t)
            }
        },
    }
}

/// The started task's connection is gone: the task fails with "connection
/// not found", in the queue too.
pub fn worker_connection_missing(queue: &mut TransferQueue, task: TransferTask) -> (r: TransferTask)
    ensures
        r.state matches TaskState::Failed(m) && m@ == "connection not found"@,
        r == (TransferTask { state: r.state, ..task }),
        final(queue)@ == with_state(old(queue)@, task.id@, r.state),
{
    let mut task = task;
    task.state = TaskState::Failed("connection not found".to_string());
    queue.update_state(task.id.as_str(), task.state.copy());
    task
}

/// The started task's transfer is over: on success it is completed with
/// every byte transferred (and the queue's copies say so, with speed 0); on
/// failure it fails with the error's text.
pub fn worker_finish(queue: &mut TransferQueue, task: TransferTask, outcome: Result<(), String>) -> (r:
    TransferTask)
    ensures
        match outcome {
            Ok(()) => {
                &&& r == (TransferTask {
                    state: TaskState::Completed,
                    transferred_bytes: task.total_bytes,
                    ..task
                })
                &&& final(queue)@ == with_progress(
                    with_state(old(queue)@, task.id@, TaskState::Completed),
                    task.id@,
                    task.total_bytes,
                    0,
                )
            },
            Err(msg) => {
                &&& r == (TransferTask { state: TaskState::Failed(msg), ..task })
                &&& final(queue)@ == with_state(old(queue)@, task.id@, TaskState::Failed(msg))
            },
        },
{
    let mut task = task;
    match outcome {
        Ok(()) => {
            task.state = TaskState::Completed;
            task.transferred_bytes = task.total_bytes;
            queue.update_state(task.id.as_str(), TaskState::Completed);
            queue.update_progress(task.id.as_str(), task.total_bytes, 0);
        },
        Err(msg) => {
            task.state = TaskState::Failed(msg);
            queue.update_state(task.id.as_str(), task.state.copy());
        },
    }
    task
}

} // verus!
