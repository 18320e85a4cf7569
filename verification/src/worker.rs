//! Worker task scheduler: a bounded pool of logical worker slots, a
//! FIFO pending-task queue, a per-task lifecycle state machine, and a
//! capacity-bounded archive of finished tasks with aggregate
//! statistics.
//!
//! The pool enforces a concurrency ceiling equal to its worker count
//! but executes each dispatched task synchronously to completion, so
//! between public operations every worker slot is idle.

use std::collections::VecDeque;
use vstd::prelude::*;
use vstd::math::min;
use vstd::arithmetic::div_mod::{lemma_div_is_ordered, lemma_div_multiples_vanish};

verus! {

/// Most finished tasks the archive retains; completing past this bound
/// evicts the oldest archived task first.
pub const MAX_COMPLETED_TASKS: usize = 1000;

/// Fewest worker slots a default-sized pool is created with.
pub const MIN_WORKERS: usize = 4;

/// Priority given to a submitted task whose caller supplied none.
pub const DEFAULT_TASK_PRIORITY: u8 = 5;

/// Lifecycle states of a task: `Pending -> Running -> Completed` or
/// `Failed`; the terminal states are final.
#[derive(Clone, Copy, Debug, PartialEq, Eq, Structural)]
pub enum TaskStatus {
    Pending,
    Running,
    Completed,
    Failed,
}

/// Closed set of task kinds the scheduler recognizes; a kind carries no
/// behaviour of its own, it only selects the synthetic result text.
#[derive(Clone, Copy, Debug, PartialEq, Eq, Structural)]
pub enum TaskKind {
    CpuIntensive,
    IoOperation,
    DataProcessing,
    Generic,
}

/// One unit of work. Created in `Pending` state by the caller's
/// submission, mutated only by the scheduler while it runs, immutable
/// once archived. Timestamps are in milliseconds since the epoch,
/// supplied by the caller.
#[derive(Clone, Debug)]
pub struct WorkerTask {
    pub id: String,
    pub task_type: TaskKind,
    pub payload: String,
    pub priority: u8,
    pub created_at: u64,
    pub started_at: Option<u64>,
    pub completed_at: Option<u64>,
    pub status: TaskStatus,
    pub result: Option<String>,
    pub error: Option<String>,
}

/// Mathematical view of a task, with strings as character sequences.
#[verifier::ext_equal]
pub struct TaskView {
    pub id: Seq<char>,
    pub task_type: TaskKind,
    pub payload: Seq<char>,
    pub priority: u8,
    pub created_at: u64,
    pub started_at: Option<u64>,
    pub completed_at: Option<u64>,
    pub status: TaskStatus,
    pub result: Option<Seq<char>>,
    pub error: Option<Seq<char>>,
}

impl View for WorkerTask {
    type V = TaskView;

    open spec fn view(&self) -> TaskView {
        TaskView {
            id: self.id@,
            task_type: self.task_type,
            payload: self.payload@,
            priority: self.priority,
            created_at: self.created_at,
            started_at: self.started_at,
            completed_at: self.completed_at,
            status: self.status,
            result: match self.result {
                Option::Some(s) => Option::Some(s@),
                Option::None => Option::None,
            },
            error: match self.error {
                Option::Some(s) => Option::Some(s@),
                Option::None => Option::None,
            },
        }
    }
}

/// One logical worker slot.
pub struct Worker {
    pub id: usize,
    pub is_active: bool,
    pub current_task: Option<WorkerTask>,
    pub tasks_completed: u64,
}

/// Aggregate counts over the pool, plus the integer-truncated mean
/// duration of archived tasks that carry both timestamps.
#[derive(Clone, Copy, Debug, PartialEq, Eq, Structural)]
pub struct WorkerStats {
    pub total_workers: u32,
    pub active_workers: u32,
    pub idle_workers: u32,
    pub pending_tasks: u32,
    pub completed_tasks: u32,
    pub failed_tasks: u32,
    pub total_processed: u64,
    pub average_task_duration_ms: u64,
    pub queue_size: u32,
    pub uptime_ms: u64,
}

/// The scheduler: worker slots, the FIFO pending queue, and the
/// bounded archive of finished tasks.
pub struct WorkerPool {
    workers: Vec<Worker>,
    task_queue: VecDeque<WorkerTask>,
    completed_tasks: Vec<WorkerTask>,
    max_workers: usize,
    start_time: u64,
}

/// The views of a sequence of tasks.
pub open spec fn views_of(s: Seq<WorkerTask>) -> Seq<TaskView> {
    s.map_values(|t: WorkerTask| t@)
}

/// Synthetic result text for a finished task of the given kind; an
/// unrecognized kind still succeeds with the generic text.
pub open spec fn result_text(k: TaskKind) -> Seq<char> {
    match k {
        TaskKind::CpuIntensive => "CPU intensive task completed"@,
        TaskKind::IoOperation => "IO operation completed"@,
        TaskKind::DataProcessing => "Data processing completed"@,
        TaskKind::Generic => "Generic task completed"@,
    }
}

/// A dispatched task after its synchronous run at `now_ms`: started and
/// completed in the same instant, completed successfully, carrying the
/// synthetic result for its kind.
pub open spec fn completed_view(t: TaskView, now_ms: u64) -> TaskView {
    TaskView {
        status: TaskStatus::Completed,
        started_at: Some(now_ms),
        completed_at: Some(now_ms),
        result: Some(result_text(t.task_type)),
        ..t
    }
}

/// Appends a finished task to the archive, evicting the oldest
/// archived task when the capacity bound would be exceeded.
pub open spec fn archive_push(arch: Seq<TaskView>, t: TaskView) -> Seq<TaskView> {
    if arch.len() < MAX_COMPLETED_TASKS {
        arch.push(t)
    } else {
        arch.push(t).drop_first()
    }
}

/// Queue and archive after `k` FIFO dispatches at `now_ms`: each step
/// takes the oldest pending task, runs it, and archives the result.
pub open spec fn dispatch_model(
    queue: Seq<TaskView>,
    arch: Seq<TaskView>,
    k: int,
    now_ms: u64,
) -> (Seq<TaskView>, Seq<TaskView>)
    decreases k,
{
    if k <= 0 {
        (queue, arch)
    } else {
        dispatch_model(
            queue.drop_first(),
            archive_push(arch, completed_view(queue[0], now_ms)),
            k - 1,
            now_ms,
        )
    }
}

/// Whether a task is submittable: freshly created, pending, and not
/// yet timestamped by the scheduler.
pub open spec fn submittable(t: TaskView) -> bool {
    &&& t.status is Pending
    &&& t.started_at is None
    &&& t.completed_at is None
}

/// Whether a finished task's timestamps are consistent: where both are
/// present, it started no later than it completed.
pub open spec fn timestamps_ok(t: TaskView) -> bool {
    t.started_at is Some && t.completed_at is Some ==> t.started_at.unwrap()
        <= t.completed_at.unwrap()
}

/// Number of active workers.
pub open spec fn count_active(ws: Seq<Worker>) -> int
    decreases ws.len(),
{
    if ws.len() == 0 {
        0
    } else {
        count_active(ws.drop_last()) + (if ws.last().is_active {
            1int
        } else {
            0int
        })
    }
}

/// Sum of the workers' per-slot completion counters.
pub open spec fn sum_completed(ws: Seq<Worker>) -> int
    decreases ws.len(),
{
    if ws.len() == 0 {
        0
    } else {
        sum_completed(ws.drop_last()) + ws.last().tasks_completed
    }
}

/// Number of archived tasks in the `Failed` state.
pub open spec fn count_failed(ts: Seq<TaskView>) -> int
    decreases ts.len(),
{
    if ts.len() == 0 {
        0
    } else {
        count_failed(ts.drop_last()) + (if ts.last().status is Failed {
            1int
        } else {
            0int
        })
    }
}

/// Number of archived tasks carrying both timestamps.
pub open spec fn count_timed(ts: Seq<TaskView>) -> int
    decreases ts.len(),
{
    if ts.len() == 0 {
        0
    } else {
        count_timed(ts.drop_last()) + (if ts.last().started_at is Some && ts.last().completed_at
            is Some {
            1int
        } else {
            0int
        })
    }
}

/// Sum of the durations of archived tasks carrying both timestamps.
pub open spec fn sum_durations(ts: Seq<TaskView>) -> int
    decreases ts.len(),
{
    if ts.len() == 0 {
        0
    } else {
        sum_durations(ts.drop_last()) + (if ts.last().started_at is Some && ts.last().completed_at
            is Some {
            ts.last().completed_at.unwrap() - ts.last().started_at.unwrap()
        } else {
            0int
        })
    }
}

/// First task with the given id among the workers' in-flight tasks, in
/// worker order.
pub open spec fn first_running(ws: Seq<Worker>, id: Seq<char>) -> Option<TaskView>
    decreases ws.len(),
{
    if ws.len() == 0 {
        None
    } else {
        let prefix = first_running(ws.drop_last(), id);
        if prefix is Some {
            prefix
        } else {
            match ws.last().current_task {
                Option::Some(t) => if t@.id == id {
                    Some(t@)
                } else {
                    None
                },
                Option::None => None,
            }
        }
    }
}

/// First task with the given id in a task sequence, front first.
pub open spec fn first_with_id(ts: Seq<TaskView>, id: Seq<char>) -> Option<TaskView>
    decreases ts.len(),
{
    if ts.len() == 0 {
        None
    } else {
        let prefix = first_with_id(ts.drop_last(), id);
        if prefix is Some {
            prefix
        } else if ts.last().id == id {
            Some(ts.last())
        } else {
            None
        }
    }
}

impl WorkerPool {
    /// The worker slots.
    pub closed spec fn workers(self) -> Seq<Worker> {
        self.workers@
    }

    /// Views of the pending tasks, oldest first.
    pub closed spec fn queue(self) -> Seq<TaskView> {
        views_of(self.task_queue@)
    }

    /// Views of the archived finished tasks, oldest first.
    pub closed spec fn archive(self) -> Seq<TaskView> {
        views_of(self.completed_tasks@)
    }

    /// Start of the pool's uptime window, in milliseconds.
    pub closed spec fn start(self) -> u64 {
        self.start_time
    }

    /// Reads the start of the pool's uptime window, in milliseconds.
    pub fn started_at(&self) -> (r: u64)
        ensures
            r == self.start(),
    {
        self.start_time
    }

    /// Scheduler invariant: the slot vector matches the configured
    /// size and stays countable, every slot is idle between public
    /// operations (dispatch runs tasks synchronously), slot ids are
    /// their indices, the queue holds only submittable tasks and stays
    /// countable, and the archive respects its capacity with
    /// consistent timestamps.
    pub open spec fn wf(self) -> bool {
        &&& self.workers().len() == self.max_workers_spec()
        &&& self.workers().len() <= u32::MAX
        &&& forall|i: int|
            0 <= i < self.workers().len() ==> (#[trigger] self.workers()[i]).id == i
        &&& forall|i: int|
            0 <= i < self.workers().len() ==> !(#[trigger] self.workers()[i]).is_active
        &&& forall|i: int|
            0 <= i < self.workers().len() ==> (#[trigger] self.workers()[i]).current_task
                is None
        &&& self.queue().len() <= u32::MAX
        &&& forall|i: int| 0 <= i < self.queue().len() ==> submittable(#[trigger] self.queue()[i])
        &&& self.archive().len() <= MAX_COMPLETED_TASKS
        &&& forall|i: int|
            0 <= i < self.archive().len() ==> timestamps_ok(#[trigger] self.archive()[i])
    }

    /// The configured number of worker slots.
    pub closed spec fn max_workers_spec(self) -> usize {
        self.max_workers
    }

    /// Creates a pool of `max_workers` idle worker slots with an empty
    /// queue and archive; its uptime window starts now.
    pub fn new(max_workers: usize, now_ms: u64) -> (r: WorkerPool)
        requires
            max_workers <= u32::MAX,
        ensures
            r.wf(),
            r.workers().len() == max_workers,
            forall|i: int| 0 <= i < max_workers ==> (#[trigger] r.workers()[i]).tasks_completed == 0,
            r.queue() == Seq::<TaskView>::empty(),
            r.archive() == Seq::<TaskView>::empty(),
            r.start() == now_ms,
    {
        let mut workers: Vec<Worker> = Vec::new();
        let mut i: usize = 0;
        while i < max_workers
            invariant
                i <= max_workers,
                workers@.len() == i,
                forall|j: int|
                    0 <= j < i ==> {
                        &&& (#[trigger] workers@[j]).id == j
                        &&& !workers@[j].is_active
                        &&& workers@[j].current_task is None
                        &&& workers@[j].tasks_completed == 0
                    },
            decreases max_workers - i,
        {
            workers.push(Worker { id: i, is_active: false, current_task: None, tasks_completed: 0 });
            i = i + 1;
        }

        WorkerPool {
            workers,
            task_queue: VecDeque::new(),
            completed_tasks: Vec::new(),
            max_workers,
            start_time: now_ms,
        }
    }
}

/// After `k` dispatches the pending queue is exactly the original
/// queue with its first `k` tasks removed.
pub proof fn lemma_dispatch_queue(q: Seq<TaskView>, a: Seq<TaskView>, k: int, now_ms: u64)
    requires
        0 <= k <= q.len(),
    ensures
        dispatch_model(q, a, k, now_ms).0 == q.skip(k),
    decreases k,
{
    if k == 0 {
        assert(q.skip(0) =~= q);
    } else {
        lemma_dispatch_queue(
            q.drop_first(),
            archive_push(a, completed_view(q[0], now_ms)),
            k - 1,
            now_ms,
        );
        assert(q.drop_first().skip(k - 1) =~= q.skip(k));
    }
}

/// Unrolls the last of `i + 1` dispatch steps.
proof fn lemma_dispatch_unroll(q: Seq<TaskView>, a: Seq<TaskView>, i: int, now_ms: u64)
    requires
        0 <= i < q.len(),
    ensures
        ({
            let (q1, a1) = dispatch_model(q, a, i, now_ms);
            dispatch_model(q, a, i + 1, now_ms) == (
                q1.drop_first(),
                archive_push(a1, completed_view(q1[0], now_ms)),
            )
        }),
    decreases i,
{
    let q1 = dispatch_model(q, a, i, now_ms).0;
    let a1 = dispatch_model(q, a, i, now_ms).1;
    if i == 0 {
        assert(q1 == q && a1 == a);
        assert(dispatch_model(q, a, 1, now_ms) == dispatch_model(
            q.drop_first(),
            archive_push(a, completed_view(q[0], now_ms)),
            0,
            now_ms,
        ));
    } else {
        let qd = q.drop_first();
        let ad = archive_push(a, completed_view(q[0], now_ms));
        assert(dispatch_model(q, a, i + 1, now_ms) == dispatch_model(qd, ad, i, now_ms));
        assert(dispatch_model(q, a, i, now_ms) == dispatch_model(qd, ad, i - 1, now_ms));
        lemma_dispatch_unroll(qd, ad, i - 1, now_ms);
    }
}

/// Dispatching preserves the archive's well-formedness: its length
/// grows by one per dispatch up to the capacity bound, and every
/// archived task keeps consistent timestamps.
pub proof fn lemma_dispatch_archive_wf(q: Seq<TaskView>, a: Seq<TaskView>, k: int, now_ms: u64)
    requires
        0 <= k <= q.len(),
        a.len() <= MAX_COMPLETED_TASKS,
        forall|i: int| 0 <= i < a.len() ==> timestamps_ok(#[trigger] a[i]),
    ensures
        dispatch_model(q, a, k, now_ms).1.len() == min(a.len() + k, MAX_COMPLETED_TASKS as int),
        forall|i: int|
            0 <= i < dispatch_model(q, a, k, now_ms).1.len() ==> timestamps_ok(
                #[trigger] dispatch_model(q, a, k, now_ms).1[i],
            ),
    decreases k,
{
    if k > 0 {
        let a1 = archive_push(a, completed_view(q[0], now_ms));
        assert(timestamps_ok(completed_view(q[0], now_ms)));
        lemma_dispatch_archive_wf(q.drop_first(), a1, k - 1, now_ms);
    }
}

/// Dispatch is strictly FIFO: as long as the capacity bound is not
/// hit, the archive after `k` dispatches is the old archive followed
/// by the first `k` pending tasks' results, in submission order.
pub proof fn lemma_dispatch_is_fifo(q: Seq<TaskView>, a: Seq<TaskView>, k: int, now_ms: u64)
    requires
        0 <= k <= q.len(),
        a.len() + k <= MAX_COMPLETED_TASKS,
    ensures
        dispatch_model(q, a, k, now_ms).1 == a + q.take(k).map_values(
            |t: TaskView| completed_view(t, now_ms),
        ),
    decreases k,
{
    let f = |t: TaskView| completed_view(t, now_ms);
    if k == 0 {
        assert(dispatch_model(q, a, 0, now_ms).1 =~= a + q.take(0).map_values(f));
    } else {
        let a1 = archive_push(a, completed_view(q[0], now_ms));
        lemma_dispatch_is_fifo(q.drop_first(), a1, k - 1, now_ms);
        assert(a.push(f(q[0])) + q.drop_first().take(k - 1).map_values(f) =~= a + q.take(
            k,
        ).map_values(f));
    }
}

impl WorkerPool {
    /// Runs a dispatched task synchronously: fills in the synthetic
    /// result for its kind, marks it completed, and stamps the
    /// completion time.
    pub fn simulate_task_completion(&self, task: &mut WorkerTask, now_ms: u64)
        ensures
            final(task)@ == (TaskView {
                status: TaskStatus::Completed,
                completed_at: Some(now_ms),
                result: Some(result_text(old(task)@.task_type)),
                ..old(task)@
            }),
    {
        let text: String = match task.task_type {
            TaskKind::CpuIntensive => "CPU intensive task completed".to_owned(),
            TaskKind::IoOperation => "IO operation completed".to_owned(),
            TaskKind::DataProcessing => "Data processing completed".to_owned(),
            TaskKind::Generic => "Generic task completed".to_owned(),
        };
        task.result = Some(text);
        task.status = TaskStatus::Completed;
        task.completed_at = Some(now_ms);
        proof {
            assert(task@ =~= (TaskView {
                status: TaskStatus::Completed,
                completed_at: Some(now_ms),
                result: Some(result_text(old(task)@.task_type)),
                ..old(task)@
            }));
        }
    }

    /// Pairs each idle worker with the oldest pending task, in strict
    /// FIFO order and with no priority reordering, runs each pairing
    /// synchronously to completion, and archives the results; each
    /// dispatching worker's completion counter grows by one.
    #[verifier::loop_isolation(false)]
    pub fn process_queue(&mut self, now_ms: u64)
        requires
            old(self).wf(),
            forall|j: int|
                0 <= j < old(self).workers().len() ==> (#[trigger] old(
                    self,
                ).workers()[j]).tasks_completed < u64::MAX,
        ensures
            final(self).wf(),
            ({
                let k = min(old(self).workers().len() as int, old(self).queue().len() as int);
                &&& (final(self).queue(), final(self).archive()) == dispatch_model(
                    old(self).queue(),
                    old(self).archive(),
                    k,
                    now_ms,
                )
                &&& final(self).workers().len() == old(self).workers().len()
                &&& forall|j: int|
                    0 <= j < old(self).workers().len() ==> #[trigger] final(self).workers()[j]
                        == (Worker {
                        tasks_completed: (old(self).workers()[j].tasks_completed + (if j < k {
                            1u64
                        } else {
                            0u64
                        })) as u64,
                        ..old(self).workers()[j]
                    })
            }),
            final(self).start() == old(self).start(),
            final(self).max_workers_spec() == old(self).max_workers_spec(),
    {
        let ghost q0 = self.queue();
        let ghost a0 = self.archive();
        let ghost w0 = self.workers();
        let n = self.workers.len();
        let mut i: usize = 0;

        while i < n && self.task_queue.len() > 0
            invariant
                i <= n,
                i <= q0.len(),
                self.workers@.len() == n,
                self.max_workers == old(self).max_workers_spec(),
                self.start_time == old(self).start(),
                (self.queue(), self.archive()) == dispatch_model(q0, a0, i as int, now_ms),
                self.queue() == q0.skip(i as int),
                self.archive().len() <= MAX_COMPLETED_TASKS,
                forall|j: int|
                    0 <= j < self.archive().len() ==> timestamps_ok(#[trigger] self.archive()[j]),
                forall|j: int| i <= j < n ==> #[trigger] self.workers@[j] == w0[j],
                forall|j: int|
                    0 <= j < i ==> #[trigger] self.workers@[j] == (Worker {
                        tasks_completed: (w0[j].tasks_completed + 1) as u64,
                        ..w0[j]
                    }),
            decreases n - i,
        {
            proof {
                lemma_dispatch_unroll(q0, a0, i as int, now_ms);
            }
            let ghost queue_before = self.task_queue@;
            let t_opt = self.task_queue.pop_front();
            let mut t = match t_opt {
                Option::Some(t) => t,
                Option::None => vstd::pervasive::unreached(),
            };
            proof {
                assert(views_of(queue_before)[0] == t@);
                assert(views_of(queue_before.subrange(1, queue_before.len() as int)) =~= views_of(
                    queue_before,
                ).drop_first());
            }
            t.status = TaskStatus::Running;
            t.started_at = Some(now_ms);
            self.simulate_task_completion(&mut t, now_ms);
            proof {
                assert(t@ =~= completed_view(q0.skip(i as int)[0], now_ms));
            }

            let tc = self.workers[i].tasks_completed;
            self.workers.set(
                i,
                Worker { id: i, is_active: false, current_task: None, tasks_completed: tc + 1 },
            );

            let ghost archive_before = self.completed_tasks@;
            self.completed_tasks.push(t);
            proof {
                assert(views_of(self.completed_tasks@) =~= views_of(archive_before).push(t@));
            }
            if self.completed_tasks.len() > MAX_COMPLETED_TASKS {
                let ghost archive_mid = self.completed_tasks@;
                self.completed_tasks.remove(0);
                proof {
                    assert(views_of(self.completed_tasks@) =~= views_of(archive_mid).drop_first());
                }
            }
            proof {
                assert(self.archive() =~= archive_push(
                    views_of(archive_before),
                    completed_view(q0[i as int], now_ms),
                ));
                assert(self.workers@[i as int] == (Worker {
                    tasks_completed: (w0[i as int].tasks_completed + 1) as u64,
                    ..w0[i as int]
                }));
            }
            i = i + 1;
        }

        proof {
            let k = min(w0.len() as int, q0.len() as int);
            assert(i == k);
        }
    }

    /// Appends a submitted task to the FIFO pending queue and
    /// immediately attempts dispatch.
    pub fn add_task(&mut self, task: WorkerTask, now_ms: u64)
        requires
            old(self).wf(),
            submittable(task@),
            old(self).queue().len() < u32::MAX,
            forall|j: int|
                0 <= j < old(self).workers().len() ==> (#[trigger] old(
                    self,
                ).workers()[j]).tasks_completed < u64::MAX,
        ensures
            final(self).wf(),
            ({
                let q1 = old(self).queue().push(task@);
                let k = min(old(self).workers().len() as int, q1.len() as int);
                &&& (final(self).queue(), final(self).archive()) == dispatch_model(
                    q1,
                    old(self).archive(),
                    k,
                    now_ms,
                )
                &&& final(self).workers().len() == old(self).workers().len()
                &&& forall|j: int|
                    0 <= j < old(self).workers().len() ==> #[trigger] final(self).workers()[j]
                        == (Worker {
                        tasks_completed: (old(self).workers()[j].tasks_completed + (if j < k {
                            1u64
                        } else {
                            0u64
                        })) as u64,
                        ..old(self).workers()[j]
                    })
            }),
            final(self).start() == old(self).start(),
    {
        let ghost queue_before = self.task_queue@;
        self.task_queue.push_back(task);
        proof {
            assert(views_of(self.task_queue@) =~= views_of(queue_before).push(task@));
        }
        self.process_queue(now_ms);
    }

    /// Marks a worker slot idle after a task it was charged with has
    /// finished, credits the slot, and archives the finished task,
    /// evicting the oldest archived task past the capacity bound.
    pub fn complete_task_internal(&mut self, worker_id: usize, task: WorkerTask)
        requires
            old(self).wf(),
            worker_id < old(self).workers().len(),
            timestamps_ok(task@),
            old(self).workers()[worker_id as int].tasks_completed < u64::MAX,
        ensures
            final(self).wf(),
            final(self).queue() == old(self).queue(),
            final(self).archive() == archive_push(old(self).archive(), task@),
            final(self).workers().len() == old(self).workers().len(),
            forall|j: int|
                0 <= j < old(self).workers().len() && j != worker_id
                    ==> #[trigger] final(self).workers()[j] == old(self).workers()[j],
            final(self).workers()[worker_id as int] == (Worker {
                tasks_completed: (old(self).workers()[worker_id as int].tasks_completed
                    + 1) as u64,
                ..old(self).workers()[worker_id as int]
            }),
            final(self).start() == old(self).start(),
    {
        let tc = self.workers[worker_id].tasks_completed;
        self.workers.set(
            worker_id,
            Worker {
                id: worker_id,
                is_active: false,
                current_task: None,
                tasks_completed: tc + 1,
            },
        );

        let ghost archive_before = self.completed_tasks@;
        self.completed_tasks.push(task);
        proof {
            assert(views_of(self.completed_tasks@) =~= views_of(archive_before).push(task@));
        }
        if self.completed_tasks.len() > MAX_COMPLETED_TASKS {
            let ghost archive_mid = self.completed_tasks@;
            self.completed_tasks.remove(0);
            proof {
                assert(views_of(self.completed_tasks@) =~= views_of(archive_mid).drop_first());
            }
        }
    }

    /// Completes a task on behalf of a worker slot as
    /// `complete_task_internal` does, then resumes dispatching any
    /// tasks still pending.
    pub fn complete_task(&mut self, worker_id: usize, task: WorkerTask, now_ms: u64)
        requires
            old(self).wf(),
            worker_id < old(self).workers().len(),
            timestamps_ok(task@),
            forall|j: int|
                0 <= j < old(self).workers().len() ==> (#[trigger] old(
                    self,
                ).workers()[j]).tasks_completed < u64::MAX - 1,
        ensures
            final(self).wf(),
            ({
                let a1 = archive_push(old(self).archive(), task@);
                let k = min(old(self).workers().len() as int, old(self).queue().len() as int);
                &&& (final(self).queue(), final(self).archive()) == dispatch_model(
                    old(self).queue(),
                    a1,
                    k,
                    now_ms,
                )
                &&& final(self).workers().len() == old(self).workers().len()
                &&& forall|j: int|
                    0 <= j < old(self).workers().len()
                        ==> (#[trigger] final(self).workers()[j]).tasks_completed == old(
                        self,
                    ).workers()[j].tasks_completed + (if j < k {
                        1int
                    } else {
                        0int
                    }) + (if j == worker_id {
                        1int
                    } else {
                        0int
                    })
            }),
            final(self).start() == old(self).start(),
    {
        self.complete_task_internal(worker_id, task);
        if self.task_queue.len() > 0 {
            self.process_queue(now_ms);
        }
    }

    /// First task with the given id, searching the workers' in-flight
    /// tasks, then the pending queue, then the archive, in that order.
    pub open spec fn lookup(self, id: Seq<char>) -> Option<TaskView> {
        if first_running(self.workers(), id) is Some {
            first_running(self.workers(), id)
        } else if first_with_id(self.queue(), id) is Some {
            first_with_id(self.queue(), id)
        } else {
            first_with_id(self.archive(), id)
        }
    }

    /// Searches running, pending, then archived tasks for the given id
    /// and returns a copy of the first match, or nothing when no task
    /// anywhere carries the id.
    #[verifier::loop_isolation(false)]
    pub fn get_task_by_id(&self, task_id: &String) -> (r: Option<WorkerTask>)
        ensures
            match r {
                Option::Some(t) => self.lookup(task_id@) == Some(t@),
                Option::None => self.lookup(task_id@) is None,
            },
    {
        let nw = self.workers.len();
        let mut i: usize = 0;
        while i < nw
            invariant
                i <= nw,
                nw == self.workers().len(),
                first_running(self.workers().take(i as int), task_id@) is None,
            decreases nw - i,
        {
            proof {
                assert(self.workers().take(i + 1).drop_last() =~= self.workers().take(i as int));
            }
            match &self.workers[i].current_task {
                Option::Some(t) => {
                    if t.id == *task_id {
                        proof {
                            lemma_first_running_prefix(self.workers(), task_id@, i + 1);
                        }
                        return Some(clone_task(t));
                    }
                },
                Option::None => {},
            }
            i = i + 1;
        }
        proof {
            assert(self.workers().take(nw as int) =~= self.workers());
        }

        let nq = self.task_queue.len();
        let mut i: usize = 0;
        while i < nq
            invariant
                i <= nq,
                nq == self.queue().len(),
                first_with_id(self.queue().take(i as int), task_id@) is None,
            decreases nq - i,
        {
            proof {
                assert(self.queue().take(i + 1).drop_last() =~= self.queue().take(i as int));
            }
            let t = &self.task_queue[i];
            if t.id == *task_id {
                proof {
                    lemma_first_with_id_prefix(self.queue(), task_id@, i + 1);
                }
                return Some(clone_task(t));
            }
            i = i + 1;
        }
        proof {
            assert(self.queue().take(nq as int) =~= self.queue());
        }

        let na = self.completed_tasks.len();
        let mut i: usize = 0;
        while i < na
            invariant
                i <= na,
                na == self.archive().len(),
                first_with_id(self.archive().take(i as int), task_id@) is None,
            decreases na - i,
        {
            proof {
                assert(self.archive().take(i + 1).drop_last() =~= self.archive().take(i as int));
            }
            let t = &self.completed_tasks[i];
            if t.id == *task_id {
                proof {
                    lemma_first_with_id_prefix(self.archive(), task_id@, i + 1);
                }
                return Some(clone_task(t));
            }
            i = i + 1;
        }
        proof {
            assert(self.archive().take(na as int) =~= self.archive());
        }
        None
    }

    /// Reports the pool's aggregate counts and the integer-truncated
    /// mean duration of archived tasks that carry both timestamps
    /// (zero when none does).
    #[verifier::loop_isolation(false)]
    pub fn get_stats(&self, now_ms: u64) -> (r: WorkerStats)
        requires
            self.wf(),
            now_ms >= self.start(),
            sum_completed(self.workers()) <= u64::MAX,
        ensures
            r.total_workers == self.workers().len(),
            r.active_workers == count_active(self.workers()),
            r.idle_workers == self.workers().len() - count_active(self.workers()),
            r.pending_tasks == self.queue().len(),
            r.completed_tasks == self.archive().len(),
            r.failed_tasks == count_failed(self.archive()),
            r.total_processed == sum_completed(self.workers()),
            r.average_task_duration_ms == if count_timed(self.archive()) > 0 {
                sum_durations(self.archive()) / count_timed(self.archive())
            } else {
                0
            },
            r.queue_size == self.queue().len(),
            r.uptime_ms == now_ms - self.start(),
    {
        let nw = self.workers.len();
        let mut active: u32 = 0;
        let mut processed: u128 = 0;
        let mut i: usize = 0;
        while i < nw
            invariant
                i <= nw,
                nw == self.workers().len(),
                active == count_active(self.workers().take(i as int)),
                processed == sum_completed(self.workers().take(i as int)),
            decreases nw - i,
        {
            proof {
                assert(self.workers().take(i + 1).drop_last() =~= self.workers().take(i as int));
                lemma_count_active_bound(self.workers().take(i as int));
                lemma_sum_completed_bound(self.workers().take(i as int));
            }
            if self.workers[i].is_active {
                active = active + 1;
            }
            processed = processed + self.workers[i].tasks_completed as u128;
            i = i + 1;
        }
        proof {
            assert(self.workers().take(nw as int) =~= self.workers());
        }

        let na = self.completed_tasks.len();
        let mut failed: u32 = 0;
        let mut timed: u64 = 0;
        let mut duration_total: u128 = 0;
        let mut i: usize = 0;
        while i < na
            invariant
                i <= na,
                na == self.archive().len(),
                failed == count_failed(self.archive().take(i as int)),
                timed == count_timed(self.archive().take(i as int)),
                duration_total == sum_durations(self.archive().take(i as int)),
            decreases na - i,
        {
            proof {
                assert(self.archive().take(i + 1).drop_last() =~= self.archive().take(i as int));
                lemma_count_failed_bound(self.archive().take(i as int));
                lemma_count_timed_bound(self.archive().take(i as int));
                lemma_sum_durations_bound(self.archive().take(i as int));
                assert(timestamps_ok(self.archive()[i as int]));
            }
            let t = &self.completed_tasks[i];
            if matches!(t.status, TaskStatus::Failed) {
                failed = failed + 1;
            }
            match (t.started_at, t.completed_at) {
                (Option::Some(started), Option::Some(completed)) => {
                    timed = timed + 1;
                    duration_total = duration_total + (completed - started) as u128;
                },
                _ => {},
            }
            i = i + 1;
        }
        proof {
            assert(self.archive().take(na as int) =~= self.archive());
        }

        proof {
            lemma_count_active_bound(self.workers());
        }
        let average_task_duration_ms: u64 = if timed > 0 {
            proof {
                lemma_sum_durations_le_count(self.archive());
                lemma_div_is_ordered(
                    duration_total as int,
                    timed as int * (u64::MAX as int),
                    timed as int,
                );
                lemma_div_multiples_vanish(u64::MAX as int, timed as int);
            }
            (duration_total / (timed as u128)) as u64
        } else {
            0
        };

        WorkerStats {
            total_workers: nw as u32,
            active_workers: active,
            idle_workers: (nw as u32) - active,
            pending_tasks: self.task_queue.len() as u32,
            completed_tasks: na as u32,
            failed_tasks: failed,
            total_processed: processed as u64,
            average_task_duration_ms,
            queue_size: self.task_queue.len() as u32,
            uptime_ms: now_ms - self.start_time,
        }
    }

    /// Clears the queue and the archive, restores every worker to idle
    /// with a zeroed completion counter, and restarts the uptime
    /// window; the worker count is unchanged.
    #[verifier::loop_isolation(false)]
    pub fn reset(&mut self, now_ms: u64)
        requires
            old(self).wf(),
        ensures
            final(self).wf(),
            final(self).workers().len() == old(self).workers().len(),
            forall|j: int|
                0 <= j < final(self).workers().len() ==> {
                    &&& (#[trigger] final(self).workers()[j]).id == j
                    &&& !final(self).workers()[j].is_active
                    &&& final(self).workers()[j].current_task is None
                    &&& final(self).workers()[j].tasks_completed == 0
                },
            final(self).queue() == Seq::<TaskView>::empty(),
            final(self).archive() == Seq::<TaskView>::empty(),
            final(self).start() == now_ms,
    {
        self.task_queue.clear();
        self.completed_tasks.clear();
        self.start_time = now_ms;

        let n = self.workers.len();
        let mut i: usize = 0;
        while i < n
            invariant
                i <= n,
                self.workers@.len() == n,
                self.max_workers == old(self).max_workers_spec(),
                self.start_time == now_ms,
                self.task_queue@.len() == 0,
                self.completed_tasks@.len() == 0,
                forall|j: int|
                    0 <= j < i ==> {
                        &&& (#[trigger] self.workers@[j]).id == j
                        &&& !self.workers@[j].is_active
                        &&& self.workers@[j].current_task is None
                        &&& self.workers@[j].tasks_completed == 0
                    },
                forall|j: int| i <= j < n ==> #[trigger] self.workers@[j] == old(self).workers()[j],
            decreases n - i,
        {
            self.workers.set(
                i,
                Worker { id: i, is_active: false, current_task: None, tasks_completed: 0 },
            );
            i = i + 1;
        }
    }
}

/// If a prefix of the worker slots already holds a match, the whole
/// sequence returns that same first match.
proof fn lemma_first_running_prefix(ws: Seq<Worker>, id: Seq<char>, j: int)
    requires
        0 <= j <= ws.len(),
        first_running(ws.take(j), id) is Some,
    ensures
        first_running(ws, id) == first_running(ws.take(j), id),
    decreases ws.len() - j,
{
    if j == ws.len() {
        assert(ws.take(j) =~= ws);
    } else {
        assert(ws.take(j + 1).drop_last() =~= ws.take(j));
        lemma_first_running_prefix(ws, id, j + 1);
    }
}

/// If a prefix of a task sequence already holds a match, the whole
/// sequence returns that same first match.
proof fn lemma_first_with_id_prefix(ts: Seq<TaskView>, id: Seq<char>, j: int)
    requires
        0 <= j <= ts.len(),
        first_with_id(ts.take(j), id) is Some,
    ensures
        first_with_id(ts, id) == first_with_id(ts.take(j), id),
    decreases ts.len() - j,
{
    if j == ts.len() {
        assert(ts.take(j) =~= ts);
    } else {
        assert(ts.take(j + 1).drop_last() =~= ts.take(j));
        lemma_first_with_id_prefix(ts, id, j + 1);
    }
}

proof fn lemma_count_active_bound(ws: Seq<Worker>)
    ensures
        0 <= count_active(ws) <= ws.len(),
    decreases ws.len(),
{
    if ws.len() > 0 {
        lemma_count_active_bound(ws.drop_last());
    }
}

proof fn lemma_sum_completed_bound(ws: Seq<Worker>)
    ensures
        0 <= sum_completed(ws) <= ws.len() * (u64::MAX as int),
    decreases ws.len(),
{
    if ws.len() > 0 {
        lemma_sum_completed_bound(ws.drop_last());
        assert((ws.len() - 1) * (u64::MAX as int) + u64::MAX == ws.len() * (u64::MAX as int))
            by (nonlinear_arith);
    }
}

proof fn lemma_count_failed_bound(ts: Seq<TaskView>)
    ensures
        0 <= count_failed(ts) <= ts.len(),
    decreases ts.len(),
{
    if ts.len() > 0 {
        lemma_count_failed_bound(ts.drop_last());
    }
}

proof fn lemma_count_timed_bound(ts: Seq<TaskView>)
    ensures
        0 <= count_timed(ts) <= ts.len(),
    decreases ts.len(),
{
    if ts.len() > 0 {
        lemma_count_timed_bound(ts.drop_last());
    }
}

proof fn lemma_sum_durations_bound(ts: Seq<TaskView>)
    requires
        forall|i: int| 0 <= i < ts.len() ==> timestamps_ok(#[trigger] ts[i]),
    ensures
        0 <= sum_durations(ts) <= ts.len() * (u64::MAX as int),
    decreases ts.len(),
{
    if ts.len() > 0 {
        assert(timestamps_ok(ts[ts.len() - 1]));
        lemma_sum_durations_bound(ts.drop_last());
        assert((ts.len() - 1) * (u64::MAX as int) + u64::MAX == ts.len() * (u64::MAX as int))
            by (nonlinear_arith);
    }
}

/// The duration sum is at most the timed count times the largest
/// possible single duration.
proof fn lemma_sum_durations_le_count(ts: Seq<TaskView>)
    requires
        forall|i: int| 0 <= i < ts.len() ==> timestamps_ok(#[trigger] ts[i]),
    ensures
        sum_durations(ts) <= count_timed(ts) * (u64::MAX as int),
    decreases ts.len(),
{
    if ts.len() > 0 {
        assert(timestamps_ok(ts[ts.len() - 1]));
        lemma_sum_durations_le_count(ts.drop_last());
        lemma_count_timed_bound(ts.drop_last());
        let c = count_timed(ts.drop_last());
        if ts.last().started_at is Some && ts.last().completed_at is Some {
            assert(c * (u64::MAX as int) + u64::MAX == (c + 1) * (u64::MAX as int))
                by (nonlinear_arith);
        }
    }
}

/// Copies an optional string, value for value.
fn clone_opt_string(o: &Option<String>) -> (r: Option<String>)
    ensures
        r == *o,
{
    match o {
        Option::Some(s) => Some(s.clone()),
        Option::None => None,
    }
}

/// Copies a task, value for value.
fn clone_task(t: &WorkerTask) -> (r: WorkerTask)
    ensures
        r == *t,
{
    WorkerTask {
        id: t.id.clone(),
        task_type: t.task_type,
        payload: t.payload.clone(),
        priority: t.priority,
        created_at: t.created_at,
        started_at: t.started_at,
        completed_at: t.completed_at,
        status: t.status,
        result: clone_opt_string(&t.result),
        error: clone_opt_string(&t.error),
    }
}

/// Whether every worker slot's completion counter still has room for
/// the credits a single submission or completion can add (at most two
/// per slot).
#[verifier::loop_isolation(false)]
pub fn counters_have_headroom(pool: &WorkerPool) -> (r: bool)
    ensures
        r == forall|j: int|
            0 <= j < pool.workers().len() ==> (#[trigger] pool.workers()[j]).tasks_completed
                < u64::MAX - 1,
{
    let n = pool.workers.len();
    let mut i: usize = 0;
    while i < n
        invariant
            i <= n,
            n == pool.workers().len(),
            forall|j: int|
                0 <= j < i ==> (#[trigger] pool.workers()[j]).tasks_completed < u64::MAX - 1,
        decreases n - i,
    {
        if pool.workers[i].tasks_completed >= u64::MAX - 1 {
            return false;
        }
        i = i + 1;
    }
    true
}

/// Every archived task with both timestamps started no later than it
/// completed.
pub proof fn lemma_archived_timestamps_consistent(pool: &WorkerPool)
    requires
        pool.wf(),
    ensures
        forall|i: int| 0 <= i < pool.archive().len() ==> timestamps_ok(#[trigger] pool.archive()[i]),
{
}

/// Relies on num_cpus::get: the number of logical CPUs of the machine,
/// which its documentation promises is always at least 1.
#[verifier::external_body]
fn num_cpu_count() -> (n: usize)
    ensures
        n >= 1,
{
    num_cpus::get()
}

/// Default pool size for a machine with the given CPU count: twice the
/// CPUs, never fewer than [`MIN_WORKERS`] slots, and clipped to the
/// countable range.
pub open spec fn pool_size_spec(cpu_count: int) -> int {
    if 2 * cpu_count < MIN_WORKERS {
        MIN_WORKERS as int
    } else if 2 * cpu_count > u32::MAX {
        u32::MAX as int
    } else {
        2 * cpu_count
    }
}

/// Computes the default pool size for the given CPU count.
pub fn pool_size_for_cpus(cpu_count: usize) -> (r: usize)
    ensures
        r == pool_size_spec(cpu_count as int),
        MIN_WORKERS <= r <= u32::MAX,
{
    let doubled: u128 = (cpu_count as u128) * 2;
    if doubled < MIN_WORKERS as u128 {
        MIN_WORKERS
    } else if doubled > u32::MAX as u128 {
        u32::MAX as usize
    } else {
        (doubled as usize)
    }
}

/// Creates the default pool: sized from the machine's CPU count, all
/// slots idle, an empty queue and archive.
pub fn initialize_worker_pool(now_ms: u64) -> (r: WorkerPool)
    ensures
        r.wf(),
        exists|c: int| c >= 1 && r.workers().len() == pool_size_spec(c),
        MIN_WORKERS <= r.workers().len(),
        forall|i: int|
            0 <= i < r.workers().len() ==> (#[trigger] r.workers()[i]).tasks_completed == 0,
        r.queue() == Seq::<TaskView>::empty(),
        r.archive() == Seq::<TaskView>::empty(),
        r.start() == now_ms,
{
    let cpu_count = num_cpu_count();
    let max_workers = pool_size_for_cpus(cpu_count);
    let pool = WorkerPool::new(max_workers, now_ms);
    proof {
        assert(cpu_count >= 1 && pool.workers().len() == pool_size_spec(cpu_count as int));
    }
    pool
}

/// The view of a freshly submitted task.
pub open spec fn new_task_view(
    id: Seq<char>,
    task_type: TaskKind,
    payload: Seq<char>,
    priority: Option<u8>,
    now_ms: u64,
) -> TaskView {
    TaskView {
        id,
        task_type,
        payload,
        priority: if priority is Some {
            priority.unwrap()
        } else {
            DEFAULT_TASK_PRIORITY
        },
        created_at: now_ms,
        started_at: None,
        completed_at: None,
        status: TaskStatus::Pending,
        result: None,
        error: None,
    }
}

/// Builds a pending task from the caller's fields (with the default
/// priority where none is supplied), submits it, and reports success;
/// submission into an owned pool cannot fail.
pub fn add_worker_task(
    pool: &mut WorkerPool,
    id: String,
    task_type: TaskKind,
    payload: String,
    priority: Option<u8>,
    now_ms: u64,
) -> (accepted: bool)
    requires
        old(pool).wf(),
        old(pool).queue().len() < u32::MAX,
        forall|j: int|
            0 <= j < old(pool).workers().len() ==> (#[trigger] old(
                pool,
            ).workers()[j]).tasks_completed < u64::MAX,
    ensures
        accepted,
        final(pool).wf(),
        ({
            let q1 = old(pool).queue().push(
                new_task_view(id@, task_type, payload@, priority, now_ms),
            );
            let k = min(old(pool).workers().len() as int, q1.len() as int);
            (final(pool).queue(), final(pool).archive()) == dispatch_model(
                q1,
                old(pool).archive(),
                k,
                now_ms,
            )
        }),
        final(pool).workers().len() == old(pool).workers().len(),
        final(pool).start() == old(pool).start(),
{
    let priority_value = match priority {
        Option::Some(p) => p,
        Option::None => DEFAULT_TASK_PRIORITY,
    };
    let task = WorkerTask {
        id,
        task_type,
        payload,
        priority: priority_value,
        created_at: now_ms,
        started_at: None,
        completed_at: None,
        status: TaskStatus::Pending,
        result: None,
        error: None,
    };
    proof {
        assert(task@ =~= new_task_view(task.id@, task_type, task.payload@, priority, now_ms));
    }
    pool.add_task(task, now_ms);
    true
}

/// Searches running, pending, then archived tasks for the given id.
pub fn get_worker_task_status(pool: &WorkerPool, task_id: &String) -> (r: Option<WorkerTask>)
    ensures
        match r {
            Option::Some(t) => pool.lookup(task_id@) == Some(t@),
            Option::None => pool.lookup(task_id@) is None,
        },
{
    pool.get_task_by_id(task_id)
}

/// Reports the pool's aggregate statistics.
pub fn get_worker_stats(pool: &WorkerPool, now_ms: u64) -> (r: WorkerStats)
    requires
        pool.wf(),
        now_ms >= pool.start(),
        sum_completed(pool.workers()) <= u64::MAX,
    ensures
        r.total_workers == pool.workers().len(),
        r.active_workers == count_active(pool.workers()),
        r.idle_workers == pool.workers().len() - count_active(pool.workers()),
        r.pending_tasks == pool.queue().len(),
        r.completed_tasks == pool.archive().len(),
        r.failed_tasks == count_failed(pool.archive()),
        r.total_processed == sum_completed(pool.workers()),
        r.average_task_duration_ms == if count_timed(pool.archive()) > 0 {
            sum_durations(pool.archive()) / count_timed(pool.archive())
        } else {
            0
        },
        r.queue_size == pool.queue().len(),
        r.uptime_ms == now_ms - pool.start(),
{
    pool.get_stats(now_ms)
}

/// Number of tasks waiting in the pending queue.
pub fn get_pending_task_count(pool: &WorkerPool) -> (r: u32)
    requires
        pool.wf(),
    ensures
        r == pool.queue().len(),
{
    pool.task_queue.len() as u32
}

/// Clears the queue and archive and restores every worker slot to
/// idle with a zeroed counter, keeping the worker count; reports
/// success, which resetting an owned pool always is.
pub fn reset_worker_pool(pool: &mut WorkerPool, now_ms: u64) -> (was_reset: bool)
    requires
        old(pool).wf(),
    ensures
        was_reset,
        final(pool).wf(),
        final(pool).workers().len() == old(pool).workers().len(),
        forall|j: int|
            0 <= j < final(pool).workers().len() ==> {
                &&& !(#[trigger] final(pool).workers()[j]).is_active
                &&& final(pool).workers()[j].tasks_completed == 0
            },
        final(pool).queue() == Seq::<TaskView>::empty(),
        final(pool).archive() == Seq::<TaskView>::empty(),
        final(pool).start() == now_ms,
{
    pool.reset(now_ms);
    true
}

/// Number of iterations of the synthetic CPU-intensive task.
pub const CPU_TASK_ITERATIONS: u64 = 1000000;

/// Sum of the squares of `0 .. n`, wrapped to a machine word at every
/// step.
pub open spec fn square_sum_wrapped(n: int) -> int
    decreases n,
{
    if n <= 0 {
        0
    } else {
        (square_sum_wrapped(n - 1) + (n - 1) * (n - 1)) % 0x1_0000_0000_0000_0000
    }
}

/// Runs the synthetic CPU-intensive task: the wrapped sum of the first
/// million squares.
pub fn execute_cpu_task() -> (r: u64)
    ensures
        r == square_sum_wrapped(CPU_TASK_ITERATIONS as int),
{
    let mut result: u64 = 0;
    let mut i: u64 = 0;
    while i < CPU_TASK_ITERATIONS
        invariant
            i <= CPU_TASK_ITERATIONS,
            result == square_sum_wrapped(i as int),
        decreases CPU_TASK_ITERATIONS - i,
    {
        proof {
            vstd::arithmetic::mul::lemma_mul_upper_bound(i as int, 1000000, i as int, 1000000);
        }
        let square = i * i;
        result = ((result as u128 + square as u128) % 0x1_0000_0000_0000_0000u128) as u64;
        i = i + 1;
    }
    result
}

} // verus!
