//! The worker pool, as an explicit state machine: a fixed set of workers,
//! one shared FIFO queue of jobs and terminate signals, and a log of the
//! jobs executed.  A step lets one running worker consume the message at
//! the head of the queue; each message is consumed exactly once.

use vstd::prelude::*;
use crate::settings::as_int_spec;
use crate::settings::Settings;
use crate::settings::ValueV;

verus! {

/// A message on the pool's queue: a job, or the signal to stop.
pub enum Message {
    NewJob(u64),
    Terminate,
}

/// The state of one worker.
pub enum WorkerState {
    Running,
    Stopped,
}

/// The pool: worker states, the shared queue, and the execution log.
pub struct ThreadPool {
    pub workers: Vec<WorkerState>,
    pub queue: Vec<Message>,
    pub log: Vec<u64>,
}

/// The abstraction of a pool.
#[verifier::ext_equal]
pub struct PoolV {
    pub workers: Seq<WorkerState>,
    pub queue: Seq<Message>,
    pub log: Seq<u64>,
}

impl View for ThreadPool {
    type V = PoolV;

    open spec fn view(&self) -> PoolV {
        PoolV { workers: self.workers@, queue: self.queue@, log: self.log@ }
    }
}

/// A run of `n` terminate signals.
pub open spec fn terminates(n: nat) -> Seq<Message> {
    Seq::new(n, |i: int| Message::Terminate)
}

/// The jobs as queue messages, in order.
pub open spec fn job_msgs(jobs: Seq<u64>) -> Seq<Message> {
    jobs.map_values(|j: u64| Message::NewJob(j))
}

/// The number of stopped workers.
pub open spec fn count_stopped(ws: Seq<WorkerState>) -> int
    decreases ws.len(),
{
    if ws.len() == 0 {
        0
    } else {
        count_stopped(ws.drop_last()) + (if ws.last() is Stopped {
            1int
        } else {
            0int
        })
    }
}

/// One step of the pool: when worker `w` is running and the queue is not
/// empty, the worker consumes the head of the queue — executing a job or
/// stopping on a terminate signal; otherwise nothing changes.
pub open spec fn spec_step(p: PoolV, w: int) -> PoolV {
    if 0 <= w < p.workers.len() && p.workers[w] is Running && p.queue.len() > 0 {
        match p.queue[0] {
            Message::NewJob(j) => PoolV { queue: p.queue.skip(1), log: p.log.push(j), ..p },
            Message::Terminate => PoolV {
                queue: p.queue.skip(1),
                workers: p.workers.update(w, WorkerState::Stopped),
                ..p
            },
        }
    } else {
        p
    }
}

/// A run of steps, each naming the worker that moves.
pub open spec fn run_steps(p: PoolV, sched: Seq<int>) -> PoolV
    decreases sched.len(),
{
    if sched.len() == 0 {
        p
    } else {
        run_steps(spec_step(p, sched[0]), sched.skip(1))
    }
}

/// The pool size asked of the settings: `server.number_of_workers` when it
/// is set to an integer the machine can hold, and 10 otherwise.
pub open spec fn spec_pool_size(m: Map<Seq<char>, ValueV>) -> int {
    let key = "server.number_of_workers"@;
    if m.contains_key(key) && as_int_spec(m[key]) is Some && 0 <= as_int_spec(m[key]).unwrap()
        <= usize::MAX {
        as_int_spec(m[key]).unwrap()
    } else {
        10
    }
}

impl ThreadPool {
    /// A pool of `server.number_of_workers` running workers (10 without
    /// that parameter), an empty queue and an empty log.
    pub fn new(settings: &Settings) -> (r: ThreadPool)
        ensures
            r@.workers.len() == spec_pool_size(settings@),
            forall|i: int| 0 <= i < r@.workers.len() ==> r@.workers[i] is Running,
            r@.queue.len() == 0,
            r@.log.len() == 0,
    {
        let size: usize = match settings.get_number("server.number_of_workers") {
            Ok(n) => {
                if n >= 0 && (n as u64) <= (usize::MAX as u64) {
                    n as usize
                } else {
                    10
                }
            },
            Err(_) => 10,
        };
        let mut workers: Vec<WorkerState> = Vec::new();
        let mut i: usize = 0;
        while i < size
            invariant
                0 <= i <= size,
                workers@.len() == i,
                forall|k: int| 0 <= k < i ==> workers@[k] is Running,
            decreases size - i,
        {
            workers.push(WorkerState::Running);
            i = i + 1;
        }
        ThreadPool { workers, queue: Vec::new(), log: Vec::new() }
    }

    /// Enqueues a job for eventual execution by exactly one worker.
    pub fn execute(&mut self, job: u64)
        ensures
            final(self)@ == (PoolV { queue: old(self)@.queue.push(Message::NewJob(job)), ..old(self)@ }),
    {
        self.queue.push(Message::NewJob(job));
        proof {
            assert(self@ =~= (PoolV {
                queue: old(self)@.queue.push(Message::NewJob(job)),
                ..old(self)@
            }));
        }
    }

    /// Sends exactly one terminate signal per worker.
    pub fn shutdown(&mut self)
        ensures
            final(self)@ == (PoolV {
                queue: old(self)@.queue + terminates(old(self)@.workers.len()),
                ..old(self)@
            }),
    {
        let n = self.workers.len();
        let mut i: usize = 0;
        while i < n
            invariant
                0 <= i <= n,
                self@.workers == old(self)@.workers,
                self@.log == old(self)@.log,
                self@.queue == old(self)@.queue + terminates(i as nat),
            decreases n - i,
        {
            self.queue.push(Message::Terminate);
            proof {
                assert(self@.queue =~= old(self)@.queue + terminates((i + 1) as nat));
            }
            i = i + 1;
        }
        proof {
            assert(self@ =~= (PoolV {
                queue: old(self)@.queue + terminates(old(self)@.workers.len()),
                ..old(self)@
            }));
        }
    }

    /// Lets worker `w` consume the head of the queue, if it is running and
    /// a message is waiting.
    pub fn step(&mut self, w: usize)
        requires
            w < old(self)@.workers.len(),
        ensures
            final(self)@ == spec_step(old(self)@, w as int),
    {
        let running = match self.workers[w] {
            WorkerState::Running => true,
            WorkerState::Stopped => false,
        };
        if running && self.queue.len() > 0 {
            let msg = self.queue.remove(0);
            match msg {
                Message::NewJob(j) => {
                    self.log.push(j);
                    proof {
                        assert(self@.queue =~= old(self)@.queue.skip(1));
                        assert(self@ =~= spec_step(old(self)@, w as int));
                    }
                },
                Message::Terminate => {
                    self.workers[w] = WorkerState::Stopped;
                    proof {
                        assert(self@.queue =~= old(self)@.queue.skip(1));
                        assert(self@ =~= spec_step(old(self)@, w as int));
                    }
                },
            }
        } else {
            proof {
                assert(self@ =~= spec_step(old(self)@, w as int));
            }
        }
    }
}

/// The delivery invariant of a draining pool: some prefix of the jobs has
/// been executed, in order; the queue holds the remaining jobs and then
/// the remaining terminate signals; and a worker has stopped for each
/// consumed signal.
pub open spec fn draining(p: PoolV, jobs: Seq<u64>, size: int) -> bool {
    let n = p.log.len() as int;
    let m = p.queue.len() - (jobs.len() - n);
    &&& 0 <= n <= jobs.len()
    &&& 0 <= m <= size
    &&& p.log == jobs.take(n)
    &&& p.queue == job_msgs(jobs.skip(n)) + terminates(m as nat)
    &&& p.workers.len() == size
    &&& count_stopped(p.workers) == size - m
}

/// A step preserves the delivery invariant.
proof fn lemma_step_preserves_draining(p: PoolV, jobs: Seq<u64>, size: int, w: int)
    requires
        draining(p, jobs, size),
    ensures
        draining(spec_step(p, w), jobs, size),
{
    let n = p.log.len() as int;
    let m = p.queue.len() - (jobs.len() - n);
    if 0 <= w < p.workers.len() && p.workers[w] is Running && p.queue.len() > 0 {
        lemma_count_stopped_bound(p.workers);
        if n < jobs.len() {
            assert(p.queue[0] == job_msgs(jobs.skip(n))[0]);
            let j = jobs[n];
            let q = spec_step(p, w);
            assert(q.log =~= jobs.take(n + 1));
            assert(q.queue =~= job_msgs(jobs.skip(n + 1)) + terminates(m as nat));
        } else {
            assert(p.queue =~= terminates(m as nat));
            assert(p.queue[0] is Terminate);
            let q = spec_step(p, w);
            assert(q.queue =~= terminates((m - 1) as nat));
            assert(q.log =~= jobs.take(n));
            lemma_count_stopped_update(p.workers, w);
        }
    }
}

/// Stopping a running worker raises the stopped count by one.
proof fn lemma_count_stopped_update(ws: Seq<WorkerState>, w: int)
    requires
        0 <= w < ws.len(),
        ws[w] is Running,
    ensures
        count_stopped(ws.update(w, WorkerState::Stopped)) == count_stopped(ws) + 1,
    decreases ws.len(),
{
    if w == ws.len() - 1 {
        assert(ws.update(w, WorkerState::Stopped).drop_last() =~= ws.drop_last());
    } else {
        lemma_count_stopped_update(ws.drop_last(), w);
        assert(ws.update(w, WorkerState::Stopped).drop_last() =~= ws.drop_last().update(
            w,
            WorkerState::Stopped,
        ));
    }
}

/// The stopped count never exceeds the number of workers, and equals it
/// only when every worker has stopped.
proof fn lemma_count_stopped_bound(ws: Seq<WorkerState>)
    ensures
        0 <= count_stopped(ws) <= ws.len(),
        count_stopped(ws) == ws.len() ==> forall|i: int| 0 <= i < ws.len() ==> ws[i] is Stopped,
    decreases ws.len(),
{
    if ws.len() > 0 {
        lemma_count_stopped_bound(ws.drop_last());
        if count_stopped(ws) == ws.len() {
            assert forall|i: int| 0 <= i < ws.len() implies ws[i] is Stopped by {
                if i < ws.len() - 1 {
                    assert(ws.drop_last()[i] == ws[i]);
                }
            }
        }
    }
}

/// Any run of steps preserves the delivery invariant.
proof fn lemma_run_preserves_draining(p: PoolV, jobs: Seq<u64>, size: int, sched: Seq<int>)
    requires
        draining(p, jobs, size),
    ensures
        draining(run_steps(p, sched), jobs, size),
    decreases sched.len(),
{
    if sched.len() > 0 {
        lemma_step_preserves_draining(p, jobs, size, sched[0]);
        lemma_run_preserves_draining(spec_step(p, sched[0]), jobs, size, sched.skip(1));
    }
}

/// Delivery: starting from a fresh pool whose queue holds the submitted
/// jobs followed by one terminate signal per worker, any run of steps that
/// drains the queue has executed exactly the submitted jobs, in order and
/// each exactly once, and has stopped every worker.
pub proof fn lemma_pool_delivery(p: PoolV, jobs: Seq<u64>, size: int, sched: Seq<int>)
    requires
        p.workers.len() == size,
        forall|i: int| 0 <= i < size ==> p.workers[i] is Running,
        p.queue == job_msgs(jobs) + terminates(size as nat),
        p.log.len() == 0,
        size >= 0,
        run_steps(p, sched).queue.len() == 0,
    ensures
        run_steps(p, sched).log == jobs,
        forall|i: int| 0 <= i < size ==> run_steps(p, sched).workers[i] is Stopped,
{
    assert(count_stopped(p.workers) == 0) by {
        lemma_count_stopped_running(p.workers);
    }
    assert(p.log =~= jobs.take(0));
    assert(p.queue =~= job_msgs(jobs.skip(0)) + terminates(size as nat));
    assert(draining(p, jobs, size));
    lemma_run_preserves_draining(p, jobs, size, sched);
    let q = run_steps(p, sched);
    let n = q.log.len() as int;
    assert(q.queue.len() == 0);
    assert(n == jobs.len());
    assert(q.log =~= jobs);
    lemma_count_stopped_bound(q.workers);
}

/// A pool of running workers has no stopped worker.
proof fn lemma_count_stopped_running(ws: Seq<WorkerState>)
    requires
        forall|i: int| 0 <= i < ws.len() ==> ws[i] is Running,
    ensures
        count_stopped(ws) == 0,
    decreases ws.len(),
{
    if ws.len() > 0 {
        assert(forall|i: int| 0 <= i < ws.drop_last().len() ==> ws.drop_last()[i] == ws[i]);
        lemma_count_stopped_running(ws.drop_last());
    }
}

} // verus!
