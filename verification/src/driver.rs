//! The workload of one sweep round: the previous window is deleted, then
//! the current one is upserted, batch by batch, each batch on a node drawn
//! afresh.

use vstd::prelude::*;
use crate::batches::{batching_keeps_the_list, copy_ids, flattened, is_batching, split_batches};
use crate::retry::{AfterAttempt, Retry};
use crate::selection::{arrange, draw_nodes};
use crate::window::{consecutive, Window};

verus! {

/// One remote operation: the identifiers of a batch and the node that is
/// to apply them.
#[derive(Debug)]
pub struct Job {
    pub ids: Vec<u64>,
    pub node: usize,
}

/// One touch of a batch: the counters are read on one node and written,
/// one higher, through another draw of a node, which may be the same.
#[derive(Debug)]
pub struct TouchJob {
    pub ids: Vec<u64>,
    pub read_node: usize,
    pub write_node: usize,
}

/// The jobs of one sweep round. All deletes are issued before the first
/// upsert.
#[derive(Debug)]
pub struct SweepPlan {
    pub deletes: Vec<Job>,
    pub upserts: Vec<Job>,
}

/// The batches of `jobs`, in order.
pub open spec fn job_batches(jobs: Seq<Job>) -> Seq<Vec<u64>> {
    Seq::new(jobs.len(), |k: int| jobs[k].ids)
}

/// The batches of `jobs`, in order.
pub open spec fn touch_batches(jobs: Seq<TouchJob>) -> Seq<Vec<u64>> {
    Seq::new(jobs.len(), |k: int| jobs[k].ids)
}

/// Every touch reads and writes on one of `count` nodes.
pub open spec fn touches_below(jobs: Seq<TouchJob>, count: usize) -> bool {
    forall|k: int|
        0 <= k < jobs.len() ==> (#[trigger] jobs[k]).read_node < count && jobs[k].write_node
            < count
}

/// `batches` work through `ids`: they are the pieces of one list, which
/// holds each of `ids` as often as `ids` does, and is `ids` itself where
/// nothing was shuffled.
pub open spec fn covers(batches: Seq<Vec<u64>>, ids: Seq<u64>, limit: nat, shuffled: bool) -> bool {
    &&& is_batching(batches, flattened(batches), limit)
    &&& flattened(batches).to_multiset() == ids.to_multiset()
    &&& !shuffled ==> flattened(batches) == ids
}

/// Every job goes to one of `count` nodes.
pub open spec fn nodes_below(jobs: Seq<Job>, count: usize) -> bool {
    forall|k: int| 0 <= k < jobs.len() ==> (#[trigger] jobs[k]).node < count
}

/// What a node holds after a sweep of `window` where it held `before`:
/// the stale identifiers are gone, those of the window are there.
pub open spec fn after_sweep(before: Set<u64>, window: Window) -> Set<u64> {
    before.difference(window.stale_ids().to_set()).union(window.ids().to_set())
}

/// A node that held nothing but stale identifiers and identifiers of the
/// window holds exactly the window after the sweep.
pub proof fn sweep_leaves_the_window(before: Set<u64>, window: Window)
    requires
        window.wf(),
        forall|id: u64|
            before.contains(id) ==> window.stale_ids().contains(id) || window.ids().contains(id),
    ensures
        after_sweep(before, window) == window.ids().to_set(),
{
    assert(after_sweep(before, window) =~= window.ids().to_set());
}

/// The window of a round is what the next round's sweep deletes.
pub proof fn next_round_deletes_this_window(this: Window, next: Window)
    requires
        this.wf(),
        next.wf(),
        next.width == this.width,
        next.start == this.start + this.width,
    ensures
        next.stale_ids() == this.ids(),
{
    assert(next.stale_ids() =~= this.ids());
}

/// No identifier occurs twice in a window, and none of a window is stale.
pub proof fn window_ids_are_unique(window: Window)
    requires
        window.wf(),
    ensures
        window.ids().no_duplicates(),
        forall|id: u64| window.ids().contains(id) <==> window.contains(id),
        forall|id: u64| window.stale_ids().contains(id) ==> !window.contains(id),
{
    assert forall|id: u64| window.contains(id) implies window.ids().contains(id) by {
        assert(window.ids()[id - window.start] == id);
    }
}

/// Job number `k` of `jobs` holds batch number `k` of `batches` and goes
/// to the node that was drawn as number `k`.
pub open spec fn is_job_of(job: Job, batches: Seq<Vec<u64>>, draws: Seq<usize>, k: int) -> bool {
    job.ids@ == batches[k]@ && job.node == draws[k]
}

/// `jobs` are `batches`, each with the node drawn for it, in order.
pub open spec fn are_jobs_of(jobs: Seq<Job>, batches: Seq<Vec<u64>>, draws: Seq<usize>) -> bool {
    &&& jobs.len() == batches.len()
    &&& forall|k: int| 0 <= k < jobs.len() ==> #[trigger] is_job_of(jobs[k], batches, draws, k)
}

/// The jobs that the drawn nodes make of the batches: batch number `k`
/// goes to the node drawn as number `k`. Nothing is drawn here, so the
/// same draws give the same jobs. There are none where the number of
/// draws is not the number of batches.
pub fn assign_jobs(batches: &Vec<Vec<u64>>, draws: &Vec<usize>) -> (jobs: Option<Vec<Job>>)
    ensures
        jobs is Some <==> draws@.len() == batches@.len(),
        jobs is Some ==> are_jobs_of(jobs.unwrap()@, batches@, draws@),
{
    if draws.len() != batches.len() {
        return None;
    }
    let mut jobs: Vec<Job> = Vec::new();
    let mut i: usize = 0;
    while i < batches.len()
        invariant
            draws@.len() == batches@.len(),
            i <= batches@.len(),
            jobs@.len() == i,
            forall|k: int| 0 <= k < i ==> #[trigger] is_job_of(jobs@[k], batches@, draws@, k),
        decreases batches@.len() - i,
    {
        let batch = copy_ids(&batches[i]);
        let job = Job { ids: batch, node: draws[i] };
        assert(is_job_of(job, batches@, draws@, i as int));
        jobs.push(job);
        i += 1;
    }
    Some(jobs)
}

/// One job for each batch of `ids`, each on a node drawn among `nodes`.
pub fn plan_jobs(ids: &Vec<u64>, batch_limit: usize, nodes: usize) -> (jobs: Vec<Job>)
    requires
        batch_limit > 0,
        nodes > 0,
    ensures
        is_batching(job_batches(jobs@), ids@, batch_limit as nat),
        nodes_below(jobs@, nodes),
{
    let batches = split_batches(ids, batch_limit);
    let draws = draw_nodes(batches.len(), nodes);
    let jobs = assign_jobs(&batches, &draws).unwrap();
    proof {
        let cut = job_batches(jobs@);
        assert forall|k: int| 0 <= k < cut.len() implies #[trigger] crate::batches::is_piece(
            cut[k]@,
            ids@,
            batch_limit as nat,
            k,
        ) by {
            assert(is_job_of(jobs@[k], batches@, draws@, k));
            assert(crate::batches::is_piece(batches@[k]@, ids@, batch_limit as nat, k));
        }
        assert forall|k: int| 0 <= k < jobs@.len() implies (#[trigger] jobs@[k]).node < nodes by {
            assert(is_job_of(jobs@[k], batches@, draws@, k));
            assert(draws@[k] < nodes);
        }
    }
    jobs
}

/// The jobs of the sweep that makes `window` the population of every
/// node: the stale identifiers are deleted, the window's are upserted,
/// in ascending order or, where `shuffle` is set, in a random one.
pub fn plan_sweep(window: Window, batch_limit: usize, nodes: usize, shuffle: bool) -> (plan:
    SweepPlan)
    requires
        window.wf(),
        window.width <= usize::MAX,
        batch_limit > 0,
        nodes > 0,
    ensures
        covers(job_batches(plan.deletes@), window.stale_ids(), batch_limit as nat, shuffle),
        covers(job_batches(plan.upserts@), window.ids(), batch_limit as nat, shuffle),
        nodes_below(plan.deletes@, nodes),
        nodes_below(plan.upserts@, nodes),
{
    let stale_start: u64 = if window.start >= window.width {
        window.start - window.width
    } else {
        0
    };
    let stale = consecutive(stale_start, (window.start - stale_start) as usize);
    let current = consecutive(window.start, window.width as usize);
    assert(stale@ =~= window.stale_ids());
    assert(current@ =~= window.ids());
    let stale = arrange(stale, shuffle);
    let current = arrange(current, shuffle);
    let deletes = plan_jobs(&stale, batch_limit, nodes);
    let upserts = plan_jobs(&current, batch_limit, nodes);
    proof {
        batching_keeps_the_list(job_batches(deletes@), stale@, batch_limit as nat);
        batching_keeps_the_list(job_batches(upserts@), current@, batch_limit as nat);
    }
    SweepPlan { deletes, upserts }
}

/// Touch number `k` holds batch number `k` of `batches`, reads on the
/// node drawn as number `k` of `reads` and writes on the one drawn as
/// number `k` of `writes`.
pub open spec fn is_touch_of(
    job: TouchJob,
    batches: Seq<Vec<u64>>,
    reads: Seq<usize>,
    writes: Seq<usize>,
    k: int,
) -> bool {
    job.ids@ == batches[k]@ && job.read_node == reads[k] && job.write_node == writes[k]
}

/// `jobs` are `batches`, each with the nodes drawn for it, in order.
pub open spec fn are_touches_of(
    jobs: Seq<TouchJob>,
    batches: Seq<Vec<u64>>,
    reads: Seq<usize>,
    writes: Seq<usize>,
) -> bool {
    &&& jobs.len() == batches.len()
    &&& forall|k: int|
        0 <= k < jobs.len() ==> #[trigger] is_touch_of(jobs[k], batches, reads, writes, k)
}

/// The touches that the drawn nodes make of the batches: batch number
/// `k` is read on the node drawn as number `k` of `reads` and written on
/// the one drawn as number `k` of `writes`. Nothing is drawn here. There
/// are none where either number of draws is not the number of batches.
pub fn assign_touches(batches: &Vec<Vec<u64>>, reads: &Vec<usize>, writes: &Vec<usize>) -> (jobs:
    Option<Vec<TouchJob>>)
    ensures
        jobs is Some <==> reads@.len() == batches@.len() && writes@.len() == batches@.len(),
        jobs is Some ==> are_touches_of(jobs.unwrap()@, batches@, reads@, writes@),
{
    if reads.len() != batches.len() || writes.len() != batches.len() {
        return None;
    }
    let mut jobs: Vec<TouchJob> = Vec::new();
    let mut i: usize = 0;
    while i < batches.len()
        invariant
            reads@.len() == batches@.len(),
            writes@.len() == batches@.len(),
            i <= batches@.len(),
            jobs@.len() == i,
            forall|k: int|
                0 <= k < i ==> #[trigger] is_touch_of(jobs@[k], batches@, reads@, writes@, k),
        decreases batches@.len() - i,
    {
        let batch = copy_ids(&batches[i]);
        let job = TouchJob { ids: batch, read_node: reads[i], write_node: writes[i] };
        assert(is_touch_of(job, batches@, reads@, writes@, i as int));
        jobs.push(job);
        i += 1;
    }
    Some(jobs)
}

/// The touches of one counter round over the identifiers from zero up to
/// `count`: one for each batch, with a node drawn for the read and a node
/// drawn for the write.
pub fn plan_touch(count: usize, batch_limit: usize, nodes: usize, shuffle: bool) -> (jobs: Vec<
    TouchJob,
>)
    requires
        batch_limit > 0,
        nodes > 0,
    ensures
        covers(
            touch_batches(jobs@),
            Seq::new(count as nat, |i: int| i as u64),
            batch_limit as nat,
            shuffle,
        ),
        touches_below(jobs@, nodes),
{
    let ids = consecutive(0, count);
    assert(ids@ =~= Seq::new(count as nat, |i: int| i as u64));
    let ids = arrange(ids, shuffle);
    let batches = split_batches(&ids, batch_limit);
    let reads = draw_nodes(batches.len(), nodes);
    let writes = draw_nodes(batches.len(), nodes);
    let jobs = assign_touches(&batches, &reads, &writes).unwrap();
    proof {
        let cut = touch_batches(jobs@);
        assert forall|k: int| 0 <= k < cut.len() implies #[trigger] crate::batches::is_piece(
            cut[k]@,
            ids@,
            batch_limit as nat,
            k,
        ) by {
            assert(is_touch_of(jobs@[k], batches@, reads@, writes@, k));
            assert(crate::batches::is_piece(batches@[k]@, ids@, batch_limit as nat, k));
        }
        assert forall|k: int| 0 <= k < jobs@.len() implies (#[trigger] jobs@[k]).read_node < nodes
            && jobs@[k].write_node < nodes by {
            assert(is_touch_of(jobs@[k], batches@, reads@, writes@, k));
            assert(reads@[k] < nodes);
            assert(writes@[k] < nodes);
        }
        batching_keeps_the_list(cut, ids@, batch_limit as nat);
    }
    jobs
}

/// What the driver does next in a sweep.
#[derive(Clone, Copy, Debug, PartialEq, Eq, Structural)]
pub enum SweepAction {
    /// Call the delete of the plan's delete job number `job`.
    Delete { job: usize },
    /// Call the upsert of the plan's upsert job number `job`.
    Upsert { job: usize },
    /// Wait, then make the same call again.
    Sleep { delay_ms: u64 },
    /// Every job is done: the round is applied.
    Finished,
    /// A call failed on its last attempt: the run ends.
    Abort,
}

/// The progress of one sweep through its plan. Jobs are called one at a
/// time, all deletes before the first upsert, and a job is left behind
/// only when its call succeeded.
#[derive(Clone, Copy, Debug, PartialEq, Eq, Structural)]
pub struct SweepRun {
    /// The number of delete jobs in the plan.
    pub deletes: usize,
    /// The number of all jobs in the plan, deletes and upserts.
    pub total: usize,
    /// The number of jobs whose call succeeded.
    pub done: usize,
    /// The attempts that each call may take.
    pub attempts: u32,
    /// The attempts left for the call of the job at hand.
    pub retry: Retry,
    /// Whether a call failed for good.
    pub aborted: bool,
}

impl SweepRun {
    /// What is called next: the job after those that are done, a delete
    /// as long as deletes are left. With a budget of no attempt nothing
    /// is ever called, and the sweep is finished as it begins.
    pub open spec fn due(self) -> SweepAction {
        if self.aborted {
            SweepAction::Abort
        } else if self.attempts == 0 {
            SweepAction::Finished
        } else if self.done < self.deletes {
            SweepAction::Delete { job: self.done }
        } else if self.done < self.total {
            SweepAction::Upsert { job: (self.done - self.deletes) as usize }
        } else {
            SweepAction::Finished
        }
    }

    /// The state after the call that was due has succeeded or failed, and
    /// what to do next. Where no call was due nothing changes.
    pub open spec fn step(self, succeeded: bool) -> (SweepRun, SweepAction) {
        if !(self.due() is Delete || self.due() is Upsert) {
            (self, self.due())
        } else {
            match self.retry.step(succeeded).1 {
                AfterAttempt::Done => {
                    let next = SweepRun {
                        done: (self.done + 1) as usize,
                        retry: Retry { left: self.attempts, delay_ms: self.retry.delay_ms },
                        ..self
                    };
                    (next, next.due())
                },
                AfterAttempt::RetryAfter { delay_ms } => (
                    SweepRun { retry: self.retry.step(succeeded).0, ..self },
                    SweepAction::Sleep { delay_ms },
                ),
                AfterAttempt::Abort => (
                    SweepRun { retry: self.retry.step(succeeded).0, aborted: true, ..self },
                    SweepAction::Abort,
                ),
            }
        }
    }

    /// The state after the calls whose outcomes are `outcomes`, in order.
    pub open spec fn after(self, outcomes: Seq<bool>) -> SweepRun
        decreases outcomes.len(),
    {
        if outcomes.len() == 0 {
            self
        } else {
            self.after(outcomes.drop_last()).step(outcomes.last()).0
        }
    }

    /// The run through `plan`, each call with up to `attempts` attempts
    /// that are `delay_ms` milliseconds apart. There is none for a plan
    /// of more jobs than can be counted.
    pub fn begin(plan: &SweepPlan, attempts: u32, delay_ms: u64) -> (run: Option<SweepRun>)
        ensures
            run is Some <==> plan.deletes@.len() + plan.upserts@.len() <= usize::MAX,
            run is Some ==> run.unwrap() == (SweepRun {
                deletes: plan.deletes@.len() as usize,
                total: (plan.deletes@.len() + plan.upserts@.len()) as usize,
                done: 0,
                attempts,
                retry: Retry { left: attempts, delay_ms },
                aborted: false,
            }),
    {
        let deletes = plan.deletes.len();
        let upserts = plan.upserts.len();
        if upserts > usize::MAX - deletes {
            return None;
        }
        Some(
            SweepRun {
                deletes,
                total: deletes + upserts,
                done: 0,
                attempts,
                retry: Retry::begin(attempts, delay_ms),
                aborted: false,
            },
        )
    }

    /// What is called next.
    pub fn next(&self) -> (action: SweepAction)
        ensures
            action == self.due(),
    {
        if self.aborted {
            SweepAction::Abort
        } else if self.attempts == 0 {
            SweepAction::Finished
        } else if self.done < self.deletes {
            SweepAction::Delete { job: self.done }
        } else if self.done < self.total {
            SweepAction::Upsert { job: self.done - self.deletes }
        } else {
            SweepAction::Finished
        }
    }

    /// Records how the call that was due ended and says what follows.
    pub fn record(&mut self, succeeded: bool) -> (action: SweepAction)
        ensures
            (*final(self), action) == old(self).step(succeeded),
    {
        let due = self.next();
        match due {
            SweepAction::Delete { job: _ } => {},
            SweepAction::Upsert { job: _ } => {},
            _ => {
                return due;
            },
        }
        match self.retry.record(succeeded) {
            AfterAttempt::Done => {
                self.done = self.done + 1;
                self.retry = Retry::begin(self.attempts, self.retry.delay_ms);
                self.next()
            },
            AfterAttempt::RetryAfter { delay_ms } => SweepAction::Sleep { delay_ms },
            AfterAttempt::Abort => {
                self.aborted = true;
                SweepAction::Abort
            },
        }
    }
}

/// Deletes come before upserts, whatever the calls return: an upsert is
/// due only once every delete has succeeded, and the sweep is finished
/// only once every job has. A job is left behind only by a call that
/// succeeded: the jobs done are never more than the successful calls.
pub proof fn upserts_follow_deletes(run: SweepRun, outcomes: Seq<bool>)
    requires
        run.attempts > 0,
    ensures
        run.after(outcomes).deletes == run.deletes,
        run.after(outcomes).total == run.total,
        run.after(outcomes).attempts == run.attempts,
        run.after(outcomes).done >= run.done,
        run.after(outcomes).done - run.done <= outcomes.filter(|ok: bool| ok).len(),
        run.after(outcomes).due() is Upsert ==> run.after(outcomes).done >= run.deletes,
        run.after(outcomes).due() is Finished ==> run.after(outcomes).done >= run.total,
    decreases outcomes.len(),
{
    reveal(Seq::filter);
    if outcomes.len() > 0 {
        upserts_follow_deletes(run, outcomes.drop_last());
    }
}

} // verus!
