//! The coordination layer: per-repository mutual exclusion, the fan-in
//! completion signal of multi-repository jobs, and the aggregate health of
//! a check over many repositories.
//!
//! These are the decision and bookkeeping parts. The application pairs a
//! `RepositoryLock` with each repository's asynchronous lock (keyed by the
//! repository path), drives one `CompletionCounter` per fanned-out job,
//! and narrows one `CheckAggregate` as repository checks finish.
use vstd::prelude::*;

verus! {

/// One step against a repository's lock.
#[derive(Clone, Copy, Debug, PartialEq, Eq, Structural)]
pub enum LockOp {
    /// A non-blocking acquisition attempt; it succeeds only when nobody
    /// holds the lock.
    TryAcquire,
    /// The holder leaves its critical section.
    Release,
}

/// How many holders a lock has after one step.
pub open spec fn lock_after(holders: nat, op: LockOp) -> nat {
    match op {
        LockOp::TryAcquire => if holders == 0 {
            1
        } else {
            holders
        },
        LockOp::Release => if holders > 0 {
            (holders - 1) as nat
        } else {
            0
        },
    }
}

/// How many holders a lock has after a sequence of steps.
pub open spec fn lock_run(holders: nat, ops: Seq<LockOp>) -> nat
    decreases ops.len(),
{
    if ops.len() == 0 {
        holders
    } else {
        lock_run(lock_after(holders, ops[0]), ops.skip(1))
    }
}

proof fn lemma_lock_run_bounded(holders: nat, ops: Seq<LockOp>)
    requires
        holders <= 1,
    ensures
        lock_run(holders, ops) <= 1,
    decreases ops.len(),
{
    if ops.len() > 0 {
        lemma_lock_run_bounded(lock_after(holders, ops[0]), ops.skip(1));
    }
}

/// Law (mutual exclusion): starting from an unheld lock, no sequence of
/// try-acquires and releases ever yields more than one holder — two
/// critical sections on one repository cannot overlap.
pub proof fn lemma_mutual_exclusion(ops: Seq<LockOp>)
    ensures
        lock_run(0, ops) <= 1,
{
    lemma_lock_run_bounded(0, ops);
}

/// The exclusive-access state of one repository, instrumented with the
/// holder count that the exclusion law bounds.
pub struct RepositoryLock {
    holders: u64,
}

impl RepositoryLock {
    /// How many tasks hold the lock.
    pub closed spec fn holders(&self) -> nat {
        self.holders as nat
    }

    /// At most one task ever holds the lock.
    pub open spec fn wf(&self) -> bool {
        self.holders() <= 1
    }

    /// A fresh, unheld lock. One is created per repository at load time
    /// and lives for the process lifetime.
    pub fn new() -> (r: Self)
        ensures
            r.holders() == 0,
            r.wf(),
    {
        RepositoryLock { holders: 0 }
    }

    /// The non-blocking acquisition attempt: succeeds exactly when nobody
    /// holds the lock. (A caller that fails here reports "waiting for
    /// repository lock" and falls back to a blocking acquire.)
    pub fn try_acquire(&mut self) -> (r: bool)
        requires
            old(self).wf(),
        ensures
            final(self).wf(),
            r == (old(self).holders() == 0),
            final(self).holders() == lock_after(old(self).holders(), LockOp::TryAcquire),
    {
        if self.holders == 0 {
            self.holders = 1;
            true
        } else {
            false
        }
    }

    /// Whether some task currently holds the lock.
    pub fn is_held(&self) -> (r: bool)
        ensures
            r == (self.holders() != 0),
    {
        self.holders != 0
    }

    /// The holder leaves its critical section. The scope that acquired the
    /// lock releases it on every exit path, error included.
    pub fn release(&mut self)
        requires
            old(self).holders() == 1,
        ensures
            final(self).holders() == 0,
            final(self).wf(),
    {
        self.holders = 0;
    }
}

/// The fan-in completion signal of one multi-repository job: one unit is
/// added per finished task, and a supervisor waits for all of them.
pub struct CompletionCounter {
    expected: u64,
    completed: u64,
}

impl CompletionCounter {
    pub closed spec fn expected(&self) -> nat {
        self.expected as nat
    }

    pub closed spec fn completed(&self) -> nat {
        self.completed as nat
    }

    /// The signal never exceeds the number of fanned-out tasks.
    pub open spec fn wf(&self) -> bool {
        self.completed() <= self.expected()
    }

    /// A counter for a job fanned out over `expected` tasks; no task has
    /// finished yet.
    pub fn new(expected: u64) -> (r: Self)
        ensures
            r.expected() == expected,
            r.completed() == 0,
            r.wf(),
    {
        CompletionCounter { expected, completed: 0 }
    }

    /// One task finished (with success or failure: both count). More
    /// signals than tasks cannot happen; the structure of `run_fan_in`
    /// guarantees the requirement.
    pub fn signal(&mut self)
        requires
            old(self).wf(),
            old(self).completed() < old(self).expected(),
        ensures
            final(self).expected() == old(self).expected(),
            final(self).completed() == old(self).completed() + 1,
            final(self).wf(),
    {
        self.completed = self.completed + 1;
    }

    /// Whether every task of the job has signalled completion.
    pub fn is_complete(&self) -> (r: bool)
        ensures
            r == (self.completed() == self.expected()),
    {
        self.completed == self.expected
    }
}

/// Law (fan-in bound): a well-formed completion counter never reads more
/// than the number of fanned-out tasks; combined with `signal`, which
/// advances it by exactly one per finished task, the job-complete signal
/// fires exactly once per job.
pub proof fn lemma_fan_in_bound(c: CompletionCounter)
    requires
        c.wf(),
    ensures
        c.completed() <= c.expected(),
{
}

/// What one repository's task came to.
#[derive(Clone, Copy, Debug, PartialEq, Eq, Structural)]
pub enum TaskOutcome {
    /// The operation ran and reported success.
    Succeeded,
    /// The operation ran and failed, or could not be started.
    Failed,
    /// The repository was explicitly excluded from this job; it counts as
    /// trivially successful.
    Skipped,
}

/// Whether an outcome counts as healthy for the aggregate.
pub open spec fn outcome_ok(o: TaskOutcome) -> bool {
    !(o is Failed)
}

/// Whether a whole job is healthy: the logical AND over every outcome.
pub open spec fn all_ok(outcomes: Seq<TaskOutcome>) -> bool {
    forall|i: int| 0 <= i < outcomes.len() ==> outcome_ok(#[trigger] outcomes[i])
}

fn outcome_ok_exec(o: TaskOutcome) -> (r: bool)
    ensures
        r == outcome_ok(o),
{
    match o {
        TaskOutcome::Failed => false,
        _ => true,
    }
}

/// The aggregate health of a multi-repository check: a flag that tasks
/// narrow (set to false) and never widen.
pub struct CheckAggregate {
    healthy: bool,
}

impl CheckAggregate {
    pub closed spec fn healthy(&self) -> bool {
        self.healthy
    }

    /// A fresh aggregate is healthy until some task reports otherwise.
    pub fn new() -> (r: Self)
        ensures
            r.healthy(),
    {
        CheckAggregate { healthy: true }
    }

    /// Folds one task's result in: the aggregate stays healthy only when
    /// it was healthy and the result is good. Narrowing only — a later
    /// success cannot mask an earlier failure.
    pub fn narrow(&mut self, result: bool)
        ensures
            final(self).healthy() == (old(self).healthy() && result),
    {
        self.healthy = self.healthy && result;
    }

    pub fn is_healthy(&self) -> (r: bool)
        ensures
            r == self.healthy(),
    {
        self.healthy
    }
}

/// Law (fan-in completeness and aggregate check): for a job over N tasks,
/// every task — succeeded, failed or skipped — advances the completion
/// signal exactly once, so the signal reads exactly N at the end and never
/// exceeds N; and the job is reported healthy exactly when no task failed.
pub fn run_fan_in(outcomes: &Vec<TaskOutcome>) -> (r: (CompletionCounter, CheckAggregate))
    ensures
        r.0.expected() == outcomes@.len(),
        r.0.completed() == outcomes@.len(),
        r.0.wf(),
        r.1.healthy() == all_ok(outcomes@),
{
    let mut counter = CompletionCounter::new(outcomes.len() as u64);
    let mut aggregate = CheckAggregate::new();
    let mut i: usize = 0;
    while i < outcomes.len()
        invariant
            i <= outcomes.len(),
            counter.expected() == outcomes@.len(),
            counter.completed() == i,
            counter.wf(),
            aggregate.healthy() == (forall|j: int|
                0 <= j < i ==> outcome_ok(#[trigger] outcomes@[j])),
        decreases outcomes.len() - i,
    {
        counter.signal();
        aggregate.narrow(outcome_ok_exec(outcomes[i]));
        i = i + 1;
    }
    (counter, aggregate)
}

} // verus!
