//! The bounded task pool: hands out the tasks of a fan-out in order, never
//! more than its capacity at once, and joins their outcomes so that the first
//! failure observed is the result of the whole fan-out.
use vstd::prelude::*;

use crate::error::ErrorKind;

verus! {

/// Where one task of a fan-out stands.
#[derive(Clone, Copy, Debug, PartialEq, Eq, Structural)]
pub enum TaskStatus {
    Pending,
    Running,
    Succeeded,
    Failed,
}

/// The abstract state of a pool.
pub ghost struct PoolState {
    pub capacity: nat,
    pub status: Seq<TaskStatus>,
    pub started: nat,
    pub failure: Option<ErrorKind>,
}

/// Number of tasks in `s` that are running.
pub open spec fn count_running(s: Seq<TaskStatus>) -> nat
    decreases s.len(),
{
    if s.len() == 0 {
        0
    } else {
        count_running(s.drop_last()) + if s.last() == TaskStatus::Running {
            1nat
        } else {
            0nat
        }
    }
}

/// `new` is `old` after running task `i` ended with `outcome`: only its slot
/// changes, and the first failure stays the pool's failure.
pub open spec fn finished_as(
    old: PoolState,
    new: PoolState,
    i: int,
    outcome: Result<(), ErrorKind>,
) -> bool {
    &&& new.capacity == old.capacity
    &&& new.started == old.started
    &&& new.status == old.status.update(
        i,
        if outcome is Ok {
            TaskStatus::Succeeded
        } else {
            TaskStatus::Failed
        },
    )
    &&& new.failure == match old.failure {
        Some(e) => Some(e),
        None => match outcome {
            Ok(_) => None,
            Err(e) => Some(e),
        },
    }
}

impl PoolState {
    /// Tasks before `started` have been handed out, the others have not; at
    /// least one task may run; no more run than the capacity; a failure is
    /// recorded exactly when some task failed.
    pub open spec fn wf(self) -> bool {
        &&& self.capacity >= 1
        &&& self.started <= self.status.len()
        &&& forall|i: int|
            0 <= i < self.status.len() ==> (#[trigger] self.status[i] == TaskStatus::Pending <==> i
                >= self.started)
        &&& count_running(self.status) <= self.capacity
        &&& (self.failure is None <==> forall|i: int|
            0 <= i < self.status.len() ==> #[trigger] self.status[i] != TaskStatus::Failed)
    }

    pub open spec fn in_flight(self) -> nat {
        count_running(self.status)
    }

    pub open spec fn complete(self) -> bool {
        forall|i: int|
            0 <= i < self.status.len() ==> #[trigger] self.status[i] == TaskStatus::Succeeded
                || self.status[i] == TaskStatus::Failed
    }
}

proof fn lemma_count_update(s: Seq<TaskStatus>, i: int, x: TaskStatus)
    requires
        0 <= i < s.len(),
    ensures
        count_running(s.update(i, x)) + (if s[i] == TaskStatus::Running {
            1nat
        } else {
            0nat
        }) == count_running(s) + (if x == TaskStatus::Running {
            1nat
        } else {
            0nat
        }),
    decreases s.len(),
{
    let t = s.update(i, x);
    if i == s.len() - 1 {
        assert(t.drop_last() =~= s.drop_last());
    } else {
        assert(t.drop_last() =~= s.drop_last().update(i, x));
        lemma_count_update(s.drop_last(), i, x);
    }
}

proof fn lemma_count_none(s: Seq<TaskStatus>)
    requires
        forall|i: int| 0 <= i < s.len() ==> #[trigger] s[i] != TaskStatus::Running,
    ensures
        count_running(s) == 0,
    decreases s.len(),
{
    if s.len() > 0 {
        assert(s[s.len() - 1] == s.last());
        lemma_count_none(s.drop_last());
    }
}

/// A bounded fan-out of a fixed number of tasks.
pub struct TaskPool {
    capacity: usize,
    status: Vec<TaskStatus>,
    started: usize,
    running: usize,
    failure: Option<ErrorKind>,
}

impl View for TaskPool {
    type V = PoolState;

    closed spec fn view(&self) -> PoolState {
        PoolState {
            capacity: self.capacity as nat,
            status: self.status@,
            started: self.started as nat,
            failure: self.failure,
        }
    }
}

impl TaskPool {
    /// The pool's view agrees with its counters.
    pub closed spec fn inv(&self) -> bool {
        &&& self@.wf()
        &&& self.running as nat == count_running(self.status@)
    }

    /// A pool of `total` pending tasks that lets at most `capacity` run at once.
    pub fn new(capacity: usize, total: usize) -> (r: TaskPool)
        requires
            capacity >= 1,
        ensures
            r.inv(),
            r@.capacity == capacity,
            r@.status == Seq::new(total as nat, |i: int| TaskStatus::Pending),
            r@.started == 0,
            r@.failure is None,
    {
        let mut status: Vec<TaskStatus> = Vec::new();
        let mut k: usize = 0;
        while k < total
            invariant
                k <= total,
                status@ == Seq::new(k as nat, |i: int| TaskStatus::Pending),
            decreases total - k,
        {
            status.push(TaskStatus::Pending);
            k = k + 1;
        }
        proof {
            lemma_count_none(status@);
        }
        TaskPool { capacity, status, started: 0, running: 0, failure: None }
    }

    /// Hands out the next pending task, if the capacity allows one more to
    /// run.
    pub fn start(&mut self) -> (r: Option<usize>)
        requires
            old(self).inv(),
        ensures
            final(self).inv(),
            final(self)@.capacity == old(self)@.capacity,
            final(self)@.failure == old(self)@.failure,
            r is Some <==> old(self)@.started < old(self)@.status.len() && old(self)@.in_flight()
                < old(self)@.capacity,
            r is Some ==> r->Some_0 == old(self)@.started && final(self)@.status == old(
                self,
            )@.status.update(r->Some_0 as int, TaskStatus::Running) && final(self)@.started
                == old(self)@.started + 1,
            r is None ==> final(self)@ == old(self)@,
    {
        if self.started < self.status.len() && self.running < self.capacity {
            let i = self.started;
            proof {
                lemma_count_update(self.status@, i as int, TaskStatus::Running);
            }
            self.status.set(i, TaskStatus::Running);
            self.started = i + 1;
            self.running = self.running + 1;
            proof {
                let o = old(self)@.status;
                let n = self@.status;
                assert forall|j: int| 0 <= j < n.len() implies (#[trigger] n[j]
                    == TaskStatus::Pending <==> j >= self.started) by {
                    if j != i {
                        assert(n[j] == o[j]);
                    }
                }
                if self.failure is None {
                    assert forall|j: int| 0 <= j < n.len() implies #[trigger] n[j]
                        != TaskStatus::Failed by {
                        if j != i {
                            assert(n[j] == o[j]);
                        }
                    }
                } else {
                    let j = choose|j: int| 0 <= j < o.len() && #[trigger] o[j] == TaskStatus::Failed;
                    assert(n[j] == TaskStatus::Failed);
                }
            }
            Some(i)
        } else {
            None
        }
    }

    /// Whether task `index` is running.
    pub fn is_running(&self, index: usize) -> (r: bool)
        ensures
            r == (index < self@.status.len() && self@.status[index as int] == TaskStatus::Running),
    {
        index < self.status.len() && self.status[index] == TaskStatus::Running
    }

    /// Records how running task `index` ended; the first failure stays the
    /// pool's failure.
    pub fn finish(&mut self, index: usize, outcome: Result<(), ErrorKind>)
        requires
            old(self).inv(),
            index < old(self)@.status.len(),
            old(self)@.status[index as int] == TaskStatus::Running,
        ensures
            final(self).inv(),
            finished_as(old(self)@, final(self)@, index as int, outcome),
    {
        let st = match outcome {
            Ok(_) => TaskStatus::Succeeded,
            Err(_) => TaskStatus::Failed,
        };
        proof {
            lemma_count_update(self.status@, index as int, st);
        }
        self.status.set(index, st);
        self.running = self.running - 1;
        if self.failure.is_none() {
            match outcome {
                Ok(_) => {},
                Err(e) => {
                    self.failure = Some(e);
                },
            }
        }
        proof {
            let o = old(self)@.status;
            let n = self@.status;
            assert forall|j: int| 0 <= j < n.len() implies (#[trigger] n[j] == TaskStatus::Pending
                <==> j >= self.started) by {
                if j != index {
                    assert(n[j] == o[j]);
                }
            }
            if self.failure is Some && old(self)@.failure is None {
                assert(n[index as int] == TaskStatus::Failed);
            }
            if self.failure is None {
                assert forall|i: int| 0 <= i < self@.status.len() implies #[trigger] self@.status[i]
                    != TaskStatus::Failed by {
                    if i != index {
                        assert(old(self)@.status[i] != TaskStatus::Failed);
                    }
                }
            }
            if old(self)@.failure is Some {
                let j = choose|j: int|
                    0 <= j < old(self)@.status.len() && #[trigger] old(self)@.status[j]
                        == TaskStatus::Failed;
                assert(self@.status[j] == TaskStatus::Failed);
            }
        }
    }

    /// Whether every task has ended.
    pub fn is_complete(&self) -> (r: bool)
        requires
            self.inv(),
        ensures
            r == self@.complete(),
    {
        let mut k: usize = 0;
        while k < self.status.len()
            invariant
                k <= self@.status.len(),
                forall|i: int|
                    0 <= i < k ==> #[trigger] self@.status[i] == TaskStatus::Succeeded
                        || self@.status[i] == TaskStatus::Failed,
            decreases self@.status.len() - k,
        {
            if self.status[k] != TaskStatus::Succeeded && self.status[k] != TaskStatus::Failed {
                return false;
            }
            k = k + 1;
        }
        true
    }

    /// The joined result: the first failure recorded, or success.
    pub fn outcome(&self) -> (r: Result<(), ErrorKind>)
        ensures
            r == match self@.failure {
                Some(e) => Err::<(), ErrorKind>(e),
                None => Ok(()),
            },
    {
        match self.failure {
            Some(e) => Err(e),
            None => Ok(()),
        }
    }
}

/// A pool's invariant gives the well-formedness of its state.
pub proof fn pool_wf(p: &TaskPool)
    requires
        p.inv(),
    ensures
        p@.wf(),
{
}

/// In every state of a pool, no more tasks run than its capacity.
pub proof fn in_flight_within_capacity(p: &TaskPool)
    requires
        p.inv(),
    ensures
        p@.in_flight() <= p@.capacity,
{
}

/// A complete fan-out joins to success exactly when every one of its tasks
/// succeeded.
pub proof fn join_success_law(p: &TaskPool)
    requires
        p.inv(),
        p@.complete(),
    ensures
        p.outcome_spec() is Ok <==> forall|i: int|
            0 <= i < p@.status.len() ==> #[trigger] p@.status[i] == TaskStatus::Succeeded,
{
    if p@.failure is Some {
        let j = choose|j: int|
            0 <= j < p@.status.len() && #[trigger] p@.status[j] == TaskStatus::Failed;
        assert(p@.status[j] != TaskStatus::Succeeded);
    }
}

impl TaskPool {
    /// The joined result, as a value.
    pub open spec fn outcome_spec(&self) -> Result<(), ErrorKind> {
        match self@.failure {
            Some(e) => Err(e),
            None => Ok(()),
        }
    }
}

} // verus!
