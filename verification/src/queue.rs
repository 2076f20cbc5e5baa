//! The probe job queue: a FIFO of pending probe tasks with leasing,
//! visibility delays and retries. A task leased by a worker becomes
//! invisible until its lease runs out; a lease that expires without an
//! acknowledgement makes the task visible again, so delivery is
//! at-least-once and workers must be idempotent.

use vstd::prelude::*;

use crate::service::Service;

verus! {

/// How many times a probe task is retried before it is given up.
pub const PROBE_RETRIES: u32 = 3;

/// Whether a task that has failed `attempt` times already is tried again.
pub fn should_retry(attempt: u32, max_retries: u32) -> (r: bool)
    ensures
        r == (attempt < max_retries),
{
    attempt < max_retries
}

/// Visibility of a queued task.
pub enum TaskState {
    /// May be leased once `visible_at` has passed.
    Ready { visible_at: u64 },
    /// Claimed by a worker; visible again once `until` has passed.
    Leased { worker: u64, until: u64 },
}

impl Clone for TaskState {
    fn clone(&self) -> (r: Self)
        ensures
            r == *self,
    {
        match self {
            TaskState::Ready { visible_at } => TaskState::Ready { visible_at: *visible_at },
            TaskState::Leased { worker, until } => TaskState::Leased {
                worker: *worker,
                until: *until,
            },
        }
    }
}

/// One queued probe task: a snapshot of the service taken when it was
/// enqueued, and how many attempts it has already cost.
pub struct QueueTask {
    pub id: u64,
    pub service: Service,
    pub attempt: u32,
    pub enqueued_at: u64,
    pub state: TaskState,
}

impl Clone for QueueTask {
    fn clone(&self) -> (r: Self)
        ensures
            r == *self,
    {
        QueueTask {
            id: self.id,
            service: self.service.clone(),
            attempt: self.attempt,
            enqueued_at: self.enqueued_at,
            state: self.state.clone(),
        }
    }
}

/// Whether a task may be handed to a worker at `now`: ready and past its
/// visibility delay, or leased with the lease run out.
pub open spec fn available(t: QueueTask, now: u64) -> bool {
    match t.state {
        TaskState::Ready { visible_at } => visible_at <= now,
        TaskState::Leased { until, .. } => until <= now,
    }
}

/// The queue position of the first task available at `now`, front to
/// back — the oldest, since tasks stand in arrival order.
pub open spec fn first_available_idx(s: Seq<QueueTask>, now: u64) -> Option<int>
    decreases s.len(),
{
    if s.len() == 0 {
        None
    } else if available(s.first(), now) {
        Some(0)
    } else {
        match first_available_idx(s.drop_first(), now) {
            Some(i) => Some(i + 1),
            None => None,
        }
    }
}

/// The queue position of the task with the given id.
pub open spec fn find_id(s: Seq<QueueTask>, id: u64) -> Option<int>
    decreases s.len(),
{
    if s.len() == 0 {
        None
    } else if s.first().id == id {
        Some(0)
    } else {
        match find_id(s.drop_first(), id) {
            Some(i) => Some(i + 1),
            None => None,
        }
    }
}

/// `t` as claimed by `worker` until `until`.
pub open spec fn leased_of(t: QueueTask, worker: u64, until: u64) -> QueueTask {
    QueueTask {
        id: t.id,
        service: t.service,
        attempt: t.attempt,
        enqueued_at: t.enqueued_at,
        state: TaskState::Leased { worker, until },
    }
}

/// `t` put back in the queue, one failed attempt dearer, visible again
/// at `visible_at`. An attempt counter at its cap stays there.
pub open spec fn nacked_of(t: QueueTask, visible_at: u64) -> QueueTask {
    QueueTask {
        id: t.id,
        service: t.service,
        attempt: if t.attempt < u32::MAX {
            (t.attempt + 1) as u32
        } else {
            t.attempt
        },
        enqueued_at: t.enqueued_at,
        state: TaskState::Ready { visible_at },
    }
}

/// The probe task queue. Tasks stand in arrival order, with strictly
/// increasing store-assigned ids; acknowledged tasks are removed.
pub struct JobQueue {
    tasks: Vec<QueueTask>,
    next_id: u64,
}

impl JobQueue {
    /// The queued tasks, oldest first.
    pub closed spec fn view(&self) -> Seq<QueueTask> {
        self.tasks@
    }

    /// The id the next pushed task gets.
    pub closed spec fn next_id_spec(&self) -> u64 {
        self.next_id
    }

    /// Ids strictly increase along the queue and stay below the next id.
    pub open spec fn wf(&self) -> bool {
        &&& forall|i: int, j: int|
            0 <= i < j < self@.len() ==> (#[trigger] self@[i]).id < (#[trigger] self@[j]).id
        &&& forall|i: int| 0 <= i < self@.len() ==> (#[trigger] self@[i]).id < self.next_id_spec()
    }

    /// An empty queue.
    pub fn new() -> (r: Self)
        ensures
            r.wf(),
            r@.len() == 0,
            r.next_id_spec() == 1,
    {
        JobQueue { tasks: Vec::new(), next_id: 1 }
    }

    /// Appends a fresh task for a snapshot of `service`, immediately
    /// visible, and returns its id.
    pub fn push(&mut self, service: Service, now: u64) -> (r: u64)
        requires
            old(self).wf(),
            old(self).next_id_spec() < u64::MAX,
        ensures
            final(self).wf(),
            r == old(self).next_id_spec(),
            final(self).next_id_spec() == old(self).next_id_spec() + 1,
            final(self)@ == old(self)@.push(
                QueueTask {
                    id: r,
                    service,
                    attempt: 0,
                    enqueued_at: now,
                    state: TaskState::Ready { visible_at: now },
                },
            ),
    {
        let id = self.next_id;
        self.next_id = self.next_id + 1;
        self.tasks.push(
            QueueTask {
                id,
                service,
                attempt: 0,
                enqueued_at: now,
                state: TaskState::Ready { visible_at: now },
            },
        );
        id
    }

    /// Atomically claims the oldest task available at `now` for `worker`,
    /// for `lease_secs` seconds, and hands back the claimed task; or
    /// nothing, when no task is available.
    pub fn lease(&mut self, now: u64, worker: u64, lease_secs: u64) -> (r: Option<QueueTask>)
        requires
            old(self).wf(),
            now + lease_secs <= u64::MAX,
        ensures
            final(self).wf(),
            final(self).next_id_spec() == old(self).next_id_spec(),
            match first_available_idx(old(self)@, now) {
                None => r is None && final(self)@ == old(self)@,
                Some(i) => {
                    let claimed = leased_of(old(self)@[i], worker, (now + lease_secs) as u64);
                    &&& r == Some(claimed)
                    &&& final(self)@ == old(self)@.update(i, claimed)
                },
            },
    {
        proof {
            assert(self@.skip(0) == self@);
        }
        let n = self.tasks.len();
        for i in 0..n
            invariant
                n == self@.len(),
                self@ == old(self)@,
                self.next_id_spec() == old(self).next_id_spec(),
                old(self).wf(),
                now + lease_secs <= u64::MAX,
                first_available_idx(self@, now) == (match first_available_idx(
                    self@.skip(i as int),
                    now,
                ) {
                    Some(fi) => Some(fi + i),
                    None => None,
                }),
        {
            proof {
                assert(self@.skip(i as int).first() == self@[i as int]);
                assert(self@.skip(i as int).drop_first() == self@.skip(i + 1));
            }
            let avail = match &self.tasks[i].state {
                TaskState::Ready { visible_at } => *visible_at <= now,
                TaskState::Leased { until, .. } => *until <= now,
            };
            if avail {
                proof {
                    assert(available(self@[i as int], now));
                    assert(first_available_idx(self@.skip(i as int), now) == Some(0int));
                    assert(first_available_idx(self@, now) == Some(i as int));
                }
                let claimed = QueueTask {
                    id: self.tasks[i].id,
                    service: self.tasks[i].service.clone(),
                    attempt: self.tasks[i].attempt,
                    enqueued_at: self.tasks[i].enqueued_at,
                    state: TaskState::Leased { worker, until: now + lease_secs },
                };
                self.tasks.set(i, claimed.clone());
                return Some(claimed);
            }
            proof {
                assert(!available(self@[i as int], now));
            }
        }
        proof {
            assert(self@.skip(n as int) =~= Seq::<QueueTask>::empty());
        }
        None
    }

    /// Deletes the task with the given id — a worker's acknowledgement
    /// of a terminal outcome. Says whether the task was there.
    pub fn ack(&mut self, task_id: u64) -> (r: bool)
        requires
            old(self).wf(),
        ensures
            final(self).wf(),
            final(self).next_id_spec() == old(self).next_id_spec(),
            match find_id(old(self)@, task_id) {
                None => !r && final(self)@ == old(self)@,
                Some(i) => r && final(self)@ == old(self)@.remove(i),
            },
    {
        proof {
            assert(self@.skip(0) == self@);
        }
        let n = self.tasks.len();
        for i in 0..n
            invariant
                n == self@.len(),
                self@ == old(self)@,
                self.next_id_spec() == old(self).next_id_spec(),
                old(self).wf(),
                find_id(self@, task_id) == (match find_id(self@.skip(i as int), task_id) {
                    Some(fi) => Some(fi + i),
                    None => None,
                }),
        {
            proof {
                assert(self@.skip(i as int).first() == self@[i as int]);
                assert(self@.skip(i as int).drop_first() == self@.skip(i + 1));
            }
            if self.tasks[i].id == task_id {
                proof {
                    assert(find_id(self@.skip(i as int), task_id) == Some(0int));
                    assert(find_id(self@, task_id) == Some(i as int));
                }
                let ghost before = self@;
                self.tasks.remove(i);
                proof {
                    assert(self@ == before.remove(i as int));
                    assert forall|p: int, q: int|
                        0 <= p < q < self@.len() implies (#[trigger] self@[p]).id < (
                    #[trigger] self@[q]).id by {
                        let p0: int = if p < i as int {
                            p
                        } else {
                            p + 1
                        };
                        let q0: int = if q < i as int {
                            q
                        } else {
                            q + 1
                        };
                        assert(self@[p] == before[p0]);
                        assert(self@[q] == before[q0]);
                    }
                    assert forall|p: int| 0 <= p < self@.len() implies (#[trigger] self@[p]).id
                        < self.next_id_spec() by {
                        let p0: int = if p < i as int {
                            p
                        } else {
                            p + 1
                        };
                        assert(self@[p] == before[p0]);
                    }
                }
                return true;
            }
        }
        proof {
            assert(self@.skip(n as int) =~= Seq::<QueueTask>::empty());
        }
        false
    }

    /// Puts the task with the given id back in the queue with one more
    /// failed attempt on it, invisible for `retry_after` seconds. Says
    /// whether the task was there.
    pub fn nack(&mut self, task_id: u64, retry_after: u64, now: u64) -> (r: bool)
        requires
            old(self).wf(),
            now + retry_after <= u64::MAX,
        ensures
            final(self).wf(),
            final(self).next_id_spec() == old(self).next_id_spec(),
            match find_id(old(self)@, task_id) {
                None => !r && final(self)@ == old(self)@,
                Some(i) => r && final(self)@ == old(self)@.update(
                    i,
                    nacked_of(old(self)@[i], (now + retry_after) as u64),
                ),
            },
    {
        proof {
            assert(self@.skip(0) == self@);
        }
        let n = self.tasks.len();
        for i in 0..n
            invariant
                n == self@.len(),
                self@ == old(self)@,
                self.next_id_spec() == old(self).next_id_spec(),
                old(self).wf(),
                now + retry_after <= u64::MAX,
                find_id(self@, task_id) == (match find_id(self@.skip(i as int), task_id) {
                    Some(fi) => Some(fi + i),
                    None => None,
                }),
        {
            proof {
                assert(self@.skip(i as int).first() == self@[i as int]);
                assert(self@.skip(i as int).drop_first() == self@.skip(i + 1));
            }
            if self.tasks[i].id == task_id {
                proof {
                    assert(find_id(self@.skip(i as int), task_id) == Some(0int));
                    assert(find_id(self@, task_id) == Some(i as int));
                }
                let attempt = if self.tasks[i].attempt < u32::MAX {
                    self.tasks[i].attempt + 1
                } else {
                    self.tasks[i].attempt
                };
                let put_back = QueueTask {
                    id: self.tasks[i].id,
                    service: self.tasks[i].service.clone(),
                    attempt,
                    enqueued_at: self.tasks[i].enqueued_at,
                    state: TaskState::Ready { visible_at: now + retry_after },
                };
                self.tasks.set(i, put_back);
                return true;
            }
        }
        proof {
            assert(self@.skip(n as int) =~= Seq::<QueueTask>::empty());
        }
        false
    }
}

/// Leasing is FIFO: in a well-formed queue, the task a lease claims has
/// the smallest id of all tasks available at that instant.
pub proof fn lemma_lease_oldest(q: &JobQueue, now: u64)
    requires
        q.wf(),
        first_available_idx(q@, now) is Some,
    ensures
        ({
            let i = first_available_idx(q@, now).unwrap();
            &&& 0 <= i < q@.len()
            &&& available(q@[i], now)
            &&& forall|j: int|
                0 <= j < q@.len() && available(#[trigger] q@[j], now) ==> q@[i].id <= q@[j].id
        }),
{
    lemma_first_available(q@, now);
    let i = first_available_idx(q@, now).unwrap();
    assert forall|j: int|
        0 <= j < q@.len() && available(#[trigger] q@[j], now) implies q@[i].id <= q@[j].id by {
        if j < i {
            assert(!available(q@[j], now));
        }
    }
}

proof fn lemma_first_available(s: Seq<QueueTask>, now: u64)
    requires
        first_available_idx(s, now) is Some,
    ensures
        ({
            let i = first_available_idx(s, now).unwrap();
            &&& 0 <= i < s.len()
            &&& available(s[i], now)
            &&& forall|j: int| 0 <= j < i ==> !available(#[trigger] s[j], now)
        }),
    decreases s.len(),
{
    if s.len() > 0 && !available(s.first(), now) {
        lemma_first_available(s.drop_first(), now);
        let i = first_available_idx(s, now).unwrap();
        assert forall|j: int| 0 <= j < i implies !available(#[trigger] s[j], now) by {
            if j > 0 {
                assert(s.drop_first()[j - 1] == s[j]);
            }
        }
        assert(s.drop_first()[i - 1] == s[i]);
    }
}

/// A lease that ran out makes its task available again: delivery is
/// at-least-once, never lost to a worker that died holding a lease.
pub proof fn lemma_expired_lease_visible(t: QueueTask, now: u64)
    requires
        t.state matches TaskState::Leased { until, .. } && until <= now,
    ensures
        available(t, now),
{
}

} // verus!
