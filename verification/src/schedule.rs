//! The tick scheduler: a service is due when the tick's wall-clock second
//! of the day is a multiple of the service's interval. Scheduling is
//! stateless, so restarts do not shift phases and missed ticks are not
//! made up.

use vstd::prelude::*;

use crate::service::Service;

verus! {

pub const SECONDS_PER_DAY: u64 = 86400;

/// One scheduler tick, at second granularity, as seconds since the Unix
/// epoch (UTC).
#[derive(Debug, Clone, Copy, PartialEq, Eq, Structural)]
pub struct Timer {
    pub epoch_secs: u64,
}

impl Timer {
    /// The tick at the given epoch second.
    pub fn new(epoch_secs: u64) -> (r: Timer)
        ensures
            r.epoch_secs == epoch_secs,
    {
        Timer { epoch_secs }
    }

    /// Seconds since the preceding UTC midnight.
    pub open spec fn seconds_from_midnight_spec(self) -> u64 {
        self.epoch_secs % 86400
    }

    /// Seconds since the preceding UTC midnight.
    pub fn num_seconds_from_midnight(&self) -> (r: u64)
        ensures
            r == self.seconds_from_midnight_spec(),
    {
        self.epoch_secs % SECONDS_PER_DAY
    }

    /// Whether a service probing every `interval` seconds is due at this
    /// tick.
    pub open spec fn is_interval_spec(self, interval: u32) -> bool {
        self.seconds_from_midnight_spec() % (interval as u64) == 0
    }

    /// Whether a service probing every `interval` seconds is due at this
    /// tick.
    pub fn is_interval(&self, interval: u32) -> (r: bool)
        requires
            interval >= 1,
        ensures
            r == self.is_interval_spec(interval),
    {
        self.num_seconds_from_midnight() % (interval as u64) == 0
    }
}

/// Whether the scheduler enqueues a probe of `s` at tick `timer`: the
/// service is active and its interval divides the tick's second of day.
pub open spec fn due_at(timer: Timer, s: Service) -> bool {
    s.active && timer.is_interval_spec(s.interval)
}

/// One scheduler tick: of all services, the active ones whose interval
/// divides the tick's second of the day, in table order. Each due service
/// appears exactly once (`lemma_due_exactly_once`).
pub fn due_services(services: &Vec<Service>, timer: &Timer) -> (r: Vec<Service>)
    requires
        forall|i: int| 0 <= i < services@.len() ==> (#[trigger] services@[i]).wf(),
    ensures
        r@ == services@.filter(|s: Service| due_at(*timer, s)),
{
    let mut out: Vec<Service> = Vec::new();
    let n = services.len();
    for i in 0..n
        invariant
            n == services@.len(),
            forall|k: int| 0 <= k < n ==> (#[trigger] services@[k]).wf(),
            out@ == services@.take(i as int).filter(|s: Service| due_at(*timer, s)),
    {
        reveal_with_fuel(Seq::filter, 2);
        if services[i].active && timer.is_interval(services[i].interval) {
            out.push(services[i].clone());
        }
        assert(services@.take(i + 1).drop_last() == services@.take(i as int));
    }
    assert(services@.take(n as int) == services@);
    out
}

/// How many services in `s` carry the given id.
pub open spec fn count_with_id(s: Seq<Service>, id: u32) -> nat
    decreases s.len(),
{
    if s.len() == 0 {
        0
    } else {
        count_with_id(s.drop_last(), id) + if s.last().id == id {
            1nat
        } else {
            0nat
        }
    }
}

/// No two services in `s` share an id.
pub open spec fn distinct_ids(s: Seq<Service>) -> bool {
    forall|i: int, j: int|
        0 <= i < j < s.len() ==> (#[trigger] s[i]).id != (#[trigger] s[j]).id
}

proof fn lemma_count_absent(s: Seq<Service>, id: u32)
    requires
        forall|i: int| 0 <= i < s.len() ==> (#[trigger] s[i]).id != id,
    ensures
        count_with_id(s, id) == 0,
    decreases s.len(),
{
    if s.len() > 0 {
        assert(forall|i: int| 0 <= i < s.len() - 1 ==> s[i] == #[trigger] s.drop_last()[i]);
        lemma_count_absent(s.drop_last(), id);
    }
}

proof fn lemma_count_filter_absent(s: Seq<Service>, timer: Timer, id: u32)
    requires
        forall|i: int| 0 <= i < s.len() ==> (#[trigger] s[i]).id != id,
    ensures
        count_with_id(s.filter(|x: Service| due_at(timer, x)), id) == 0,
    decreases s.len(),
{
    reveal_with_fuel(Seq::filter, 2);
    let pred = |x: Service| due_at(timer, x);
    if s.len() > 0 {
        let prefix = s.drop_last();
        assert(forall|i: int| 0 <= i < s.len() - 1 ==> s[i] == #[trigger] prefix[i]);
        lemma_count_filter_absent(prefix, timer, id);
        if pred(s.last()) {
            assert(s.filter(pred) == prefix.filter(pred).push(s.last()));
            assert(prefix.filter(pred).push(s.last()).drop_last() == prefix.filter(pred));
            assert(prefix.filter(pred).push(s.last()).last() == s.last());
        } else {
            assert(s.filter(pred) == prefix.filter(pred));
        }
    }
}

proof fn lemma_count_filter_due(s: Seq<Service>, timer: Timer, id: u32, k: int)
    requires
        distinct_ids(s),
        0 <= k < s.len(),
        s[k].id == id,
        due_at(timer, s[k]),
    ensures
        count_with_id(s.filter(|x: Service| due_at(timer, x)), id) == 1,
    decreases s.len(),
{
    reveal_with_fuel(Seq::filter, 2);
    let pred = |x: Service| due_at(timer, x);
    let prefix = s.drop_last();
    assert(forall|i: int| 0 <= i < s.len() - 1 ==> s[i] == #[trigger] prefix[i]);
    if k == s.len() - 1 {
        assert(s.filter(pred) == prefix.filter(pred).push(s.last()));
        assert(prefix.filter(pred).push(s.last()).drop_last() == prefix.filter(pred));
        assert(prefix.filter(pred).push(s.last()).last() == s.last());
        assert(forall|i: int|
            0 <= i < prefix.len() ==> (#[trigger] prefix[i]).id != id);
        lemma_count_filter_absent(prefix, timer, id);
    } else {
        lemma_count_filter_due(prefix, timer, id, k);
        if pred(s.last()) {
            assert(s.filter(pred) == prefix.filter(pred).push(s.last()));
            assert(prefix.filter(pred).push(s.last()).drop_last() == prefix.filter(pred));
            assert(prefix.filter(pred).push(s.last()).last() == s.last());
            assert(s.last().id != id);
        } else {
            assert(s.filter(pred) == prefix.filter(pred));
        }
    }
}

/// At a tick, an active service whose interval divides the tick's second
/// of the day is scheduled exactly once: the due list holds exactly one
/// service with its id.
pub proof fn lemma_due_exactly_once(services: Seq<Service>, timer: Timer, k: int)
    requires
        distinct_ids(services),
        0 <= k < services.len(),
        due_at(timer, services[k]),
    ensures
        count_with_id(services.filter(|s: Service| due_at(timer, s)), services[k].id) == 1,
{
    lemma_count_filter_due(services, timer, services[k].id, k);
}

/// A service with interval one is due at every tick.
pub proof fn lemma_interval_one_always_due(timer: Timer, s: Service)
    requires
        s.active,
        s.interval == 1,
    ensures
        due_at(timer, s),
{
}

} // verus!
