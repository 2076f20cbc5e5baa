//! The probe log: append-only records of probe outcomes, with dense
//! store-assigned ids and per-service non-decreasing times.

use vstd::prelude::*;

use crate::service::{Service, ServiceStore};
use crate::status::Status;

verus! {

/// One persisted probe outcome. `time` is in seconds since the Unix epoch
/// (UTC); `duration` is the probe's elapsed time in milliseconds.
pub struct Log {
    pub id: i64,
    pub service_id: u32,
    pub status: Status,
    pub message: Option<String>,
    pub time: u64,
    pub duration: u32,
}

impl Clone for Log {
    fn clone(&self) -> (r: Self)
        ensures
            r == *self,
    {
        Log {
            id: self.id,
            service_id: self.service_id,
            status: self.status,
            message: self.message.clone(),
            time: self.time,
            duration: self.duration,
        }
    }
}

/// A probe outcome as the drivers hand it over, before the store assigns
/// an id. A missing `time` stands for the store's current time.
pub struct LogForCreate {
    pub service_id: u32,
    pub status: Status,
    pub message: Option<String>,
    pub time: Option<u64>,
    pub duration: u32,
}

impl Clone for LogForCreate {
    fn clone(&self) -> (r: Self)
        ensures
            r == *self,
    {
        LogForCreate {
            service_id: self.service_id,
            status: self.status,
            message: self.message.clone(),
            time: self.time,
            duration: self.duration,
        }
    }
}

impl Default for LogForCreate {
    fn default() -> (r: Self)
        ensures
            r.service_id == 0,
            r.status == Status::Pending,
            r.message is None,
            r.time is None,
            r.duration == 0,
    {
        LogForCreate { service_id: 0, status: Status::Pending, message: None, time: None, duration: 0 }
    }
}

impl LogForCreate {
    /// The record's time, with `now` standing in when none was given.
    pub open spec fn time_or(self, now: u64) -> u64 {
        if self.time is Some {
            self.time.unwrap()
        } else {
            now
        }
    }
}

/// The time of the most recent log of the given service, or zero when the
/// service has none.
pub open spec fn latest_time(s: Seq<Log>, service_id: u32) -> u64
    decreases s.len(),
{
    if s.len() == 0 {
        0
    } else if s.last().service_id == service_id {
        s.last().time
    } else {
        latest_time(s.drop_last(), service_id)
    }
}

proof fn lemma_latest_time_bound(s: Seq<Log>, service_id: u32)
    requires
        forall|i: int, j: int|
            0 <= i < j < s.len() && (#[trigger] s[i]).service_id == (
            #[trigger] s[j]).service_id ==> s[i].time <= s[j].time,
    ensures
        forall|i: int|
            0 <= i < s.len() && (#[trigger] s[i]).service_id == service_id ==> s[i].time
                <= latest_time(s, service_id),
    decreases s.len(),
{
    if s.len() > 0 {
        lemma_latest_time_bound(s.drop_last(), service_id);
        assert forall|i: int|
            0 <= i < s.len() && (#[trigger] s[i]).service_id == service_id implies s[i].time
            <= latest_time(s, service_id) by {
            if i < s.len() - 1 {
                assert(s.drop_last()[i] == s[i]);
                if s.last().service_id == service_id {
                    assert(s[i].time <= s.last().time);
                } else {
                    assert(s[i].time <= latest_time(s.drop_last(), service_id));
                }
            }
        }
    }
}

/// The log a store of the given length makes from a record.
pub open spec fn entry_of(len: nat, log: LogForCreate, now: u64) -> Log {
    Log {
        id: (len + 1) as i64,
        service_id: log.service_id,
        status: log.status,
        message: log.message,
        time: log.time_or(now),
        duration: log.duration,
    }
}

/// The store's contents after one insert.
pub open spec fn inserted(s: Seq<Log>, log: LogForCreate, now: u64) -> Seq<Log> {
    s.push(entry_of(s.len(), log, now))
}

/// Append-only log table. The log at index `i` has id `i + 1`; logs of one
/// service have non-decreasing times in insertion order.
pub struct LogStore {
    logs: Vec<Log>,
}

impl LogStore {
    /// The logs, in insertion order.
    pub closed spec fn view(&self) -> Seq<Log> {
        self.logs@
    }

    /// Dense ids, and times non-decreasing per service.
    pub open spec fn wf(&self) -> bool {
        &&& forall|i: int| 0 <= i < self@.len() ==> (#[trigger] self@[i]).id == i + 1
        &&& forall|i: int, j: int|
            0 <= i < j < self@.len() && (#[trigger] self@[i]).service_id == (
            #[trigger] self@[j]).service_id ==> self@[i].time <= self@[j].time
    }

    /// An empty log table.
    pub fn new() -> (r: Self)
        ensures
            r.wf(),
            r@.len() == 0,
    {
        LogStore { logs: Vec::new() }
    }

    /// Appends one record as a new row with the next dense id, never
    /// overwriting an existing row. Returns the number of rows inserted,
    /// which is always one.
    pub fn insert(&mut self, log: LogForCreate, now: u64) -> (r: u64)
        requires
            old(self).wf(),
            old(self)@.len() + 1 < i64::MAX,
            log.time_or(now) >= latest_time(old(self)@, log.service_id),
        ensures
            final(self).wf(),
            final(self)@ == inserted(old(self)@, log, now),
            r == 1,
    {
        proof {
            lemma_latest_time_bound(self@, log.service_id);
        }
        let time = match log.time {
            Some(t) => t,
            None => now,
        };
        let entry = Log {
            id: self.logs.len() as i64 + 1,
            service_id: log.service_id,
            status: log.status,
            message: log.message,
            time,
            duration: log.duration,
        };
        self.logs.push(entry);
        1
    }

    /// The time of the most recent log of the given service, or zero when
    /// the service has none. An insert may not go back before this.
    pub fn last_time_of(&self, service_id: u32) -> (r: u64)
        ensures
            r == latest_time(self@, service_id),
    {
        let n = self.logs.len();
        proof {
            assert(self@.take(n as int) == self@);
        }
        let mut i = n;
        while i > 0
            invariant
                i <= n,
                n == self@.len(),
                latest_time(self@, service_id) == latest_time(self@.take(i as int), service_id),
            decreases i,
        {
            i = i - 1;
            proof {
                assert(self@.take(i + 1).drop_last() == self@.take(i as int));
                assert(self@.take(i + 1).last() == self@[i as int]);
            }
            if self.logs[i].service_id == service_id {
                return self.logs[i].time;
            }
        }
        proof {
            assert(self@.take(0) =~= Seq::<Log>::empty());
        }
        0
    }

    /// All logs, most recent first: the reverse of insertion order, cut to
    /// `limit` rows (100 when none is given).
    pub fn list_all(&self, limit: Option<u32>) -> (r: Vec<Log>)
        ensures
            r@.len() == vstd::math::min(limit_or(limit, 100) as int, self@.len() as int),
            forall|t: int| 0 <= t < r@.len() ==> r@[t] == self@[self@.len() - 1 - t],
    {
        let lim = match limit {
            Some(l) => l,
            None => 100,
        };
        let n = self.logs.len();
        let k = if (lim as usize) < n {
            lim as usize
        } else {
            n
        };
        let mut out: Vec<Log> = Vec::new();
        for t in 0..k
            invariant
                k <= n,
                n == self@.len(),
                out@.len() == t,
                forall|u: int| 0 <= u < t ==> out@[u] == self@[self@.len() - 1 - u],
        {
            out.push(self.logs[n - 1 - t].clone());
        }
        out
    }

    /// The logs of one service, most recent first, cut to `limit` rows
    /// (100 when none is given).
    pub fn list(&self, service_id: u32, limit: Option<u32>) -> (r: Vec<Log>)
        ensures
            ({
                let f = self@.filter(|l: Log| l.service_id == service_id);
                &&& r@.len() == vstd::math::min(limit_or(limit, 100) as int, f.len() as int)
                &&& forall|t: int| 0 <= t < r@.len() ==> r@[t] == f[f.len() - 1 - t]
            }),
    {
        let lim = match limit {
            Some(l) => l,
            None => 100,
        };
        let n = self.logs.len();
        let mut filtered: Vec<Log> = Vec::new();
        for i in 0..n
            invariant
                n == self@.len(),
                filtered@ == self@.take(i as int).filter(|l: Log| l.service_id == service_id),
        {
            reveal_with_fuel(Seq::filter, 2);
            if self.logs[i].service_id == service_id {
                filtered.push(self.logs[i].clone());
            }
            assert(self@.take(i + 1).drop_last() == self@.take(i as int));
        }
        assert(self@.take(n as int) == self@);
        let m = filtered.len();
        let k = if (lim as usize) < m {
            lim as usize
        } else {
            m
        };
        let mut out: Vec<Log> = Vec::new();
        for t in 0..k
            invariant
                k <= m,
                m == filtered@.len(),
                out@.len() == t,
                forall|u: int| 0 <= u < t ==> out@[u] == filtered@[filtered@.len() - 1 - u],
        {
            out.push(filtered[m - 1 - t].clone());
        }
        out
    }
}

/// The UTC day (days since the Unix epoch) a log belongs to.
pub open spec fn log_date(l: Log) -> u64 {
    l.time / 86400
}

/// Whether a log takes part in incident aggregation: a status worse than
/// `Up`, on a service the table knows.
pub open spec fn counts_as_incident(l: Log, smax: nat) -> bool {
    l.status.is_incident_spec() && 1 <= l.service_id <= smax
}

/// What logs are grouped by: service, status, day.
pub open spec fn incident_key(l: Log) -> (u32, Status, u64) {
    (l.service_id, l.status, log_date(l))
}

/// The logs of one incident group, in insertion order.
pub open spec fn incident_group(logs: Seq<Log>, smax: nat, key: (u32, Status, u64)) -> Seq<
    Log,
> {
    logs.filter(|l: Log| counts_as_incident(l, smax) && incident_key(l) == key)
}

/// The messages the logs of `s` carry, in order, absent ones skipped.
pub open spec fn messages_of(s: Seq<Log>) -> Seq<Seq<char>>
    decreases s.len(),
{
    if s.len() == 0 {
        Seq::empty()
    } else {
        messages_of(s.drop_last()) + (match s.last().message {
            Some(m) => seq![m@],
            None => Seq::empty(),
        })
    }
}

/// `s` with every repetition of an earlier element dropped.
pub open spec fn dedup(s: Seq<Seq<char>>) -> Seq<Seq<char>>
    decreases s.len(),
{
    if s.len() == 0 {
        Seq::empty()
    } else if dedup(s.drop_last()).contains(s.last()) {
        dedup(s.drop_last())
    } else {
        dedup(s.drop_last()).push(s.last())
    }
}

/// The elements of `s` joined by `"; "`.
pub open spec fn join_semi(s: Seq<Seq<char>>) -> Seq<char>
    decreases s.len(),
{
    if s.len() == 0 {
        Seq::empty()
    } else if s.len() == 1 {
        s[0]
    } else {
        join_semi(s.drop_last()) + "; "@ + s.last()
    }
}

/// The views of a sequence of strings.
pub open spec fn views_of(v: Seq<String>) -> Seq<Seq<char>> {
    v.map_values(|x: String| x@)
}

/// An aggregated view over the incident logs of one service on one day:
/// how many there were, their deduplicated messages joined by `"; "`,
/// and when they started and ended.
pub struct Incident {
    pub service_id: u32,
    pub service_name: String,
    pub service_url: String,
    pub status: Status,
    pub date: u64,
    pub count: u32,
    pub messages: String,
    pub start: u64,
    pub end: u64,
}

impl Clone for Incident {
    fn clone(&self) -> (r: Self)
        ensures
            r == *self,
    {
        Incident {
            service_id: self.service_id,
            service_name: self.service_name.clone(),
            service_url: self.service_url.clone(),
            status: self.status,
            date: self.date,
            count: self.count,
            messages: self.messages.clone(),
            start: self.start,
            end: self.end,
        }
    }
}

/// The group an incident row stands for.
pub open spec fn inc_key(inc: Incident) -> (u32, Status, u64) {
    (inc.service_id, inc.status, inc.date)
}

/// Whether an incident row states exactly what its group's logs show:
/// the count of logs in the group, the first and last times, the joined
/// deduplicated messages, and the owning service's name and url.
pub open spec fn incident_fields_ok(inc: Incident, logs: Seq<Log>, services: Seq<Service>) -> bool {
    let g = incident_group(logs, services.len(), inc_key(inc));
    &&& g.len() >= 1
    &&& inc.count == g.len()
    &&& inc.start == g.first().time
    &&& inc.end == g.last().time
    &&& inc.messages@ == join_semi(dedup(messages_of(g)))
    &&& 1 <= inc.service_id <= services.len()
    &&& inc.service_name == services[inc.service_id - 1].name
    &&& inc.service_url == services[inc.service_id - 1].url
}

/// How each incident group changes when one more log is read: the log's
/// own group (if it is an incident on a known service) gains the log at
/// its end; every other group stands.
proof fn lemma_group_step(logs: Seq<Log>, i: int, smax: nat)
    requires
        0 <= i < logs.len(),
    ensures
        forall|k: (u32, Status, u64)|
            #[trigger] incident_group(logs.take(i + 1), smax, k) == if counts_as_incident(
                logs[i],
                smax,
            ) && incident_key(logs[i]) == k {
                incident_group(logs.take(i), smax, k).push(logs[i])
            } else {
                incident_group(logs.take(i), smax, k)
            },
{
    assert(logs.take(i + 1).drop_last() == logs.take(i));
    assert(logs.take(i + 1).last() == logs[i]);
    assert forall|k: (u32, Status, u64)|
        #[trigger] incident_group(logs.take(i + 1), smax, k) == if counts_as_incident(
            logs[i],
            smax,
        ) && incident_key(logs[i]) == k {
            incident_group(logs.take(i), smax, k).push(logs[i])
        } else {
            incident_group(logs.take(i), smax, k)
        } by {
        reveal_with_fuel(Seq::filter, 2);
    }
}


/// Every log of an incident group is one of the logs, an incident, and
/// in the group's key.
proof fn lemma_group_members(logs: Seq<Log>, smax: nat, key: (u32, Status, u64))
    ensures
        forall|x: Log|
            #[trigger] incident_group(logs, smax, key).contains(x) ==> logs.contains(x)
                && counts_as_incident(x, smax) && incident_key(x) == key,
    decreases logs.len(),
{
    reveal_with_fuel(Seq::filter, 2);
    if logs.len() > 0 {
        let prefix = logs.drop_last();
        lemma_group_members(prefix, smax, key);
        assert forall|x: Log| #[trigger] incident_group(logs, smax, key).contains(x) implies logs
            .contains(x) && counts_as_incident(x, smax) && incident_key(x) == key by {
            let g = incident_group(logs, smax, key);
            let gp = incident_group(prefix, smax, key);
            let w = choose|w: int| 0 <= w < g.len() && g[w] == x;
            if counts_as_incident(logs.last(), smax) && incident_key(logs.last()) == key {
                assert(g == gp.push(logs.last()));
                if w < g.len() - 1 {
                    assert(gp.contains(x)) by {
                        assert(gp[w] == g[w]);
                    }
                    let t = choose|t: int| 0 <= t < prefix.len() && prefix[t] == x;
                    assert(logs[t] == x);
                } else {
                    assert(x == logs.last());
                    assert(logs[logs.len() - 1] == x);
                }
            } else {
                assert(g == gp);
                assert(gp.contains(x));
                let t = choose|t: int| 0 <= t < prefix.len() && prefix[t] == x;
                assert(logs[t] == x);
            }
        }
    }
}

/// Whether one of the strings in `v` reads `m`.
fn contains_str(v: &Vec<String>, m: &String) -> (r: bool)
    ensures
        r == views_of(v@).contains(m@),
{
    let n = v.len();
    for t in 0..n
        invariant
            n == v@.len(),
            forall|u: int| 0 <= u < t ==> (#[trigger] v@[u])@ != m@,
    {
        if v[t] == *m {
            proof {
                assert(views_of(v@)[t as int] == v@[t as int]@);
            }
            return true;
        }
    }
    proof {
        assert forall|u: int| 0 <= u < views_of(v@).len() implies views_of(v@)[u] != m@ by {
            assert(views_of(v@)[u] == v@[u]@);
        }
    }
    false
}

/// The strings of `v` joined by `"; "`.
fn join_messages(v: &Vec<String>) -> (r: String)
    ensures
        r@ == join_semi(views_of(v@)),
{
    proof {
        reveal_strlit("; ");
    }
    let n = v.len();
    let mut out = String::new();
    for t in 0..n
        invariant
            n == v@.len(),
            out@ == join_semi(views_of(v@).take(t as int)),
    {
        proof {
            let vs = views_of(v@);
            assert(vs.take(t + 1).drop_last() == vs.take(t as int));
            assert(vs.take(t + 1).last() == vs[t as int]);
            assert(vs[t as int] == v@[t as int]@);
            if t == 0 {
                assert(vs.take(1)[0] == vs[0]);
            }
        }
        if t > 0 {
            out.append("; ");
        }
        out.append(v[t].as_str());
        proof {
            assert(out@ =~= join_semi(views_of(v@).take(t + 1)));
        }
    }
    proof {
        assert(views_of(v@).take(n as int) =~= views_of(v@));
    }
    out
}


/// The row of `acc` keyed by (service, status, day), if one is there.
fn find_group(acc: &Vec<Incident>, service_id: u32, status: Status, date: u64) -> (r: Option<
    usize,
>)
    ensures
        match r {
            Some(j) => j < acc@.len() && inc_key(acc@[j as int]) == (service_id, status, date),
            None => forall|jj: int|
                0 <= jj < acc@.len() ==> inc_key(#[trigger] acc@[jj]) != (
                service_id,
                status,
                date,
                ),
        },
{
    let n = acc.len();
    for j in 0..n
        invariant
            n == acc@.len(),
            forall|jj: int|
                0 <= jj < j ==> inc_key(#[trigger] acc@[jj]) != (service_id, status, date),
    {
        if acc[j].service_id == service_id && acc[j].status == status && acc[j].date == date {
            return Some(j);
        }
    }
    None
}

/// One grouping row and its message list agree with the logs read so far.
spec fn group_entry_ok(
    inc: Incident,
    ms: Vec<String>,
    logs_prefix: Seq<Log>,
    services: Seq<Service>,
) -> bool {
    let g = incident_group(logs_prefix, services.len(), inc_key(inc));
    &&& g.len() >= 1
    &&& inc.count == g.len()
    &&& inc.start == g.first().time
    &&& inc.end == g.last().time
    &&& views_of(ms@) == dedup(messages_of(g))
    &&& 1 <= inc.service_id <= services.len()
    &&& inc.service_name == services[inc.service_id - 1].name
    &&& inc.service_url == services[inc.service_id - 1].url
}

/// The grouping pass's state: rows and message lists agree with the
/// prefix, no two rows share a group, and every incident log read so far
/// has its row.
spec fn grouping_inv(
    acc: Seq<Incident>,
    msgs: Seq<Vec<String>>,
    logs: Seq<Log>,
    services: Seq<Service>,
    i: int,
) -> bool {
    &&& acc.len() == msgs.len()
    &&& forall|j: int|
        0 <= j < acc.len() ==> group_entry_ok(
            #[trigger] acc[j],
            msgs[j],
            logs.take(i),
            services,
        )
    &&& forall|p: int, q: int|
        0 <= p < q < acc.len() ==> inc_key(#[trigger] acc[p]) != inc_key(#[trigger] acc[q])
    &&& forall|t: int|
        0 <= t < i && counts_as_incident(#[trigger] logs[t], services.len()) ==> exists|j: int|
            0 <= j < acc.len() && inc_key(#[trigger] acc[j]) == incident_key(logs[t])
}

impl LogStore {
    /// The incident view: the incident logs (status worse than `Up`) of
    /// known services, grouped by service, status and day. Each returned
    /// row aggregates its whole group: count, first and last time, and
    /// the deduplicated messages joined by `"; "`. Rows come newest day
    /// first and no two rows describe the same group; at most `limit`
    /// rows (20 when none is given) are returned, and any cut below the
    /// number of groups keeps rows with the latest dates, ties aside.
    /// When the result is below the limit, every group is in it.
    pub fn incidents(&self, services: &ServiceStore, limit: Option<u32>) -> (r: Vec<Incident>)
        requires
            self.wf(),
            services.wf(),
            self@.len() < u32::MAX,
        ensures
            r@.len() <= limit_or(limit, 20),
            forall|p: int|
                0 <= p < r@.len() ==> incident_fields_ok(#[trigger] r@[p], self@, services@),
            forall|p: int, q: int|
                0 <= p < q < r@.len() ==> inc_key(#[trigger] r@[p]) != inc_key(
                    #[trigger] r@[q],
                ),
            forall|p: int, q: int|
                0 <= p < q < r@.len() ==> (#[trigger] r@[p]).date >= (#[trigger] r@[q]).date,
            r@.len() < limit_or(limit, 20) ==> (forall|k: (u32, Status, u64)|
                #[trigger] incident_group(self@, services@.len(), k).len() > 0 ==> exists|
                    p: int,
                |
                    0 <= p < r@.len() && inc_key(#[trigger] r@[p]) == k),
            forall|k: (u32, Status, u64), p: int|
                #[trigger] incident_group(self@, services@.len(), k).len() > 0 && 0 <= p
                    < r@.len() && !(exists|q: int|
                    0 <= q < r@.len() && inc_key(#[trigger] r@[q]) == k) ==> k.2 <= (
                #[trigger] r@[p]).date,
    {
        let n = self.logs.len();
        let mut acc: Vec<Incident> = Vec::new();
        let mut msgs: Vec<Vec<String>> = Vec::new();
        for i in 0..n
            invariant
                n == self@.len(),
                n < u32::MAX,
                self.wf(),
                services.wf(),
                grouping_inv(acc@, msgs@, self@, services@, i as int),
        {
            proof {
                lemma_group_step(self@, i as int, services@.len());
            }
            let ghost acc0 = acc@;
            let ghost msgs0 = msgs@;
            let l = self.logs[i].clone();
            let is_inc = l.status.is_incident();
            if is_inc {
                match services.get(l.service_id) {
                    Some(svc) => {
                        let ghost x = self@[i as int];
                        let ghost key = incident_key(x);
                        let date = l.time / 86400;
                        proof {
                            assert(counts_as_incident(x, services@.len()));
                        }
                        let ghost g_old = incident_group(
                            self@.take(i as int),
                            services@.len(),
                            key,
                        );
                        let ghost g_new = incident_group(
                            self@.take(i as int + 1),
                            services@.len(),
                            key,
                        );
                        proof {
                            assert(g_new == g_old.push(x));
                            assert(g_new.drop_last() == g_old);
                            assert(g_new.last() == x);
                            self@.take(i as int).lemma_filter_len(
                                |y: Log|
                                    counts_as_incident(y, services@.len()) && incident_key(y)
                                        == key,
                            );
                        }
                        match find_group(&acc, l.service_id, l.status, date) {
                            Some(j) => {
                                proof {
                                    assert(inc_key(acc@[j as int]) == key);
                                }
                                let o = acc[j].clone();
                                acc.set(
                                    j,
                                    Incident {
                                        service_id: o.service_id,
                                        service_name: o.service_name,
                                        service_url: o.service_url,
                                        status: o.status,
                                        date: o.date,
                                        count: o.count + 1,
                                        messages: o.messages,
                                        start: o.start,
                                        end: l.time,
                                    },
                                );
                                proof {
                                    assert(forall|jj: int|
                                        0 <= jj < acc@.len() ==> inc_key(#[trigger] acc@[jj])
                                            == inc_key(acc0[jj]));
                                }
                                match &l.message {
                                    Some(m) => {
                                        let ghost s0 = messages_of(g_old);
                                        proof {
                                            assert(messages_of(g_new) =~= s0.push(m@));
                                            assert(s0.push(m@).drop_last() == s0);
                                            assert(s0.push(m@).last() == m@);
                                        }
                                        if !contains_str(&msgs[j], m) {
                                            msgs[j].push(m.clone());
                                            proof {
                                                assert(views_of(msgs@[j as int]@) =~= dedup(
                                                    messages_of(g_new),
                                                ));
                                            }
                                        }
                                    },
                                    None => {
                                        proof {
                                            assert(messages_of(g_new) =~= messages_of(g_old));
                                        }
                                    },
                                }
                                proof {
                                    assert forall|jj: int|
                                        0 <= jj < acc@.len() implies group_entry_ok(
                                        #[trigger] acc@[jj],
                                        msgs@[jj],
                                        self@.take(i as int + 1),
                                        services@,
                                    ) by {
                                        if jj != j as int {
                                            assert(group_entry_ok(
                                                acc0[jj],
                                                msgs0[jj],
                                                self@.take(i as int),
                                                services@,
                                            ));
                                            assert(inc_key(acc0[jj]) != key);
                                            assert(acc@[jj] == acc0[jj]);
                                            assert(msgs@[jj] == msgs0[jj]);
                                        } else {
                                            assert(g_new.first() == g_old.first());
                                        }
                                    }
                                    assert forall|t: int|
                                        0 <= t < i + 1 && counts_as_incident(
                                            #[trigger] self@[t],
                                            services@.len(),
                                        ) implies exists|jj: int|
                                        0 <= jj < acc@.len() && inc_key(#[trigger] acc@[jj])
                                            == incident_key(self@[t]) by {
                                        if t == i as int {
                                            assert(inc_key(acc@[j as int]) == incident_key(
                                                self@[t],
                                            ));
                                        } else {
                                            let jj = choose|jj: int|
                                                0 <= jj < acc0.len() && inc_key(
                                                    #[trigger] acc0[jj],
                                                ) == incident_key(self@[t]);
                                            assert(inc_key(acc@[jj]) == incident_key(self@[t]));
                                        }
                                    }
                                }
                            },
                            None => {
                                proof {
                                    assert(g_old.len() == 0) by {
                                        if g_old.len() > 0 {
                                            lemma_group_members(
                                                self@.take(i as int),
                                                services@.len(),
                                                key,
                                            );
                                            assert(g_old.contains(g_old[0]));
                                            let w = g_old[0];
                                            let t = choose|t: int|
                                                0 <= t < i && self@.take(i as int)[t] == w;
                                            assert(self@[t] == w);
                                            assert(counts_as_incident(
                                                self@[t],
                                                services@.len(),
                                            ));
                                            let jj = choose|jj: int|
                                                0 <= jj < acc@.len() && inc_key(
                                                    #[trigger] acc@[jj],
                                                ) == incident_key(self@[t]);
                                            assert(false);
                                        }
                                    }
                                }
                                acc.push(
                                    Incident {
                                        service_id: l.service_id,
                                        service_name: svc.name,
                                        service_url: svc.url,
                                        status: l.status,
                                        date,
                                        count: 1,
                                        messages: String::new(),
                                        start: l.time,
                                        end: l.time,
                                    },
                                );
                                let mut ms: Vec<String> = Vec::new();
                                match &l.message {
                                    Some(m) => {
                                        ms.push(m.clone());
                                    },
                                    None => {},
                                }
                                msgs.push(ms);
                                proof {
                                    assert(g_new =~= seq![x]);
                                    assert(g_new.drop_last() =~= Seq::<Log>::empty());
                                    assert(messages_of(Seq::<Log>::empty())
                                        == Seq::<Seq<char>>::empty());
                                    assert(dedup(Seq::<Seq<char>>::empty())
                                        == Seq::<Seq<char>>::empty());
                                    match x.message {
                                        Some(m) => {
                                            assert(messages_of(g_new) =~= seq![m@]);
                                            assert(seq![m@].drop_last()
                                                =~= Seq::<Seq<char>>::empty());
                                            assert(dedup(seq![m@]) =~= seq![m@]);
                                            assert(views_of(msgs@.last()@) =~= seq![m@]);
                                        },
                                        None => {
                                            assert(messages_of(g_new)
                                                =~= Seq::<Seq<char>>::empty());
                                            assert(views_of(msgs@.last()@)
                                                =~= Seq::<Seq<char>>::empty());
                                        },
                                    }
                                    assert(inc_key(acc@.last()) == key);
                                    assert(group_entry_ok(
                                        acc@.last(),
                                        msgs@.last(),
                                        self@.take(i as int + 1),
                                        services@,
                                    ));
                                    assert forall|jj: int|
                                        0 <= jj < acc@.len() implies group_entry_ok(
                                        #[trigger] acc@[jj],
                                        msgs@[jj],
                                        self@.take(i as int + 1),
                                        services@,
                                    ) by {
                                        if jj < acc@.len() - 1 {
                                            assert(group_entry_ok(
                                                acc0[jj],
                                                msgs0[jj],
                                                self@.take(i as int),
                                                services@,
                                            ));
                                            assert(inc_key(acc0[jj]) != key);
                                            assert(acc@[jj] == acc0[jj]);
                                            assert(msgs@[jj] == msgs0[jj]);
                                        }
                                    }
                                    assert forall|t: int|
                                        0 <= t < i + 1 && counts_as_incident(
                                            #[trigger] self@[t],
                                            services@.len(),
                                        ) implies exists|jj: int|
                                        0 <= jj < acc@.len() && inc_key(#[trigger] acc@[jj])
                                            == incident_key(self@[t]) by {
                                        if t == i as int {
                                            assert(inc_key(acc@[acc@.len() - 1])
                                                == incident_key(self@[t]));
                                        } else {
                                            let jj = choose|jj: int|
                                                0 <= jj < acc0.len() && inc_key(
                                                    #[trigger] acc0[jj],
                                                ) == incident_key(self@[t]);
                                            assert(inc_key(acc@[jj]) == incident_key(self@[t]));
                                        }
                                    }
                                }
                            },
                        }
                    },
                    None => {},
                }
            }
            proof {
                if !(is_inc && 1 <= self@[i as int].service_id <= services@.len()) {
                    assert(!counts_as_incident(self@[i as int], services@.len()));
                    assert(acc@ == acc0 && msgs@ == msgs0);
                }
                assert(grouping_inv(acc@, msgs@, self@, services@, i as int + 1));
            }
        }
        proof {
            assert(self@.take(n as int) == self@);
        }
        // join each group's messages into its row
        let m = acc.len();
        let mut groups: Vec<Incident> = Vec::new();
        for j in 0..m
            invariant
                m == acc@.len(),
                msgs@.len() == m,
                grouping_inv(acc@, msgs@, self@, services@, n as int),
                n == self@.len(),
                self@.take(n as int) == self@,
                groups@.len() == j,
                forall|jj: int|
                    0 <= jj < j ==> incident_fields_ok(#[trigger] groups@[jj], self@, services@),
                forall|jj: int| 0 <= jj < j ==> inc_key(#[trigger] groups@[jj]) == inc_key(acc@[jj]),
        {
            let joined = join_messages(&msgs[j]);
            let o = acc[j].clone();
            groups.push(
                Incident {
                    service_id: o.service_id,
                    service_name: o.service_name,
                    service_url: o.service_url,
                    status: o.status,
                    date: o.date,
                    count: o.count,
                    messages: joined,
                    start: o.start,
                    end: o.end,
                },
            );
        }
        proof {
            assert forall|k: (u32, Status, u64)|
                #[trigger] incident_group(self@, services@.len(), k).len() > 0 implies exists|
                q: int,
            |
                0 <= q < groups@.len() && inc_key(#[trigger] groups@[q]) == k by {
                lemma_group_members(self@, services@.len(), k);
                let g = incident_group(self@, services@.len(), k);
                assert(g.contains(g[0]));
                let t = choose|t: int| 0 <= t < self@.len() && self@[t] == g[0];
                assert(self@.take(n as int)[t] == self@[t]);
                assert(counts_as_incident(self@[t], services@.len()));
                let j = choose|j: int|
                    0 <= j < acc@.len() && inc_key(#[trigger] acc@[j]) == incident_key(
                        self@[t],
                    );
                assert(incident_key(self@[t]) == k);
                assert(inc_key(groups@[j]) == k);
            }
            assert forall|p: int, q: int|
                0 <= p < q < groups@.len() implies inc_key(#[trigger] groups@[p]) != inc_key(
                #[trigger] groups@[q],
            ) by {
                assert(inc_key(groups@[p]) == inc_key(acc@[p]));
                assert(inc_key(groups@[q]) == inc_key(acc@[q]));
            }
        }
        // hand out the groups newest day first, up to the limit
        let lim = match limit {
            Some(v) => v,
            None => 20,
        };
        let mut rem = groups;
        let mut out: Vec<Incident> = Vec::new();
        while out.len() < lim as usize && rem.len() > 0
            invariant
                out@.len() <= lim,
                forall|p: int|
                    0 <= p < out@.len() ==> incident_fields_ok(#[trigger] out@[p], self@, services@),
                forall|p: int|
                    0 <= p < rem@.len() ==> incident_fields_ok(#[trigger] rem@[p], self@, services@),
                forall|p: int, q: int|
                    0 <= p < q < out@.len() ==> inc_key(#[trigger] out@[p]) != inc_key(
                        #[trigger] out@[q],
                    ),
                forall|p: int, q: int|
                    0 <= p < q < rem@.len() ==> inc_key(#[trigger] rem@[p]) != inc_key(
                        #[trigger] rem@[q],
                    ),
                forall|p: int, q: int|
                    0 <= p < out@.len() && 0 <= q < rem@.len() ==> inc_key(#[trigger] out@[p])
                        != inc_key(#[trigger] rem@[q]),
                forall|p: int, q: int|
                    0 <= p < q < out@.len() ==> (#[trigger] out@[p]).date >= (
                    #[trigger] out@[q]).date,
                forall|p: int, q: int|
                    0 <= p < out@.len() && 0 <= q < rem@.len() ==> (#[trigger] out@[p]).date
                        >= (#[trigger] rem@[q]).date,
                forall|k: (u32, Status, u64)|
                    #[trigger] incident_group(self@, services@.len(), k).len() > 0 ==> (exists|
                        p: int,
                    |
                        0 <= p < out@.len() && inc_key(#[trigger] out@[p]) == k) || (exists|
                        q: int,
                    |
                        0 <= q < rem@.len() && inc_key(#[trigger] rem@[q]) == k),
            decreases rem@.len(),
        {
            let mut best: usize = 0;
            let rl = rem.len();
            for t in 1..rl
                invariant
                    rl == rem@.len(),
                    best < t <= rl,
                    forall|u: int| 0 <= u < t ==> (#[trigger] rem@[u]).date <= rem@[best as int].date,
            {
                if rem[t].date > rem[best].date {
                    best = t;
                }
            }
            let ghost rem0 = rem@;
            let ghost out0 = out@;
            let chosen = rem.swap_remove(best);
            out.push(chosen);
            proof {
                assert(out@ == out0.push(chosen));
                assert(chosen == rem0[best as int]);
                assert(forall|p: int| 0 <= p < out0.len() ==> #[trigger] out@[p] == out0[p]);
                assert forall|q: int| 0 <= q < rem@.len() implies incident_fields_ok(
                    #[trigger] rem@[q],
                    self@,
                    services@,
                ) && inc_key(out@.last()) != inc_key(rem@[q]) && out@.last().date >= rem@[
                    q
                ].date by {
                    if q == best as int {
                        assert(rem@[q] == rem0.last());
                    } else {
                        assert(rem@[q] == rem0[q]);
                    }
                }
                assert forall|p: int, q: int|
                    0 <= p < q < rem@.len() implies inc_key(#[trigger] rem@[p]) != inc_key(
                    #[trigger] rem@[q],
                ) by {
                    let p0: int = if p == best as int {
                        rem0.len() - 1
                    } else {
                        p
                    };
                    let q0: int = if q == best as int {
                        rem0.len() - 1
                    } else {
                        q
                    };
                    assert(rem@[p] == rem0[p0]);
                    assert(rem@[q] == rem0[q0]);
                    assert(p0 != q0);
                }
                assert forall|k: (u32, Status, u64)|
                    #[trigger] incident_group(self@, services@.len(), k).len() > 0 implies (exists|
                        p: int,
                    |
                        0 <= p < out@.len() && inc_key(#[trigger] out@[p]) == k) || (exists|
                        q: int,
                    |
                        0 <= q < rem@.len() && inc_key(#[trigger] rem@[q]) == k) by {
                    if exists|p: int| 0 <= p < out0.len() && inc_key(#[trigger] out0[p]) == k {
                        let p = choose|p: int|
                            0 <= p < out0.len() && inc_key(#[trigger] out0[p]) == k;
                        assert(inc_key(out@[p]) == k);
                    } else {
                        let q = choose|q: int|
                            0 <= q < rem0.len() && inc_key(#[trigger] rem0[q]) == k;
                        if q == best as int {
                            assert(out@.last() == chosen);
                            assert(inc_key(out@[out@.len() - 1]) == k);
                        } else if q == rem0.len() - 1 {
                            assert(best as int != rem0.len() - 1);
                            assert((best as int) < rem@.len());
                            assert(rem@[best as int] == rem0.last());
                            assert(inc_key(rem@[best as int]) == k);
                        } else {
                            assert(0 <= q < rem@.len());
                            assert(rem@[q] == rem0[q]);
                            assert(inc_key(rem@[q]) == k);
                        }
                    }
                }
            }
        }
        out
    }
}

/// The given limit, or the default when none was given.
pub open spec fn limit_or(limit: Option<u32>, default: u32) -> u32 {
    if limit is Some {
        limit.unwrap()
    } else {
        default
    }
}

/// Logs of one service are time-ordered by id: of two logs of the same
/// service, the one with the smaller id has the earlier (or equal) time.
pub proof fn lemma_log_times_follow_ids(store: &LogStore, i: int, j: int)
    requires
        store.wf(),
        0 <= i < store@.len(),
        0 <= j < store@.len(),
        store@[i].service_id == store@[j].service_id,
        store@[i].id < store@[j].id,
    ensures
        store@[i].time <= store@[j].time,
{
}

/// Inserting the same record twice appends two distinct rows with distinct
/// ids; the rows already in the store are untouched.
pub proof fn lemma_insert_append_only(s: Seq<Log>, log: LogForCreate, n1: u64, n2: u64)
    requires
        s.len() + 2 < i64::MAX,
    ensures
        ({
            let s2 = inserted(inserted(s, log, n1), log, n2);
            &&& s2.len() == s.len() + 2
            &&& s2.subrange(0, s.len() as int) == s
            &&& s2[s.len() as int].id != s2[s.len() as int + 1].id
            &&& s2[s.len() as int].service_id == log.service_id
            &&& s2[s.len() as int + 1].service_id == log.service_id
            &&& s2[s.len() as int].status == log.status
            &&& s2[s.len() as int + 1].status == log.status
        }),
{
    let s1 = inserted(s, log, n1);
    let s2 = inserted(s1, log, n2);
    assert(s2.subrange(0, s.len() as int) =~= s);
}

} // verus!
