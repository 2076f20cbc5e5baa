//! Probe drivers: the classification of one ping or HTTP attempt into a
//! canonical outcome record, and the worker step that runs it through the
//! transition engine. The network I/O itself happens outside; the driver
//! logic takes what came back as a plain value and is verified for every
//! such value.

use vstd::prelude::*;

use crate::bus::EventBus;
use crate::jsonfmt::{dec_rep, opt_view};
use crate::log::{latest_time, LogForCreate, LogStore};
use crate::service::{Service, ServiceStore};
use crate::status::{Level, ServiceType, Status};
use crate::transition::{apply_probe, matches_transition, transition_spec, with_last_status};
use crate::ws::{Event, Notification};

verus! {

/// The canonical text of the JSON value written in `s`, or nothing when
/// `s` is not JSON. Two texts denote equal JSON values exactly when their
/// canonical texts are equal.
pub uninterp spec fn json_canon(s: Seq<char>) -> Option<Seq<char>>;

/// Relies on `serde_json::from_str::<Value>` and `serde_json::Value`'s
/// `to_string`: parsing depends on the text alone, fails exactly on
/// malformed JSON, and printing a parsed value writes equal values the
/// same way, which makes the composition a canonical form.
#[verifier::external_body]
fn canonical_json(s: &str) -> (r: Option<String>)
    ensures
        opt_view(r) == json_canon(s@),
{
    match serde_json::from_str::<serde_json::Value>(s) {
        Ok(v) => Some(v.to_string()),
        Err(_) => None,
    }
}

/// Whether `expected` and `body` are both JSON texts for one and the same
/// JSON value.
pub open spec fn payload_matches_spec(expected: Seq<char>, body: Seq<char>) -> bool {
    &&& json_canon(expected) is Some
    &&& json_canon(body) is Some
    &&& json_canon(expected) == json_canon(body)
}

/// Whether the response body is JSON equal to the expected template.
pub fn payload_matches(expected: &str, body: &str) -> (r: bool)
    ensures
        r == payload_matches_spec(expected@, body@),
{
    let ce = canonical_json(expected);
    let cb = canonical_json(body);
    match (ce, cb) {
        (Some(a), Some(b)) => a == b,
        _ => false,
    }
}

/// What one ICMP ping attempt came to, as the driver logic reads it.
pub enum PingAttempt {
    /// The service's url is not an IP address literal; no probe was sent.
    InvalidAddress,
    /// An echo reply arrived within the timeout, after `rtt` milliseconds.
    Reply { rtt: u32 },
    /// The OS refused the probe (privileges, network unreachable).
    OsError { message: String },
    /// Any other failure: a timeout, an unreachable host.
    Error { message: String },
}

/// What one HTTP GET attempt came to, as the driver logic reads it.
pub enum HttpAttempt {
    /// A response arrived; its status code and body text.
    Response { code: u16, body: String },
    /// The request ended in a status-category error with this code.
    StatusError { code: u16 },
    /// The connection could not be established.
    ConnectError { message: String },
    /// Any other failure: a timeout, a malformed response.
    Error { message: String },
}

/// `Up` and `Down` swapped when the service inverts its probes; other
/// statuses stand.
pub open spec fn flip_if(invert: bool, st: Status) -> Status {
    if !invert {
        st
    } else if st == Status::Up {
        Status::Down
    } else if st == Status::Down {
        Status::Up
    } else {
        st
    }
}

/// The status of one ping attempt, before inversion: a zero timeout is
/// always `Down`; a malformed address and an OS error are `Failed`; a
/// reply is `Up`; anything else is `Down`.
pub open spec fn ping_base_status(svc: Service, attempt: PingAttempt) -> Status {
    if svc.timeout == 0 {
        Status::Down
    } else {
        match attempt {
            PingAttempt::InvalidAddress => Status::Failed,
            PingAttempt::Reply { .. } => Status::Up,
            PingAttempt::OsError { .. } => Status::Failed,
            PingAttempt::Error { .. } => Status::Down,
        }
    }
}

/// The status a ping probe records, inversion applied.
pub open spec fn ping_status(svc: Service, attempt: PingAttempt) -> Status {
    flip_if(svc.invert, ping_base_status(svc, attempt))
}

/// The message a ping probe records.
pub open spec fn ping_message(svc: Service, attempt: PingAttempt) -> Option<Seq<char>> {
    if svc.timeout == 0 {
        Some("timeout"@)
    } else {
        match attempt {
            PingAttempt::InvalidAddress => Some("malformed IP address"@),
            PingAttempt::Reply { .. } => None,
            PingAttempt::OsError { message } => Some(message@),
            PingAttempt::Error { message } => Some(message@),
        }
    }
}

/// The duration a ping probe records: the round trip of a reply, else zero.
pub open spec fn ping_duration(svc: Service, attempt: PingAttempt) -> u32 {
    if svc.timeout == 0 {
        0
    } else {
        match attempt {
            PingAttempt::Reply { rtt } => rtt,
            _ => 0,
        }
    }
}

/// Whether a ping attempt raises the operator alarm: only an OS error on
/// a probe that actually ran.
pub open spec fn ping_notifies(svc: Service, attempt: PingAttempt) -> bool {
    svc.timeout != 0 && attempt is OsError
}

/// The alarm's message text for an error `m`.
pub open spec fn network_error_message(m: Seq<char>) -> Seq<char> {
    "Error: "@ + m
}

/// Whether `n` is the operator alarm for the error text `m`: level
/// `error`, title `Network Error`.
pub open spec fn is_network_error_note(n: Notification, m: Seq<char>) -> bool {
    &&& n.level == Level::Error
    &&& n.title@ == "Network Error"@
    &&& n.message@ == network_error_message(m)
}

/// A probe outcome as a driver hands it over: the record to log, and the
/// operator alarm when the failure was the machine's rather than the
/// service's.
pub struct ProbeReport {
    pub entry: LogForCreate,
    pub notification: Option<Notification>,
}

fn network_error_note(message: &str) -> (r: Notification)
    ensures
        is_network_error_note(r, message@),
{
    Notification {
        title: String::from_str("Network Error"),
        message: String::from_str("Error: ").concat(message),
        level: Level::Error,
    }
}

/// One ping probe of `svc`, given what the ICMP attempt came to and the
/// probe's start time. The record carries the status, message and
/// duration prescribed for the attempt; the operator alarm comes exactly
/// with an OS error.
pub fn ping(svc: &Service, attempt: PingAttempt, time: u64) -> (r: ProbeReport)
    ensures
        r.entry.service_id == svc.id,
        r.entry.status == ping_status(*svc, attempt),
        opt_view(r.entry.message) == ping_message(*svc, attempt),
        r.entry.time == Some(time),
        r.entry.duration == ping_duration(*svc, attempt),
        match r.notification {
            Some(n) => ping_notifies(*svc, attempt) && (attempt matches PingAttempt::OsError {
                message,
            } && is_network_error_note(n, message@)),
            None => !ping_notifies(*svc, attempt),
        },
{
    if svc.timeout == 0 {
        return ProbeReport {
            entry: LogForCreate {
                service_id: svc.id,
                status: if svc.invert {
                    Status::Up
                } else {
                    Status::Down
                },
                message: Some(String::from_str("timeout")),
                time: Some(time),
                duration: 0,
            },
            notification: None,
        };
    }
    match attempt {
        PingAttempt::InvalidAddress => ProbeReport {
            entry: LogForCreate {
                service_id: svc.id,
                status: Status::Failed,
                message: Some(String::from_str("malformed IP address")),
                time: Some(time),
                duration: 0,
            },
            notification: None,
        },
        PingAttempt::Reply { rtt } => ProbeReport {
            entry: LogForCreate {
                service_id: svc.id,
                status: if svc.invert {
                    Status::Down
                } else {
                    Status::Up
                },
                message: None,
                time: Some(time),
                duration: rtt,
            },
            notification: None,
        },
        PingAttempt::OsError { message } => {
            let note = network_error_note(message.as_str());
            ProbeReport {
                entry: LogForCreate {
                    service_id: svc.id,
                    status: Status::Failed,
                    message: Some(message),
                    time: Some(time),
                    duration: 0,
                },
                notification: Some(note),
            }
        },
        PingAttempt::Error { message } => ProbeReport {
            entry: LogForCreate {
                service_id: svc.id,
                status: if svc.invert {
                    Status::Up
                } else {
                    Status::Down
                },
                message: Some(message),
                time: Some(time),
                duration: 0,
            },
            notification: None,
        },
    }
}

/// The HTTP status code a status-category error is held against: the
/// configured `expected_code`, or 200 when none is set.
pub open spec fn expected_code_or_default(svc: Service) -> u16 {
    if svc.expected_code is Some {
        svc.expected_code.unwrap()
    } else {
        200
    }
}

/// The status of one HTTP attempt, before inversion: a zero timeout is
/// always `Down`; a response is `Up` unless an expected payload is set
/// and the body does not match it as JSON; a status-category error is
/// `Up` exactly when its code is the expected one; everything else is
/// `Down`.
pub open spec fn http_base_status(svc: Service, attempt: HttpAttempt) -> Status {
    if svc.timeout == 0 {
        Status::Down
    } else {
        match attempt {
            HttpAttempt::Response { code, body } => {
                if svc.expected_payload is None {
                    Status::Up
                } else if payload_matches_spec(svc.expected_payload.unwrap()@, body@) {
                    Status::Up
                } else {
                    Status::Down
                }
            },
            HttpAttempt::StatusError { code } => {
                if code == expected_code_or_default(svc) {
                    Status::Up
                } else {
                    Status::Down
                }
            },
            HttpAttempt::ConnectError { .. } => Status::Down,
            HttpAttempt::Error { .. } => Status::Down,
        }
    }
}

/// The status an HTTP probe records, inversion applied.
pub open spec fn http_status(svc: Service, attempt: HttpAttempt) -> Status {
    flip_if(svc.invert, http_base_status(svc, attempt))
}

/// The message an HTTP probe records: the expected-versus-got text on a
/// payload mismatch, the code on an unexpected status error, the error
/// text otherwise.
pub open spec fn http_message(svc: Service, attempt: HttpAttempt) -> Option<Seq<char>> {
    if svc.timeout == 0 {
        Some("timeout"@)
    } else {
        match attempt {
            HttpAttempt::Response { code, body } => {
                if svc.expected_payload is None {
                    None
                } else if payload_matches_spec(svc.expected_payload.unwrap()@, body@) {
                    None
                } else {
                    Some("Expected: "@ + svc.expected_payload.unwrap()@ + " Got: "@ + body@)
                }
            },
            HttpAttempt::StatusError { code } => {
                if code == expected_code_or_default(svc) {
                    None
                } else {
                    Some("status code "@ + dec_rep(code as nat))
                }
            },
            HttpAttempt::ConnectError { message } => Some(message@),
            HttpAttempt::Error { message } => Some(message@),
        }
    }
}

/// Whether an HTTP attempt raises the operator alarm: only a connect
/// error on a probe that actually ran.
pub open spec fn http_notifies(svc: Service, attempt: HttpAttempt) -> bool {
    svc.timeout != 0 && attempt is ConnectError
}

/// One HTTP GET probe of `svc`, given what the attempt came to, the
/// elapsed milliseconds (recorded whatever the outcome), and the probe's
/// start time. The operator alarm comes exactly with a connect error.
pub fn get(svc: &Service, attempt: HttpAttempt, duration: u32, time: u64) -> (r: ProbeReport)
    ensures
        r.entry.service_id == svc.id,
        r.entry.status == http_status(*svc, attempt),
        opt_view(r.entry.message) == http_message(*svc, attempt),
        r.entry.time == Some(time),
        r.entry.duration == if svc.timeout == 0 {
            0u32
        } else {
            duration
        },
        match r.notification {
            Some(n) => http_notifies(*svc, attempt) && (attempt
                matches HttpAttempt::ConnectError { message } && is_network_error_note(
                n,
                message@,
            )),
            None => !http_notifies(*svc, attempt),
        },
{
    if svc.timeout == 0 {
        return ProbeReport {
            entry: LogForCreate {
                service_id: svc.id,
                status: if svc.invert {
                    Status::Up
                } else {
                    Status::Down
                },
                message: Some(String::from_str("timeout")),
                time: Some(time),
                duration: 0,
            },
            notification: None,
        };
    }
    match attempt {
        HttpAttempt::Response { code, body } => {
            let (st, msg): (Status, Option<String>) = match &svc.expected_payload {
                None => (Status::Up, None),
                Some(tmpl) => {
                    if payload_matches(tmpl.as_str(), body.as_str()) {
                        (Status::Up, None)
                    } else {
                        let m = String::from_str("Expected: ").concat(tmpl.as_str()).concat(
                            " Got: ",
                        ).concat(body.as_str());
                        (Status::Down, Some(m))
                    }
                },
            };
            ProbeReport {
                entry: LogForCreate {
                    service_id: svc.id,
                    status: if svc.invert {
                        flip_status(st)
                    } else {
                        st
                    },
                    message: msg,
                    time: Some(time),
                    duration,
                },
                notification: None,
            }
        },
        HttpAttempt::StatusError { code } => {
            let expected = match svc.expected_code {
                Some(c) => c,
                None => 200,
            };
            let (st, msg): (Status, Option<String>) = if code == expected {
                (Status::Up, None)
            } else {
                let m = String::from_str("status code ").concat(
                    crate::jsonfmt::u64_to_dec(code as u64).as_str(),
                );
                (Status::Down, Some(m))
            };
            ProbeReport {
                entry: LogForCreate {
                    service_id: svc.id,
                    status: if svc.invert {
                        flip_status(st)
                    } else {
                        st
                    },
                    message: msg,
                    time: Some(time),
                    duration,
                },
                notification: None,
            }
        },
        HttpAttempt::ConnectError { message } => {
            let note = network_error_note(message.as_str());
            ProbeReport {
                entry: LogForCreate {
                    service_id: svc.id,
                    status: if svc.invert {
                        Status::Up
                    } else {
                        Status::Down
                    },
                    message: Some(message),
                    time: Some(time),
                    duration,
                },
                notification: Some(note),
            }
        },
        HttpAttempt::Error { message } => ProbeReport {
            entry: LogForCreate {
                service_id: svc.id,
                status: if svc.invert {
                    Status::Up
                } else {
                    Status::Down
                },
                message: Some(message),
                time: Some(time),
                duration,
            },
            notification: None,
        },
    }
}

/// `Up` and `Down` swapped; other statuses stand.
fn flip_status(st: Status) -> (r: Status)
    ensures
        r == flip_if(true, st),
{
    match st {
        Status::Up => Status::Down,
        Status::Down => Status::Up,
        other => other,
    }
}

/// One probe attempt of either kind, with the measured elapsed
/// milliseconds for HTTP.
pub enum ProbeAttempt {
    Ping(PingAttempt),
    Http { attempt: HttpAttempt, duration: u32 },
}

/// The attempt kind a service's configured probe type calls for.
pub open spec fn attempt_matches_type(a: ProbeAttempt, t: ServiceType) -> bool {
    match a {
        ProbeAttempt::Ping(..) => t == ServiceType::Ping,
        ProbeAttempt::Http { .. } => t == ServiceType::Http,
    }
}

/// The status one probe attempt records.
pub open spec fn probe_status(svc: Service, a: ProbeAttempt) -> Status {
    match a {
        ProbeAttempt::Ping(p) => ping_status(svc, p),
        ProbeAttempt::Http { attempt, .. } => http_status(svc, attempt),
    }
}

/// The message one probe attempt records.
pub open spec fn probe_message(svc: Service, a: ProbeAttempt) -> Option<Seq<char>> {
    match a {
        ProbeAttempt::Ping(p) => ping_message(svc, p),
        ProbeAttempt::Http { attempt, .. } => http_message(svc, attempt),
    }
}

/// The duration one probe attempt records.
pub open spec fn probe_duration(svc: Service, a: ProbeAttempt) -> u32 {
    match a {
        ProbeAttempt::Ping(p) => ping_duration(svc, p),
        ProbeAttempt::Http { attempt, duration } => if svc.timeout == 0 {
            0
        } else {
            duration
        },
    }
}

/// Whether one probe attempt raises the operator alarm.
pub open spec fn probe_notifies(svc: Service, a: ProbeAttempt) -> bool {
    match a {
        ProbeAttempt::Ping(p) => ping_notifies(svc, p),
        ProbeAttempt::Http { attempt, .. } => http_notifies(svc, attempt),
    }
}

/// The error text behind the operator alarm, where one is raised.
pub open spec fn probe_error_text(svc: Service, a: ProbeAttempt) -> Seq<char> {
    match a {
        ProbeAttempt::Ping(PingAttempt::OsError { message }) => message@,
        ProbeAttempt::Http { attempt: HttpAttempt::ConnectError { message }, .. } => message@,
        _ => Seq::empty(),
    }
}

/// One worker step for a leased probe task: runs the driver logic on
/// what the attempt came to, publishes the operator alarm if the attempt
/// raised one, then the log event, then the transition notification if
/// the status transition prescribes one, and persists the new status
/// together with exactly one new log row.
pub fn job_monitor(
    services: &mut ServiceStore,
    logs: &mut LogStore,
    bus: &mut EventBus,
    job: &Service,
    attempt: ProbeAttempt,
    now: u64,
)
    requires
        attempt_matches_type(attempt, job.service_type),
        old(services).wf(),
        old(logs).wf(),
        1 <= job.id <= old(services)@.len(),
        old(logs)@.len() + 1 < i64::MAX,
        now >= latest_time(old(logs)@, job.id),
    ensures
        final(services).wf(),
        final(logs).wf(),
        final(bus).cap() == old(bus).cap(),
        old(bus).wf() ==> final(bus).wf(),
        ({
            let st = probe_status(*job, attempt);
            let k = old(bus)@.len() as int;
            let nn: int = if probe_notifies(*job, attempt) {
                1
            } else {
                0
            };
            let tn: int = if transition_spec(job.last_status, st, job.name@) is Some {
                1
            } else {
                0
            };
            &&& final(logs)@.len() == old(logs)@.len() + 1
            &&& final(logs)@.subrange(0, old(logs)@.len() as int) == old(logs)@
            &&& ({
                let l = final(logs)@.last();
                &&& l.id == old(logs)@.len() + 1
                &&& l.service_id == job.id
                &&& l.status == st
                &&& opt_view(l.message) == probe_message(*job, attempt)
                &&& l.time == now
                &&& l.duration == probe_duration(*job, attempt)
            })
            &&& final(services)@ == old(services)@.update(
                job.id - 1,
                with_last_status(old(services)@[job.id - 1], st),
            )
            &&& final(bus)@.len() == k + nn + 1 + tn
            &&& final(bus)@.subrange(0, k) == old(bus)@
            &&& (probe_notifies(*job, attempt) ==> match final(bus)@[k] {
                Event::Notification(n) => is_network_error_note(
                    n,
                    probe_error_text(*job, attempt),
                ),
                _ => false,
            })
            &&& (match final(bus)@[k + nn] {
                Event::Log(l) => {
                    &&& l.service_id == job.id
                    &&& l.status == st
                    &&& opt_view(l.message) == probe_message(*job, attempt)
                    &&& l.time == Some(now)
                    &&& l.duration == probe_duration(*job, attempt)
                },
                _ => false,
            })
            &&& (transition_spec(job.last_status, st, job.name@) matches Some(p)
                ==> match final(bus)@.last() {
                Event::Notification(n) => matches_transition(n, p),
                _ => false,
            })
        }),
{
    let ghost bus0 = bus@;
    let report = match attempt {
        ProbeAttempt::Ping(p) => ping(job, p, now),
        ProbeAttempt::Http { attempt: a, duration } => get(job, a, duration, now),
    };
    let ghost note = report.notification;
    match report.notification {
        Some(n) => {
            bus.publish(Event::Notification(n));
        },
        None => {},
    }
    let ghost bus1 = bus@;
    let ghost logs0 = logs@;
    proof {
        assert(bus1.subrange(0, bus0.len() as int) =~= bus0);
    }
    apply_probe(services, logs, bus, job, report.entry, now);
    proof {
        let st = probe_status(*job, attempt);
        let k = bus0.len() as int;
        let has_note = probe_notifies(*job, attempt);
        assert(logs@.subrange(0, logs0.len() as int) =~= logs0);
        if transition_spec(job.last_status, st, job.name@) is Some {
            assert(bus@.subrange(0, bus1.len() as int) == bus1);
            assert(forall|i: int|
                0 <= i < bus1.len() ==> bus@.subrange(0, bus1.len() as int)[i] == bus@[i]);
        } else {
            assert(bus@ == bus1.push(Event::Log(report.entry)));
        }
        assert(forall|i: int| 0 <= i < bus1.len() ==> bus@[i] == bus1[i]);
        assert(bus@.subrange(0, k) =~= bus0);
        if has_note {
            assert(bus1 == bus0.push(Event::Notification(note.unwrap())));
            assert(bus@[k] == bus1[k]);
            assert(bus1[k] == Event::Notification(note.unwrap()));
        }
        assert(bus@[bus1.len() as int] == Event::Log(report.entry));
    }
}

/// A probe of a service with a zero timeout always records `Down`, in
/// the same tick, whatever the attempt came to (stated for services that
/// do not invert their probes).
pub proof fn lemma_zero_timeout_down(svc: Service, attempt: ProbeAttempt)
    requires
        svc.timeout == 0,
        !svc.invert,
    ensures
        probe_status(svc, attempt) == Status::Down,
{
}

/// An HTTP response whose body is JSON equal to the expected payload
/// records `Up` with no message (stated for services that do not invert
/// their probes).
pub proof fn lemma_matching_payload_up(svc: Service, attempt: HttpAttempt)
    requires
        svc.timeout >= 1,
        !svc.invert,
        match (svc.expected_payload, attempt) {
            (Some(tmpl), HttpAttempt::Response { code, body }) => payload_matches_spec(
                tmpl@,
                body@,
            ),
            _ => false,
        },
    ensures
        http_status(svc, attempt) == Status::Up,
        http_message(svc, attempt) is None,
{
}

/// What an HTTP attempt observably is: its variant, code and text.
pub open spec fn http_attempt_obs(a: HttpAttempt) -> (int, u16, Seq<char>) {
    match a {
        HttpAttempt::Response { code, body } => (0int, code, body@),
        HttpAttempt::StatusError { code } => (1int, code, Seq::empty()),
        HttpAttempt::ConnectError { message } => (2int, 0u16, message@),
        HttpAttempt::Error { message } => (3int, 0u16, message@),
    }
}

/// Probing is idempotent in outcome: two attempts that came to the same
/// observable result record the same status and the same message.
pub proof fn lemma_probe_idempotent(svc: Service, a1: HttpAttempt, a2: HttpAttempt)
    requires
        http_attempt_obs(a1) == http_attempt_obs(a2),
    ensures
        http_status(svc, a1) == http_status(svc, a2),
        http_message(svc, a1) == http_message(svc, a2),
{
    match (a1, a2) {
        (HttpAttempt::Response { code: c1, body: b1 }, HttpAttempt::Response {
            code: c2,
            body: b2,
        }) => {
            assert(c1 == c2 && b1@ == b2@);
        },
        (HttpAttempt::StatusError { code: c1 }, HttpAttempt::StatusError { code: c2 }) => {
            assert(c1 == c2);
        },
        (HttpAttempt::ConnectError { message: m1 }, HttpAttempt::ConnectError {
            message: m2,
        }) => {
            assert(m1@ == m2@);
        },
        (HttpAttempt::Error { message: m1 }, HttpAttempt::Error { message: m2 }) => {
            assert(m1@ == m2@);
        },
        _ => {
            assert(false);
        },
    }
}


} // verus!
