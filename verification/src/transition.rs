//! The status-transition engine: compares a service's previous status
//! with a fresh probe outcome, publishes the log event and at most one
//! notification, then persists the new status and the log row together.

use vstd::prelude::*;

use crate::bus::EventBus;
use crate::log::{inserted, latest_time, LogForCreate, LogStore};
use crate::service::{Service, ServiceStore};
use crate::status::{Level, Status};
use crate::ws::{Event, Notification};

verus! {

/// Body of the notification sent when a service comes back up.
pub open spec fn back_up_message(name: Seq<char>) -> Seq<char> {
    "Service "@ + name + " back Up"@
}

/// Body of the notification sent when a service goes down.
pub open spec fn down_message(name: Seq<char>) -> Seq<char> {
    "Service "@ + name + " is Down"@
}

/// Body of the notification sent when a service recovers from an
/// internal failure.
pub open spec fn check_success_message(name: Seq<char>) -> Seq<char> {
    "Service "@ + name + " check success"@
}

/// The notification a transition prescribes, as (level, title, message):
/// down-to-up, up-to-down, and failed-to-either each notify once; every
/// other pair of statuses notifies nothing.
pub open spec fn transition_spec(prev: Status, new: Status, name: Seq<char>) -> Option<
    (Level, Seq<char>, Seq<char>),
> {
    match (prev, new) {
        (Status::Down, Status::Up) => Some(
            (Level::Success, "Back Up"@, back_up_message(name)),
        ),
        (Status::Up, Status::Down) => Some(
            (Level::Warning, "Service Down"@, down_message(name)),
        ),
        (Status::Failed, Status::Up) => Some(
            (Level::Info, "Monitor Success"@, check_success_message(name)),
        ),
        (Status::Failed, Status::Down) => Some(
            (Level::Info, "Monitor Success"@, check_success_message(name)),
        ),
        _ => None,
    }
}

/// Whether a notification `n` is the one `transition_spec` prescribes.
pub open spec fn matches_transition(
    n: Notification,
    prescribed: (Level, Seq<char>, Seq<char>),
) -> bool {
    &&& n.level == prescribed.0
    &&& n.title@ == prescribed.1
    &&& n.message@ == prescribed.2
}

/// The notification for a status transition of the named service:
/// exactly the one prescribed by `transition_spec`, none for any other
/// pair of statuses.
pub fn transition_notification(prev: Status, new: Status, name: &str) -> (r: Option<
    Notification,
>)
    ensures
        match transition_spec(prev, new, name@) {
            Some(p) => r is Some && matches_transition(r.unwrap(), p),
            None => r is None,
        },
{
    match (prev, new) {
        (Status::Down, Status::Up) => Some(
            Notification {
                title: String::from_str("Back Up"),
                message: String::from_str("Service ").concat(name).concat(" back Up"),
                level: Level::Success,
            },
        ),
        (Status::Up, Status::Down) => Some(
            Notification {
                title: String::from_str("Service Down"),
                message: String::from_str("Service ").concat(name).concat(" is Down"),
                level: Level::Warning,
            },
        ),
        (Status::Failed, Status::Up) | (Status::Failed, Status::Down) => Some(
            Notification {
                title: String::from_str("Monitor Success"),
                message: String::from_str("Service ").concat(name).concat(" check success"),
                level: Level::Info,
            },
        ),
        _ => None,
    }
}

/// `s` with its derived last status replaced, all configuration as it was.
pub open spec fn with_last_status(s: Service, st: Status) -> Service {
    Service {
        id: s.id,
        user_id: s.user_id,
        active: s.active,
        name: s.name,
        interval: s.interval,
        url: s.url,
        timeout: s.timeout,
        payload: s.payload,
        last_status: st,
        service_type: s.service_type,
        retry: s.retry,
        retry_interval: s.retry_interval,
        invert: s.invert,
        expected_code: s.expected_code,
        expected_payload: s.expected_payload,
    }
}

/// One transition-engine invocation for a completed probe of `svc`
/// (a snapshot whose `last_status` is the previous status). In order:
/// publishes the log event; publishes exactly one notification if and
/// only if the transition prescribes one, with the prescribed level,
/// title and message; then, atomically for any later reader, sets the
/// service's stored `last_status` to the probe's status and appends
/// exactly one log row. Returns the number of log rows written, always
/// one.
pub fn apply_probe(
    services: &mut ServiceStore,
    logs: &mut LogStore,
    bus: &mut EventBus,
    svc: &Service,
    entry: LogForCreate,
    now: u64,
) -> (r: u64)
    requires
        old(services).wf(),
        old(logs).wf(),
        entry.service_id == svc.id,
        1 <= svc.id <= old(services)@.len(),
        old(logs)@.len() + 1 < i64::MAX,
        entry.time_or(now) >= latest_time(old(logs)@, entry.service_id),
    ensures
        final(services).wf(),
        final(logs).wf(),
        r == 1,
        final(logs)@ == inserted(old(logs)@, entry, now),
        final(services)@ == old(services)@.update(
            svc.id - 1,
            with_last_status(old(services)@[svc.id - 1], entry.status),
        ),
        final(bus).cap() == old(bus).cap(),
        old(bus).wf() ==> final(bus).wf(),
        match transition_spec(svc.last_status, entry.status, svc.name@) {
            None => final(bus)@ == old(bus)@.push(Event::Log(entry)),
            Some(p) => {
                &&& final(bus)@.len() == old(bus)@.len() + 2
                &&& final(bus)@.subrange(0, old(bus)@.len() as int) == old(bus)@
                &&& final(bus)@[old(bus)@.len() as int] == Event::Log(entry)
                &&& match final(bus)@.last() {
                    Event::Notification(n) => matches_transition(n, p),
                    _ => false,
                }
            },
        },
{
    let ghost bus0 = bus@;
    bus.publish(Event::Log(entry.clone()));
    match transition_notification(svc.last_status, entry.status, svc.name.as_str()) {
        Some(n) => {
            bus.publish(Event::Notification(n));
        },
        None => {},
    }
    proof {
        if transition_spec(svc.last_status, entry.status, svc.name@) is Some {
            assert(bus@.subrange(0, bus0.len() as int) =~= bus0);
        }
    }
    let upd = crate::service::ServiceForUpdate {
        active: None,
        name: None,
        interval: None,
        url: None,
        payload: None,
        last_status: Some(entry.status),
        service_type: None,
        retry: None,
        retry_interval: None,
        invert: None,
        expected_code: None,
        expected_payload: None,
    };
    match services.update(svc.id, upd) {
        _ => {},
    }
    proof {
        assert(services@ =~= old(services)@.update(
            svc.id - 1,
            with_last_status(old(services)@[svc.id - 1], entry.status),
        ));
    }
    logs.insert(entry, now)
}

} // verus!

