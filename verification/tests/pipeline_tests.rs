use stamon::bus::EventBus;
use stamon::log::{LogForCreate, LogStore};
use stamon::probe::{get, ping, HttpAttempt, PingAttempt, ProbeAttempt, job_monitor,
    payload_matches};
use stamon::queue::{should_retry, JobQueue, PROBE_RETRIES};
use stamon::schedule::{due_services, Timer};
use stamon::service::{Service, ServiceForCreate, ServiceStore};
use stamon::status::{Level, ServiceType, Status};
use stamon::transition::transition_notification;
use stamon::ws::Event;

fn service(id: u32, service_type: ServiceType, timeout: u32, last_status: Status) -> Service {
    Service {
        id,
        user_id: 1,
        active: true,
        name: "svc".to_string(),
        interval: 1,
        url: "127.0.0.1".to_string(),
        timeout,
        payload: None,
        last_status,
        service_type,
        retry: 0,
        retry_interval: 0,
        invert: false,
        expected_code: None,
        expected_payload: None,
    }
}

fn seed_store(n: u32) -> ServiceStore {
    let mut store = ServiceStore::new();
    for i in 0..n {
        store
            .insert(ServiceForCreate {
                user_id: Some(1),
                active: Some(true),
                name: format!("svc{}", i + 1),
                interval: 1,
                url: "127.0.0.1".to_string(),
                payload: None,
                service_type: ServiceType::Ping,
                retry: 0,
                retry_interval: 0,
                ..Default::default()
            })
            .unwrap();
    }
    store
}

#[test]
fn ping_up_scenario() {
    // service 1, ping, interval 1, timeout 2, last_status Pending
    let mut services = seed_store(1);
    let mut logs = LogStore::new();
    let mut bus = EventBus::new(100);
    let mut sub = bus.subscribe();

    // interval 1 makes the service due at this (and every) tick
    let timer = Timer::new(1_700_000_000);
    let due = due_services(&services.all(), &timer);
    assert_eq!(due.len(), 1);
    assert_eq!(due[0].id, 1);

    let mut snapshot = due.into_iter().next().unwrap();
    snapshot.timeout = 2;
    job_monitor(
        &mut services,
        &mut logs,
        &mut bus,
        &snapshot,
        ProbeAttempt::Ping(PingAttempt::Reply { rtt: 12 }),
        1_700_000_000,
    );

    // one log entry with status Up, and the service's stored status follows
    let listed = logs.list(1, None);
    assert_eq!(listed.len(), 1);
    assert!(matches!(listed[0].status, Status::Up));
    assert_eq!(listed[0].duration, 12);
    assert!(matches!(services.get(1).unwrap().last_status, Status::Up));

    // one Log event on the bus; Pending -> Up sends no notification
    let events = bus.drain(&mut sub);
    assert_eq!(events.len(), 1);
    assert!(matches!(events[0], Event::Log(_)));
}

#[test]
fn ping_os_error_scenario() {
    // ICMP privileges denied: Failed with a message, plus a Network Error alarm
    let mut services = seed_store(1);
    let mut logs = LogStore::new();
    let mut bus = EventBus::new(100);
    let mut sub = bus.subscribe();

    let snapshot = service(1, ServiceType::Ping, 2, Status::Pending);
    job_monitor(
        &mut services,
        &mut logs,
        &mut bus,
        &snapshot,
        ProbeAttempt::Ping(PingAttempt::OsError { message: "Operation not permitted".to_string() }),
        7,
    );

    let listed = logs.list(1, None);
    assert_eq!(listed.len(), 1);
    assert!(matches!(listed[0].status, Status::Failed));
    assert!(!listed[0].message.as_ref().unwrap().is_empty());

    let events = bus.drain(&mut sub);
    assert_eq!(events.len(), 2);
    match &events[0] {
        Event::Notification(n) => {
            assert!(matches!(n.level, Level::Error));
            assert_eq!(n.title, "Network Error");
            assert_eq!(n.message, "Error: Operation not permitted");
        }
        other => panic!("expected the alarm first, got {:?}", matches!(other, Event::Log(_))),
    }
    assert!(matches!(events[1], Event::Log(_)));
}

#[test]
fn http_down_up_transition() {
    // first probe sees a 500: Down; second sees a 200 response: Up + "Back Up"
    let mut services = seed_store(1);
    let mut logs = LogStore::new();
    let mut bus = EventBus::new(100);
    let mut sub = bus.subscribe();

    let mut snapshot = service(1, ServiceType::Http, 2, Status::Pending);
    snapshot.name = "svc1".to_string();
    job_monitor(
        &mut services,
        &mut logs,
        &mut bus,
        &snapshot,
        ProbeAttempt::Http { attempt: HttpAttempt::StatusError { code: 500 }, duration: 30 },
        10,
    );
    assert!(matches!(services.get(1).unwrap().last_status, Status::Down));

    // the worker takes a fresh snapshot, whose last status is now Down
    let mut snapshot2 = services.get(1).unwrap();
    snapshot2.timeout = 2;
    job_monitor(
        &mut services,
        &mut logs,
        &mut bus,
        &snapshot2,
        ProbeAttempt::Http {
            attempt: HttpAttempt::Response { code: 200, body: "ok".to_string() },
            duration: 25,
        },
        11,
    );
    assert!(matches!(services.get(1).unwrap().last_status, Status::Up));

    let events = bus.drain(&mut sub);
    // log, log, then the Back Up notification
    assert_eq!(events.len(), 3);
    match &events[2] {
        Event::Notification(n) => {
            assert!(matches!(n.level, Level::Success));
            assert_eq!(n.title, "Back Up");
            assert!(n.message.contains("svc1"));
        }
        _ => panic!("expected a Back Up notification"),
    }
}

#[test]
fn http_expected_payload_mismatch() {
    let mut snapshot = service(1, ServiceType::Http, 2, Status::Pending);
    snapshot.expected_payload = Some("{\"ok\":true}".to_string());
    let report = get(
        &snapshot,
        HttpAttempt::Response { code: 200, body: "{\"ok\":false}".to_string() },
        15,
        99,
    );
    assert!(matches!(report.entry.status, Status::Down));
    assert!(report.entry.message.as_ref().unwrap().starts_with("Expected: "));
    assert_eq!(report.entry.duration, 15);
}

#[test]
fn http_payload_match_is_up_and_idempotent() {
    // the canonical response matches the template even with different spacing
    let mut snapshot = service(1, ServiceType::Http, 2, Status::Pending);
    snapshot.expected_payload = Some("{\"ok\": true}".to_string());
    let attempt = || HttpAttempt::Response { code: 200, body: "{\"ok\":true}".to_string() };
    let first = get(&snapshot, attempt(), 5, 1);
    assert!(matches!(first.entry.status, Status::Up));
    assert!(first.entry.message.is_none());

    // repeating the probe is idempotent in outcome
    let second = get(&snapshot, attempt(), 5, 2);
    assert!(matches!(second.entry.status, Status::Up));
    assert_eq!(first.entry.status.code(), second.entry.status.code());
}

#[test]
fn payload_comparison_is_by_json_value() {
    // texts differ, values agree
    assert!(payload_matches("{\"a\": 1}", "{\"a\":1}"));
    // values differ
    assert!(!payload_matches("{\"a\":1}", "{\"a\":2}"));
    // a non-JSON side never matches, not even itself
    assert!(!payload_matches("not json", "not json"));
}

#[test]
fn zero_timeout_is_down_within_the_tick() {
    let snapshot = service(1, ServiceType::Ping, 0, Status::Pending);
    let report = ping(&snapshot, PingAttempt::Reply { rtt: 1 }, 5);
    assert!(matches!(report.entry.status, Status::Down));
    assert_eq!(report.entry.time, Some(5));

    let snapshot = service(1, ServiceType::Http, 0, Status::Pending);
    let report = get(
        &snapshot,
        HttpAttempt::Response { code: 200, body: "ok".to_string() },
        3,
        5,
    );
    assert!(matches!(report.entry.status, Status::Down));
}

#[test]
fn malformed_ip_fails_task() {
    let snapshot = service(1, ServiceType::Ping, 2, Status::Pending);
    let report = ping(&snapshot, PingAttempt::InvalidAddress, 5);
    assert!(matches!(report.entry.status, Status::Failed));
    assert!(report.entry.message.is_some());
    assert!(report.notification.is_none());
}

#[test]
fn inverted_service_swaps_up_and_down() {
    let mut snapshot = service(1, ServiceType::Ping, 2, Status::Pending);
    snapshot.invert = true;
    let report = ping(&snapshot, PingAttempt::Reply { rtt: 1 }, 5);
    assert!(matches!(report.entry.status, Status::Down));
    let report = ping(
        &snapshot,
        PingAttempt::Error { message: "timed out".to_string() },
        5,
    );
    assert!(matches!(report.entry.status, Status::Up));
    // Failed is not inverted
    let report = ping(
        &snapshot,
        PingAttempt::OsError { message: "denied".to_string() },
        5,
    );
    assert!(matches!(report.entry.status, Status::Failed));
}

#[test]
fn transition_table_is_exact() {
    let cases = [
        (Status::Down, Status::Up, Some((Level::Success, "Back Up", "Service n back Up"))),
        (Status::Up, Status::Down, Some((Level::Warning, "Service Down", "Service n is Down"))),
        (Status::Failed, Status::Up, Some((Level::Info, "Monitor Success", "Service n check success"))),
        (Status::Failed, Status::Down, Some((Level::Info, "Monitor Success", "Service n check success"))),
        (Status::Pending, Status::Up, None),
        (Status::Up, Status::Up, None),
        (Status::Down, Status::Down, None),
        (Status::Up, Status::Failed, None),
        (Status::Pending, Status::Down, None),
    ];
    for (prev, new, expected) in cases {
        let got = transition_notification(prev, new, "n");
        match expected {
            None => assert!(got.is_none()),
            Some((level, title, message)) => {
                let n = got.unwrap();
                assert_eq!(n.level.name(), level.name());
                assert_eq!(n.title, title);
                assert_eq!(n.message, message);
            }
        }
    }
}

#[test]
fn scheduler_interval_arithmetic() {
    // 1_700_000_000 mod 86400 = 80000 seconds after midnight
    let timer = Timer::new(1_700_000_000);
    assert_eq!(timer.num_seconds_from_midnight(), 80_000);
    assert!(timer.is_interval(1));
    assert!(timer.is_interval(400)); // 80000 = 200 * 400
    assert!(!timer.is_interval(7));

    // every due, active service is scheduled exactly once per tick
    let mut store = seed_store(3);
    let off = stamon::service::ServiceForUpdate {
        active: Some(false),
        ..Default::default()
    };
    store.update(2, off).unwrap();
    let due = due_services(&store.all(), &timer);
    assert_eq!(due.len(), 2);
    assert_eq!(due.iter().filter(|s| s.id == 1).count(), 1);
    assert_eq!(due.iter().filter(|s| s.id == 2).count(), 0);
    assert_eq!(due.iter().filter(|s| s.id == 3).count(), 1);
}

#[test]
fn queue_fifo_lease_ack() {
    let mut q = JobQueue::new();
    let a = q.push(service(1, ServiceType::Ping, 1, Status::Pending), 10);
    let b = q.push(service(2, ServiceType::Ping, 1, Status::Pending), 11);
    assert!(a < b);

    // the oldest visible task is leased first
    let t1 = q.lease(20, 1, 30).unwrap();
    assert_eq!(t1.id, a);
    // while leased, it is invisible; the next lease takes the next task
    let t2 = q.lease(21, 2, 30).unwrap();
    assert_eq!(t2.id, b);
    assert!(q.lease(22, 3, 30).is_none());

    // acknowledged tasks are gone for good
    assert!(q.ack(t1.id));
    assert!(!q.ack(t1.id));
    assert!(q.ack(t2.id));
    assert!(q.lease(23, 1, 30).is_none());
}

#[test]
fn queue_lease_expiry_and_nack() {
    let mut q = JobQueue::new();
    let id = q.push(service(1, ServiceType::Ping, 1, Status::Pending), 0);

    let t = q.lease(0, 1, 30).unwrap();
    assert_eq!(t.id, id);
    // before the lease runs out, nothing is visible
    assert!(q.lease(29, 2, 30).is_none());
    // an expired lease makes the task visible again: at-least-once delivery
    let again = q.lease(30, 2, 30).unwrap();
    assert_eq!(again.id, id);

    // a nack re-queues with a visibility delay and one more attempt on it
    assert!(q.nack(id, 10, 40));
    assert!(q.lease(49, 3, 30).is_none());
    let after_delay = q.lease(50, 3, 30).unwrap();
    assert_eq!(after_delay.id, id);
    assert_eq!(after_delay.attempt, 1);

    // the probe retry policy gives up after the configured count
    assert!(should_retry(2, PROBE_RETRIES));
    assert!(!should_retry(3, PROBE_RETRIES));
}

#[test]
fn incident_aggregation() {
    // 5 Down logs for service 2 on one day, 2 Down logs for service 3 on
    // an earlier day, 1 Up log (ignored): exactly 2 rows, newest day first
    let services = seed_store(3);
    let mut logs = LogStore::new();
    let day = 86_400u64;
    for k in 0..2u64 {
        logs.insert(
            LogForCreate {
                service_id: 3,
                status: Status::Down,
                message: Some("unreachable".to_string()),
                time: Some(19_000 * day + k),
                duration: 0,
            },
            0,
        );
    }
    for k in 0..5u64 {
        logs.insert(
            LogForCreate {
                service_id: 2,
                status: Status::Down,
                message: Some(if k % 2 == 0 { "timeout" } else { "refused" }.to_string()),
                time: Some(19_001 * day + k),
                duration: 0,
            },
            0,
        );
    }
    logs.insert(
        LogForCreate {
            service_id: 2,
            status: Status::Up,
            message: None,
            time: Some(19_001 * day + 9),
            duration: 1,
        },
        0,
    );

    let incidents = logs.incidents(&services, None);
    assert_eq!(incidents.len(), 2);
    // ordered by date, newest first
    assert_eq!(incidents[0].date, 19_001);
    assert_eq!(incidents[1].date, 19_000);
    assert_eq!(incidents[0].service_id, 2);
    assert_eq!(incidents[0].count, 5);
    assert_eq!(incidents[0].start, 19_001 * day);
    assert_eq!(incidents[0].end, 19_001 * day + 4);
    // deduplicated messages joined by "; "
    assert_eq!(incidents[0].messages, "timeout; refused");
    assert_eq!(incidents[0].service_name, "svc2");
    assert_eq!(incidents[1].service_id, 3);
    assert_eq!(incidents[1].count, 2);
    assert_eq!(incidents[1].messages, "unreachable");
}

#[test]
fn list_incidents_with_limit() {
    let services = seed_store(2);
    let mut logs = LogStore::new();
    for sid in 1..3u32 {
        logs.insert(
            LogForCreate {
                service_id: sid,
                status: Status::Down,
                message: None,
                time: Some(86_400 * (19_000 + sid as u64)),
                duration: 0,
            },
            0,
        );
    }
    let incidents = logs.incidents(&services, Some(1));
    assert_eq!(incidents.len(), 1);
    // the cut keeps the newest day
    assert_eq!(incidents[0].date, 19_002);
}

#[test]
fn expected_code_on_status_error() {
    let mut snapshot = service(1, ServiceType::Http, 2, Status::Pending);
    snapshot.expected_code = Some(503);
    let report = get(&snapshot, HttpAttempt::StatusError { code: 503 }, 4, 9);
    assert!(matches!(report.entry.status, Status::Up));

    // with no expected code configured, only 200 counts
    let snapshot2 = service(1, ServiceType::Http, 2, Status::Pending);
    let report = get(&snapshot2, HttpAttempt::StatusError { code: 503 }, 4, 9);
    assert!(matches!(report.entry.status, Status::Down));
    assert_eq!(report.entry.message.as_deref(), Some("status code 503"));
}

#[test]
fn http_connect_error_raises_alarm() {
    let snapshot = service(1, ServiceType::Http, 2, Status::Pending);
    let report = get(
        &snapshot,
        HttpAttempt::ConnectError { message: "refused".to_string() },
        4,
        9,
    );
    assert!(matches!(report.entry.status, Status::Down));
    let n = report.notification.unwrap();
    assert_eq!(n.title, "Network Error");
    assert_eq!(n.message, "Error: refused");
    assert!(matches!(n.level, Level::Error));
}
