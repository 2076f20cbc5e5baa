use stamon::bus::EventBus;
use stamon::config::env_config;
use stamon::jsonfmt::{escape_json, event_to_json, u64_to_dec};
use stamon::log::LogForCreate;
use stamon::status::{Level, Status};
use stamon::ws::{continues_after, initial_ping_payload, Event, Notification, PeerMessage};

#[test]
fn decimal_formatting() {
    assert_eq!(u64_to_dec(0), "0");
    assert_eq!(u64_to_dec(7), "7");
    assert_eq!(u64_to_dec(100), "100");
    assert_eq!(u64_to_dec(18_446_744_073_709_551_615), "18446744073709551615");
}

#[test]
fn json_escaping() {
    assert_eq!(escape_json("plain"), "plain");
    assert_eq!(escape_json("say \"hi\""), "say \\\"hi\\\"");
    assert_eq!(escape_json("a\\b"), "a\\\\b");
    assert_eq!(escape_json("line\nbreak\ttab\rret"), "line\\nbreak\\ttab\\rret");
    // other control characters are blanked
    assert_eq!(escape_json("a\u{1}b"), "a b");
}

#[test]
fn log_event_frame() {
    let e = Event::Log(LogForCreate {
        service_id: 3,
        status: Status::Up,
        message: None,
        time: Some(1_700_000_000),
        duration: 42,
    });
    assert_eq!(
        event_to_json(&e),
        "{\"type\":\"log\",\"value\":{\"service_id\":3,\"status\":1,\"message\":null,\"time\":1700000000,\"duration\":42}}"
    );
}

#[test]
fn log_event_frame_with_message() {
    let e = Event::Log(LogForCreate {
        service_id: 1,
        status: Status::Failed,
        message: Some("said \"no\"".to_string()),
        time: None,
        duration: 0,
    });
    assert_eq!(
        event_to_json(&e),
        "{\"type\":\"log\",\"value\":{\"service_id\":1,\"status\":3,\"message\":\"said \\\"no\\\"\",\"time\":null,\"duration\":0}}"
    );
}

#[test]
fn notification_event_frame() {
    let e = Event::Notification(Notification {
        title: "Back Up".to_string(),
        message: "Service web back Up".to_string(),
        level: Level::Success,
    });
    assert_eq!(
        event_to_json(&e),
        "{\"type\":\"notification\",\"value\":{\"title\":\"Back Up\",\"message\":\"Service web back Up\",\"level\":\"success\"}}"
    );
}

#[test]
fn level_names() {
    assert_eq!(Level::Success.name(), "success");
    assert_eq!(Level::Error.name(), "error");
    assert_eq!(Level::Info.name(), "info");
    assert_eq!(Level::Warning.name(), "warning");
}

#[test]
fn status_codes_round_trip() {
    let statuses = [Status::Pending, Status::Up, Status::Down, Status::Failed];
    for (i, s) in statuses.iter().enumerate() {
        assert_eq!(s.code() as usize, i);
        assert_eq!(Status::from_code(s.code()).unwrap().code(), s.code());
    }
    assert!(Status::from_code(4).is_none());
}

#[test]
fn websocket_fanout() {
    // two clients, one published notification: both receive the same frame
    let mut bus = EventBus::new(100);
    let mut a = bus.subscribe();
    let mut b = bus.subscribe();
    bus.publish(Event::Notification(Notification {
        title: "Service Down".to_string(),
        message: "Service api is Down".to_string(),
        level: Level::Warning,
    }));

    let for_a = bus.drain(&mut a);
    let for_b = bus.drain(&mut b);
    assert_eq!(for_a.len(), 1);
    assert_eq!(for_b.len(), 1);
    let frame_a = event_to_json(&for_a[0]);
    let frame_b = event_to_json(&for_b[0]);
    assert_eq!(frame_a, frame_b);

    // one client disconnects mid-stream; the other keeps receiving
    drop(a);
    bus.publish(Event::Log(LogForCreate {
        service_id: 1,
        status: Status::Up,
        message: None,
        time: Some(1),
        duration: 2,
    }));
    let more_b = bus.drain(&mut b);
    assert_eq!(more_b.len(), 1);
    assert!(matches!(more_b[0], Event::Log(_)));
}

#[test]
fn slow_subscriber_is_lossy_not_blocking() {
    // the producer publishes far beyond the window and never blocks;
    // the slow subscriber skips what fell out and sees the newest window,
    // a monotonically increasing subsequence of the published events
    let mut bus = EventBus::new(3);
    let mut slow = bus.subscribe();
    for k in 0..10u32 {
        bus.publish(Event::Log(LogForCreate {
            service_id: k,
            status: Status::Up,
            message: None,
            time: Some(k as u64),
            duration: 0,
        }));
    }
    let seen = bus.drain(&mut slow);
    assert_eq!(seen.len(), 3);
    let ids: Vec<u32> = seen
        .iter()
        .map(|e| match e {
            Event::Log(l) => l.service_id,
            _ => panic!("expected log events"),
        })
        .collect();
    assert_eq!(ids, vec![7, 8, 9]);
}

#[test]
fn subscribers_see_only_later_events() {
    let mut bus = EventBus::new(10);
    bus.publish(Event::Log(LogForCreate {
        service_id: 1,
        status: Status::Up,
        message: None,
        time: Some(1),
        duration: 0,
    }));
    let mut late = bus.subscribe();
    assert_eq!(bus.drain(&mut late).len(), 0);
}

#[test]
fn connection_greeting_and_close() {
    assert_eq!(initial_ping_payload(), vec![1, 2, 3]);
    assert!(continues_after(PeerMessage::Text));
    assert!(continues_after(PeerMessage::Other));
    assert!(!continues_after(PeerMessage::Close));
}

#[test]
fn environment_defaults() {
    let cfg = env_config("/data".to_string(), None, "jwt-test-key".to_string());
    assert_eq!(cfg.db_file, "sqlite:///data/stamon.db");
    assert_eq!(cfg.assets_path, "assets");
    assert_eq!(cfg.port, 3000);

    let cfg = env_config(
        "/srv".to_string(),
        Some("/static".to_string()),
        "jwt-test-key".to_string(),
    );
    assert_eq!(cfg.assets_path, "/static");
    assert_eq!(cfg.db_file, "sqlite:///srv/stamon.db");
}
