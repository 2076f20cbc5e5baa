use stamon::config::ConfigStore;
use stamon::log::{LogForCreate, LogStore};
use stamon::service::{ServiceError, ServiceForCreate, ServiceForUpdate, ServiceStore};
use stamon::status::{ServiceType, Status, UserRole};
use stamon::user::{UserError, UserForRegister, UserStore};

fn create(name: &str, interval: u16, active: Option<bool>) -> ServiceForCreate {
    ServiceForCreate {
        user_id: Some(1),
        active,
        name: name.to_string(),
        interval,
        url: "https://example.com".to_string(),
        payload: None,
        service_type: ServiceType::Http,
        retry: 0,
        retry_interval: 0,
        ..Default::default()
    }
}

#[test]
fn insert_service() {
    let mut store = ServiceStore::new();

    // a zero interval is rejected on create
    let rejected = store.insert(create("foo", 0, Some(false)));
    assert_eq!(rejected.unwrap_err(), ServiceError::ZeroInterval);

    let id = store.insert(create("foo", 60, Some(false))).unwrap();
    assert_eq!(id, 1);
}

#[test]
fn insert_service_with_payload() {
    let mut store = ServiceStore::new();
    let mut c = create("Test Service", 60, Some(true));
    c.url = "https://test.example.com".to_string();
    c.payload = Some("{\"test\": \"data\"}".to_string());
    c.retry = 3;
    c.retry_interval = 30;
    let count = store.insert(c).is_ok() as u64;
    assert_eq!(count, 1);

    let service = store.get(1).unwrap();
    assert_eq!(service.name, "Test Service");
    assert_eq!(service.payload, Some("{\"test\": \"data\"}".to_string()));
}

#[test]
fn insert_service_without_payload() {
    let mut store = ServiceStore::new();
    let mut c = create("Simple Service", 120, None);
    c.url = "https://simple.example.com".to_string();
    c.retry = 1;
    c.retry_interval = 60;
    store.insert(c).unwrap();

    let service = store.get(1).unwrap();
    assert_eq!(service.name, "Simple Service");
    assert!(service.payload.is_none());
    // active defaults to true
    assert!(service.active);
    assert!(matches!(service.last_status, Status::Pending));
}

#[test]
fn get_nonexistent_service() {
    let mut store = ServiceStore::new();
    store.insert(create("a", 1, None)).unwrap();
    assert!(store.get(999).is_none());
    assert!(store.get(0).is_none());
}

#[test]
fn list_services_returns_only_active() {
    let mut store = ServiceStore::new();
    store.insert(create("a", 1, Some(true))).unwrap();
    store.insert(create("b", 1, Some(false))).unwrap();
    store.insert(create("c", 1, None)).unwrap();

    let services = store.all_active();
    assert_eq!(services.len(), 2);
    for service in services {
        assert!(service.active);
    }
    assert_eq!(store.all().len(), 3);
}

#[test]
fn update_service_fields() {
    let mut store = ServiceStore::new();
    store.insert(create("a", 5, None)).unwrap();

    let changed = store
        .update(
            1,
            ServiceForUpdate {
                name: Some("renamed".to_string()),
                interval: Some(9),
                expected_payload: Some("{\"ok\":true}".to_string()),
                ..Default::default()
            },
        )
        .unwrap();
    assert_eq!(changed, 1);

    let s = store.get(1).unwrap();
    assert_eq!(s.name, "renamed");
    assert_eq!(s.interval, 9);
    assert_eq!(s.expected_payload, Some("{\"ok\":true}".to_string()));

    // an empty update changes nothing
    assert_eq!(store.update(1, ServiceForUpdate::default()).unwrap(), 0);
    // an unknown id changes nothing
    let upd = ServiceForUpdate { active: Some(false), ..Default::default() };
    assert_eq!(store.update(42, upd).unwrap(), 0);
    // a zero interval is rejected on update too
    let upd = ServiceForUpdate { interval: Some(0), ..Default::default() };
    assert_eq!(store.update(1, upd).unwrap_err(), ServiceError::ZeroInterval);
}

#[test]
fn get_stats() {
    let mut store = ServiceStore::new();
    store.insert(create("a", 1, Some(true))).unwrap();
    store.insert(create("b", 1, Some(true))).unwrap();
    store.insert(create("c", 1, Some(false))).unwrap();
    store.insert(create("d", 1, Some(true))).unwrap();

    let up = ServiceForUpdate { last_status: Some(Status::Up), ..Default::default() };
    store.update(1, up).unwrap();
    let down = ServiceForUpdate { last_status: Some(Status::Down), ..Default::default() };
    store.update(2, down).unwrap();
    let failed = ServiceForUpdate { last_status: Some(Status::Failed), ..Default::default() };
    store.update(3, failed).unwrap();

    let stats = store.get_stats();
    assert_eq!(stats.count, 4);
    assert_eq!(stats.active, 3);
    assert_eq!(stats.up, 1);
    assert_eq!(stats.down, 1);
    // service 3 is inactive, so its Failed status is not counted
    assert_eq!(stats.failed, 0);
}

#[test]
fn get_stats_empty_database() {
    let store = ServiceStore::new();
    let stats = store.get_stats();
    assert_eq!(stats.active, 0);
    assert_eq!(stats.count, 0);
    assert_eq!(stats.up, 0);
    assert_eq!(stats.down, 0);
    assert_eq!(stats.failed, 0);
}

fn up_log(service_id: u32, time: u64, duration: u32, message: Option<&str>) -> LogForCreate {
    LogForCreate {
        service_id,
        status: Status::Up,
        message: message.map(|m| m.to_string()),
        time: Some(time),
        duration,
    }
}

#[test]
fn insert_log() {
    let mut logs = LogStore::new();
    let count = logs.insert(up_log(1, 50, 10, Some("message")), 100);
    assert_eq!(count, 1);
}

#[test]
fn insert_log_with_message() {
    let mut logs = LogStore::new();
    let record = LogForCreate {
        service_id: 1,
        status: Status::Up,
        message: Some("Service is healthy".to_string()),
        time: None, // should use the current time
        duration: 150,
    };
    let count = logs.insert(record, 777);
    assert_eq!(count, 1);

    let listed = logs.list(1, Some(1));
    assert_eq!(listed.len(), 1);
    assert_eq!(listed[0].service_id, 1);
    assert!(matches!(listed[0].status, Status::Up));
    assert_eq!(listed[0].message, Some("Service is healthy".to_string()));
    assert_eq!(listed[0].duration, 150);
    assert_eq!(listed[0].time, 777);
}

#[test]
fn insert_log_without_message() {
    let mut logs = LogStore::new();
    let record = LogForCreate {
        service_id: 2,
        status: Status::Down,
        message: None,
        time: Some(42),
        duration: 0,
    };
    assert_eq!(logs.insert(record, 42), 1);

    let listed = logs.list(2, Some(1));
    assert_eq!(listed.len(), 1);
    assert_eq!(listed[0].service_id, 2);
    assert!(matches!(listed[0].status, Status::Down));
    assert!(listed[0].message.is_none());
    assert_eq!(listed[0].duration, 0);
}

#[test]
fn list_logs_order() {
    let mut logs = LogStore::new();
    for t in 0..5u64 {
        logs.insert(up_log(2, 10 + t, 1, None), 10 + t);
    }
    let listed = logs.list_all(Some(2));
    assert_eq!(listed.len(), 2);
    // most recent first: ids descend
    assert!(listed.first().unwrap().id > listed.last().unwrap().id);
    // per-service times follow ids
    let all = logs.list(2, None);
    assert_eq!(all.len(), 5);
    for w in all.windows(2) {
        assert!(w[0].id > w[1].id);
        assert!(w[0].time >= w[1].time);
    }
}

#[test]
fn list_service_logs() {
    let mut logs = LogStore::new();
    logs.insert(up_log(1, 1, 1, None), 1);
    logs.insert(up_log(2, 2, 1, None), 2);
    logs.insert(up_log(2, 3, 1, None), 3);
    logs.insert(up_log(3, 4, 1, None), 4);

    let listed = logs.list(2, None);
    assert_eq!(listed.len(), 2);
    assert!(listed.iter().all(|l| l.service_id == 2));
}

#[test]
fn list_logs_empty_database() {
    let logs = LogStore::new();
    assert_eq!(logs.list_all(None).len(), 0);
    let services = ServiceStore::new();
    assert_eq!(logs.incidents(&services, None).len(), 0);
}

#[test]
fn append_only_duplicate_rows() {
    // inserting the same record twice yields two rows with distinct ids
    let mut logs = LogStore::new();
    let record = up_log(1, 9, 3, Some("same"));
    logs.insert(record.clone(), 9);
    logs.insert(record, 9);
    let listed = logs.list(1, None);
    assert_eq!(listed.len(), 2);
    assert_ne!(listed[0].id, listed[1].id);
    assert_eq!(listed[0].message, listed[1].message);
}

#[test]
fn insert_config_without_category() {
    let mut store = ConfigStore::new();
    let count = store.insert("test_setting".to_string(), "test_value".to_string(), None, 5);
    assert_eq!(count, 1);

    let config = store.get_by_name("test_setting");
    assert!(config.is_some());
    let config = config.unwrap();
    assert_eq!(config.name, "test_setting");
    assert_eq!(config.value, "test_value");
    assert!(config.category.is_none());
}

#[test]
fn insert_config_with_category() {
    let mut store = ConfigStore::new();
    let count = store.insert(
        "notification_enabled".to_string(),
        "true".to_string(),
        Some("notifications".to_string()),
        5,
    );
    assert_eq!(count, 1);

    let config = store.get_by_name("notification_enabled").unwrap();
    assert_eq!(config.name, "notification_enabled");
    assert_eq!(config.value, "true");
    assert_eq!(config.category, Some("notifications".to_string()));
}

#[test]
fn get_nonexistent_config() {
    let store = ConfigStore::new();
    assert!(store.get_by_name("nonexistent").is_none());
}

#[test]
fn list_configs_by_category() {
    let mut store = ConfigStore::new();
    store.insert("setting1".to_string(), "value1".to_string(), Some("category1".to_string()), 1);
    store.insert("setting2".to_string(), "value2".to_string(), Some("category1".to_string()), 2);
    store.insert("setting3".to_string(), "value3".to_string(), Some("category2".to_string()), 3);

    assert_eq!(store.list_by_category("category1").len(), 2);
    assert_eq!(store.list_by_category("category2").len(), 1);
    assert_eq!(store.list_by_category("nonexistent").len(), 0);
}

#[test]
fn insert_user_with_defaults() {
    let mut users = UserStore::new();
    let count = users
        .insert(UserForRegister {
            username: "testuser".to_string(),
            password: "testpass".to_string(),
            role: None, // should default to Viewer
            timezone: None,
        })
        .unwrap();
    assert_eq!(count, 1);

    let user = users.get(1).unwrap();
    assert_eq!(user.username, "testuser");
    assert!(matches!(user.role, UserRole::Viewer));
    assert!(user.active);
    assert!(user.timezone.is_none());
    // the stored password is a hash, not the password
    assert!(user.password.starts_with("$argon2"));
    assert_ne!(user.password, "testpass");
}

#[test]
fn insert_user_with_admin_role() {
    let mut users = UserStore::new();
    let count = users
        .insert(UserForRegister {
            username: "adminuser".to_string(),
            password: "adminpass".to_string(),
            role: Some(UserRole::Admin),
            timezone: Some("UTC".to_string()),
        })
        .unwrap();
    assert_eq!(count, 1);

    let user = users.get(1).unwrap();
    assert_eq!(user.username, "adminuser");
    assert!(matches!(user.role, UserRole::Admin));
    assert!(user.active);
    assert_eq!(user.timezone, Some("UTC".to_string()));
}

#[test]
fn get_nonexistent_user_fails() {
    let users = UserStore::new();
    let missing = users.get(999);
    assert!(matches!(missing, Err(UserError::NotFound)));
}

#[test]
fn list_all_users() {
    let mut users = UserStore::new();
    users
        .insert(UserForRegister {
            username: "user1".to_string(),
            password: "p1".to_string(),
            role: Some(UserRole::Admin),
            timezone: None,
        })
        .unwrap();
    users
        .insert(UserForRegister {
            username: "user2".to_string(),
            password: "p2".to_string(),
            role: None,
            timezone: None,
        })
        .unwrap();

    let listed = users.list();
    assert_eq!(listed.len(), 2);
    assert_eq!(listed[0].username, "user1");
    assert_eq!(listed[1].username, "user2");
}
