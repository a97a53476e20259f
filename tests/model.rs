use owntrack_rs::db::{sort_track_infos, Coord, GpsPoint, TrackInfo, TrackRef};
use owntrack_rs::filter::keep;
use owntrack_rs::assets::asset_path;
use owntrack_rs::mqtt::{get_user_device_from_topic, on_event, ListenerAction, ListenerEvent};
use owntrack_rs::owntracks::{AppConfig, Settings};
use owntrack_rs::reconstruct::{reconstruct, LocationRow};

fn fix(x: f64, accuracy: Option<i32>) -> GpsPoint {
    GpsPoint {
        y: Coord::from_bits(0.0f64.to_bits()),
        x: Coord::from_bits(x.to_bits()),
        ts: "2025-02-19 06:46:54+00".to_string(),
        tid: "jd".to_string(),
        speed: None,
        elevation: None,
        accuracy,
        v_accuracy: None,
        cog: None,
        annotations: Vec::new(),
    }
}

fn row(id: i32, user: &str, x: f64, accuracy: Option<i32>) -> LocationRow {
    LocationRow { device_id: id, user: user.to_string(), device: "phone".to_string(), point: fix(x, accuracy) }
}

fn no_settings() -> Settings {
    Settings {
        username: None,
        device_id: None,
        tid: None,
        http_address: None,
        base_url: None,
        client_id: None,
        password: None,
        mqtt_host: None,
        mqtt_port: None,
        mqtt_ws: None,
        topic_base: None,
    }
}

#[test]
fn accuracy_filter() {
    assert!(keep(&fix(0.0, None)));
    assert!(keep(&fix(0.0, Some(0))));
    assert!(keep(&fix(0.0, Some(199))));
    assert!(!keep(&fix(0.0, Some(200))));
    assert!(!keep(&fix(0.0, Some(5000))));
    assert!(keep(&fix(0.0, Some(-1))));
}

#[test]
fn reconstruct_drops_device_without_kept_fix() {
    let rows = vec![
        row(1, "jane", 0.0, Some(10)),
        row(2, "joe", 1.0, Some(300)),
        row(1, "jane", 2.0, Some(500)),
        row(2, "joe", 3.0, Some(250)),
        row(1, "jane", 4.0, None),
    ];
    let r = reconstruct(rows, "2025-02-19");
    assert_eq!(r.len(), 1);
    assert_eq!(r[0].device_id, 1);
    assert_eq!(r[0].user, "jane");
    assert_eq!(r[0].device, "phone");
    assert_eq!(r[0].date, "2025-02-19");
    let xs: Vec<u64> = r[0].points.iter().map(|p| p.x.to_bits()).collect();
    assert_eq!(xs, vec![0.0f64.to_bits(), 2.0f64.to_bits(), 4.0f64.to_bits()]);
}

#[test]
fn reconstruct_keeps_order_of_first_rows() {
    let rows = vec![row(5, "b", 0.0, None), row(3, "a", 1.0, None), row(5, "b", 2.0, None)];
    let r = reconstruct(rows, "d");
    assert_eq!(r.iter().map(|t| t.device_id).collect::<Vec<_>>(), vec![5, 3]);
    assert_eq!(r[0].points.len(), 2);
    assert!(reconstruct(Vec::new(), "d").is_empty());
}

#[test]
fn track_ref_date() {
    let t = TrackRef { device_id: 1, ts_start: "2025-02-19 06:46:54+00".to_string(), segmented: None };
    assert_eq!(t.date(), "2025-02-19");
    let u = TrackRef { device_id: 1, ts_start: "2025-02-19".to_string(), segmented: Some(true) };
    assert_eq!(u.date(), "2025-02-19");
}

#[test]
fn topic_with_user_and_device() {
    assert_eq!(
        get_user_device_from_topic("owntracks/jane/phone"),
        Some(("jane".to_string(), "phone".to_string()))
    );
    assert_eq!(get_user_device_from_topic("owntracks//"), Some((String::new(), String::new())));
    assert_eq!(get_user_device_from_topic("owntracks/jane"), None);
    assert_eq!(get_user_device_from_topic("owntracks/jane/phone/event"), None);
    assert_eq!(get_user_device_from_topic(""), None);
}

#[test]
fn config_defaults() {
    let c = AppConfig::from_settings(no_settings(), None);
    assert_eq!(c.username, "me");
    assert_eq!(c.device_id, "mobile");
    assert_eq!(c.tid, "me");
    assert_eq!(c.client_id, "owntracks-app");
    assert_eq!(c.http_url, "https://localhost/owntracks?u=me&d=mobile");
    assert!(c.tls);
    assert!(!c.use_password);
    assert_eq!(c.mode, 3);
    assert_eq!(c.mqtt_host, "localhost");
    assert_eq!(c.mqtt_port, 1883);
    assert!(!c.ws);
    assert_eq!(c.topic_base, "owntracks");
    assert_eq!(c.pub_topic_base(), "owntracks/me/mobile");
    assert_eq!(
        c.sub_topic(),
        "owntracks/+/+ owntracks/+/+/event owntracks/+/+/info owntracks/me/mobile/cmd"
    );
}

#[test]
fn config_from_settings() {
    let mut s = no_settings();
    s.username = Some("alice".to_string());
    s.password = Some("pw".to_string());
    s.mqtt_port = Some("+8883".to_string());
    s.mqtt_ws = Some("true".to_string());
    let c = AppConfig::from_settings(s, Some("http://example.org".to_string()));
    assert_eq!(c.tid, "al");
    assert_eq!(c.http_url, "http://example.org/owntracks?u=alice&d=mobile");
    assert!(!c.tls);
    assert!(c.use_password);
    assert_eq!(c.mqtt_port, 8883);
    assert!(c.ws);
    let mut bad = no_settings();
    bad.mqtt_port = Some("70000".to_string());
    bad.mqtt_ws = Some("yes".to_string());
    bad.username = Some("x".to_string());
    let d = AppConfig::from_settings(bad, None);
    assert_eq!(d.mqtt_port, 1883);
    assert!(!d.ws);
    assert_eq!(d.tid, "x");
}

#[test]
fn track_infos_latest_end_first() {
    let info = |id: i32, end: &str| TrackInfo {
        device_id: id,
        user_id: "u".to_string(),
        device: "d".to_string(),
        tid: "t".to_string(),
        ts_start: "2025-02-19 00:00:00".to_string(),
        ts_end: end.to_string(),
    };
    let sorted = sort_track_infos(vec![
        info(1, "2025-02-19 08:00:00"),
        info(2, "2025-02-19 21:30:00"),
        info(3, "2025-02-19 08:00:01"),
        info(4, "2025-02-19 08"),
    ]);
    let ids: Vec<i32> = sorted.iter().map(|t| t.device_id).collect();
    assert_eq!(ids, vec![2, 3, 1, 4]);
    assert!(sort_track_infos(Vec::new()).is_empty());
}

#[test]
fn listener_decisions() {
    let store = on_event(&ListenerEvent::Publish { topic: "owntracks/jane/phone".to_string(), is_location: true });
    assert!(matches!(store, ListenerAction::Store { ref user, ref device } if user == "jane" && device == "phone"));
    let bad = on_event(&ListenerEvent::Publish { topic: "owntracks/jane".to_string(), is_location: true });
    assert!(matches!(bad, ListenerAction::RejectTopic));
    let card = on_event(&ListenerEvent::Publish { topic: "owntracks/jane/phone".to_string(), is_location: false });
    assert!(matches!(card, ListenerAction::Ignore));
    assert!(matches!(on_event(&ListenerEvent::Other), ListenerAction::Ignore));
    assert!(matches!(on_event(&ListenerEvent::Error), ListenerAction::Pause { millis: 500 }));
}

#[test]
fn asset_paths() {
    assert_eq!(asset_path(""), "index.html");
    assert_eq!(asset_path("setup"), "setup.html");
    assert_eq!(asset_path("app.js"), "app.js");
    assert_eq!(asset_path("setup.html"), "setup.html");
}
