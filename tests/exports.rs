use owntrack_rs::db::{Coord, GpsPoint, Position, TrackData, XY};
use owntrack_rs::geojson::{point_properties, positions, track, track_points, track_with_segments, Geometry};
use owntrack_rs::gpx::tracks;
use owntrack_rs::value::{Property, Value};

fn c(v: f64) -> Coord {
    Coord::from_bits(v.to_bits())
}

fn xy(x: f64, y: f64) -> XY {
    XY { x: c(x), y: c(y) }
}

fn point(x: f64, y: f64, accuracy: Option<i32>) -> GpsPoint {
    GpsPoint {
        y: c(y),
        x: c(x),
        ts: "2025-02-19 06:46:54+00".to_string(),
        tid: "jd".to_string(),
        speed: Some(36),
        elevation: Some(100),
        accuracy,
        v_accuracy: None,
        cog: None,
        annotations: Vec::new(),
    }
}

fn track_of(points: Vec<GpsPoint>) -> TrackData {
    TrackData {
        device_id: 1,
        user: "jane".to_string(),
        device: "phone".to_string(),
        date: "2025-02-19".to_string(),
        points,
    }
}

fn prop<'a>(props: &'a [Property], key: &str) -> Option<&'a Value> {
    props.iter().rev().find(|p| p.key == key).map(|p| &p.value)
}

#[test]
fn point_export_round_trip_of_one_fix() {
    let x = 8.545_123_456_789;
    let y = 47.376_987_654_321;
    let data = [track_of(vec![point(x, y, Some(5))])];
    let r = track_points(&data, 0);
    assert_eq!(r.features.len(), 1);
    match &r.features[0].geometry {
        Geometry::Point(p) => {
            assert_eq!(f64::from_bits(p.x.to_bits()), x);
            assert_eq!(f64::from_bits(p.y.to_bits()), y);
        }
        _ => panic!("expected a point"),
    }
    assert_eq!(r.features[0].id, Some(0));
}

#[test]
fn line_export_of_two_fixes() {
    let data = [track_of(vec![point(0.0, 0.0, None), point(1.0, 1.0, None)])];
    let r = track(&data);
    assert_eq!(r.features.len(), 1);
    match &r.features[0].geometry {
        Geometry::LineString(line) => assert_eq!(line, &vec![xy(0.0, 0.0), xy(1.0, 1.0)]),
        _ => panic!("expected a line"),
    }
    assert!(r.features[0].properties.is_some());
}

#[test]
fn line_export_takes_properties_of_last_kept_fix() {
    let mut last = point(2.0, 2.0, Some(10));
    last.tid = "zz".to_string();
    let data = [track_of(vec![point(0.0, 0.0, None), last, point(3.0, 3.0, Some(500))])];
    let r = track(&data);
    let props = r.features[0].properties.as_ref().unwrap();
    assert!(matches!(prop(props, "tid"), Some(Value::Text(t)) if t == "zz"));
}

#[test]
fn line_export_of_track_without_kept_fix() {
    let data = [track_of(vec![point(0.0, 0.0, Some(200))])];
    let r = track(&data);
    assert_eq!(r.features.len(), 1);
    match &r.features[0].geometry {
        Geometry::LineString(line) => assert!(line.is_empty()),
        _ => panic!("expected a line"),
    }
    assert!(r.features[0].properties.is_none());
}

#[test]
fn segmented_export_of_three_fixes() {
    let first = track_of(vec![point(5.0, 5.0, None)]);
    let second = track_of(vec![point(0.0, 0.0, None), point(1.0, 1.0, None), point(2.0, 2.0, None)]);
    let r = track_with_segments(&[first, second]);
    assert_eq!(r.features.len(), 2);
    for f in &r.features {
        let props = f.properties.as_ref().unwrap();
        assert!(matches!(prop(props, "trackno"), Some(Value::Int(1))));
    }
    match &r.features[1].geometry {
        Geometry::LineString(line) => assert_eq!(line, &vec![xy(1.0, 1.0), xy(2.0, 2.0)]),
        _ => panic!("expected a line"),
    }
}

#[test]
fn inaccurate_fix_is_never_exported() {
    let data = [track_of(vec![
        point(0.0, 0.0, Some(10)),
        point(50.0, 50.0, Some(200)),
        point(1.0, 1.0, Some(199)),
    ])];
    let points = track_points(&data, 0);
    assert_eq!(points.features.len(), 2);
    assert_eq!(points.bbox.unwrap(), vec![c(0.0), c(0.0), c(1.0), c(1.0)]);
    let lines = track(&data);
    match &lines.features[0].geometry {
        Geometry::LineString(line) => assert_eq!(line, &vec![xy(0.0, 0.0), xy(1.0, 1.0)]),
        _ => panic!("expected a line"),
    }
    let segments = track_with_segments(&data);
    assert_eq!(segments.features.len(), 1);
    let routes = tracks(&data);
    assert_eq!(routes[0].points.len(), 2);
    let stats = points.stats.unwrap();
    assert_eq!(stats.legs().len(), 1);
}

#[test]
fn bbox_bounds_every_kept_fix() {
    let data = [track_of(vec![
        point(-3.5, 2.0, None),
        point(4.0, -1.25, None),
        point(0.5, 7.0, None),
        point(-0.0, 0.0, None),
    ])];
    let r = track_points(&data, 0);
    let b = r.bbox.unwrap();
    assert_eq!(b, vec![c(-3.5), c(-1.25), c(4.0), c(7.0)]);
}

#[test]
fn empty_input_gives_empty_documents() {
    let r = track_points(&[], 0);
    assert!(r.features.is_empty());
    assert!(r.bbox.is_none());
    assert!(track(&[]).features.is_empty());
    assert!(track_with_segments(&[]).features.is_empty());
    assert!(tracks(&[]).is_empty());
}

#[test]
fn exports_are_repeatable() {
    let data = [track_of(vec![point(0.0, 0.0, None), point(1.0, 1.0, None), point(2.0, 3.0, Some(12))])];
    assert_eq!(format!("{:?}", track(&data).features), format!("{:?}", track(&data).features));
    assert_eq!(
        format!("{:?}", track_with_segments(&data).features),
        format!("{:?}", track_with_segments(&data).features)
    );
    assert_eq!(
        format!("{:?}", track_points(&data, 0).features),
        format!("{:?}", track_points(&data, 0).features)
    );
    assert_eq!(format!("{:?}", tracks(&data)), format!("{:?}", tracks(&data)));
}

#[test]
fn point_properties_skip_internal_annotations() {
    let mut p = point(0.0, 0.0, None);
    p.annotations = vec![
        Property { key: "_id".to_string(), value: Value::Text("abc".to_string()) },
        Property { key: "batt".to_string(), value: Value::Int(80) },
        Property { key: "SSID".to_string(), value: Value::Text("home".to_string()) },
        Property { key: "m".to_string(), value: Value::Int(2) },
        Property { key: "conn".to_string(), value: Value::Text("w".to_string()) },
    ];
    let props = point_properties(&p);
    let keys: Vec<&str> = props.iter().map(|p| p.key.as_str()).collect();
    assert_eq!(
        keys,
        vec!["time", "tid", "speed", "elevation", "accuracy", "v_accuracy", "cog", "batt", "conn"]
    );
    assert!(matches!(prop(&props, "speed"), Some(Value::Int(36))));
    assert!(matches!(prop(&props, "cog"), Some(Value::Null)));
}

#[test]
fn positions_export_one_feature_per_device() {
    let pos = |id: i32, accuracy: Option<i32>| Position {
        device_id: id,
        y: c(1.0),
        x: c(2.0),
        ts: "2025-02-19 06:46:54".to_string(),
        tid: "jd".to_string(),
        speed: None,
        elevation: Some(3),
        accuracy,
        v_accuracy: None,
        cog: None,
    };
    let r = positions(&[pos(7, Some(20)), pos(8, Some(400)), pos(9, None)]);
    assert_eq!(r.features.len(), 2);
    assert_eq!(r.features[0].id, Some(7));
    assert_eq!(r.features[1].id, Some(9));
    let props = r.features[0].properties.as_ref().unwrap();
    assert!(matches!(prop(props, "device_id"), Some(Value::Int(7))));
}

#[test]
fn route_export_names_track_and_reads_times() {
    let mut naive = point(1.0, 2.0, None);
    naive.ts = "2025-02-19 06:46:54".to_string();
    let data = [track_of(vec![point(0.0, 0.0, None), naive])];
    let r = tracks(&data);
    assert_eq!(r.len(), 1);
    assert_eq!(r[0].name, "Track 2025-02-19-jane-phone");
    assert_eq!(r[0].points.len(), 2);
    let t = r[0].points[0].time.unwrap();
    assert_eq!(t.unix, 1739947614);
    assert_eq!(t.offset, 0);
    assert!(r[0].points[1].time.is_none());
    assert_eq!(r[0].points[0].speed, Some(36));
    assert_eq!(r[0].points[0].elevation, Some(100));
}
