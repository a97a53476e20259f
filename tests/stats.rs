use owntrack_rs::db::{Coord, GpsPoint, XY};
use owntrack_rs::stats::{BboxStats, DistanceStats, ElevationDiffStats, TrackStats};
use owntrack_rs::time_text::read_timestamp;
use owntrack_rs::value::{Property, Value};

fn c(v: f64) -> Coord {
    Coord::from_bits(v.to_bits())
}

fn fix(ts: &str, speed: Option<i16>, elevation: Option<i16>) -> GpsPoint {
    GpsPoint {
        y: c(1.0),
        x: c(2.0),
        ts: ts.to_string(),
        tid: "jd".to_string(),
        speed,
        elevation,
        accuracy: None,
        v_accuracy: None,
        cog: None,
        annotations: Vec::new(),
    }
}

fn prop<'a>(props: &'a [Property], key: &str) -> &'a Value {
    &props.iter().find(|p| p.key == key).unwrap().value
}

#[test]
fn elevation_delta_of_three_elevations() {
    let s = ElevationDiffStats::from_iter(&[100, 150, 120]);
    assert_eq!(s.elevation_up(), 50);
    assert_eq!(s.elevation_down(), 30);
    let props = s.as_properties();
    assert!(matches!(prop(&props, "elevation_up"), Value::Int(50)));
    assert!(matches!(prop(&props, "elevation_down"), Value::Int(30)));
}

#[test]
fn elevation_delta_of_extremes() {
    let s = ElevationDiffStats::from_iter(&[i16::MIN, i16::MAX, i16::MIN]);
    assert_eq!(s.elevation_up(), 65535);
    assert_eq!(s.elevation_down(), 65535);
    let e = ElevationDiffStats::from_iter(&[]);
    assert_eq!(e.elevation_up(), 0);
    assert_eq!(e.elevation_down(), 0);
}

#[test]
fn elevation_delta_skips_missing_elevations() {
    let pts = [fix("x", None, Some(100)), fix("x", None, None), fix("x", None, Some(150)), fix("x", None, Some(120))];
    let s = TrackStats::from_iter(&pts, 0);
    let props = s.as_properties();
    assert!(matches!(prop(&props, "elevation_up"), Value::Int(50)));
    assert!(matches!(prop(&props, "elevation_down"), Value::Int(30)));
}

#[test]
fn bbox_of_nothing_is_none() {
    assert!(BboxStats::from_xy_iter(&[]).bbox().is_none());
    let b = BboxStats::from_xy_iter(&[XY { x: c(3.0), y: c(-2.0) }]).bbox().unwrap();
    assert_eq!(b, vec![c(3.0), c(-2.0), c(3.0), c(-2.0)]);
}

#[test]
fn distance_legs_of_few_fixes() {
    assert!(DistanceStats::from_xy_iter(&[]).legs().is_empty());
    let one = [XY { x: c(1.0), y: c(1.0) }];
    assert!(DistanceStats::from_xy_iter(&one).legs().is_empty());
    let three = [XY { x: c(0.0), y: c(0.0) }, XY { x: c(1.0), y: c(0.0) }, XY { x: c(1.0), y: c(1.0) }];
    let d = DistanceStats::from_xy_iter(&three);
    assert_eq!(d.legs().len(), 2);
    assert_eq!(d.legs()[1], (three[1], three[2]));
}

#[test]
fn track_stats_summary() {
    let pts = [
        fix("2025-02-19 06:46:54+00", Some(10), Some(400)),
        fix("2025-02-19 07:46:54+01", Some(21), None),
        fix("2025-02-19 08:00:00+00", None, Some(380)),
        fix("not a time", Some(-4), Some(390)),
    ];
    let s = TrackStats::from_iter(&pts, 0);
    let props = s.as_properties();
    assert!(matches!(prop(&props, "min_speed"), Value::Int(-4)));
    assert!(matches!(prop(&props, "max_speed"), Value::Int(21)));
    assert!(matches!(prop(&props, "mean_speed"), Value::Quotient(27, 3)));
    assert!(matches!(prop(&props, "min_elevation"), Value::Int(380)));
    assert!(matches!(prop(&props, "max_elevation"), Value::Int(400)));
    assert!(matches!(prop(&props, "mean_elevation"), Value::Quotient(1170, 3)));
    assert!(matches!(prop(&props, "ts_start"), Value::Text(t) if t == "2025-02-19 06:46:54+0000"));
    assert!(matches!(prop(&props, "ts_end"), Value::Text(t) if t == "2025-02-19 08:00:00+0000"));
    assert!(matches!(prop(&props, "duration"), Value::Int(4386)));
    assert!(matches!(prop(&props, "elevation_up"), Value::Int(10)));
    assert!(matches!(prop(&props, "elevation_down"), Value::Int(20)));
}

#[test]
fn track_stats_of_no_fixes() {
    let s = TrackStats::from_iter(&[], 0);
    let props = s.as_properties();
    for key in ["min_speed", "max_speed", "mean_speed", "ts_start", "ts_end", "duration"] {
        assert!(matches!(prop(&props, key), Value::Null));
    }
    assert!(s.bbox().is_none());
    assert!(s.legs().is_empty());
}

#[test]
fn timestamps_without_offset_use_the_given_one() {
    assert_eq!(read_timestamp("2025-02-19 06:46:54+00", 3600), Some(1739947614));
    assert_eq!(read_timestamp("2025-02-19 06:46:54", 3600), Some(1739947614 - 3600));
    assert_eq!(read_timestamp("2025-02-19 06:46:54", 0), Some(1739947614));
    assert_eq!(read_timestamp("yesterday", 0), None);
}
