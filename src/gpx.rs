//! The route-file export: one route track for each day track.
use crate::db::{TrackData, XY};
use crate::filter::{keep, lemma_surviving_step, surviving};
use crate::time_text::{offset_time, parse_offset_time};
use vstd::prelude::*;

verus! {

/// One route point: position, the time read from the stored timestamp where
/// it can be read (Unix time and offset in seconds), elevation in meters and
/// speed in km/h (route files give it in metres per second).
/// A point in time: Unix time, with the offset in seconds east of UTC that it was given in.
#[derive(Clone, Copy, Debug, PartialEq, Eq, Structural)]
pub struct RouteTime {
    pub unix: i64,
    pub offset: i32,
}

#[derive(Clone, Copy, Debug, PartialEq, Eq, Structural)]
pub struct Waypoint {
    pub position: XY,
    pub time: Option<RouteTime>,
    pub elevation: Option<i16>,
    pub speed: Option<i16>,
}

/// A named route track.
#[derive(Debug)]
pub struct RouteTrack {
    pub name: String,
    pub points: Vec<Waypoint>,
}

impl View for RouteTrack {
    type V = (Seq<char>, Seq<Waypoint>);

    open spec fn view(&self) -> (Seq<char>, Seq<Waypoint>) {
        (self.name@, self.points@)
    }
}

/// The route point of a fix.
pub open spec fn waypoint_of(p: crate::db::GpsPoint) -> Waypoint {
    Waypoint {
        position: p.xy_spec(),
        time: match offset_time(p.ts@) {
            Some((unix, offset)) => Some(RouteTime { unix, offset }),
            None => None,
        },
        elevation: p.elevation,
        speed: p.speed,
    }
}

/// The name of a track's route: `Track {date}-{user}-{device}`.
pub open spec fn route_name(t: TrackData) -> Seq<char> {
    "Track "@ + t.date@ + "-"@ + t.user@ + "-"@ + t.device@
}

/// The route track of a day track: its kept fixes, in order.
pub open spec fn route_of(t: TrackData) -> (Seq<char>, Seq<Waypoint>) {
    (route_name(t), surviving(t.points@).map_values(|p: crate::db::GpsPoint| waypoint_of(p)))
}

fn route_track(t: &TrackData) -> (r: RouteTrack)
    ensures
        r@ == route_of(*t),
{
    let mut name = String::from_str("Track ");
    name.append(t.date.as_str());
    name.append("-");
    name.append(t.user.as_str());
    name.append("-");
    name.append(t.device.as_str());
    let pts = &t.points;
    let mut points: Vec<Waypoint> = Vec::new();
    let mut j: usize = 0;
    while j < pts.len()
        invariant
            0 <= j <= pts@.len(),
            pts == &t.points,
            points@ == surviving(pts@.take(j as int)).map_values(
                |p: crate::db::GpsPoint| waypoint_of(p),
            ),
        decreases pts@.len() - j,
    {
        proof {
            lemma_surviving_step(pts@, j as int);
        }
        let ghost s0 = surviving(pts@.take(j as int));
        if keep(&pts[j]) {
            let p = &pts[j];
            let w = Waypoint {
                position: p.xy(),
                time: match parse_offset_time(p.ts.as_str()) {
                    Some((unix, offset)) => Some(RouteTime { unix, offset }),
                    None => None,
                },
                elevation: p.elevation,
                speed: p.speed,
            };
            points.push(w);
            assert(s0.push(pts@[j as int]).map_values(|p: crate::db::GpsPoint| waypoint_of(p))
                =~= s0.map_values(|p: crate::db::GpsPoint| waypoint_of(p)).push(w));
        }
        j = j + 1;
    }
    assert(pts@.take(j as int) =~= pts@);
    assert(name@ =~= route_name(*t));
    RouteTrack { name, points }
}

/// The route-file export: for each track a route track named after its day
/// and identity, through its kept fixes.
pub fn tracks(data: &[TrackData]) -> (r: Vec<RouteTrack>)
    ensures
        r@.len() == data@.len(),
        forall|i: int| 0 <= i < data@.len() ==> (#[trigger] r@[i])@ == route_of(data@[i]),
{
    let mut out: Vec<RouteTrack> = Vec::new();
    let mut i: usize = 0;
    while i < data.len()
        invariant
            0 <= i <= data@.len(),
            out@.len() == i,
            forall|k: int| 0 <= k < i ==> (#[trigger] out@[k])@ == route_of(data@[k]),
        decreases data@.len() - i,
    {
        out.push(route_track(&data[i]));
        i = i + 1;
    }
    out
}

} // verus!
