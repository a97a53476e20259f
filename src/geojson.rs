//! Feature collections: the point, line and segmented-line exports of day
//! tracks, and the export of current device positions.
use crate::db::{Coord, GpsPoint, Position, TrackData, XY};
use crate::filter::{accurate, keep, lemma_surviving, lemma_surviving_step, surviving};
use crate::stats::{bbox_of, positions_of, TrackStats};
use crate::time_text::valid_offset;
use crate::value::{props_model, push_prop, PropModel, Property, Value, ValueModel};
use vstd::prelude::*;

verus! {

/// A point, or a line through positions in order.
#[derive(Debug)]
pub enum Geometry {
    Point(XY),
    LineString(Vec<XY>),
}

/// The model of a [`Geometry`].
pub enum GeometryModel {
    Point(XY),
    LineString(Seq<XY>),
}

impl View for Geometry {
    type V = GeometryModel;

    open spec fn view(&self) -> GeometryModel {
        match self {
            Geometry::Point(p) => GeometryModel::Point(*p),
            Geometry::LineString(v) => GeometryModel::LineString(v@),
        }
    }
}

/// A feature: an optional id, a geometry and optional properties.
#[derive(Debug)]
pub struct Feature {
    pub id: Option<i128>,
    pub geometry: Geometry,
    pub properties: Option<Vec<Property>>,
}

/// The model of a [`Feature`].
pub struct FeatureModel {
    pub id: Option<int>,
    pub geometry: GeometryModel,
    pub properties: Option<Seq<PropModel>>,
}

impl View for Feature {
    type V = FeatureModel;

    open spec fn view(&self) -> FeatureModel {
        FeatureModel {
            id: match self.id {
                Some(i) => Some(i as int),
                None => None,
            },
            geometry: self.geometry@,
            properties: match self.properties {
                Some(p) => Some(props_model(p@)),
                None => None,
            },
        }
    }
}

/// The models of a sequence of features.
pub open spec fn features_model(s: Seq<Feature>) -> Seq<FeatureModel> {
    s.map_values(|f: Feature| f@)
}

/// A collection of features, with the bounding box and the statistics of the
/// fixes where the export carries them.
pub struct FeatureCollection {
    pub bbox: Option<Vec<Coord>>,
    pub features: Vec<Feature>,
    pub stats: Option<TrackStats>,
}

fn push_feature(v: &mut Vec<Feature>, f: Feature)
    ensures
        features_model(final(v)@) == features_model(old(v)@).push(f@),
{
    let ghost fv = f@;
    v.push(f);
    assert(features_model(v@) =~= features_model(old(v)@).push(fv));
}

/// Annotation keys that stay internal and are never exported.
pub open spec fn skipped(key: Seq<char>) -> bool {
    key == "_id"@ || key == "m"@ || key == "BSSID"@ || key == "SSID"@ || key == "created_at"@
}

/// Whether an annotation key stays internal.
pub fn is_skipped(key: &String) -> (r: bool)
    ensures
        r == skipped(key@),
{
    let skip = ["_id", "m", "BSSID", "SSID", "created_at"];
    let mut i: usize = 0;
    while i < 5
        invariant
            0 <= i <= 5,
            skip@ == seq!["_id", "m", "BSSID", "SSID", "created_at"],
            forall|k: int| 0 <= k < i ==> key@ != skip@[k]@,
        decreases 5 - i,
    {
        let other = String::from_str(skip[i]);
        if *key == other {
            return true;
        }
        i = i + 1;
    }
    false
}

/// The annotations that are exported, in order.
pub open spec fn kept_annotations(a: Seq<Property>) -> Seq<PropModel>
    decreases a.len(),
{
    if a.len() == 0 {
        Seq::empty()
    } else if skipped(a.last().key@) {
        kept_annotations(a.drop_last())
    } else {
        kept_annotations(a.drop_last()).push(a.last()@)
    }
}

pub open spec fn int16_model(v: Option<i16>) -> ValueModel {
    match v {
        Some(i) => ValueModel::Int(i as int),
        None => ValueModel::Null,
    }
}

pub open spec fn int32_model(v: Option<i32>) -> ValueModel {
    match v {
        Some(i) => ValueModel::Int(i as int),
        None => ValueModel::Null,
    }
}

fn int16(v: Option<i16>) -> (r: Value)
    ensures
        r@ == int16_model(v),
{
    match v {
        Some(i) => Value::Int(i as i128),
        None => Value::Null,
    }
}

fn int32(v: Option<i32>) -> (r: Value)
    ensures
        r@ == int32_model(v),
{
    match v {
        Some(i) => Value::Int(i as i128),
        None => Value::Null,
    }
}

/// The exported properties of a fix: its fields, then its annotations but
/// the internal ones.
pub open spec fn point_props(p: GpsPoint) -> Seq<PropModel> {
    seq![
        ("time"@, ValueModel::Text(p.ts@)),
        ("tid"@, ValueModel::Text(p.tid@)),
        ("speed"@, int16_model(p.speed)),
        ("elevation"@, int16_model(p.elevation)),
        ("accuracy"@, int32_model(p.accuracy)),
        ("v_accuracy"@, int16_model(p.v_accuracy)),
        ("cog"@, int16_model(p.cog)),
    ] + kept_annotations(p.annotations@)
}

/// The exported properties of a fix.
pub fn point_properties(pt: &GpsPoint) -> (r: Vec<Property>)
    ensures
        props_model(r@) == point_props(*pt),
{
    let mut v: Vec<Property> = Vec::new();
    push_prop(&mut v, Property::new("time", Value::Text(pt.ts.clone())));
    push_prop(&mut v, Property::new("tid", Value::Text(pt.tid.clone())));
    push_prop(&mut v, Property::new("speed", int16(pt.speed)));
    push_prop(&mut v, Property::new("elevation", int16(pt.elevation)));
    push_prop(&mut v, Property::new("accuracy", int32(pt.accuracy)));
    push_prop(&mut v, Property::new("v_accuracy", int16(pt.v_accuracy)));
    push_prop(&mut v, Property::new("cog", int16(pt.cog)));
    let ghost head = props_model(v@);
    let a = &pt.annotations;
    let mut k: usize = 0;
    while k < a.len()
        invariant
            0 <= k <= a@.len(),
            a == &pt.annotations,
            props_model(v@) == head + kept_annotations(a@.take(k as int)),
        decreases a@.len() - k,
    {
        assert(a@.take(k as int + 1).drop_last() =~= a@.take(k as int));
        assert(a@.take(k as int + 1).last() == a@[k as int]);
        if !is_skipped(&a[k].key) {
            push_prop(&mut v, a[k].copy());
        }
        k = k + 1;
    }
    assert(a@.take(k as int) =~= a@);
    assert(props_model(v@) =~= point_props(*pt));
    v
}

/// The line feature of a track's kept fixes: through all of them, with the
/// properties of the last one.
pub open spec fn line_feature(s: Seq<GpsPoint>) -> FeatureModel {
    FeatureModel {
        id: None,
        geometry: GeometryModel::LineString(positions_of(s)),
        properties: if s.len() == 0 {
            None
        } else {
            Some(point_props(s.last()))
        },
    }
}

/// The line export: one feature for each track.
pub open spec fn line_features(tracks: Seq<TrackData>) -> Seq<FeatureModel> {
    Seq::new(tracks.len(), |i: int| line_feature(surviving(tracks[i].points@)))
}

fn line_of(track: &TrackData) -> (r: Feature)
    ensures
        r@ == line_feature(surviving(track.points@)),
{
    let pts = &track.points;
    let mut line: Vec<XY> = Vec::new();
    let mut last: Option<usize> = None;
    let mut j: usize = 0;
    while j < pts.len()
        invariant
            0 <= j <= pts@.len(),
            pts == &track.points,
            line@ == positions_of(surviving(pts@.take(j as int))),
            match last {
                Some(k) => k < j && surviving(pts@.take(j as int)).len() > 0 && pts@[k as int]
                    == surviving(pts@.take(j as int)).last(),
                None => surviving(pts@.take(j as int)).len() == 0,
            },
        decreases pts@.len() - j,
    {
        proof {
            lemma_surviving_step(pts@, j as int);
        }
        if keep(&pts[j]) {
            line.push(pts[j].xy());
            last = Some(j);
        }
        proof {
            assert(line@ =~= positions_of(surviving(pts@.take(j as int + 1))));
        }
        j = j + 1;
    }
    assert(pts@.take(j as int) =~= pts@);
    let properties = match last {
        Some(k) => Some(point_properties(&pts[k])),
        None => None,
    };
    Feature { id: None, geometry: Geometry::LineString(line), properties }
}

/// The line export: for each track one feature through its kept fixes, with
/// the properties of the last one.
pub fn track(tracks: &[TrackData]) -> (r: FeatureCollection)
    ensures
        features_model(r.features@) == line_features(tracks@),
        r.bbox is None,
        r.stats is None,
{
    let mut features: Vec<Feature> = Vec::new();
    let mut i: usize = 0;
    while i < tracks.len()
        invariant
            0 <= i <= tracks@.len(),
            features_model(features@) == line_features(tracks@).take(i as int),
        decreases tracks@.len() - i,
    {
        push_feature(&mut features, line_of(&tracks[i]));
        assert(line_features(tracks@).take(i as int + 1) =~= line_features(tracks@).take(i as int).push(
            line_feature(surviving(tracks@[i as int].points@)),
        ));
        i = i + 1;
    }
    assert(line_features(tracks@).take(i as int) =~= line_features(tracks@));
    FeatureCollection { bbox: None, features, stats: None }
}


/// The feature of the segment from `a` to `b` of track `no`: the properties of
/// `a`, with `trackno` added.
pub open spec fn segment_feature(a: GpsPoint, b: GpsPoint, no: int) -> FeatureModel {
    FeatureModel {
        id: None,
        geometry: GeometryModel::LineString(seq![a.xy_spec(), b.xy_spec()]),
        properties: Some(point_props(a).push(("trackno"@, ValueModel::Int(no)))),
    }
}

/// The segments between consecutive kept fixes of track `no`.
pub open spec fn track_segments(s: Seq<GpsPoint>, no: int) -> Seq<FeatureModel> {
    Seq::new(
        if s.len() == 0 {
            0
        } else {
            (s.len() - 1) as nat
        },
        |j: int| segment_feature(s[j], s[j + 1], no),
    )
}

/// The segmented export: the segments of each track in turn.
pub open spec fn segment_features(tracks: Seq<TrackData>) -> Seq<FeatureModel>
    decreases tracks.len(),
{
    if tracks.len() == 0 {
        Seq::empty()
    } else {
        segment_features(tracks.drop_last()) + track_segments(
            surviving(tracks.last().points@),
            tracks.len() - 1,
        )
    }
}

fn segment_of(a: &GpsPoint, b: &GpsPoint, no: usize) -> (r: Feature)
    ensures
        r@ == segment_feature(*a, *b, no as int),
{
    let mut properties = point_properties(a);
    push_prop(&mut properties, Property::new("trackno", Value::Int(no as i128)));
    let line = vec![a.xy(), b.xy()];
    assert(line@ =~= seq![a.xy_spec(), b.xy_spec()]);
    Feature { id: None, geometry: Geometry::LineString(line), properties: Some(properties) }
}

/// The segmented export: for each pair of consecutive kept fixes of each
/// track one two-point line, with the properties of the leading fix and the
/// index `trackno` of the track.
pub fn track_with_segments(tracks: &[TrackData]) -> (r: FeatureCollection)
    ensures
        features_model(r.features@) == segment_features(tracks@),
        r.bbox is None,
        r.stats is None,
{
    let mut features: Vec<Feature> = Vec::new();
    let mut i: usize = 0;
    while i < tracks.len()
        invariant
            0 <= i <= tracks@.len(),
            features_model(features@) == segment_features(tracks@.take(i as int)),
        decreases tracks@.len() - i,
    {
        let ghost before = features_model(features@);
        let pts = &tracks[i].points;
        let mut prev: Option<usize> = None;
        let mut j: usize = 0;
        while j < pts.len()
            invariant
                0 <= i < tracks@.len(),
                0 <= j <= pts@.len(),
                pts == &tracks@[i as int].points,
                features_model(features@) == before + track_segments(
                    surviving(pts@.take(j as int)),
                    i as int,
                ),
                match prev {
                    Some(k) => k < j && surviving(pts@.take(j as int)).len() > 0 && pts@[k as int]
                        == surviving(pts@.take(j as int)).last(),
                    None => surviving(pts@.take(j as int)).len() == 0,
                },
            decreases pts@.len() - j,
        {
            proof {
                lemma_surviving_step(pts@, j as int);
            }
            let ghost s0 = surviving(pts@.take(j as int));
            if keep(&pts[j]) {
                if let Some(k) = prev {
                    push_feature(&mut features, segment_of(&pts[k], &pts[j], i));
                    proof {
                        let s1 = s0.push(pts@[j as int]);
                        assert(track_segments(s1, i as int) =~= track_segments(s0, i as int).push(
                            segment_feature(pts@[k as int], pts@[j as int], i as int),
                        ));
                    }
                } else {
                    proof {
                        let s1 = s0.push(pts@[j as int]);
                        assert(track_segments(s1, i as int) =~= track_segments(s0, i as int));
                    }
                }
                prev = Some(j);
            }
            j = j + 1;
        }
        assert(pts@.take(j as int) =~= pts@);
        assert(tracks@.take(i as int + 1).drop_last() =~= tracks@.take(i as int));
        assert(tracks@.take(i as int + 1).last() == tracks@[i as int]);
        i = i + 1;
    }
    assert(tracks@.take(i as int) =~= tracks@);
    FeatureCollection { bbox: None, features, stats: None }
}

/// The kept fixes of all tracks, track after track.
pub open spec fn flat_surviving(tracks: Seq<TrackData>) -> Seq<GpsPoint>
    decreases tracks.len(),
{
    if tracks.len() == 0 {
        Seq::empty()
    } else {
        flat_surviving(tracks.drop_last()) + surviving(tracks.last().points@)
    }
}

/// The number of fixes of all tracks.
pub open spec fn total_points(tracks: Seq<TrackData>) -> int
    decreases tracks.len(),
{
    if tracks.len() == 0 {
        0
    } else {
        total_points(tracks.drop_last()) + tracks.last().points@.len()
    }
}

/// The point feature of the `k`-th kept fix.
pub open spec fn point_feature(p: GpsPoint, k: int) -> FeatureModel {
    FeatureModel {
        id: Some(k),
        geometry: GeometryModel::Point(p.xy_spec()),
        properties: Some(point_props(p)),
    }
}

/// One point feature for each fix of `s`, numbered from 0.
pub open spec fn point_features(s: Seq<GpsPoint>) -> Seq<FeatureModel> {
    Seq::new(s.len(), |k: int| point_feature(s[k], k))
}

pub proof fn lemma_flat_surviving_len(tracks: Seq<TrackData>)
    ensures
        flat_surviving(tracks).len() <= total_points(tracks),
    decreases tracks.len(),
{
    if tracks.len() > 0 {
        lemma_flat_surviving_len(tracks.drop_last());
        lemma_surviving(tracks.last().points@);
    }
}

/// The point export: one feature for each kept fix of all tracks, with its
/// index among them as id; the collection carries the bounding box and the
/// statistics of those fixes. Timestamps without an offset are read in the
/// fixed `offset` (seconds east of UTC).
pub fn track_points(tracks: &[TrackData], offset: i32) -> (r: FeatureCollection)
    requires
        valid_offset(offset as int),
        total_points(tracks@) < u64::MAX,
    ensures
        features_model(r.features@) == point_features(flat_surviving(tracks@)),
        match r.stats {
            Some(st) => st.wf() && st.points() == flat_surviving(tracks@) && st.offset() == offset,
            None => false,
        },
        match r.bbox {
            Some(b) => flat_surviving(tracks@).len() > 0 && b@ == bbox_of(
                positions_of(flat_surviving(tracks@)),
            ),
            None => flat_surviving(tracks@).len() == 0,
        },
{
    let mut features: Vec<Feature> = Vec::new();
    let mut stats = TrackStats::new(offset);
    let mut i: usize = 0;
    while i < tracks.len()
        invariant
            0 <= i <= tracks@.len(),
            total_points(tracks@) < u64::MAX,
            stats.wf(),
            stats.offset() == offset,
            stats.points() == flat_surviving(tracks@.take(i as int)),
            features_model(features@) == point_features(stats.points()),
        decreases tracks@.len() - i,
    {
        let ghost before = stats.points();
        let pts = &tracks[i].points;
        proof {
            assert(tracks@.take(i as int + 1).drop_last() =~= tracks@.take(i as int));
            assert(tracks@.take(i as int + 1).last() == tracks@[i as int]);
            lemma_total_prefix(tracks@, i as int + 1);
            lemma_flat_surviving_len(tracks@.take(i as int));
        }
        let mut j: usize = 0;
        while j < pts.len()
            invariant
                0 <= i < tracks@.len(),
                0 <= j <= pts@.len(),
                pts == &tracks@[i as int].points,
                stats.wf(),
                stats.offset() == offset,
                stats.points() == before + surviving(pts@.take(j as int)),
                features_model(features@) == point_features(stats.points()),
                before.len() + pts@.len() < u64::MAX,
            decreases pts@.len() - j,
        {
            proof {
                lemma_surviving_step(pts@, j as int);
                lemma_surviving(pts@.take(j as int));
            }
            if keep(&pts[j]) {
                let ghost s0 = stats.points();
                let k = features.len();
                assert(features_model(features@).len() == features@.len());
                let f = Feature {
                    id: Some(k as i128),
                    geometry: Geometry::Point(pts[j].xy()),
                    properties: Some(point_properties(&pts[j])),
                };
                push_feature(&mut features, f);
                stats.add(&pts[j]);
                proof {
                    assert(before + surviving(pts@.take(j as int)).push(pts@[j as int]) =~= (before
                        + surviving(pts@.take(j as int))).push(pts@[j as int]));
                    assert(point_features(s0.push(pts@[j as int])) =~= point_features(s0).push(
                        point_feature(pts@[j as int], k as int),
                    ));
                }
            }
            j = j + 1;
        }
        assert(pts@.take(j as int) =~= pts@);
        i = i + 1;
    }
    assert(tracks@.take(i as int) =~= tracks@);
    let bbox = stats.bbox();
    FeatureCollection { bbox, features, stats: Some(stats) }
}

pub proof fn lemma_total_prefix(tracks: Seq<TrackData>, n: int)
    requires
        0 <= n <= tracks.len(),
    ensures
        total_points(tracks.take(n)) <= total_points(tracks),
    decreases tracks.len() - n,
{
    if n < tracks.len() {
        lemma_total_prefix(tracks, n + 1);
        assert(tracks.take(n + 1).drop_last() =~= tracks.take(n));
    } else {
        assert(tracks.take(n) =~= tracks);
    }
}

/// The exported properties of a device's position.
pub open spec fn position_props(p: Position) -> Seq<PropModel> {
    seq![
        ("device_id"@, ValueModel::Int(p.device_id as int)),
        ("time"@, ValueModel::Text(p.ts@)),
        ("tid"@, ValueModel::Text(p.tid@)),
        ("speed"@, int16_model(p.speed)),
        ("elevation"@, int16_model(p.elevation)),
        ("accuracy"@, int32_model(p.accuracy)),
        ("v_accuracy"@, int16_model(p.v_accuracy)),
        ("cog"@, int16_model(p.cog)),
    ]
}

/// The point feature of a device's position, with the device as id.
pub open spec fn position_feature(p: Position) -> FeatureModel {
    FeatureModel {
        id: Some(p.device_id as int),
        geometry: GeometryModel::Point(XY { x: p.x, y: p.y }),
        properties: Some(position_props(p)),
    }
}

/// The positions that are kept, in order.
pub open spec fn surviving_positions(ps: Seq<Position>) -> Seq<Position>
    decreases ps.len(),
{
    if ps.len() == 0 {
        Seq::empty()
    } else if accurate(ps.last().accuracy) {
        surviving_positions(ps.drop_last()).push(ps.last())
    } else {
        surviving_positions(ps.drop_last())
    }
}

fn position_of(p: &Position) -> (r: Feature)
    ensures
        r@ == position_feature(*p),
{
    let mut v: Vec<Property> = Vec::new();
    push_prop(&mut v, Property::new("device_id", Value::Int(p.device_id as i128)));
    push_prop(&mut v, Property::new("time", Value::Text(p.ts.clone())));
    push_prop(&mut v, Property::new("tid", Value::Text(p.tid.clone())));
    push_prop(&mut v, Property::new("speed", int16(p.speed)));
    push_prop(&mut v, Property::new("elevation", int16(p.elevation)));
    push_prop(&mut v, Property::new("accuracy", int32(p.accuracy)));
    push_prop(&mut v, Property::new("v_accuracy", int16(p.v_accuracy)));
    push_prop(&mut v, Property::new("cog", int16(p.cog)));
    assert(props_model(v@) =~= position_props(*p));
    Feature {
        id: Some(p.device_id as i128),
        geometry: Geometry::Point(XY { x: p.x, y: p.y }),
        properties: Some(v),
    }
}

/// The export of current positions: one point feature for each kept
/// position, with the device as id.
pub fn positions(points: &[Position]) -> (r: FeatureCollection)
    ensures
        features_model(r.features@) == surviving_positions(points@).map_values(
            |p: Position| position_feature(p),
        ),
        r.bbox is None,
        r.stats is None,
{
    let mut features: Vec<Feature> = Vec::new();
    let mut i: usize = 0;
    while i < points.len()
        invariant
            0 <= i <= points@.len(),
            features_model(features@) == surviving_positions(points@.take(i as int)).map_values(
                |p: Position| position_feature(p),
            ),
        decreases points@.len() - i,
    {
        let ghost s0 = surviving_positions(points@.take(i as int));
        assert(points@.take(i as int + 1).drop_last() =~= points@.take(i as int));
        assert(points@.take(i as int + 1).last() == points@[i as int]);
        let keep_it = match points[i].accuracy {
            Some(a) => a < crate::filter::MAX_ACCURACY,
            None => true,
        };
        if keep_it {
            push_feature(&mut features, position_of(&points[i]));
            assert(s0.push(points@[i as int]).map_values(|p: Position| position_feature(p))
                =~= s0.map_values(|p: Position| position_feature(p)).push(
                position_feature(points@[i as int]),
            ));
        }
        i = i + 1;
    }
    assert(points@.take(i as int) =~= points@);
    FeatureCollection { bbox: None, features, stats: None }
}

/// No fix whose accuracy reaches the limit is exported: each fix behind a
/// point feature, and each fix the statistics see, is accurate, and so is each
/// fix through which a line or segment of a track runs.
pub proof fn lemma_only_accurate_exported(tracks: Seq<TrackData>)
    ensures
        forall|k: int|
            0 <= k < flat_surviving(tracks).len() ==> accurate(
                (#[trigger] flat_surviving(tracks)[k]).accuracy,
            ),
        forall|i: int, k: int|
            0 <= i < tracks.len() && 0 <= k < surviving(tracks[i].points@).len() ==> {
                &&& accurate((#[trigger] surviving(tracks[i].points@)[k]).accuracy)
                &&& tracks[i].points@.contains(surviving(tracks[i].points@)[k])
            },
    decreases tracks.len(),
{
    if tracks.len() > 0 {
        lemma_only_accurate_exported(tracks.drop_last());
        lemma_surviving(tracks.last().points@);
        let a = flat_surviving(tracks.drop_last());
        let b = surviving(tracks.last().points@);
        assert forall|k: int| 0 <= k < flat_surviving(tracks).len() implies accurate(
            (#[trigger] flat_surviving(tracks)[k]).accuracy,
        ) by {
            if k < a.len() {
                assert(flat_surviving(tracks)[k] == a[k]);
            } else {
                assert(flat_surviving(tracks)[k] == b[k - a.len()]);
            }
        }
        assert forall|i: int, k: int|
            0 <= i < tracks.len() && 0 <= k < surviving(tracks[i].points@).len() implies {
            &&& accurate((#[trigger] surviving(tracks[i].points@)[k]).accuracy)
            &&& tracks[i].points@.contains(surviving(tracks[i].points@)[k])
        } by {
            lemma_surviving(tracks[i].points@);
        }
    }
}

/// Every kept fix lies inside the bounding box of the point export.
pub proof fn lemma_bbox_bounds_kept_fixes(tracks: Seq<TrackData>)
    requires
        flat_surviving(tracks).len() > 0,
    ensures
        forall|k: int|
            0 <= k < flat_surviving(tracks).len() ==> {
                let p = #[trigger] flat_surviving(tracks)[k];
                let b = bbox_of(positions_of(flat_surviving(tracks)));
                &&& b[0].key() <= p.x.key() <= b[2].key()
                &&& b[1].key() <= p.y.key() <= b[3].key()
            },
{
    let s = positions_of(flat_surviving(tracks));
    crate::stats::lemma_bbox_contains(s);
    assert forall|k: int| 0 <= k < flat_surviving(tracks).len() implies {
        let p = #[trigger] flat_surviving(tracks)[k];
        let b = bbox_of(positions_of(flat_surviving(tracks)));
        &&& b[0].key() <= p.x.key() <= b[2].key()
        &&& b[1].key() <= p.y.key() <= b[3].key()
    } by {
        assert(s[k] == flat_surviving(tracks)[k].xy_spec());
    }
}

/// With at most one kept fix there is no leg, so the travelled distance is zero.
pub proof fn lemma_no_distance_without_two_fixes(tracks: Seq<TrackData>)
    ensures
        flat_surviving(tracks).len() <= 1 ==> crate::stats::legs_of(
            positions_of(flat_surviving(tracks)),
        ).len() == 0,
        forall|i: int|
            0 <= i < tracks.len() && surviving(#[trigger] tracks[i].points@).len() <= 1
                ==> track_segments(surviving(tracks[i].points@), i).len() == 0,
{
}

/// A track with one kept fix exports as exactly one point feature, at the
/// position of that fix.
pub proof fn lemma_single_fix_round_trip(t: TrackData)
    requires
        t.points@.len() == 1,
        accurate(t.points@[0].accuracy),
    ensures
        point_features(flat_surviving(seq![t])).len() == 1,
        point_features(flat_surviving(seq![t]))[0].geometry == GeometryModel::Point(
            t.points@[0].xy_spec(),
        ),
{
    let pts = t.points@;
    assert(pts.drop_last() =~= Seq::<GpsPoint>::empty());
    assert(surviving(pts.drop_last()) =~= Seq::<GpsPoint>::empty());
    assert(pts.last() == pts[0]);
    assert(surviving(pts) =~= seq![pts[0]]);
    assert(seq![t].drop_last() =~= Seq::<TrackData>::empty());
    assert(flat_surviving(seq![t].drop_last()) =~= Seq::<GpsPoint>::empty());
    assert(seq![t].last() == t);
    assert(flat_surviving(seq![t]) =~= seq![pts[0]]);
}

/// The exports depend on their input alone: equal inputs give equal documents.
pub proof fn lemma_exports_repeatable(a: Seq<TrackData>, b: Seq<TrackData>)
    requires
        a == b,
    ensures
        line_features(a) == line_features(b),
        segment_features(a) == segment_features(b),
        point_features(flat_surviving(a)) == point_features(flat_surviving(b)),
{
}
} // verus!
