//! Single-pass accumulators over the fixes of a track: extremes, means,
//! bounding box, distance legs and elevation gain and loss.
use crate::db::{Coord, GpsPoint, XY};
use crate::time_text::{format_utc, read_timestamp, stamp_of, utc_text, valid_offset};
use crate::value::{opt_int_model, props_model, push_prop, Property, PropModel, Value, ValueModel};
use vstd::prelude::*;

verus! {

/// The smallest element of a non-empty sequence.
pub open spec fn seq_min(s: Seq<int>) -> int
    decreases s.len(),
{
    if s.len() <= 1 {
        s[0]
    } else if s.last() < seq_min(s.drop_last()) {
        s.last()
    } else {
        seq_min(s.drop_last())
    }
}

/// The largest element of a non-empty sequence.
pub open spec fn seq_max(s: Seq<int>) -> int
    decreases s.len(),
{
    if s.len() <= 1 {
        s[0]
    } else if s.last() > seq_max(s.drop_last()) {
        s.last()
    } else {
        seq_max(s.drop_last())
    }
}

/// The sum of a sequence.
pub open spec fn seq_sum(s: Seq<int>) -> int
    decreases s.len(),
{
    if s.len() == 0 {
        0
    } else {
        seq_sum(s.drop_last()) + s.last()
    }
}

/// Running minimum and maximum of integer samples.
pub struct MinMax {
    min: Option<i64>,
    max: Option<i64>,
    samples: Ghost<Seq<int>>,
}

impl MinMax {
    /// The samples added so far, in order.
    pub closed spec fn samples(&self) -> Seq<int> {
        self.samples@
    }

    pub closed spec fn wf(&self) -> bool {
        if self.samples@.len() == 0 {
            self.min is None && self.max is None
        } else {
            self.min == Some(seq_min(self.samples@) as i64) && self.max == Some(
                seq_max(self.samples@) as i64,
            ) && seq_min(self.samples@) == self.min.unwrap() as int && seq_max(self.samples@)
                == self.max.unwrap() as int
        }
    }

    pub fn new() -> (r: MinMax)
        ensures
            r.wf(),
            r.samples() == Seq::<int>::empty(),
    {
        MinMax { min: None, max: None, samples: Ghost(Seq::empty()) }
    }

    pub fn add(&mut self, v: i64)
        requires
            old(self).wf(),
        ensures
            final(self).wf(),
            final(self).samples() == old(self).samples().push(v as int),
    {
        let ghost s = self.samples@.push(v as int);
        assert(s.drop_last() =~= self.samples@);
        match self.min {
            Some(m) => {
                if v < m {
                    self.min = Some(v);
                }
            },
            None => {
                self.min = Some(v);
            },
        }
        match self.max {
            Some(m) => {
                if v > m {
                    self.max = Some(v);
                }
            },
            None => {
                self.max = Some(v);
            },
        }
        self.samples = Ghost(s);
    }

    /// The smallest sample, or `None` before the first one.
    pub fn min(&self) -> (r: Option<i64>)
        requires
            self.wf(),
        ensures
            match r {
                Some(m) => self.samples().len() > 0 && m as int == seq_min(self.samples()),
                None => self.samples().len() == 0,
            },
    {
        self.min
    }

    /// The largest sample, or `None` before the first one.
    pub fn max(&self) -> (r: Option<i64>)
        requires
            self.wf(),
        ensures
            match r {
                Some(m) => self.samples().len() > 0 && m as int == seq_max(self.samples()),
                None => self.samples().len() == 0,
            },
    {
        self.max
    }
}

/// Running sum and count of 16-bit samples, from which the mean follows exactly.
pub struct Mean {
    sum: i128,
    count: u64,
    samples: Ghost<Seq<int>>,
}

impl Mean {
    pub closed spec fn samples(&self) -> Seq<int> {
        self.samples@
    }

    pub closed spec fn wf(&self) -> bool {
        &&& self.sum as int == seq_sum(self.samples@)
        &&& self.count as int == self.samples@.len()
        &&& -32768 * (self.count as int) <= self.sum <= 32767 * (self.count as int)
    }

    pub fn new() -> (r: Mean)
        ensures
            r.wf(),
            r.samples() == Seq::<int>::empty(),
    {
        Mean { sum: 0, count: 0, samples: Ghost(Seq::empty()) }
    }

    pub fn add(&mut self, v: i16)
        requires
            old(self).wf(),
            old(self).samples().len() < u64::MAX,
        ensures
            final(self).wf(),
            final(self).samples() == old(self).samples().push(v as int),
    {
        let ghost s = self.samples@.push(v as int);
        assert(s.drop_last() =~= self.samples@);
        self.sum = self.sum + v as i128;
        self.count = self.count + 1;
        self.samples = Ghost(s);
    }

    /// The mean as the exact quotient of sum and count, or null before the
    /// first sample.
    pub fn mean(&self) -> (r: Value)
        requires
            self.wf(),
        ensures
            r@ == mean_model(self.samples()),
    {
        if self.count == 0 {
            Value::Null
        } else {
            Value::Quotient(self.sum, self.count)
        }
    }
}

/// The mean of a sequence as a quotient, or null where it is empty.
pub open spec fn mean_model(s: Seq<int>) -> ValueModel {
    if s.len() == 0 {
        ValueModel::Null
    } else {
        ValueModel::Quotient(seq_sum(s), s.len())
    }
}

/// The first of the coordinates that come lowest in the numeric order.
pub open spec fn coord_min(s: Seq<Coord>) -> Coord
    decreases s.len(),
{
    if s.len() <= 1 {
        s[0]
    } else if s.last().key() < coord_min(s.drop_last()).key() {
        s.last()
    } else {
        coord_min(s.drop_last())
    }
}

/// The first of the coordinates that come highest in the numeric order.
pub open spec fn coord_max(s: Seq<Coord>) -> Coord
    decreases s.len(),
{
    if s.len() <= 1 {
        s[0]
    } else if s.last().key() > coord_max(s.drop_last()).key() {
        s.last()
    } else {
        coord_max(s.drop_last())
    }
}

/// The extremes of a non-empty sequence of coordinates lie in it and bound all of it.
pub proof fn lemma_coord_min_max(s: Seq<Coord>)
    requires
        s.len() > 0,
    ensures
        s.contains(coord_min(s)),
        s.contains(coord_max(s)),
        forall|i: int|
            0 <= i < s.len() ==> coord_min(s).key() <= (#[trigger] s[i]).key() <= coord_max(s).key(),
    decreases s.len(),
{
    if s.len() > 1 {
        let t = s.drop_last();
        lemma_coord_min_max(t);
        assert(forall|i: int| 0 <= i < t.len() ==> t[i] == s[i]);
        assert(s[s.len() - 1] == s.last());
    } else {
        assert(s[0] == coord_min(s));
    }
}

/// Running minimum and maximum of coordinates, in the numeric order of doubles.
pub struct CoordRange {
    min: Option<Coord>,
    max: Option<Coord>,
    samples: Ghost<Seq<Coord>>,
}

impl CoordRange {
    pub closed spec fn samples(&self) -> Seq<Coord> {
        self.samples@
    }

    pub closed spec fn wf(&self) -> bool {
        if self.samples@.len() == 0 {
            self.min is None && self.max is None
        } else {
            self.min == Some(coord_min(self.samples@)) && self.max == Some(coord_max(self.samples@))
        }
    }

    pub fn new() -> (r: CoordRange)
        ensures
            r.wf(),
            r.samples() == Seq::<Coord>::empty(),
    {
        CoordRange { min: None, max: None, samples: Ghost(Seq::empty()) }
    }

    pub fn add(&mut self, v: Coord)
        requires
            old(self).wf(),
        ensures
            final(self).wf(),
            final(self).samples() == old(self).samples().push(v),
    {
        let ghost s = self.samples@.push(v);
        assert(s.drop_last() =~= self.samples@);
        match self.min {
            Some(m) => {
                if v.lt(m) {
                    self.min = Some(v);
                }
            },
            None => {
                self.min = Some(v);
            },
        }
        match self.max {
            Some(m) => {
                if m.lt(v) {
                    self.max = Some(v);
                }
            },
            None => {
                self.max = Some(v);
            },
        }
        self.samples = Ghost(s);
    }

    pub fn min(&self) -> (r: Option<Coord>)
        requires
            self.wf(),
        ensures
            r == if self.samples().len() == 0 {
                None
            } else {
                Some(coord_min(self.samples()))
            },
    {
        self.min
    }

    pub fn max(&self) -> (r: Option<Coord>)
        requires
            self.wf(),
        ensures
            r == if self.samples().len() == 0 {
                None
            } else {
                Some(coord_max(self.samples()))
            },
    {
        self.max
    }
}

/// Bounding box of positions.
pub struct BboxStats {
    x: CoordRange,
    y: CoordRange,
    positions: Ghost<Seq<XY>>,
}

/// The longitudes of positions.
pub open spec fn xs(s: Seq<XY>) -> Seq<Coord> {
    s.map_values(|p: XY| p.x)
}

/// The latitudes of positions.
pub open spec fn ys(s: Seq<XY>) -> Seq<Coord> {
    s.map_values(|p: XY| p.y)
}

/// The bounding box `[xmin, ymin, xmax, ymax]` of non-empty positions.
pub open spec fn bbox_of(s: Seq<XY>) -> Seq<Coord> {
    seq![coord_min(xs(s)), coord_min(ys(s)), coord_max(xs(s)), coord_max(ys(s))]
}

impl BboxStats {
    /// The positions added so far, in order.
    pub closed spec fn positions(&self) -> Seq<XY> {
        self.positions@
    }

    pub closed spec fn wf(&self) -> bool {
        &&& self.x.wf()
        &&& self.y.wf()
        &&& self.x.samples() == xs(self.positions@)
        &&& self.y.samples() == ys(self.positions@)
    }

    pub fn new() -> (r: BboxStats)
        ensures
            r.wf(),
            r.positions() == Seq::<XY>::empty(),
    {
        let r = BboxStats { x: CoordRange::new(), y: CoordRange::new(), positions: Ghost(Seq::empty()) };
        assert(xs(Seq::<XY>::empty()) =~= Seq::<Coord>::empty());
        assert(ys(Seq::<XY>::empty()) =~= Seq::<Coord>::empty());
        r
    }

    pub fn add(&mut self, p: XY)
        requires
            old(self).wf(),
        ensures
            final(self).wf(),
            final(self).positions() == old(self).positions().push(p),
    {
        let ghost s = self.positions@.push(p);
        self.x.add(p.x);
        self.y.add(p.y);
        self.positions = Ghost(s);
        assert(xs(s) =~= xs(old(self).positions@).push(p.x));
        assert(ys(s) =~= ys(old(self).positions@).push(p.y));
    }

    /// The bounding box of all the given positions.
    pub fn from_xy_iter(points: &[XY]) -> (r: BboxStats)
        ensures
            r.wf(),
            r.positions() == points@,
    {
        let mut stats = BboxStats::new();
        let mut i: usize = 0;
        while i < points.len()
            invariant
                0 <= i <= points@.len(),
                stats.wf(),
                stats.positions() == points@.take(i as int),
            decreases points@.len() - i,
        {
            stats.add(points[i]);
            assert(points@.take(i as int + 1) =~= points@.take(i as int).push(points@[i as int]));
            i = i + 1;
        }
        assert(points@.take(i as int) =~= points@);
        stats
    }

    /// `[xmin, ymin, xmax, ymax]`, or `None` before the first position.
    pub fn bbox(&self) -> (r: Option<Vec<Coord>>)
        requires
            self.wf(),
        ensures
            match r {
                Some(b) => self.positions().len() > 0 && b@ == bbox_of(self.positions()),
                None => self.positions().len() == 0,
            },
    {
        match (self.x.min(), self.y.min(), self.x.max(), self.y.max()) {
            (Some(xmin), Some(ymin), Some(xmax), Some(ymax)) => {
                let v = vec![xmin, ymin, xmax, ymax];
                assert(v@ =~= bbox_of(self.positions()));
                Some(v)
            },
            _ => None,
        }
    }
}

/// Every position lies inside the bounding box of the positions, and each
/// bound is the coordinate of one of them.
pub proof fn lemma_bbox_contains(s: Seq<XY>)
    requires
        s.len() > 0,
    ensures
        forall|i: int|
            0 <= i < s.len() ==> {
                &&& bbox_of(s)[0].key() <= (#[trigger] s[i]).x.key() <= bbox_of(s)[2].key()
                &&& bbox_of(s)[1].key() <= s[i].y.key() <= bbox_of(s)[3].key()
            },
        xs(s).contains(bbox_of(s)[0]),
        ys(s).contains(bbox_of(s)[1]),
        xs(s).contains(bbox_of(s)[2]),
        ys(s).contains(bbox_of(s)[3]),
{
    lemma_coord_min_max(xs(s));
    lemma_coord_min_max(ys(s));
    assert forall|i: int| 0 <= i < s.len() implies {
        &&& bbox_of(s)[0].key() <= (#[trigger] s[i]).x.key() <= bbox_of(s)[2].key()
        &&& bbox_of(s)[1].key() <= s[i].y.key() <= bbox_of(s)[3].key()
    } by {
        assert(xs(s)[i] == s[i].x);
        assert(ys(s)[i] == s[i].y);
    }
}

/// The consecutive pairs of a sequence of positions.
pub open spec fn legs_of(s: Seq<XY>) -> Seq<(XY, XY)> {
    Seq::new(if s.len() == 0 { 0 } else { (s.len() - 1) as nat }, |i: int| (s[i], s[i + 1]))
}

/// The legs between consecutive positions, over which the travelled distance
/// is summed.
pub struct DistanceStats {
    legs: Vec<(XY, XY)>,
    last: Option<XY>,
    positions: Ghost<Seq<XY>>,
}

impl DistanceStats {
    pub closed spec fn positions(&self) -> Seq<XY> {
        self.positions@
    }

    pub closed spec fn wf(&self) -> bool {
        &&& self.legs@ == legs_of(self.positions@)
        &&& self.last == if self.positions@.len() == 0 {
            None
        } else {
            Some(self.positions@.last())
        }
    }

    pub fn new() -> (r: DistanceStats)
        ensures
            r.wf(),
            r.positions() == Seq::<XY>::empty(),
    {
        let r = DistanceStats { legs: Vec::new(), last: None, positions: Ghost(Seq::empty()) };
        assert(r.legs@ =~= legs_of(Seq::<XY>::empty()));
        r
    }

    pub fn add(&mut self, p: XY)
        requires
            old(self).wf(),
        ensures
            final(self).wf(),
            final(self).positions() == old(self).positions().push(p),
    {
        let ghost s = self.positions@.push(p);
        if let Some(q) = self.last {
            self.legs.push((q, p));
        }
        self.last = Some(p);
        self.positions = Ghost(s);
        assert(self.legs@ =~= legs_of(s));
    }

    /// The legs between all consecutive positions.
    pub fn from_xy_iter(points: &[XY]) -> (r: DistanceStats)
        ensures
            r.wf(),
            r.positions() == points@,
    {
        let mut stats = DistanceStats::new();
        let mut i: usize = 0;
        while i < points.len()
            invariant
                0 <= i <= points@.len(),
                stats.wf(),
                stats.positions() == points@.take(i as int),
            decreases points@.len() - i,
        {
            stats.add(points[i]);
            assert(points@.take(i as int + 1) =~= points@.take(i as int).push(points@[i as int]));
            i = i + 1;
        }
        assert(points@.take(i as int) =~= points@);
        stats
    }

    /// The legs, in order: one for each pair of consecutive positions.
    pub fn legs(&self) -> (r: &Vec<(XY, XY)>)
        requires
            self.wf(),
        ensures
            r@ == legs_of(self.positions()),
    {
        &self.legs
    }
}

/// The climb between consecutive elevations.
pub open spec fn elevation_up(e: Seq<int>) -> int
    decreases e.len(),
{
    if e.len() < 2 {
        0
    } else {
        elevation_up(e.drop_last()) + if e.last() > e[e.len() - 2] {
            e.last() - e[e.len() - 2]
        } else {
            0
        }
    }
}

/// The descent between consecutive elevations, as a positive magnitude.
pub open spec fn elevation_down(e: Seq<int>) -> int
    decreases e.len(),
{
    if e.len() < 2 {
        0
    } else {
        elevation_down(e.drop_last()) + if e.last() > e[e.len() - 2] {
            0
        } else {
            e[e.len() - 2] - e.last()
        }
    }
}

/// Elevation gain and loss over consecutive elevations.
pub struct ElevationDiffStats {
    elevation_up: i128,
    elevation_down: i128,
    last: Option<i16>,
    elevations: Ghost<Seq<int>>,
}

impl ElevationDiffStats {
    /// The elevations added so far, in order.
    pub closed spec fn elevations(&self) -> Seq<int> {
        self.elevations@
    }

    pub closed spec fn wf(&self) -> bool {
        &&& self.elevation_up as int == elevation_up(self.elevations@)
        &&& self.elevation_down as int == elevation_down(self.elevations@)
        &&& 0 <= self.elevation_up <= 65535 * self.elevations@.len()
        &&& 0 <= self.elevation_down <= 65535 * self.elevations@.len()
        &&& self.last == if self.elevations@.len() == 0 {
            None::<i16>
        } else {
            Some(self.elevations@.last() as i16)
        }
        &&& self.elevations@.len() > 0 ==> self.elevations@.last() == self.last.unwrap() as int
    }

    pub fn new() -> (r: ElevationDiffStats)
        ensures
            r.wf(),
            r.elevations() == Seq::<int>::empty(),
    {
        ElevationDiffStats { elevation_up: 0, elevation_down: 0, last: None, elevations: Ghost(Seq::empty()) }
    }

    pub fn add(&mut self, e: i16)
        requires
            old(self).wf(),
            old(self).elevations().len() < u64::MAX,
        ensures
            final(self).wf(),
            final(self).elevations() == old(self).elevations().push(e as int),
    {
        let ghost s = self.elevations@.push(e as int);
        assert(s.drop_last() =~= self.elevations@);
        if let Some(prev) = self.last {
            assert(s[s.len() - 2] == prev as int);
            if e > prev {
                self.elevation_up = self.elevation_up + (e as i128 - prev as i128);
            } else {
                self.elevation_down = self.elevation_down + (prev as i128 - e as i128);
            }
        }
        self.last = Some(e);
        self.elevations = Ghost(s);
    }

    /// Gain and loss over all consecutive elevations.
    pub fn from_iter(elevations: &[i16]) -> (r: ElevationDiffStats)
        ensures
            r.wf(),
            r.elevations() == elevations@.map_values(|e: i16| e as int),
    {
        let mut stats = ElevationDiffStats::new();
        let mut i: usize = 0;
        while i < elevations.len()
            invariant
                0 <= i <= elevations@.len(),
                stats.wf(),
                stats.elevations() == elevations@.take(i as int).map_values(|e: i16| e as int),
            decreases elevations@.len() - i,
        {
            stats.add(elevations[i]);
            assert(elevations@.take(i as int + 1).map_values(|e: i16| e as int) =~= elevations@.take(
                i as int,
            ).map_values(|e: i16| e as int).push(elevations@[i as int] as int));
            i = i + 1;
        }
        assert(elevations@.take(i as int) =~= elevations@);
        stats
    }

    pub fn elevation_up(&self) -> (r: i128)
        requires
            self.wf(),
        ensures
            r == elevation_up(self.elevations()),
    {
        self.elevation_up
    }

    pub fn elevation_down(&self) -> (r: i128)
        requires
            self.wf(),
        ensures
            r == elevation_down(self.elevations()),
    {
        self.elevation_down
    }

    /// `elevation_up` and `elevation_down`, as properties.
    pub fn as_properties(&self) -> (r: Vec<Property>)
        requires
            self.wf(),
        ensures
            props_model(r@) == elevation_props(self.elevations()),
    {
        let mut v: Vec<Property> = Vec::new();
        push_prop(&mut v, Property::new("elevation_up", Value::Int(self.elevation_up)));
        push_prop(&mut v, Property::new("elevation_down", Value::Int(self.elevation_down)));
        assert(props_model(v@) =~= elevation_props(self.elevations()));
        v
    }
}

/// The properties of elevation gain and loss.
pub open spec fn elevation_props(e: Seq<int>) -> Seq<PropModel> {
    seq![
        ("elevation_up"@, ValueModel::Int(elevation_up(e))),
        ("elevation_down"@, ValueModel::Int(elevation_down(e))),
    ]
}


/// The Unix times of the fixes whose timestamp can be read, in order.
pub open spec fn timestamps(pts: Seq<GpsPoint>, offset: int) -> Seq<int>
    decreases pts.len(),
{
    if pts.len() == 0 {
        Seq::empty()
    } else {
        match stamp_of(pts.last().ts@, offset) {
            Some(t) => timestamps(pts.drop_last(), offset).push(t as int),
            None => timestamps(pts.drop_last(), offset),
        }
    }
}

/// The speeds that the fixes report, in order.
pub open spec fn speeds(pts: Seq<GpsPoint>) -> Seq<int>
    decreases pts.len(),
{
    if pts.len() == 0 {
        Seq::empty()
    } else {
        match pts.last().speed {
            Some(v) => speeds(pts.drop_last()).push(v as int),
            None => speeds(pts.drop_last()),
        }
    }
}

/// The elevations that the fixes report, in order.
pub open spec fn elevations(pts: Seq<GpsPoint>) -> Seq<int>
    decreases pts.len(),
{
    if pts.len() == 0 {
        Seq::empty()
    } else {
        match pts.last().elevation {
            Some(v) => elevations(pts.drop_last()).push(v as int),
            None => elevations(pts.drop_last()),
        }
    }
}

/// The positions of the fixes, in order.
pub open spec fn positions_of(pts: Seq<GpsPoint>) -> Seq<XY> {
    pts.map_values(|p: GpsPoint| p.xy_spec())
}

pub proof fn lemma_samples_len(pts: Seq<GpsPoint>, offset: int)
    ensures
        timestamps(pts, offset).len() <= pts.len(),
        speeds(pts).len() <= pts.len(),
        elevations(pts).len() <= pts.len(),
    decreases pts.len(),
{
    if pts.len() > 0 {
        lemma_samples_len(pts.drop_last(), offset);
    }
}

/// The smallest element, or `None` for an empty sequence.
pub open spec fn min_of(s: Seq<int>) -> Option<int> {
    if s.len() == 0 {
        None
    } else {
        Some(seq_min(s))
    }
}

/// The largest element, or `None` for an empty sequence.
pub open spec fn max_of(s: Seq<int>) -> Option<int> {
    if s.len() == 0 {
        None
    } else {
        Some(seq_max(s))
    }
}

/// The text of an optional Unix time, or null.
pub open spec fn time_text_model(t: Option<int>) -> ValueModel {
    match t {
        Some(v) => match utc_text(v) {
            Some(s) => ValueModel::Text(s),
            None => ValueModel::Null,
        },
        None => ValueModel::Null,
    }
}

/// The seconds between the first and the last Unix time, where both can be
/// written as text; else null.
pub open spec fn duration_model(ts: Seq<int>) -> ValueModel {
    if ts.len() > 0 && utc_text(seq_min(ts)) is Some && utc_text(seq_max(ts)) is Some {
        ValueModel::Int(seq_max(ts) - seq_min(ts))
    } else {
        ValueModel::Null
    }
}

/// The summary properties of a sequence of fixes.
pub open spec fn track_props(pts: Seq<GpsPoint>, offset: int) -> Seq<PropModel> {
    seq![
        ("min_speed"@, opt_int_model(min_of(speeds(pts)))),
        ("max_speed"@, opt_int_model(max_of(speeds(pts)))),
        ("mean_speed"@, mean_model(speeds(pts))),
        ("min_elevation"@, opt_int_model(min_of(elevations(pts)))),
        ("max_elevation"@, opt_int_model(max_of(elevations(pts)))),
        ("mean_elevation"@, mean_model(elevations(pts))),
        ("ts_start"@, time_text_model(min_of(timestamps(pts, offset)))),
        ("ts_end"@, time_text_model(max_of(timestamps(pts, offset)))),
        ("duration"@, duration_model(timestamps(pts, offset))),
    ] + elevation_props(elevations(pts))
}

/// All accumulators fed with the same fixes in one pass. A fix without speed
/// or elevation is skipped by that field's accumulators, so elevation gain and
/// loss run over consecutive fixes that report an elevation. A timestamp that
/// cannot be read is skipped too; one without an offset of its own is read in
/// the fixed offset given at creation.
pub struct TrackStats {
    offset: i32,
    ts: MinMax,
    speed: MinMax,
    speed_mean: Mean,
    elevation: MinMax,
    elevation_mean: Mean,
    bbox: BboxStats,
    distance: DistanceStats,
    elevation_diff: ElevationDiffStats,
    points: Ghost<Seq<GpsPoint>>,
}

impl TrackStats {
    /// The fixes added so far, in order.
    pub closed spec fn points(&self) -> Seq<GpsPoint> {
        self.points@
    }

    /// The offset (seconds east of UTC) for timestamps without one.
    pub closed spec fn offset(&self) -> int {
        self.offset as int
    }

    pub closed spec fn wf(&self) -> bool {
        let pts = self.points@;
        &&& valid_offset(self.offset as int)
        &&& self.ts.wf() && self.ts.samples() == timestamps(pts, self.offset as int)
        &&& self.speed.wf() && self.speed.samples() == speeds(pts)
        &&& self.speed_mean.wf() && self.speed_mean.samples() == speeds(pts)
        &&& self.elevation.wf() && self.elevation.samples() == elevations(pts)
        &&& self.elevation_mean.wf() && self.elevation_mean.samples() == elevations(pts)
        &&& self.bbox.wf() && self.bbox.positions() == positions_of(pts)
        &&& self.distance.wf() && self.distance.positions() == positions_of(pts)
        &&& self.elevation_diff.wf() && self.elevation_diff.elevations() == elevations(pts)
    }

    pub fn new(offset: i32) -> (r: TrackStats)
        requires
            valid_offset(offset as int),
        ensures
            r.wf(),
            r.points() == Seq::<GpsPoint>::empty(),
            r.offset() == offset as int,
    {
        let r = TrackStats {
            offset,
            ts: MinMax::new(),
            speed: MinMax::new(),
            speed_mean: Mean::new(),
            elevation: MinMax::new(),
            elevation_mean: Mean::new(),
            bbox: BboxStats::new(),
            distance: DistanceStats::new(),
            elevation_diff: ElevationDiffStats::new(),
            points: Ghost(Seq::empty()),
        };
        assert(positions_of(Seq::<GpsPoint>::empty()) =~= Seq::<XY>::empty());
        r
    }

    /// Feeds one fix to every accumulator.
    pub fn add(&mut self, p: &GpsPoint)
        requires
            old(self).wf(),
            old(self).points().len() < u64::MAX,
        ensures
            final(self).wf(),
            final(self).points() == old(self).points().push(*p),
            final(self).offset() == old(self).offset(),
    {
        let ghost s = self.points@.push(*p);
        proof {
            assert(s.drop_last() =~= self.points@);
            assert(s.last() == *p);
            lemma_samples_len(self.points@, self.offset as int);
            assert(positions_of(s) =~= positions_of(self.points@).push(p.xy_spec()));
        }
        if let Some(t) = read_timestamp(p.ts.as_str(), self.offset) {
            self.ts.add(t);
        }
        if let Some(v) = p.speed {
            self.speed.add(v as i64);
            self.speed_mean.add(v);
        }
        if let Some(e) = p.elevation {
            self.elevation.add(e as i64);
            self.elevation_mean.add(e);
            self.elevation_diff.add(e);
        }
        let xy = p.xy();
        self.bbox.add(xy);
        self.distance.add(xy);
        self.points = Ghost(s);
    }

    /// The accumulators fed with all the given fixes.
    pub fn from_iter(points: &[GpsPoint], offset: i32) -> (r: TrackStats)
        requires
            valid_offset(offset as int),
        ensures
            r.wf(),
            r.points() == points@,
            r.offset() == offset as int,
    {
        let mut stats = TrackStats::new(offset);
        let mut i: usize = 0;
        while i < points.len()
            invariant
                0 <= i <= points@.len(),
                stats.wf(),
                stats.points() == points@.take(i as int),
                stats.offset() == offset as int,
            decreases points@.len() - i,
        {
            stats.add(&points[i]);
            assert(points@.take(i as int + 1) =~= points@.take(i as int).push(points@[i as int]));
            i = i + 1;
        }
        assert(points@.take(i as int) =~= points@);
        stats
    }

    /// `[xmin, ymin, xmax, ymax]` of the fixes, or `None` before the first one.
    pub fn bbox(&self) -> (r: Option<Vec<Coord>>)
        requires
            self.wf(),
        ensures
            match r {
                Some(b) => self.points().len() > 0 && b@ == bbox_of(positions_of(self.points())),
                None => self.points().len() == 0,
            },
    {
        self.bbox.bbox()
    }

    /// The legs between consecutive fixes, over which the distance is summed.
    pub fn legs(&self) -> (r: &Vec<(XY, XY)>)
        requires
            self.wf(),
        ensures
            r@ == legs_of(positions_of(self.points())),
    {
        self.distance.legs()
    }

    /// Speed, elevation and time summaries, with elevation gain and loss.
    pub fn as_properties(&self) -> (r: Vec<Property>)
        requires
            self.wf(),
        ensures
            props_model(r@) == track_props(self.points(), self.offset()),
    {
        let ghost pts = self.points@;
        let mut v: Vec<Property> = Vec::new();
        push_prop(&mut v, Property::new("min_speed", crate::value::opt_int(self.speed.min())));
        push_prop(&mut v, Property::new("max_speed", crate::value::opt_int(self.speed.max())));
        push_prop(&mut v, Property::new("mean_speed", self.speed_mean.mean()));
        push_prop(&mut v, Property::new("min_elevation", crate::value::opt_int(self.elevation.min())));
        push_prop(&mut v, Property::new("max_elevation", crate::value::opt_int(self.elevation.max())));
        push_prop(&mut v, Property::new("mean_elevation", self.elevation_mean.mean()));
        let start = match self.ts.min() {
            Some(t) => format_utc(t),
            None => None,
        };
        let end = match self.ts.max() {
            Some(t) => format_utc(t),
            None => None,
        };
        let duration = match (&start, &end, self.ts.min(), self.ts.max()) {
            (Some(_), Some(_), Some(lo), Some(hi)) => Value::Int(hi as i128 - lo as i128),
            _ => Value::Null,
        };
        let start_value = match start {
            Some(s) => Value::Text(s),
            None => Value::Null,
        };
        let end_value = match end {
            Some(s) => Value::Text(s),
            None => Value::Null,
        };
        push_prop(&mut v, Property::new("ts_start", start_value));
        push_prop(&mut v, Property::new("ts_end", end_value));
        push_prop(&mut v, Property::new("duration", duration));
        let ghost head = props_model(v@);
        let diff = self.elevation_diff.as_properties();
        let mut i: usize = 0;
        while i < diff.len()
            invariant
                0 <= i <= diff@.len(),
                props_model(diff@) == elevation_props(elevations(pts)),
                props_model(v@) == head + props_model(diff@).take(i as int),
            decreases diff@.len() - i,
        {
            push_prop(&mut v, diff[i].copy());
            assert(props_model(diff@).take(i as int + 1) =~= props_model(diff@).take(i as int).push(
                diff@[i as int]@,
            ));
            i = i + 1;
        }
        assert(props_model(diff@).take(i as int) =~= props_model(diff@));
        assert(props_model(v@) =~= track_props(pts, self.offset as int));
        v
    }
}
} // verus!
