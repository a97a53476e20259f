//! The records that the store hands to the library: location fixes, day
//! tracks, track references and summaries.
use crate::value::Property;
use vstd::multiset::Multiset;
use vstd::prelude::*;

verus! {

/// The bit pattern of the smallest negative double, `-0.0`.
pub const SIGN_BIT: u64 = 0x8000_0000_0000_0000;

/// The position of a bit pattern in the numeric order of IEEE-754 doubles:
/// non-negative values keep their pattern, negative values are mirrored below
/// them, so that a larger magnitude gives a smaller key. `-0.0` sits just below
/// `+0.0`, and NaNs lie beyond the infinities.
pub open spec fn order_key(bits: u64) -> int {
    if bits < SIGN_BIT {
        bits as int
    } else {
        -((bits - SIGN_BIT) as int) - 1
    }
}

/// A longitude or latitude in degrees: an IEEE-754 double, held as its bit
/// pattern so that it passes through the library unchanged.
#[derive(Clone, Copy, Debug, PartialEq, Eq, Structural)]
pub struct Coord {
    pub bits: u64,
}

impl Coord {
    pub open spec fn key(self) -> int {
        order_key(self.bits)
    }

    pub fn from_bits(bits: u64) -> (r: Coord)
        ensures
            r.bits == bits,
    {
        Coord { bits }
    }

    pub fn to_bits(self) -> (r: u64)
        ensures
            r == self.bits,
    {
        self.bits
    }

    /// The position of the coordinate in the numeric order of doubles.
    pub fn order(self) -> (r: i64)
        ensures
            r as int == self.key(),
    {
        if self.bits < SIGN_BIT {
            self.bits as i64
        } else {
            -((self.bits - SIGN_BIT) as i64) - 1
        }
    }

    /// Whether `self` comes before `other` in the numeric order of doubles.
    pub fn lt(self, other: Coord) -> (r: bool)
        ensures
            r == (self.key() < other.key()),
    {
        self.order() < other.order()
    }
}

/// A position: longitude `x` and latitude `y`.
#[derive(Clone, Copy, Debug, PartialEq, Eq, Structural)]
pub struct XY {
    pub x: Coord,
    pub y: Coord,
}

/// One location fix of a track.
#[derive(Debug)]
pub struct GpsPoint {
    pub y: Coord,
    pub x: Coord,
    /// Timestamp as stored, such as `2025-02-19 06:46:54+00`.
    pub ts: String,
    pub tid: String,
    /// Speed in km/h.
    pub speed: Option<i16>,
    /// Elevation in meters.
    pub elevation: Option<i16>,
    /// Horizontal accuracy in meters.
    pub accuracy: Option<i32>,
    /// Vertical accuracy in meters.
    pub v_accuracy: Option<i16>,
    /// Course over ground in degrees.
    pub cog: Option<i16>,
    /// Further fields that the device sent, in the order it sent them.
    pub annotations: Vec<Property>,
}

impl GpsPoint {
    pub open spec fn xy_spec(&self) -> XY {
        XY { x: self.x, y: self.y }
    }

    pub fn xy(&self) -> (r: XY)
        ensures
            r == self.xy_spec(),
    {
        XY { x: self.x, y: self.y }
    }
}

/// The latest position of a device.
#[derive(Debug)]
pub struct Position {
    pub device_id: i32,
    pub y: Coord,
    pub x: Coord,
    /// Timestamp as stored, such as `2025-02-19 06:46:54+00`.
    pub ts: String,
    pub tid: String,
    pub speed: Option<i16>,
    pub elevation: Option<i16>,
    pub accuracy: Option<i32>,
    pub v_accuracy: Option<i16>,
    pub cog: Option<i16>,
}

/// The fixes of one device on one day, in the order they were stored.
#[derive(Debug)]
pub struct TrackData {
    pub device_id: i32,
    pub user: String,
    pub device: String,
    pub date: String,
    pub points: Vec<GpsPoint>,
}

/// A summary row of one device's track on one day.
#[derive(Debug)]
pub struct TrackInfo {
    pub device_id: i32,
    pub user_id: String,
    pub device: String,
    pub tid: String,
    pub ts_start: String,
    pub ts_end: String,
}

/// Identifies the track of a device on the day of `ts_start`.
#[derive(Debug)]
pub struct TrackRef {
    pub device_id: i32,
    /// A timestamp such as `2025-02-19 06:46:54+00`.
    pub ts_start: String,
    /// Whether the track is asked for as segments.
    pub segmented: Option<bool>,
}

/// The index of the first `c` in `s`, or `s.len()` where there is none.
pub open spec fn first_index_of(s: Seq<char>, c: char) -> int
    decreases s.len(),
{
    if s.len() == 0 {
        0
    } else if s[0] == c {
        0
    } else {
        1 + first_index_of(s.drop_first(), c)
    }
}

pub proof fn lemma_first_index_of(s: Seq<char>, c: char)
    ensures
        0 <= first_index_of(s, c) <= s.len(),
        forall|i: int| 0 <= i < first_index_of(s, c) ==> s[i] != c,
        first_index_of(s, c) < s.len() ==> s[first_index_of(s, c)] == c,
    decreases s.len(),
{
    if s.len() > 0 && s[0] != c {
        lemma_first_index_of(s.drop_first(), c);
        assert forall|i: int| 0 <= i < first_index_of(s, c) implies s[i] != c by {
            if i > 0 {
                assert(s[i] == s.drop_first()[i - 1]);
            }
        }
    }
}

/// What comes before the first `c` in `s`: all of `s` where there is no `c`.
pub open spec fn before_first(s: Seq<char>, c: char) -> Seq<char> {
    s.take(first_index_of(s, c))
}

/// Finds the index of the first `c` in `s`, or its length.
pub fn find_char(s: &str, c: char) -> (r: usize)
    ensures
        r as int == first_index_of(s@, c),
{
    proof {
        lemma_first_index_of(s@, c);
    }
    let n = s.unicode_len();
    let mut i: usize = 0;
    while i < n
        invariant
            n == s@.len(),
            0 <= i <= n,
            i <= first_index_of(s@, c),
            forall|k: int| 0 <= k < first_index_of(s@, c) ==> s@[k] != c,
            first_index_of(s@, c) < s@.len() ==> s@[first_index_of(s@, c)] == c,
            0 <= first_index_of(s@, c) <= s@.len(),
        decreases n - i,
    {
        if s.get_char(i) == c {
            return i;
        }
        i = i + 1;
    }
    i
}

impl TrackRef {
    /// The day of the track: `ts_start` up to its first space.
    pub fn date(&self) -> (r: String)
        ensures
            r@ == before_first(self.ts_start@, ' '),
    {
        let s = self.ts_start.as_str();
        let k = find_char(s, ' ');
        proof {
            lemma_first_index_of(s@, ' ');
        }
        String::from_str(s.substring_char(0, k))
    }
}


/// Whether `a` comes no later than `b` in the lexicographic order of
/// characters, which is the order of their UTF-8 bytes.
pub open spec fn text_le(a: Seq<char>, b: Seq<char>) -> bool
    decreases a.len(),
{
    if a.len() == 0 {
        true
    } else if b.len() == 0 {
        false
    } else if a[0] != b[0] {
        a[0] < b[0]
    } else {
        text_le(a.drop_first(), b.drop_first())
    }
}

pub proof fn lemma_text_le_total(a: Seq<char>, b: Seq<char>)
    ensures
        text_le(a, b) || text_le(b, a),
    decreases a.len(),
{
    if a.len() > 0 && b.len() > 0 && a[0] == b[0] {
        lemma_text_le_total(a.drop_first(), b.drop_first());
    }
}

pub proof fn lemma_text_le_transitive(a: Seq<char>, b: Seq<char>, c: Seq<char>)
    requires
        text_le(a, b),
        text_le(b, c),
    ensures
        text_le(a, c),
    decreases a.len(),
{
    if a.len() > 0 && b.len() > 0 && c.len() > 0 && a[0] == b[0] && b[0] == c[0] {
        lemma_text_le_transitive(a.drop_first(), b.drop_first(), c.drop_first());
    }
}

/// Whether `a` comes no later than `b` in the order of their characters.
pub fn text_le_exec(a: &str, b: &str) -> (r: bool)
    ensures
        r == text_le(a@, b@),
{
    let n = a.unicode_len();
    let m = b.unicode_len();
    let mut i: usize = 0;
    assert(a@.skip(0) =~= a@);
    assert(b@.skip(0) =~= b@);
    while i < n && i < m && a.get_char(i) == b.get_char(i)
        invariant
            n == a@.len(),
            m == b@.len(),
            0 <= i <= n,
            i <= m,
            text_le(a@, b@) == text_le(a@.skip(i as int), b@.skip(i as int)),
        decreases n - i,
    {
        proof {
            let sa = a@.skip(i as int);
            let sb = b@.skip(i as int);
            assert(sa.drop_first() =~= a@.skip(i as int + 1));
            assert(sb.drop_first() =~= b@.skip(i as int + 1));
        }
        i = i + 1;
    }
    if i == n {
        true
    } else if i == m {
        false
    } else {
        a.get_char(i) < b.get_char(i)
    }
}

/// Whether the summaries run from the latest end time to the earliest.
pub open spec fn sorted_by_end_desc(s: Seq<TrackInfo>) -> bool {
    forall|i: int, j: int| 0 <= i < j < s.len() ==> text_le(s[j].ts_end@, s[i].ts_end@)
}

/// Orders track summaries from the latest end time to the earliest. The
/// result holds the same summaries.
pub fn sort_track_infos(infos: Vec<TrackInfo>) -> (r: Vec<TrackInfo>)
    ensures
        r@.to_multiset() == infos@.to_multiset(),
        sorted_by_end_desc(r@),
{
    broadcast use vstd::seq_lib::group_to_multiset_ensures, vstd::multiset::group_multiset_axioms;

    let ghost all = infos@;
    let mut rest = infos;
    let mut out: Vec<TrackInfo> = Vec::new();
    proof {
        assert(out@.to_multiset() =~= Multiset::empty());
        assert(out@.to_multiset().add(rest@.to_multiset()) =~= all.to_multiset());
    }
    while rest.len() > 0
        invariant
            out@.to_multiset().add(rest@.to_multiset()) == all.to_multiset(),
            sorted_by_end_desc(out@),
        decreases rest@.len(),
    {
        let ghost before = rest@;
        let x = rest.pop().unwrap();
        proof {
            assert(before =~= rest@.push(x));
        }
        let mut k: usize = 0;
        while k < out.len() && !text_le_exec(out[k].ts_end.as_str(), x.ts_end.as_str())
            invariant
                0 <= k <= out@.len(),
                forall|i: int| 0 <= i < k ==> !text_le(out@[i].ts_end@, x.ts_end@),
            decreases out@.len() - k,
        {
            k = k + 1;
        }
        let ghost o = out@;
        proof {
            assert forall|i: int| 0 <= i < k implies text_le(x.ts_end@, o[i].ts_end@) by {
                lemma_text_le_total(o[i].ts_end@, x.ts_end@);
            }
            if k < o.len() {
                assert forall|j: int| k <= j < o.len() implies text_le(o[j].ts_end@, x.ts_end@) by {
                    if j > k {
                        lemma_text_le_transitive(o[j].ts_end@, o[k as int].ts_end@, x.ts_end@);
                    }
                }
            }
        }
        out.insert(k, x);
        proof {
            let n = out@;
            vstd::seq_lib::to_multiset_insert(o, k as int, x);
            vstd::seq_lib::to_multiset_build(rest@, x);
            assert(n.to_multiset() == o.to_multiset().insert(x));
            assert(before.to_multiset() == rest@.to_multiset().insert(x));
            assert(out@.to_multiset().add(rest@.to_multiset()) =~= o.to_multiset().add(before.to_multiset()));
            assert forall|i: int, j: int| 0 <= i < j < n.len() implies text_le(n[j].ts_end@, n[i].ts_end@) by {
                if j < k {
                } else if j == k {
                } else if i < k {
                    lemma_text_le_transitive(o[j - 1].ts_end@, x.ts_end@, o[i].ts_end@);
                } else if i == k {
                } else {
                }
            }
        }
    }
    proof {
        assert(rest@.to_multiset() =~= Multiset::empty());
        assert(out@.to_multiset() =~= out@.to_multiset().add(rest@.to_multiset()));
    }
    out
}
} // verus!
