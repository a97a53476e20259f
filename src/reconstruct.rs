//! Grouping the stored rows of one day into tracks, one for each device.
use crate::db::{GpsPoint, TrackData};
use crate::filter::{accurate, keep, surviving};
use vstd::prelude::*;

verus! {

/// A stored fix with the device that reported it.
#[derive(Debug)]
pub struct LocationRow {
    pub device_id: i32,
    pub user: String,
    pub device: String,
    pub point: GpsPoint,
}

/// The devices of the rows, each once, in the order of their first row.
pub open spec fn device_ids(rows: Seq<LocationRow>) -> Seq<i32>
    decreases rows.len(),
{
    if rows.len() == 0 {
        Seq::empty()
    } else if device_ids(rows.drop_last()).contains(rows.last().device_id) {
        device_ids(rows.drop_last())
    } else {
        device_ids(rows.drop_last()).push(rows.last().device_id)
    }
}

/// The fixes of the rows of device `id`, in order.
pub open spec fn device_points(rows: Seq<LocationRow>, id: i32) -> Seq<GpsPoint>
    decreases rows.len(),
{
    if rows.len() == 0 {
        Seq::empty()
    } else if rows.last().device_id == id {
        device_points(rows.drop_last(), id).push(rows.last().point)
    } else {
        device_points(rows.drop_last(), id)
    }
}

/// The index of the first row of device `id`.
pub open spec fn first_row(rows: Seq<LocationRow>, id: i32) -> int
    decreases rows.len(),
{
    if rows.len() == 0 {
        0
    } else if device_ids(rows.drop_last()).contains(id) {
        first_row(rows.drop_last(), id)
    } else {
        rows.len() - 1
    }
}

/// Whether a device has a kept fix among the rows.
pub open spec fn has_kept(rows: Seq<LocationRow>, id: i32) -> bool {
    surviving(device_points(rows, id)).len() > 0
}

/// The devices with a kept fix, in the order of their first row.
pub open spec fn kept_ids(rows: Seq<LocationRow>) -> Seq<i32> {
    device_ids(rows).filter(|id: i32| has_kept(rows, id))
}

/// The track of device `id`: its user and device name from its first row,
/// and all its fixes in order.
pub open spec fn track_matches(t: TrackData, rows: Seq<LocationRow>, id: i32, date: Seq<char>) -> bool {
    &&& t.device_id == id
    &&& t.date@ == date
    &&& t.user@ == rows[first_row(rows, id)].user@
    &&& t.device@ == rows[first_row(rows, id)].device@
    &&& t.points@ == device_points(rows, id)
}

proof fn lemma_surviving_push(s: Seq<GpsPoint>, p: GpsPoint)
    ensures
        surviving(s.push(p)).len() > 0 <==> (surviving(s).len() > 0 || accurate(p.accuracy)),
{
    assert(s.push(p).drop_last() =~= s);
}

proof fn lemma_step(rows: Seq<LocationRow>, i: int)
    requires
        0 <= i < rows.len(),
    ensures
        rows.take(i + 1).drop_last() == rows.take(i),
        rows.take(i + 1).last() == rows[i],
{
    assert(rows.take(i + 1).drop_last() =~= rows.take(i));
}

proof fn lemma_ids_first_row(rows: Seq<LocationRow>)
    ensures
        forall|g: int|
            0 <= g < device_ids(rows).len() ==> {
                let id = #[trigger] device_ids(rows)[g];
                &&& 0 <= first_row(rows, id) < rows.len()
                &&& rows[first_row(rows, id)].device_id == id
            },
        forall|g: int, h: int|
            0 <= g < h < device_ids(rows).len() ==> device_ids(rows)[g] != device_ids(rows)[h],
    decreases rows.len(),
{
    if rows.len() > 0 {
        let prev = rows.drop_last();
        lemma_ids_first_row(prev);
        assert forall|g: int| 0 <= g < device_ids(rows).len() implies {
            let id = #[trigger] device_ids(rows)[g];
            &&& 0 <= first_row(rows, id) < rows.len()
            &&& rows[first_row(rows, id)].device_id == id
        } by {
            let id = device_ids(rows)[g];
            if g < device_ids(prev).len() {
                assert(device_ids(prev)[g] == id);
                assert(device_ids(prev).contains(id));
                assert(rows[first_row(prev, id)] == prev[first_row(prev, id)]);
            }
        }
    }
}

/// Groups the rows of one day by device, in the order of each device's first
/// row, keeping the order of the rows within each group. A device none of
/// whose fixes is kept by the accuracy filter gets no track; the others keep
/// all their fixes, since each export filters on its own.
pub fn reconstruct(rows: Vec<LocationRow>, date: &str) -> (r: Vec<TrackData>)
    ensures
        r@.len() == kept_ids(rows@).len(),
        forall|i: int|
            0 <= i < r@.len() ==> track_matches(#[trigger] r@[i], rows@, kept_ids(rows@)[i], date@),
{
    let ghost all = rows@;
    let n = rows.len();
    let mut rows = rows;
    let mut rev: Vec<LocationRow> = Vec::new();
    while rows.len() > 0
        invariant
            n == all.len(),
            rows@.len() + rev@.len() == n,
            forall|k: int| 0 <= k < rows@.len() ==> rows@[k] == all[k],
            forall|k: int| 0 <= k < rev@.len() ==> rev@[k] == all[n - 1 - k],
        decreases rows@.len(),
    {
        let row = rows.pop().unwrap();
        rev.push(row);
    }
    let mut groups: Vec<TrackData> = Vec::new();
    let mut kept: Vec<bool> = Vec::new();
    let mut i: usize = 0;
    while i < n
        invariant
            0 <= i <= n,
            n == all.len(),
            rev@.len() == n - i,
            forall|k: int| 0 <= k < rev@.len() ==> rev@[k] == all[n - 1 - k],
            groups@.len() == device_ids(all.take(i as int)).len(),
            kept@.len() == groups@.len(),
            forall|g: int|
                0 <= g < groups@.len() ==> track_matches(
                    #[trigger] groups@[g],
                    all.take(i as int),
                    device_ids(all.take(i as int))[g],
                    date@,
                ),
            forall|g: int|
                0 <= g < groups@.len() ==> #[trigger] kept@[g] == has_kept(
                    all.take(i as int),
                    device_ids(all.take(i as int))[g],
                ),
        decreases n - i,
    {
        let ghost prev = all.take(i as int);
        let ghost cur = all.take(i as int + 1);
        proof {
            lemma_step(all, i as int);
            lemma_ids_first_row(prev);
        }
        let row = rev.pop().unwrap();
        assert(row == all[i as int]);
        let id = row.device_id;
        let accurate_fix = keep(&row.point);
        let mut g: usize = 0;
        while g < groups.len() && groups[g].device_id != id
            invariant
                0 <= g <= groups@.len(),
                groups@.len() == device_ids(prev).len(),
                forall|h: int| 0 <= h < groups@.len() ==> (#[trigger] groups@[h]).device_id == device_ids(prev)[h],
                forall|h: int| 0 <= h < g ==> device_ids(prev)[h] != id,
            decreases groups@.len() - g,
        {
            g = g + 1;
        }
        let ghost old_groups = groups@;
        let ghost old_kept = kept@;
        if g < groups.len() {
            assert(device_ids(prev)[g as int] == id);
            assert(device_ids(prev).contains(id));
            assert(device_ids(cur) == device_ids(prev));
            assert(device_points(cur, id) == device_points(prev, id).push(all[i as int].point));
            proof {
                lemma_surviving_push(device_points(prev, id), row.point);
            }
            let k = kept[g] || accurate_fix;
            groups[g].points.push(row.point);
            kept.set(g, k);
            assert forall|h: int| 0 <= h < groups@.len() implies track_matches(
                #[trigger] groups@[h],
                cur,
                device_ids(cur)[h],
                date@,
            ) by {
                let hid = device_ids(prev)[h];
                assert(device_ids(prev).contains(hid));
                assert(first_row(cur, hid) == first_row(prev, hid));
                assert(cur[first_row(prev, hid)] == prev[first_row(prev, hid)]);
                if h != g as int {
                    assert(groups@[h] == old_groups[h]);
                    assert(hid != id);
                    assert(device_points(cur, hid) == device_points(prev, hid));
                }
            }
            assert forall|h: int| 0 <= h < groups@.len() implies #[trigger] kept@[h] == has_kept(
                cur,
                device_ids(cur)[h],
            ) by {
                if h != g as int {
                    assert(kept@[h] == old_kept[h]);
                    assert(device_ids(prev)[h] != id);
                    assert(device_points(cur, device_ids(prev)[h]) == device_points(prev, device_ids(prev)[h]));
                }
            }
        } else {
            assert(!device_ids(prev).contains(id));
            assert(device_ids(cur) == device_ids(prev).push(id));
            let mut points: Vec<GpsPoint> = Vec::new();
            points.push(row.point);
            let t = TrackData {
                device_id: id,
                user: row.user,
                device: row.device,
                date: String::from_str(date),
                points,
            };
            groups.push(t);
            kept.push(accurate_fix);
            proof {
                assert(device_points(prev, id) =~= Seq::<GpsPoint>::empty()) by {
                    lemma_no_points(prev, id);
                }
                lemma_surviving_push(device_points(prev, id), all[i as int].point);
                assert(groups@.last().points@ =~= device_points(cur, id));
            }
            assert forall|h: int| 0 <= h < groups@.len() implies track_matches(
                #[trigger] groups@[h],
                cur,
                device_ids(cur)[h],
                date@,
            ) by {
                if h < old_groups.len() {
                    let hid = device_ids(prev)[h];
                    assert(device_ids(cur)[h] == hid);
                    assert(device_ids(prev).contains(hid));
                    assert(cur[first_row(prev, hid)] == prev[first_row(prev, hid)]);
                    assert(groups@[h] == old_groups[h]);
                }
            }
            assert forall|h: int| 0 <= h < groups@.len() implies #[trigger] kept@[h] == has_kept(
                cur,
                device_ids(cur)[h],
            ) by {
                if h < old_kept.len() {
                    assert(kept@[h] == old_kept[h]);
                    assert(device_ids(cur)[h] == device_ids(prev)[h]);
                }
            }
        }
        i = i + 1;
    }
    assert(all.take(n as int) =~= all);
    let ghost ids = device_ids(all);
    let m = groups.len();
    let mut grev: Vec<TrackData> = Vec::new();
    while groups.len() > 0
        invariant
            m == ids.len(),
            groups@.len() + grev@.len() == m,
            forall|k: int| 0 <= k < groups@.len() ==> track_matches(#[trigger] groups@[k], all, ids[k], date@),
            forall|k: int|
                0 <= k < grev@.len() ==> track_matches(#[trigger] grev@[k], all, ids[m - 1 - k], date@),
        decreases groups@.len(),
    {
        let t = groups.pop().unwrap();
        grev.push(t);
    }
    let mut out: Vec<TrackData> = Vec::new();
    let mut j: usize = 0;
    while j < m
        invariant
            0 <= j <= m,
            m == ids.len(),
            kept@.len() == m,
            forall|g: int| 0 <= g < m ==> #[trigger] kept@[g] == has_kept(all, ids[g]),
            grev@.len() == m - j,
            forall|k: int|
                0 <= k < grev@.len() ==> track_matches(#[trigger] grev@[k], all, ids[m - 1 - k], date@),
            out@.len() == ids.take(j as int).filter(|id: i32| has_kept(all, id)).len(),
            forall|k: int|
                0 <= k < out@.len() ==> track_matches(
                    #[trigger] out@[k],
                    all,
                    ids.take(j as int).filter(|id: i32| has_kept(all, id))[k],
                    date@,
                ),
        decreases m - j,
    {
        let t = grev.pop().unwrap();
        proof {
            let f = |id: i32| has_kept(all, id);
            assert(ids.take(j as int + 1) =~= ids.take(j as int).push(ids[j as int]));
            reveal_with_fuel(Seq::filter, 1);
            assert(ids.take(j as int).push(ids[j as int]).drop_last() =~= ids.take(j as int));
        }
        if kept[j] {
            out.push(t);
        }
        j = j + 1;
    }
    assert(ids.take(m as int) =~= ids);
    out
}

proof fn lemma_no_points(rows: Seq<LocationRow>, id: i32)
    requires
        !device_ids(rows).contains(id),
    ensures
        device_points(rows, id) == Seq::<GpsPoint>::empty(),
    decreases rows.len(),
{
    if rows.len() > 0 {
        let prev = rows.drop_last();
        if device_ids(prev).contains(id) {
            let g = choose|g: int| 0 <= g < device_ids(prev).len() && device_ids(prev)[g] == id;
            assert(device_ids(rows)[g] == id);
        }
        lemma_no_points(prev, id);
        if rows.last().device_id == id {
            assert(device_ids(rows).contains(id)) by {
                assert(device_ids(rows).last() == id);
            }
        }
    }
}


/// A device gets a track exactly when one of its fixes is kept: every track
/// returned has a kept fix, and no device without one is among them.
pub proof fn lemma_tracks_have_kept_fixes(rows: Seq<LocationRow>)
    ensures
        forall|i: int| 0 <= i < kept_ids(rows).len() ==> has_kept(rows, #[trigger] kept_ids(rows)[i]),
        forall|id: i32| !has_kept(rows, id) ==> !(#[trigger] kept_ids(rows).contains(id)),
        forall|id: i32|
            device_ids(rows).contains(id) && has_kept(rows, id) ==> #[trigger] kept_ids(rows).contains(id),
{
    broadcast use vstd::seq_lib::group_filter_ensures;
    let f = |id: i32| has_kept(rows, id);
    assert forall|i: int| 0 <= i < kept_ids(rows).len() implies has_kept(rows, #[trigger] kept_ids(rows)[i]) by {
        assert(f(device_ids(rows).filter(f)[i]));
    }
    assert forall|id: i32| device_ids(rows).contains(id) && has_kept(rows, id) implies #[trigger] kept_ids(
        rows,
    ).contains(id) by {
        let k = choose|k: int| 0 <= k < device_ids(rows).len() && device_ids(rows)[k] == id;
        device_ids(rows).lemma_filter_contains(f, k);
    }
}
} // verus!
