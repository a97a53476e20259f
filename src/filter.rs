//! The accuracy filter that every export and accumulator applies.
use crate::db::GpsPoint;
use vstd::prelude::*;

verus! {

/// Fixes whose accuracy radius reaches this many meters are left out.
pub const MAX_ACCURACY: i32 = 200;

/// A fix is kept when its accuracy is unknown or below [`MAX_ACCURACY`].
pub open spec fn accurate(accuracy: Option<i32>) -> bool {
    match accuracy {
        Some(a) => a < MAX_ACCURACY,
        None => true,
    }
}

/// The fixes of `pts` that are kept, in their order.
pub open spec fn surviving(pts: Seq<GpsPoint>) -> Seq<GpsPoint>
    decreases pts.len(),
{
    if pts.len() == 0 {
        Seq::empty()
    } else if accurate(pts.last().accuracy) {
        surviving(pts.drop_last()).push(pts.last())
    } else {
        surviving(pts.drop_last())
    }
}

/// Whether the fix is kept.
pub fn keep(point: &GpsPoint) -> (r: bool)
    ensures
        r == accurate(point.accuracy),
{
    match point.accuracy {
        Some(a) => a < MAX_ACCURACY,
        None => true,
    }
}

/// Every kept fix is accurate, and each one is a fix of `pts`.
pub proof fn lemma_surviving(pts: Seq<GpsPoint>)
    ensures
        surviving(pts).len() <= pts.len(),
        forall|i: int| 0 <= i < surviving(pts).len() ==> accurate(#[trigger] surviving(pts)[i].accuracy),
        forall|i: int| 0 <= i < surviving(pts).len() ==> pts.contains(#[trigger] surviving(pts)[i]),
    decreases pts.len(),
{
    if pts.len() > 0 {
        lemma_surviving(pts.drop_last());
        let r = surviving(pts.drop_last());
        assert forall|i: int| 0 <= i < surviving(pts).len() implies pts.contains(#[trigger] surviving(pts)[i]) by {
            if i < r.len() {
                let j = choose|j: int| 0 <= j < pts.drop_last().len() && pts.drop_last()[j] == r[i];
                assert(pts[j] == r[i]);
            } else {
                assert(pts[pts.len() - 1] == surviving(pts)[i]);
            }
        }
    }
}

/// Extends [`surviving`] by one more fix.
pub proof fn lemma_surviving_step(pts: Seq<GpsPoint>, i: int)
    requires
        0 <= i < pts.len(),
    ensures
        surviving(pts.take(i + 1)) == if accurate(pts[i].accuracy) {
            surviving(pts.take(i)).push(pts[i])
        } else {
            surviving(pts.take(i))
        },
{
    assert(pts.take(i + 1).drop_last() =~= pts.take(i));
    assert(pts.take(i + 1).last() == pts[i]);
}

} // verus!
