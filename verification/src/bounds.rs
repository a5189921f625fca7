//! Axis bounds for the error chart: the least and greatest coordinate of a
//! series of points, per dimension, so the chart can be scaled to the data.

use vstd::prelude::*;

verus! {

/// Computes, over a series of (x, y) points, the least x, greatest x,
/// least y and greatest y, in that order; each bound is attained by some
/// point. An empty series has no bounds.
pub fn minmax(v: &Vec<(i64, i64)>) -> (r: Option<(i64, i64, i64, i64)>)
    ensures
        r is None <==> v@.len() == 0,
        r matches Some(m) ==> {
            &&& forall|i: int| 0 <= i < v@.len() ==> m.0 <= (#[trigger] v@[i]).0 && v@[i].0 <= m.1
                && m.2 <= v@[i].1 && v@[i].1 <= m.3
            &&& exists|i: int| 0 <= i < v@.len() && (#[trigger] v@[i]).0 == m.0
            &&& exists|i: int| 0 <= i < v@.len() && (#[trigger] v@[i]).0 == m.1
            &&& exists|i: int| 0 <= i < v@.len() && (#[trigger] v@[i]).1 == m.2
            &&& exists|i: int| 0 <= i < v@.len() && (#[trigger] v@[i]).1 == m.3
        },
{
    let len = v.len();
    if len == 0 {
        return None;
    }
    let first = v[0];
    let mut x_min: i64 = first.0;
    let mut x_max: i64 = first.0;
    let mut y_min: i64 = first.1;
    let mut y_max: i64 = first.1;
    let mut i: usize = 1;
    while i < len
        invariant
            len == v@.len(),
            1 <= i <= len,
            forall|j: int| 0 <= j < i ==> x_min <= (#[trigger] v@[j]).0 && v@[j].0 <= x_max
                && y_min <= v@[j].1 && v@[j].1 <= y_max,
            exists|j: int| 0 <= j < i && (#[trigger] v@[j]).0 == x_min,
            exists|j: int| 0 <= j < i && (#[trigger] v@[j]).0 == x_max,
            exists|j: int| 0 <= j < i && (#[trigger] v@[j]).1 == y_min,
            exists|j: int| 0 <= j < i && (#[trigger] v@[j]).1 == y_max,
        decreases len - i,
    {
        let p = v[i];
        if p.0 < x_min {
            x_min = p.0;
        }
        if p.0 > x_max {
            x_max = p.0;
        }
        if p.1 < y_min {
            y_min = p.1;
        }
        if p.1 > y_max {
            y_max = p.1;
        }
        i = i + 1;
    }
    Some((x_min, x_max, y_min, y_max))
}

} // verus!
