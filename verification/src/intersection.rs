use vstd::prelude::*;
use crate::geometry::{Point, pt, quarter_unit, unit_x, unit_y};
use crate::vehicle::{Direction, Route, entry_point, entry_spec, heading_q, initial_heading};

verus! {

/// Length of one painted dash of a lane divider, in pixels.
pub const DASH: i32 = 18;
/// Gap between two dashes, in pixels.
pub const GAP: i32 = 10;
/// Distance from the start of one dash to the start of the next: a dash
/// and a gap.
pub const DASH_PERIOD: i32 = 28;
/// How far before the stop line a lane's direction marker is painted.
pub const MARK_BACK: i32 = 60;

/// The dashes of a divider line from `start` to `end` along one axis: dash
/// `k` starts at `start + k * DASH_PERIOD`, runs for `DASH` pixels and is
/// cut at `end`; dashes start as long as they start before `end`.
pub open spec fn dash_ok(start: int, end: int, d: Seq<(i32, i32)>) -> bool {
    &&& dashes_start_right(start, end, d)
    &&& start + DASH_PERIOD * d.len() >= end
}

/// Each dash of `d` is where `dash_ok` puts it, and starts before `end`.
pub open spec fn dashes_start_right(start: int, end: int, d: Seq<(i32, i32)>) -> bool {
    forall|k: int| 0 <= k < d.len() ==> {
        &&& (#[trigger] d[k]).0 == start + DASH_PERIOD * k
        &&& d[k].0 < end
        &&& d[k].1 == (if d[k].0 + DASH < end { d[k].0 + DASH } else { end })
    }
}

/// The dashes of a lane divider between `start` and `end` (the segments the
/// painter draws, as pairs of start and end coordinates).
pub fn dashes(start: i32, end: i32) -> (d: Vec<(i32, i32)>)
    requires
        end <= i32::MAX - DASH_PERIOD,
    ensures
        dash_ok(start as int, end as int, d@),
{
    let mut d: Vec<(i32, i32)> = Vec::new();
    let mut y: i32 = start;
    while y < end
        invariant
            end <= i32::MAX - DASH_PERIOD,
            y == start + DASH_PERIOD * d@.len(),
            y >= start,
            dashes_start_right(start as int, end as int, d@),
        decreases end - y + DASH_PERIOD,
    {
        let stop = if y + DASH < end { y + DASH } else { end };
        d.push((y, stop));
        y = y + DASH_PERIOD;
    }
    d
}

/// Where the direction marker of the lane for `route` on the `origin` arm is
/// painted: on the lane's centre line, `MARK_BACK` pixels before the stop line.
pub fn lane_marker(origin: Direction, route: Route) -> (p: Point)
    ensures
        ({
            let e = entry_spec(origin, route);
            let q = heading_q(origin);
            p.x == e.0 - MARK_BACK * unit_x(q) && p.y == e.1 - MARK_BACK * unit_y(q)
        }),
{
    let e = entry_point(origin, route);
    let (ux, uy) = quarter_unit(initial_heading(origin));
    pt(e.x - MARK_BACK * ux, e.y - MARK_BACK * uy)
}

} // verus!
