use vstd::prelude::*;
use crate::constants::{
    HALF_LANE, LANE_W, RIGHT_R, LEFT_R, RIGHT_STEPS, LEFT_STEPS, OFFSCREEN, WIN_W, WIN_H, ROAD_W, INTER_L, INTER_R, INTER_T, INTER_B, SB_R_X, SB_S_X, SB_L_X, NB_L_X,
    NB_S_X, NB_R_X, WB_R_Y, WB_S_Y, WB_L_Y, EB_L_Y, EB_S_Y, EB_R_Y,
};
use crate::geometry::{Point, pt, quarter_mod, unit_x, unit_y, quarter_unit};

verus! {

/// Which arm the vehicle enters from (the side it is travelling away from).
#[derive(Clone, Copy, Debug, PartialEq, Eq, Structural)]
pub enum Direction {
    North,
    South,
    East,
    West,
}

/// The in-lane route the vehicle follows through the intersection.
#[derive(Clone, Copy, Debug, PartialEq, Eq, Structural)]
pub enum Route {
    Right,
    Straight,
    Left,
}

/// Lifecycle stages used by the intersection manager and statistics.
#[derive(Clone, Copy, Debug, PartialEq, Eq, Structural)]
pub enum VehicleState {
    /// Outside the intersection box, heading toward it.
    Approaching,
    /// Reservation granted, cleared to enter.
    Reserved,
    /// Inside the intersection box.
    InIntersection,
    /// Has left the box, travelling to the screen edge.
    Exiting,
    /// Off-screen, ready to be removed.
    Done,
}

// ── Angles in quarter turns ───────────────────────────────────────────────────

/// The side of the crossing opposite `d`.
pub open spec fn opposite(d: Direction) -> Direction {
    match d {
        Direction::North => Direction::South,
        Direction::South => Direction::North,
        Direction::East => Direction::West,
        Direction::West => Direction::East,
    }
}

/// Heading, in quarter turns (east = 0, south = 1, screen coordinates),
/// of a vehicle that travels toward side `d`.
pub open spec fn dir_q(d: Direction) -> int {
    match d {
        Direction::East => 0,
        Direction::South => 1,
        Direction::West => 2,
        Direction::North => -1,
    }
}

/// Heading, in quarter turns, of a vehicle that enters from `origin`:
/// it travels toward the opposite side.
pub open spec fn heading_q(origin: Direction) -> int {
    dir_q(opposite(origin))
}

/// How far a route turns the heading, in quarter turns (a right turn is
/// clockwise on screen, i.e. positive).
pub open spec fn turn_q(route: Route) -> int {
    match route {
        Route::Right => 1,
        Route::Straight => 0,
        Route::Left => -1,
    }
}

/// Lane index counted from the driver's right: right-turn lane 0,
/// straight lane 1, left-turn lane 2.
pub open spec fn lane_index(route: Route) -> int {
    match route {
        Route::Right => 0,
        Route::Straight => 1,
        Route::Left => 2,
    }
}

/// The side of the crossing that a heading of `q` quarter turns points to.
pub open spec fn dir_of_q(q: int) -> Direction {
    let r = quarter_mod(q);
    if r == 0 {
        Direction::East
    } else if r == 1 {
        Direction::South
    } else if r == 2 {
        Direction::West
    } else {
        Direction::North
    }
}

/// The side a vehicle leaves toward: its heading turned by its route.
pub open spec fn exit_dir(origin: Direction, route: Route) -> Direction {
    dir_of_q(heading_q(origin) + turn_q(route))
}

/// Initial heading, in quarter turns, of a vehicle spawned at `origin`
/// (facing south, north, west or east for North, South, East, West).
pub fn initial_heading(origin: Direction) -> (q: i32)
    ensures
        q == heading_q(origin),
{
    match origin {
        Direction::North => 1,
        Direction::South => -1,
        Direction::East => 2,
        Direction::West => 0,
    }
}

/// The compass direction a vehicle heads after leaving the intersection.
pub fn exit_direction(origin: Direction, route: Route) -> (d: Direction)
    ensures
        d == exit_dir(origin, route),
        quarter_mod(dir_q(d)) == quarter_mod(heading_q(origin) + turn_q(route)),
{
    match (origin, route) {
        (Direction::North, Route::Right) => Direction::West,
        (Direction::North, Route::Straight) => Direction::South,
        (Direction::North, Route::Left) => Direction::East,
        (Direction::South, Route::Right) => Direction::East,
        (Direction::South, Route::Straight) => Direction::North,
        (Direction::South, Route::Left) => Direction::West,
        (Direction::East, Route::Right) => Direction::North,
        (Direction::East, Route::Straight) => Direction::West,
        (Direction::East, Route::Left) => Direction::South,
        (Direction::West, Route::Right) => Direction::South,
        (Direction::West, Route::Straight) => Direction::East,
        (Direction::West, Route::Left) => Direction::North,
    }
}

// ── Entry / exit geometry ─────────────────────────────────────────────────────

/// Where a vehicle from `origin` in the lane for `route` crosses into the
/// intersection box: on the box edge facing `origin`, at the centre of the
/// lane `lane_index(route)` counted from the driver's right.
pub open spec fn entry_spec(origin: Direction, route: Route) -> (int, int) {
    let k = lane_index(route);
    match origin {
        Direction::North => (INTER_L + HALF_LANE + LANE_W * k, INTER_T as int),
        Direction::South => (INTER_R - HALF_LANE - LANE_W * k, INTER_B as int),
        Direction::East => (INTER_R as int, INTER_T + HALF_LANE + LANE_W * k),
        Direction::West => (INTER_L as int, INTER_B - HALF_LANE - LANE_W * k),
    }
}

/// The point on the far edge of the box in the same lane as the entry point:
/// where a vehicle that goes straight leaves the box.
pub open spec fn far_spec(origin: Direction, route: Route) -> (int, int) {
    let e = entry_spec(origin, route);
    let q = heading_q(origin);
    (e.0 + ROAD_W * unit_x(q), e.1 + ROAD_W * unit_y(q))
}

/// Point on the intersection boundary where a vehicle from `origin` in `route` enters.
pub fn entry_point(origin: Direction, route: Route) -> (p: Point)
    ensures
        (p.x as int, p.y as int) == entry_spec(origin, route),
{
    match (origin, route) {
        (Direction::North, Route::Right) => pt(SB_R_X, INTER_T),
        (Direction::North, Route::Straight) => pt(SB_S_X, INTER_T),
        (Direction::North, Route::Left) => pt(SB_L_X, INTER_T),
        (Direction::South, Route::Left) => pt(NB_L_X, INTER_B),
        (Direction::South, Route::Straight) => pt(NB_S_X, INTER_B),
        (Direction::South, Route::Right) => pt(NB_R_X, INTER_B),
        (Direction::East, Route::Right) => pt(INTER_R, WB_R_Y),
        (Direction::East, Route::Straight) => pt(INTER_R, WB_S_Y),
        (Direction::East, Route::Left) => pt(INTER_R, WB_L_Y),
        (Direction::West, Route::Left) => pt(INTER_L, EB_L_Y),
        (Direction::West, Route::Straight) => pt(INTER_L, EB_S_Y),
        (Direction::West, Route::Right) => pt(INTER_L, EB_R_Y),
    }
}

/// Exit point for a straight route (opposite boundary, same lane centre).
pub fn straight_exit(origin: Direction) -> (p: Point)
    ensures
        (p.x as int, p.y as int) == far_spec(origin, Route::Straight),
{
    match origin {
        Direction::North => pt(SB_S_X, INTER_B),
        Direction::South => pt(NB_S_X, INTER_T),
        Direction::East => pt(INTER_L, WB_S_Y),
        Direction::West => pt(INTER_R, EB_S_Y),
    }
}

/// Parameters of a quarter-circle turn: its centre, the angle of the
/// radius at the start of the turn and the angle swept, both in quarter turns.
#[derive(Clone, Copy, Debug)]
pub struct ArcParams {
    pub center: Point,
    pub start_q: i32,
    pub sweep_q: i32,
}

/// Angle of the radius at the start of the turn from `origin` on `route`:
/// square to the heading, on the side away from the turn (the heading minus
/// the sweep, taken a full turn up when below minus one quarter).
pub open spec fn start_angle_q(origin: Direction, route: Route) -> int {
    let q = heading_q(origin) - turn_q(route);
    if q >= -1 { q } else { q + 4 }
}

/// The arc of a turn from `origin` with the given `radius` and `sweep_q`
/// starts at the entry point for `route`: its start radius is perpendicular to
/// the heading, and the arc turns the heading by `sweep_q`.
pub open spec fn arc_fits(a: ArcParams, origin: Direction, route: Route, radius: int) -> bool {
    &&& a.sweep_q == turn_q(route)
    &&& a.start_q == start_angle_q(origin, route)
    &&& (a.center.x + radius * unit_x(a.start_q as int), a.center.y + radius * unit_y(a.start_q as int))
        == entry_spec(origin, route)
}

/// Arc parameters for a right turn: a quarter turn clockwise on screen around
/// the near corner of the box.
pub fn right_arc_params(origin: Direction) -> (a: ArcParams)
    ensures
        arc_fits(a, origin, Route::Right, RIGHT_R as int),
{
    match origin {
        Direction::North => ArcParams { center: pt(INTER_L, INTER_T), start_q: 0, sweep_q: 1 },
        Direction::South => ArcParams { center: pt(INTER_R, INTER_B), start_q: 2, sweep_q: 1 },
        Direction::East => ArcParams { center: pt(INTER_R, INTER_T), start_q: 1, sweep_q: 1 },
        Direction::West => ArcParams { center: pt(INTER_L, INTER_B), start_q: -1, sweep_q: 1 },
    }
}

/// Arc parameters for a left turn: a quarter turn counter-clockwise on screen
/// around the far corner of the box on the driver's left.
pub fn left_arc_params(origin: Direction) -> (a: ArcParams)
    ensures
        arc_fits(a, origin, Route::Left, LEFT_R as int),
{
    match origin {
        Direction::North => ArcParams { center: pt(INTER_R, INTER_T), start_q: 2, sweep_q: -1 },
        Direction::South => ArcParams { center: pt(INTER_L, INTER_B), start_q: 0, sweep_q: -1 },
        Direction::East => ArcParams { center: pt(INTER_R, INTER_B), start_q: 3, sweep_q: -1 },
        Direction::West => ArcParams { center: pt(INTER_L, INTER_T), start_q: 1, sweep_q: -1 },
    }
}

/// Where a vehicle that entered from `origin` on `route` leaves the box: on
/// the far edge of the box, in the lane for the same route of the road it
/// turns into (the straight exit, or the end point of the turn arc).
pub open spec fn exit_spec(origin: Direction, route: Route) -> (int, int) {
    far_spec(opposite(exit_dir(origin, route)), route)
}

/// The point where the path of a vehicle from `origin` on `route` leaves the
/// intersection box.
pub fn exit_point(origin: Direction, route: Route) -> (p: Point)
    ensures
        (p.x as int, p.y as int) == exit_spec(origin, route),
{
    match route {
        Route::Straight => straight_exit(origin),
        Route::Right => {
            let a = right_arc_params(origin);
            let (ux, uy) = quarter_unit(a.start_q + a.sweep_q);
            pt(a.center.x + RIGHT_R * ux, a.center.y + RIGHT_R * uy)
        },
        Route::Left => {
            let a = left_arc_params(origin);
            let (ux, uy) = quarter_unit(a.start_q + a.sweep_q);
            pt(a.center.x + LEFT_R * ux, a.center.y + LEFT_R * uy)
        },
    }
}

// ── Spawn / despawn off-screen ────────────────────────────────────────────────

/// The point off-screen beyond side `d` of the window, on the line through
/// `p` that runs toward that side.
pub open spec fn offscreen_spec(d: Direction, p: (int, int)) -> (int, int) {
    match d {
        Direction::North => (p.0, -OFFSCREEN),
        Direction::South => (p.0, WIN_H + OFFSCREEN),
        Direction::East => (WIN_W + OFFSCREEN, p.1),
        Direction::West => (-OFFSCREEN, p.1),
    }
}

/// `q` lies outside the window.
pub open spec fn outside_window(q: (int, int)) -> bool {
    q.0 < 0 || q.0 > WIN_W || q.1 < 0 || q.1 > WIN_H
}

/// Off-screen point beyond side `d`, in line with `p`.
fn offscreen_point(d: Direction, p: Point) -> (q: Point)
    ensures
        (q.x as int, q.y as int) == offscreen_spec(d, (p.x as int, p.y as int)),
{
    match d {
        Direction::North => pt(p.x, -OFFSCREEN),
        Direction::South => pt(p.x, WIN_H + OFFSCREEN),
        Direction::East => pt(WIN_W + OFFSCREEN, p.y),
        Direction::West => pt(-OFFSCREEN, p.y),
    }
}

/// Spawn position off-screen on the `origin` side, in line with `entry`.
pub fn spawn_point(origin: Direction, entry: Point) -> (p: Point)
    ensures
        (p.x as int, p.y as int) == offscreen_spec(origin, (entry.x as int, entry.y as int)),
        outside_window((p.x as int, p.y as int)),
{
    offscreen_point(origin, entry)
}

/// Despawn position off-screen on the side the vehicle leaves toward, in line
/// with `exit`.
pub fn despawn_point(origin: Direction, route: Route, exit: Point) -> (p: Point)
    ensures
        (p.x as int, p.y as int) == offscreen_spec(exit_dir(origin, route), (exit.x as int, exit.y as int)),
        outside_window((p.x as int, p.y as int)),
{
    offscreen_point(exit_direction(origin, route), exit)
}

/// Returns the off-screen spawn position for the given origin/route.
/// Used by the spawner to check whether a new vehicle would overlap an existing one.
pub fn spawn_pos(origin: Direction, route: Route) -> (p: Point)
    ensures
        (p.x as int, p.y as int) == offscreen_spec(origin, entry_spec(origin, route)),
        outside_window((p.x as int, p.y as int)),
        straight_ahead((p.x as int, p.y as int), entry_spec(origin, route), heading_q(origin)),
{
    let entry = entry_point(origin, route);
    spawn_point(origin, entry)
}

// ── Path length ───────────────────────────────────────────────────────────────

/// Number of waypoints of the path through the box: the entry and the exit
/// for a straight route, the end points of the arc segments for a turn.
pub open spec fn through_len(route: Route) -> nat {
    match route {
        Route::Straight => 2,
        Route::Right => (RIGHT_STEPS + 1) as nat,
        Route::Left => (LEFT_STEPS + 1) as nat,
    }
}

/// Number of waypoints of a whole path: the spawn point, the points through
/// the box and the despawn point.
pub open spec fn path_len_spec(route: Route) -> nat {
    through_len(route) + 2
}

/// Number of waypoints the path builder produces for `route`.
pub fn path_len(route: Route) -> (n: usize)
    ensures
        n == path_len_spec(route),
{
    match route {
        Route::Straight => 4,
        Route::Right => RIGHT_STEPS + 3,
        Route::Left => LEFT_STEPS + 3,
    }
}

// ── Vehicle ───────────────────────────────────────────────────────────────────

/// What an update of the lifecycle state asks the caller to record.
#[derive(Clone, Copy, Debug, PartialEq, Eq, Structural)]
pub enum StateChange {
    /// Nothing to record.
    Unchanged,
    /// The vehicle has just entered the box: record the entry time.
    Entered,
    /// The vehicle has just left the box: record the exit time.
    Exited,
}

/// The discrete state of a vehicle: who it is, which lane and route it
/// drives, where it is in its lifecycle and which waypoint of its path it
/// last reached. Position, heading and speed are continuous and kept by the
/// caller, beside this value.
#[derive(Clone, Copy, Debug)]
pub struct Vehicle {
    pub id: u32,
    pub origin: Direction,
    pub route: Route,
    pub state: VehicleState,
    /// Index of the waypoint last reached.
    pub wp_idx: usize,
    /// Number of waypoints of the vehicle's path.
    pub n_waypoints: usize,
}

/// Order of the lifecycle stages.
pub open spec fn stage_rank(s: VehicleState) -> int {
    match s {
        VehicleState::Approaching => 0,
        VehicleState::Reserved => 1,
        VehicleState::InIntersection => 2,
        VehicleState::Exiting => 3,
        VehicleState::Done => 4,
    }
}

/// One update of the lifecycle: an approaching or cleared (reserved) vehicle
/// that is inside the box has entered it, a vehicle in the box that is outside it has left it,
/// and a vehicle that has reached the last waypoint of its path is done.
pub open spec fn step_state(s: VehicleState, in_box: bool, finished: bool) -> (VehicleState, StateChange) {
    let (s1, change) = match s {
        VehicleState::Approaching | VehicleState::Reserved => if in_box {
            (VehicleState::InIntersection, StateChange::Entered)
        } else {
            (s, StateChange::Unchanged)
        },
        VehicleState::InIntersection => if !in_box {
            (VehicleState::Exiting, StateChange::Exited)
        } else {
            (s, StateChange::Unchanged)
        },
        _ => (s, StateChange::Unchanged),
    };
    (if finished { VehicleState::Done } else { s1 }, change)
}

impl Vehicle {
    /// The waypoint index lies on the path, whose length fits the route.
    pub open spec fn wf(&self) -> bool {
        &&& self.n_waypoints == path_len_spec(self.route)
        &&& self.wp_idx < self.n_waypoints
    }

    /// The vehicle has reached the last waypoint of its path.
    pub open spec fn finished_spec(&self) -> bool {
        self.wp_idx + 1 >= self.n_waypoints
    }

    /// A vehicle at the spawn point of its path, approaching the box.
    pub fn new(id: u32, origin: Direction, route: Route) -> (v: Vehicle)
        ensures
            v.wf(),
            v.id == id,
            v.origin == origin,
            v.route == route,
            v.state == VehicleState::Approaching,
            v.wp_idx == 0,
            !v.finished_spec(),
    {
        Vehicle {
            id,
            origin,
            route,
            state: VehicleState::Approaching,
            wp_idx: 0,
            n_waypoints: path_len(route),
        }
    }

    /// The vehicle is off-screen and can be removed.
    pub fn is_done(&self) -> (b: bool)
        ensures
            b == (self.state == VehicleState::Done),
    {
        self.state == VehicleState::Done
    }

    /// The vehicle has reached the last waypoint of its path.
    pub fn path_finished(&self) -> (b: bool)
        ensures
            b == self.finished_spec(),
            self.wf() ==> (b <==> self.wp_idx + 1 == self.n_waypoints),
    {
        self.wp_idx >= self.n_waypoints || self.n_waypoints - self.wp_idx <= 1
    }

    /// Index of the waypoint the vehicle drives toward, if any is left.
    pub fn next_waypoint(&self) -> (r: Option<usize>)
        ensures
            r == (if self.finished_spec() { None } else { Some((self.wp_idx + 1) as usize) }),
            self.wp_idx + 1 < self.n_waypoints ==> r == Some((self.wp_idx + 1) as usize),
            self.wf() && self.wp_idx + 1 == self.n_waypoints ==> r is None,
    {
        if self.path_finished() {
            None
        } else {
            Some(self.wp_idx + 1)
        }
    }

    /// The vehicle has reached the waypoint it drove toward.
    pub fn arrive_at_waypoint(&mut self)
        requires
            old(self).wf(),
            !old(self).finished_spec(),
        ensures
            final(self).wf(),
            *final(self) == (Vehicle { wp_idx: (old(self).wp_idx + 1) as usize, ..*old(self) }),
    {
        self.wp_idx = self.wp_idx + 1;
    }

    /// The vehicle has run out of path: it is done.
    pub fn finish(&mut self)
        requires
            old(self).finished_spec(),
        ensures
            *final(self) == (Vehicle { state: VehicleState::Done, ..*old(self) }),
    {
        self.state = VehicleState::Done;
    }

    /// Updates the lifecycle stage from whether the vehicle is now inside the
    /// intersection box, and says whether an entry or exit time is to be
    /// recorded.
    pub fn update_state(&mut self, in_box: bool) -> (change: StateChange)
        ensures
            ({
                let (s, c) = step_state(old(self).state, in_box, old(self).finished_spec());
                &&& change == c
                &&& *final(self) == (Vehicle { state: s, ..*old(self) })
            }),
    {
        let mut change = StateChange::Unchanged;
        match self.state {
            VehicleState::Approaching | VehicleState::Reserved => {
                if in_box {
                    self.state = VehicleState::InIntersection;
                    change = StateChange::Entered;
                }
            },
            VehicleState::InIntersection => {
                if !in_box {
                    self.state = VehicleState::Exiting;
                    change = StateChange::Exited;
                }
            },
            _ => {},
        }
        if self.path_finished() {
            self.state = VehicleState::Done;
        }
        change
    }
}

// ── Laws ──────────────────────────────────────────────────────────────────────

/// `to` lies straight ahead of `from` for a heading of `q` quarter turns.
pub open spec fn straight_ahead(from: (int, int), to: (int, int), q: int) -> bool {
    let dx = to.0 - from.0;
    let dy = to.1 - from.1;
    if unit_x(q) == 0 {
        dx == 0 && (if unit_y(q) > 0 { dy > 0 } else { dy < 0 })
    } else {
        dy == 0 && (if unit_x(q) > 0 { dx > 0 } else { dx < 0 })
    }
}

/// Every lane has its own entry point: different (origin, route) pairs enter
/// the box at different points.
pub proof fn law_entry_points_distinct(o1: Direction, r1: Route, o2: Direction, r2: Route)
    requires
        entry_spec(o1, r1) == entry_spec(o2, r2),
    ensures
        o1 == o2,
        r1 == r2,
{
}

/// No route turns back: a vehicle never leaves toward the side it came from;
/// going straight it leaves toward the opposite side; and the three routes
/// from one origin leave toward three different sides.
pub proof fn law_exit_sides(o: Direction, r1: Route, r2: Route)
    ensures
        exit_dir(o, r1) != o,
        exit_dir(o, Route::Straight) == opposite(o),
        r1 != r2 ==> exit_dir(o, r1) != exit_dir(o, r2),
{
}

/// A right turn leaves toward the side opposite to that of the left turn.
pub proof fn law_right_left_opposite(o: Direction)
    ensures
        exit_dir(o, Route::Right) == opposite(exit_dir(o, Route::Left)),
{
}

/// A vehicle spawns off-screen on its origin side and drives straight ahead,
/// along its initial heading, to its entry point.
pub proof fn law_spawn_leads_to_entry(o: Direction, r: Route)
    ensures
        ({
            let e = entry_spec(o, r);
            let s = offscreen_spec(o, e);
            straight_ahead(s, e, heading_q(o))
        }),
{
}

/// After the box a vehicle drives straight ahead, along its exit heading, to
/// a despawn point off-screen.
pub proof fn law_exit_leads_offscreen(o: Direction, r: Route)
    ensures
        ({
            let x = exit_spec(o, r);
            let d = offscreen_spec(exit_dir(o, r), x);
            straight_ahead(x, d, dir_q(exit_dir(o, r)))
        }),
{
}

/// A lifecycle update never moves a vehicle back to an earlier stage.
pub proof fn law_stage_monotone(s: VehicleState, in_box: bool, finished: bool)
    ensures
        stage_rank(step_state(s, in_box, finished).0) >= stage_rank(s),
{
}

/// A done vehicle stays done and records nothing more; a vehicle at the end
/// of its path is done.
pub proof fn law_done_absorbing(s: VehicleState, in_box: bool, finished: bool)
    ensures
        s == VehicleState::Done ==> step_state(s, in_box, finished) == (VehicleState::Done, StateChange::Unchanged),
        finished ==> step_state(s, in_box, finished).0 == VehicleState::Done,
{
}

/// Entry and exit times are recorded once each: an entry is recorded only on
/// leaving the approach or reserved stage, an exit only on leaving the box,
/// and once past these stages no later update records them again.
pub proof fn law_entry_exit_recorded_once(s: VehicleState, in_box: bool, finished: bool)
    ensures
        step_state(s, in_box, finished).1 == StateChange::Entered ==> (s == VehicleState::Approaching
            || s == VehicleState::Reserved),
        step_state(s, in_box, finished).1 == StateChange::Exited ==> s == VehicleState::InIntersection,
        stage_rank(s) >= 2 ==> step_state(s, in_box, finished).1 != StateChange::Entered,
        stage_rank(s) >= 3 ==> step_state(s, in_box, finished).1 == StateChange::Unchanged,
{
}

/// Smaller of two integers.
pub open spec fn lo(a: int, b: int) -> int {
    if a <= b { a } else { b }
}

/// Largest of two integers.
pub open spec fn hi(a: int, b: int) -> int {
    if a <= b { b } else { a }
}

/// The paths of (o1, r1) and (o2, r2) through the box stay in disjoint
/// axis-aligned rectangles, each spanned by the path's entry and exit points
/// (a straight segment, or a quarter circle whose end radii are axis-aligned,
/// lies within that rectangle).
pub open spec fn footprints_disjoint(o1: Direction, r1: Route, o2: Direction, r2: Route) -> bool {
    let a = entry_spec(o1, r1);
    let b = exit_spec(o1, r1);
    let c = entry_spec(o2, r2);
    let d = exit_spec(o2, r2);
    ||| hi(a.0, b.0) < lo(c.0, d.0)
    ||| hi(c.0, d.0) < lo(a.0, b.0)
    ||| hi(a.1, b.1) < lo(c.1, d.1)
    ||| hi(c.1, d.1) < lo(a.1, b.1)
}

/// Right turns from different arms never share the space of the box: each
/// keeps to its own corner.
pub proof fn law_right_turns_disjoint(o1: Direction, o2: Direction)
    requires
        o1 != o2,
    ensures
        footprints_disjoint(o1, Route::Right, o2, Route::Right),
{
}

/// A right turn keeps clear of every straight path through the box.
pub proof fn law_right_turn_clear_of_straights(o1: Direction, o2: Direction)
    ensures
        footprints_disjoint(o1, Route::Right, o2, Route::Straight),
{
}

/// A vehicle is marked done only once it has reached the last waypoint of
/// its path.
pub open spec fn done_only_at_end(v: Vehicle) -> bool {
    v.state == VehicleState::Done ==> v.finished_spec()
}

/// A vehicle is done exactly when it has reached the last waypoint of its
/// path. A new vehicle is not done and has path left; reaching a waypoint and
/// finishing keep "done only at the end"; and a lifecycle update, which ends
/// every move, makes the vehicle done exactly when it is at the end of its
/// path.
pub proof fn law_done_iff_path_finished(v: Vehicle, in_box: bool)
    requires
        v.wf(),
        done_only_at_end(v),
    ensures
        ({
            let w = Vehicle { state: VehicleState::Approaching, wp_idx: 0, ..v };
            w.wf() && !w.finished_spec() && done_only_at_end(w)
        }),
        !v.finished_spec() ==> done_only_at_end(Vehicle { wp_idx: (v.wp_idx + 1) as usize, ..v }),
        v.finished_spec() ==> done_only_at_end(Vehicle { state: VehicleState::Done, ..v }),
        ({
            let s = step_state(v.state, in_box, v.finished_spec()).0;
            (s == VehicleState::Done) <==> v.finished_spec()
        }),
{
}

/// Spawn and despawn points are off-screen: the point placed beyond side `d`
/// for any point `p` of the window lies outside the window, `OFFSCREEN`
/// pixels past the edge on side `d`, straight ahead of `p` toward that side.
pub proof fn law_offscreen_beyond_edge(d: Direction, p: (int, int))
    requires
        0 <= p.0 <= WIN_W,
        0 <= p.1 <= WIN_H,
    ensures
        ({
            let q = offscreen_spec(d, p);
            &&& outside_window(q)
            &&& straight_ahead(p, q, dir_q(d))
            &&& (q.1 == -OFFSCREEN || q.1 == WIN_H + OFFSCREEN || q.0 == -OFFSCREEN || q.0 == WIN_W + OFFSCREEN)
            &&& (d == Direction::North ==> q.1 < 0)
            &&& (d == Direction::South ==> q.1 > WIN_H)
            &&& (d == Direction::East ==> q.0 > WIN_W)
            &&& (d == Direction::West ==> q.0 < 0)
        }),
{
}

/// Every vehicle spawns and is removed off-screen, whatever its lane.
pub proof fn law_paths_start_and_end_offscreen(o: Direction, r: Route)
    ensures
        outside_window(offscreen_spec(o, entry_spec(o, r))),
        outside_window(offscreen_spec(exit_dir(o, r), exit_spec(o, r))),
{
}

/// A well-formed vehicle has finished its path exactly when it stands at the
/// last waypoint: while a waypoint is left after the current one, the path is
/// not finished.
pub proof fn law_finished_at_last_waypoint(v: Vehicle)
    requires
        v.wf(),
    ensures
        v.finished_spec() <==> v.wp_idx + 1 == v.n_waypoints,
        v.wp_idx + 1 < v.n_waypoints ==> !v.finished_spec(),
{
}

} // verus!
