use vstd::prelude::*;

verus! {

/// Window width in pixels.
pub const WIN_W: i32 = 800;
/// Window height in pixels.
pub const WIN_H: i32 = 800;

/// Width of one lane in pixels.
pub const LANE_W: i32 = 40;
/// Half a lane: the offset of a lane centre from its edge.
pub const HALF_LANE: i32 = 20;
/// Horizontal centre of the window.
pub const CENTER_X: i32 = 400;
/// Vertical centre of the window.
pub const CENTER_Y: i32 = 400;
/// Half the width of a road: three lanes per direction.
pub const ROAD_HALF: i32 = 120;
/// Full width of a road: six lanes.
pub const ROAD_W: i32 = 240;

/// Left edge of the intersection box: `CENTER_X - ROAD_HALF`.
pub const INTER_L: i32 = 280;
/// Right edge of the intersection box: `CENTER_X + ROAD_HALF`.
pub const INTER_R: i32 = 520;
/// Top edge of the intersection box: `CENTER_Y - ROAD_HALF`.
pub const INTER_T: i32 = 280;
/// Bottom edge of the intersection box: `CENTER_Y + ROAD_HALF`.
pub const INTER_B: i32 = 520;

// Lane centres. A lane's centre lies half a lane from its edge; lanes are
// listed from the driver's right.

/// Southbound right-turn lane (west half of the vertical road; turns west).
pub const SB_R_X: i32 = 300;
/// Southbound straight lane.
pub const SB_S_X: i32 = 340;
/// Southbound left-turn lane (turns east).
pub const SB_L_X: i32 = 380;

/// Northbound left-turn lane (east half of the vertical road; turns west).
pub const NB_L_X: i32 = 420;
/// Northbound straight lane.
pub const NB_S_X: i32 = 460;
/// Northbound right-turn lane (turns east).
pub const NB_R_X: i32 = 500;

/// Westbound right-turn lane (north half of the horizontal road; turns north).
pub const WB_R_Y: i32 = 300;
/// Westbound straight lane.
pub const WB_S_Y: i32 = 340;
/// Westbound left-turn lane (turns south).
pub const WB_L_Y: i32 = 380;

/// Eastbound left-turn lane (south half of the horizontal road; turns north).
pub const EB_L_Y: i32 = 420;
/// Eastbound straight lane.
pub const EB_S_Y: i32 = 460;
/// Eastbound right-turn lane (turns south).
pub const EB_R_Y: i32 = 500;

/// Radius of a right-turn arc: half a lane, around the near corner.
pub const RIGHT_R: i32 = 20;
/// Radius of a left-turn arc: a half-road plus half a lane, around the far corner.
pub const LEFT_R: i32 = 140;

/// Number of arc segments on a right turn.
pub const RIGHT_STEPS: usize = 8;
/// Number of arc segments on a left turn.
pub const LEFT_STEPS: usize = 16;

/// How far off-screen vehicles are spawned and removed.
pub const OFFSCREEN: i32 = 60;

/// Number of tiles along each side of the intersection grid. The tiling is
/// a choice of this library: twelve tiles of half a lane each.
pub const GRID_N: u8 = 12;

} // verus!
