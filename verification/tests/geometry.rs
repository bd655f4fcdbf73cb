use smart_road::geometry::{pt, quarter_unit, Point};
use smart_road::intersection::{dashes, lane_marker};
use smart_road::vehicle::{
    despawn_point, entry_point, exit_direction, exit_point, initial_heading, left_arc_params,
    path_len, right_arc_params, spawn_point, spawn_pos, straight_exit, Direction, Route,
};

const ORIGINS: [Direction; 4] = [Direction::North, Direction::South, Direction::East, Direction::West];
const ROUTES: [Route; 3] = [Route::Right, Route::Straight, Route::Left];

#[test]
fn entry_points_match_lane_centres() {
    assert_eq!(entry_point(Direction::North, Route::Right), pt(300, 280));
    assert_eq!(entry_point(Direction::North, Route::Straight), pt(340, 280));
    assert_eq!(entry_point(Direction::North, Route::Left), pt(380, 280));
    assert_eq!(entry_point(Direction::South, Route::Left), pt(420, 520));
    assert_eq!(entry_point(Direction::South, Route::Straight), pt(460, 520));
    assert_eq!(entry_point(Direction::South, Route::Right), pt(500, 520));
    assert_eq!(entry_point(Direction::East, Route::Right), pt(520, 300));
    assert_eq!(entry_point(Direction::East, Route::Straight), pt(520, 340));
    assert_eq!(entry_point(Direction::East, Route::Left), pt(520, 380));
    assert_eq!(entry_point(Direction::West, Route::Left), pt(280, 420));
    assert_eq!(entry_point(Direction::West, Route::Straight), pt(280, 460));
    assert_eq!(entry_point(Direction::West, Route::Right), pt(280, 500));
}

#[test]
fn entry_points_are_all_different() {
    let mut seen: Vec<Point> = Vec::new();
    for o in ORIGINS {
        for r in ROUTES {
            let p = entry_point(o, r);
            assert!(!seen.contains(&p));
            seen.push(p);
        }
    }
    assert_eq!(seen.len(), 12);
}

#[test]
fn exit_directions() {
    assert_eq!(exit_direction(Direction::North, Route::Right), Direction::West);
    assert_eq!(exit_direction(Direction::North, Route::Straight), Direction::South);
    assert_eq!(exit_direction(Direction::North, Route::Left), Direction::East);
    assert_eq!(exit_direction(Direction::South, Route::Right), Direction::East);
    assert_eq!(exit_direction(Direction::South, Route::Straight), Direction::North);
    assert_eq!(exit_direction(Direction::South, Route::Left), Direction::West);
    assert_eq!(exit_direction(Direction::East, Route::Right), Direction::North);
    assert_eq!(exit_direction(Direction::East, Route::Straight), Direction::West);
    assert_eq!(exit_direction(Direction::East, Route::Left), Direction::South);
    assert_eq!(exit_direction(Direction::West, Route::Right), Direction::South);
    assert_eq!(exit_direction(Direction::West, Route::Straight), Direction::East);
    assert_eq!(exit_direction(Direction::West, Route::Left), Direction::North);
    for o in ORIGINS {
        for r in ROUTES {
            assert_ne!(exit_direction(o, r), o);
        }
    }
}

#[test]
fn straight_exits_are_on_the_far_edge() {
    assert_eq!(straight_exit(Direction::North), pt(340, 520));
    assert_eq!(straight_exit(Direction::South), pt(460, 280));
    assert_eq!(straight_exit(Direction::East), pt(280, 340));
    assert_eq!(straight_exit(Direction::West), pt(520, 460));
}

#[test]
fn initial_headings_in_quarter_turns() {
    assert_eq!(initial_heading(Direction::North), 1);
    assert_eq!(initial_heading(Direction::South), -1);
    assert_eq!(initial_heading(Direction::East), 2);
    assert_eq!(initial_heading(Direction::West), 0);
}

#[test]
fn arc_parameters() {
    let a = right_arc_params(Direction::North);
    assert_eq!((a.center, a.start_q, a.sweep_q), (pt(280, 280), 0, 1));
    let a = right_arc_params(Direction::South);
    assert_eq!((a.center, a.start_q, a.sweep_q), (pt(520, 520), 2, 1));
    let a = right_arc_params(Direction::East);
    assert_eq!((a.center, a.start_q, a.sweep_q), (pt(520, 280), 1, 1));
    let a = right_arc_params(Direction::West);
    assert_eq!((a.center, a.start_q, a.sweep_q), (pt(280, 520), -1, 1));
    let a = left_arc_params(Direction::North);
    assert_eq!((a.center, a.start_q, a.sweep_q), (pt(520, 280), 2, -1));
    let a = left_arc_params(Direction::South);
    assert_eq!((a.center, a.start_q, a.sweep_q), (pt(280, 520), 0, -1));
    let a = left_arc_params(Direction::East);
    assert_eq!((a.center, a.start_q, a.sweep_q), (pt(520, 520), 3, -1));
    let a = left_arc_params(Direction::West);
    assert_eq!((a.center, a.start_q, a.sweep_q), (pt(280, 280), 1, -1));
}

#[test]
fn arcs_start_at_the_entry_point() {
    for o in ORIGINS {
        for (r, a, radius) in [(Route::Right, right_arc_params(o), 20), (Route::Left, left_arc_params(o), 140)] {
            let (ux, uy) = quarter_unit(a.start_q);
            assert_eq!(pt(a.center.x + radius * ux, a.center.y + radius * uy), entry_point(o, r));
        }
    }
}

#[test]
fn turns_leave_in_the_lane_of_the_same_route() {
    assert_eq!(exit_point(Direction::North, Route::Right), pt(280, 300));
    assert_eq!(exit_point(Direction::North, Route::Left), pt(520, 420));
    assert_eq!(exit_point(Direction::South, Route::Right), pt(520, 500));
    assert_eq!(exit_point(Direction::South, Route::Left), pt(280, 380));
    assert_eq!(exit_point(Direction::East, Route::Right), pt(500, 280));
    assert_eq!(exit_point(Direction::East, Route::Left), pt(380, 520));
    assert_eq!(exit_point(Direction::West, Route::Right), pt(300, 520));
    assert_eq!(exit_point(Direction::West, Route::Left), pt(420, 280));
    assert_eq!(exit_point(Direction::West, Route::Straight), pt(520, 460));
}

#[test]
fn spawn_and_despawn_off_screen() {
    assert_eq!(spawn_pos(Direction::North, Route::Right), pt(300, -60));
    assert_eq!(spawn_pos(Direction::South, Route::Left), pt(420, 860));
    assert_eq!(spawn_pos(Direction::East, Route::Straight), pt(860, 340));
    assert_eq!(spawn_pos(Direction::West, Route::Right), pt(-60, 500));
    assert_eq!(spawn_point(Direction::North, pt(340, 280)), pt(340, -60));
    assert_eq!(despawn_point(Direction::North, Route::Right, pt(280, 300)), pt(-60, 300));
    assert_eq!(despawn_point(Direction::North, Route::Left, pt(520, 420)), pt(860, 420));
    assert_eq!(despawn_point(Direction::North, Route::Straight, pt(340, 520)), pt(340, 860));
    assert_eq!(despawn_point(Direction::East, Route::Right, pt(500, 280)), pt(500, -60));
}

#[test]
fn path_lengths() {
    assert_eq!(path_len(Route::Straight), 4);
    assert_eq!(path_len(Route::Right), 11);
    assert_eq!(path_len(Route::Left), 19);
}

#[test]
fn quarter_units() {
    assert_eq!(quarter_unit(0), (1, 0));
    assert_eq!(quarter_unit(1), (0, 1));
    assert_eq!(quarter_unit(2), (-1, 0));
    assert_eq!(quarter_unit(-1), (0, -1));
    assert_eq!(quarter_unit(3), (0, -1));
    assert_eq!(quarter_unit(5), (0, 1));
}

#[test]
fn lane_markers_before_the_stop_lines() {
    assert_eq!(lane_marker(Direction::North, Route::Right), pt(300, 220));
    assert_eq!(lane_marker(Direction::South, Route::Left), pt(420, 580));
    assert_eq!(lane_marker(Direction::West, Route::Straight), pt(220, 460));
    assert_eq!(lane_marker(Direction::East, Route::Left), pt(580, 380));
}

#[test]
fn divider_dashes() {
    let d = dashes(0, 280);
    assert_eq!(d.len(), 10);
    assert_eq!(d[0], (0, 18));
    assert_eq!(d[9], (252, 270));
    let d = dashes(520, 800);
    assert_eq!(d.len(), 10);
    assert_eq!(d[9], (772, 790));
    assert_eq!(dashes(0, 30), vec![(0, 18), (28, 30)]);
    assert_eq!(dashes(0, 20), vec![(0, 18)]);
    assert_eq!(dashes(5, 5), vec![]);
    assert_eq!(dashes(10, 0), vec![]);
}

#[test]
fn right_turns_keep_to_their_corners() {
    let rect = |o: Direction, r: Route| {
        let a = entry_point(o, r);
        let b = exit_point(o, r);
        (a.x.min(b.x), a.x.max(b.x), a.y.min(b.y), a.y.max(b.y))
    };
    let disjoint = |p: (i32, i32, i32, i32), q: (i32, i32, i32, i32)| {
        p.1 < q.0 || q.1 < p.0 || p.3 < q.2 || q.3 < p.2
    };
    for o1 in ORIGINS {
        for o2 in ORIGINS {
            if o1 != o2 {
                assert!(disjoint(rect(o1, Route::Right), rect(o2, Route::Right)));
            }
            assert!(disjoint(rect(o1, Route::Right), rect(o2, Route::Straight)));
        }
    }
    assert_eq!(rect(Direction::North, Route::Right), (280, 300, 280, 300));
}
