use smart_road::vehicle::{StateChange, Vehicle, VehicleState, Direction, Route};

#[test]
fn new_vehicle_approaches() {
    let v = Vehicle::new(7, Direction::East, Route::Left);
    assert_eq!(v.id, 7);
    assert_eq!(v.origin, Direction::East);
    assert_eq!(v.route, Route::Left);
    assert_eq!(v.state, VehicleState::Approaching);
    assert_eq!(v.wp_idx, 0);
    assert_eq!(v.n_waypoints, 19);
    assert!(!v.is_done());
    assert!(!v.path_finished());
    assert_eq!(v.next_waypoint(), Some(1));
}

#[test]
fn lifecycle_through_the_box() {
    let mut v = Vehicle::new(1, Direction::North, Route::Straight);
    assert_eq!(v.update_state(false), StateChange::Unchanged);
    assert_eq!(v.state, VehicleState::Approaching);
    assert_eq!(v.update_state(true), StateChange::Entered);
    assert_eq!(v.state, VehicleState::InIntersection);
    assert_eq!(v.update_state(true), StateChange::Unchanged);
    assert_eq!(v.state, VehicleState::InIntersection);
    assert_eq!(v.update_state(false), StateChange::Exited);
    assert_eq!(v.state, VehicleState::Exiting);
    assert_eq!(v.update_state(true), StateChange::Unchanged);
    assert_eq!(v.state, VehicleState::Exiting);
}

#[test]
fn end_of_path_is_done() {
    let mut v = Vehicle::new(2, Direction::South, Route::Straight);
    v.arrive_at_waypoint();
    v.arrive_at_waypoint();
    assert_eq!(v.next_waypoint(), Some(3));
    v.arrive_at_waypoint();
    assert!(v.path_finished());
    assert_eq!(v.next_waypoint(), None);
    assert_eq!(v.update_state(false), StateChange::Unchanged);
    assert!(v.is_done());
    assert_eq!(v.update_state(true), StateChange::Unchanged);
    assert!(v.is_done());
}

#[test]
fn entering_on_the_last_waypoint_still_records_entry() {
    let mut v = Vehicle::new(3, Direction::West, Route::Straight);
    v.arrive_at_waypoint();
    v.arrive_at_waypoint();
    v.arrive_at_waypoint();
    assert_eq!(v.update_state(true), StateChange::Entered);
    assert_eq!(v.state, VehicleState::Done);
}

#[test]
fn reserved_vehicle_enters_the_box() {
    let mut v = Vehicle::new(4, Direction::North, Route::Right);
    v.state = VehicleState::Reserved;
    assert_eq!(v.update_state(false), StateChange::Unchanged);
    assert_eq!(v.state, VehicleState::Reserved);
    assert_eq!(v.update_state(true), StateChange::Entered);
    assert_eq!(v.state, VehicleState::InIntersection);
}

#[test]
fn finish_at_the_end_of_the_path() {
    let mut v = Vehicle::new(5, Direction::East, Route::Straight);
    while v.next_waypoint().is_some() {
        assert!(!v.is_done());
        v.arrive_at_waypoint();
    }
    assert!(v.path_finished());
    v.finish();
    assert!(v.is_done());
}
