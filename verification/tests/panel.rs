use waypoint_editor::auto_pathing::config_panel::{button_system, ConfigButtonAction, NEW_WAYPOINT_X, NEW_WAYPOINT_Y};
use waypoint_editor::auto_pathing::trajectory::TrajectoryID;
use waypoint_editor::auto_pathing::waypoints::{FieldWaypointID, FieldWaypointList, Waypoint, SEED_END_X, SEED_END_Y};
use waypoint_editor::field::{FieldPose, FieldPosition};
use waypoint_editor::heading::Heading;
use waypoint_editor::robot_connection::{
    on_link_event, LinkAction, LinkEvent, LinkState, TrajectoryCache, RETRY_DELAY_MS,
};

const M: i32 = 1_000_000;

fn pose(x: i32, y: i32) -> Waypoint {
    Waypoint::Pose(FieldPose { translation: FieldPosition { x, y }, rotation: Heading { x: 1_000_000, y: 0 } })
}

fn translation(x: i32, y: i32) -> Waypoint {
    Waypoint::Translation(FieldPosition { x, y })
}

fn id(path_id: usize, idx: usize) -> FieldWaypointID {
    FieldWaypointID { path_id, idx }
}

fn startup_list() -> FieldWaypointList {
    FieldWaypointList(
        vec![vec![Some(pose(M, M)), Some(pose(6 * M, M))], vec![Some(pose(M, M)), Some(pose(6 * M, M))]],
        0,
    )
}

#[test]
fn the_fixed_places() {
    assert_eq!((NEW_WAYPOINT_X, NEW_WAYPOINT_Y), (1_000_000, 1_000_000));
    assert_eq!((SEED_END_X, SEED_END_Y), (2_000_000, 1_000_000));
    assert_eq!(RETRY_DELAY_MS, 200);
}

#[test]
fn the_add_button_adds_a_pose_to_the_active_routine() {
    let mut list = FieldWaypointList(vec![vec![Some(pose(M, M)), Some(pose(6 * M, M))]], 0);
    let effect = button_system(ConfigButtonAction::AddWaypoint, &mut list);
    assert_eq!(list.0, vec![vec![Some(pose(M, M)), Some(translation(6 * M, M)), Some(pose(M, M))]]);
    assert_eq!(list.1, 0);
    assert_eq!(effect.spawned, vec![id(0, 2)]);
    assert_eq!(effect.trajectory, None);
}

#[test]
fn the_add_button_acts_on_the_active_routine_only() {
    let mut list = startup_list();
    list.1 = 1;
    let effect = button_system(ConfigButtonAction::AddWaypoint, &mut list);
    assert_eq!(list.0[0], vec![Some(pose(M, M)), Some(pose(6 * M, M))]);
    assert_eq!(list.0[1], vec![Some(pose(M, M)), Some(translation(6 * M, M)), Some(pose(M, M))]);
    assert_eq!(effect.spawned, vec![id(1, 2)]);
}

#[test]
fn the_add_button_makes_the_first_routine() {
    let mut list = FieldWaypointList::new();
    let effect = button_system(ConfigButtonAction::AddWaypoint, &mut list);
    assert_eq!(list.0, vec![vec![Some(pose(M, M))]]);
    assert_eq!(list.1, 0);
    assert_eq!(effect.spawned, vec![id(0, 0)]);
    assert_eq!(effect.trajectory, Some(TrajectoryID(0)));
}

#[test]
fn the_remove_button_removes_down_to_two() {
    let mut list = FieldWaypointList(vec![vec![Some(pose(M, M)), Some(translation(6 * M, M)), Some(pose(M, M))]], 0);
    let effect = button_system(ConfigButtonAction::RemoveWaypoint, &mut list);
    assert_eq!(list.0, vec![vec![Some(pose(M, M)), Some(pose(6 * M, M))]]);
    assert_eq!(effect.spawned, Vec::<FieldWaypointID>::new());
    assert_eq!(effect.trajectory, None);
    button_system(ConfigButtonAction::RemoveWaypoint, &mut list);
    assert_eq!(list.0, vec![vec![Some(pose(M, M)), Some(pose(6 * M, M))]]);
}

#[test]
fn the_remove_button_without_routines_does_nothing() {
    let mut list = FieldWaypointList::new();
    let effect = button_system(ConfigButtonAction::RemoveWaypoint, &mut list);
    assert_eq!(list.0.len(), 0);
    assert_eq!(list.1, 0);
    assert_eq!(effect.spawned, Vec::<FieldWaypointID>::new());
}

#[test]
fn the_routine_buttons_cycle() {
    let mut list = startup_list();
    list.0.push(vec![]);
    let effect = button_system(ConfigButtonAction::IncrementPathIdx, &mut list);
    assert_eq!(list.1, 1);
    assert_eq!(effect.spawned, Vec::<FieldWaypointID>::new());
    assert_eq!(effect.trajectory, None);
    button_system(ConfigButtonAction::IncrementPathIdx, &mut list);
    assert_eq!(list.1, 2);
    button_system(ConfigButtonAction::IncrementPathIdx, &mut list);
    assert_eq!(list.1, 0);
    button_system(ConfigButtonAction::DecrementPathIdx, &mut list);
    assert_eq!(list.1, 2);
    button_system(ConfigButtonAction::DecrementPathIdx, &mut list);
    assert_eq!(list.1, 1);
    assert_eq!(list.0.len(), 3);
    assert_eq!(list.0[0], vec![Some(pose(M, M)), Some(pose(6 * M, M))]);
}

#[test]
fn the_routine_buttons_without_routines_do_nothing() {
    let mut list = FieldWaypointList::new();
    button_system(ConfigButtonAction::IncrementPathIdx, &mut list);
    assert_eq!((list.0.len(), list.1), (0, 0));
    button_system(ConfigButtonAction::DecrementPathIdx, &mut list);
    assert_eq!((list.0.len(), list.1), (0, 0));
}

#[test]
fn the_path_button_adds_a_routine_and_makes_it_active() {
    let mut list = startup_list();
    let effect = button_system(ConfigButtonAction::AddPath, &mut list);
    assert_eq!(list.0.len(), 3);
    assert_eq!(list.0[2], vec![Some(pose(6 * M, M)), Some(pose(2 * M, M))]);
    assert_eq!(list.1, 2);
    assert_eq!(effect.spawned, vec![id(2, 0), id(2, 1)]);
    assert_eq!(effect.trajectory, Some(TrajectoryID(2)));
}

#[test]
fn the_path_button_needs_a_routine_to_continue() {
    let mut list = FieldWaypointList::new();
    let effect = button_system(ConfigButtonAction::AddPath, &mut list);
    assert_eq!((list.0.len(), list.1), (0, 0));
    assert_eq!(effect.spawned, Vec::<FieldWaypointID>::new());
    assert_eq!(effect.trajectory, None);

    let mut list = FieldWaypointList(vec![vec![Some(pose(M, M))], vec![None]], 1);
    let effect = button_system(ConfigButtonAction::AddPath, &mut list);
    assert_eq!(list.0, vec![vec![Some(pose(M, M))], vec![None]]);
    assert_eq!(list.1, 1);
    assert_eq!(effect.trajectory, None);
}

#[test]
fn startup_waits_until_an_attempt_succeeds() {
    let failed = LinkEvent::Attempt { succeeded: false };
    let made = LinkEvent::Attempt { succeeded: true };
    assert_eq!(on_link_event(LinkState::Connecting, failed), (LinkState::Connecting, LinkAction::RetryAfter(200)));
    assert_eq!(on_link_event(LinkState::Connecting, LinkEvent::Other), (LinkState::Connecting, LinkAction::Wait));
    assert_eq!(on_link_event(LinkState::Connecting, made), (LinkState::Connected, LinkAction::Proceed));
}

#[test]
fn a_link_once_made_stays_made() {
    for event in [LinkEvent::Attempt { succeeded: false }, LinkEvent::Attempt { succeeded: true }, LinkEvent::Other] {
        assert_eq!(on_link_event(LinkState::Connected, event), (LinkState::Connected, LinkAction::Proceed));
    }
}

#[test]
fn startup_retries_after_every_failure() {
    let mut state = LinkState::Connecting;
    let mut retries: u32 = 0;
    let events = [
        LinkEvent::Attempt { succeeded: false },
        LinkEvent::Other,
        LinkEvent::Attempt { succeeded: false },
        LinkEvent::Attempt { succeeded: false },
        LinkEvent::Attempt { succeeded: true },
    ];
    for (k, event) in events.iter().enumerate() {
        let (next, action) = on_link_event(state, *event);
        if action == LinkAction::RetryAfter(RETRY_DELAY_MS) {
            retries += 1;
        }
        assert_eq!(action == LinkAction::Proceed, k == 4);
        state = next;
    }
    assert_eq!(retries, 3);
    assert_eq!(state, LinkState::Connected);
}

#[test]
fn the_cache_keeps_the_last_polyline_through_a_failure() {
    let mut cache = TrajectoryCache::new();
    assert_eq!(cache.points, Vec::<FieldPosition>::new());
    assert!(!cache.stale);
    cache.record(Some(vec![FieldPosition { x: 1, y: 2 }, FieldPosition { x: 3, y: 4 }]));
    assert_eq!(cache.points, vec![FieldPosition { x: 1, y: 2 }, FieldPosition { x: 3, y: 4 }]);
    assert!(!cache.stale);
    cache.record(None);
    assert_eq!(cache.points, vec![FieldPosition { x: 1, y: 2 }, FieldPosition { x: 3, y: 4 }]);
    assert!(cache.stale);
    cache.record(None);
    assert!(cache.stale);
    cache.record(Some(vec![]));
    assert_eq!(cache.points, Vec::<FieldPosition>::new());
    assert!(!cache.stale);
}

#[test]
fn the_buttons_take_a_stray_active_index() {
    let mut list = startup_list();
    list.1 = 4;
    let effect = button_system(ConfigButtonAction::RemoveWaypoint, &mut list);
    assert_eq!(list.0, startup_list().0);
    assert_eq!(effect.spawned, Vec::<FieldWaypointID>::new());
    button_system(ConfigButtonAction::DecrementPathIdx, &mut list);
    assert_eq!(list.1, 1);
    list.1 = 3;
    let effect = button_system(ConfigButtonAction::AddWaypoint, &mut list);
    assert_eq!(list.0.len(), 4);
    assert_eq!(list.0[2], Vec::<Option<Waypoint>>::new());
    assert_eq!(list.0[3], vec![Some(pose(M, M))]);
    assert_eq!(effect.spawned, vec![id(3, 0)]);
    assert_eq!(effect.trajectory, Some(TrajectoryID(3)));
    assert!(list.is_well_formed());
}
