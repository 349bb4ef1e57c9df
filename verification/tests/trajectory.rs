use waypoint_editor::auto_pathing::cursor::{hit_test, CursorGrabOption};
use waypoint_editor::auto_pathing::markers::{rotation_anchor_updater, waypoint_updater, MarkerUpdate};
use waypoint_editor::auto_pathing::trajectory::{
    build_trajectory_path, collect_waypoints, generate_trajectory, trajectory_updater, Trajectory,
    TrajectoryChange, TrajectoryID,
};
use waypoint_editor::auto_pathing::waypoints::{FieldWaypointID, FieldWaypointList, Waypoint};
use waypoint_editor::field::{Field, FieldPose, FieldPosition, ScreenPose, ScreenVec};
use waypoint_editor::heading::Heading;
use waypoint_editor::layout::{Layout, LayoutRect, PixelVec};

const M: i32 = 1_000_000;
const UNIT: i32 = 1_000_000;

fn at(x: i32, y: i32) -> FieldPosition {
    FieldPosition { x, y }
}

fn field_pose(x: i32, y: i32, hx: i32, hy: i32) -> FieldPose {
    FieldPose { translation: at(x, y), rotation: Heading { x: hx, y: hy } }
}

fn pose(x: i32, y: i32, hx: i32, hy: i32) -> Waypoint {
    Waypoint::Pose(field_pose(x, y, hx, hy))
}

fn translation(x: i32, y: i32) -> Waypoint {
    Waypoint::Translation(at(x, y))
}

fn id(path_id: usize, idx: usize) -> FieldWaypointID {
    FieldWaypointID { path_id, idx }
}

fn field() -> Field {
    Field { size: at(10 * M, 5 * M) }
}

fn rect(x: i32, y: i32, w: i32, h: i32) -> LayoutRect {
    LayoutRect { pos: PixelVec { x, y }, size: PixelVec { x: w, y: h }, border_size: 15 }
}

fn layout() -> Layout {
    Layout {
        field: rect(-500, -250, 1000, 500),
        auto_cfg: rect(520, -250, 60, 500),
        console: rect(-500, -380, 1000, 100),
        screen_size: PixelVec { x: 1200, y: 800 },
    }
}

fn four_point_list() -> FieldWaypointList {
    FieldWaypointList(
        vec![vec![
            Some(pose(M, M, 0, UNIT)),
            Some(translation(3 * M, 2 * M)),
            Some(translation(4 * M, M)),
            Some(pose(6 * M, M, -UNIT, 0)),
        ]],
        0,
    )
}

fn shown(x: i64, y: i64, hx: i32, hy: i32) -> MarkerUpdate {
    MarkerUpdate::Show(ScreenPose { translation: ScreenVec { x, y }, rotation: Heading { x: hx, y: hy } })
}

#[test]
fn a_trajectory_splits_a_routine_into_start_interior_and_end() {
    let t = generate_trajectory(&four_point_list(), 0);
    assert_eq!(t.start, field_pose(M, M, 0, UNIT));
    assert_eq!(t.points, vec![at(3 * M, 2 * M), at(4 * M, M)]);
    assert_eq!(t.end, field_pose(6 * M, M, -UNIT, 0));
}

#[test]
fn a_trajectory_of_two_waypoints_has_no_interior() {
    let list = FieldWaypointList(vec![vec![], vec![Some(pose(1, 2, UNIT, 0)), Some(pose(3, 4, 0, UNIT))]], 0);
    let t = generate_trajectory(&list, 1);
    assert_eq!(t.start, field_pose(1, 2, UNIT, 0));
    assert_eq!(t.points, Vec::<FieldPosition>::new());
    assert_eq!(t.end, field_pose(3, 4, 0, UNIT));
}

#[test]
fn a_trajectory_leaves_empty_slots_out() {
    let list = FieldWaypointList(
        vec![vec![None, Some(translation(1, 1)), None, Some(pose(2, 2, 0, UNIT)), Some(translation(3, 3)), None]],
        0,
    );
    let t = generate_trajectory(&list, 0);
    // Ends that are bare positions become poses of zero heading; a pose in
    // the interior gives its position only.
    assert_eq!(t.start, field_pose(1, 1, UNIT, 0));
    assert_eq!(t.points, vec![at(2, 2)]);
    assert_eq!(t.end, field_pose(3, 3, UNIT, 0));
}

#[test]
fn collect_waypoints_keeps_the_order() {
    assert_eq!(collect_waypoints(&vec![]), Vec::<Waypoint>::new());
    assert_eq!(collect_waypoints(&vec![None, None]), Vec::<Waypoint>::new());
    assert_eq!(
        collect_waypoints(&vec![None, Some(translation(1, 1)), None, Some(pose(2, 2, 0, UNIT))]),
        vec![translation(1, 1), pose(2, 2, 0, UNIT)]
    );
}

#[test]
fn trajectories_compare_by_what_they_ask() {
    let a = generate_trajectory(&four_point_list(), 0);
    let b = generate_trajectory(&four_point_list(), 0);
    assert!(a.same_as(&b));
    let mut c = generate_trajectory(&four_point_list(), 0);
    c.points[1] = at(4 * M, M + 1);
    assert!(!a.same_as(&c));
    let mut d = generate_trajectory(&four_point_list(), 0);
    d.points.pop();
    assert!(!a.same_as(&d));
    assert!(!d.same_as(&a));
    let mut e = generate_trajectory(&four_point_list(), 0);
    e.end.rotation = Heading { x: UNIT, y: 0 };
    assert!(!a.same_as(&e));
    let mut f = generate_trajectory(&four_point_list(), 0);
    f.start.translation = at(0, 0);
    assert!(!a.same_as(&f));
    let empty = Trajectory::new(field_pose(0, 0, UNIT, 0), field_pose(1, 1, UNIT, 0));
    assert_eq!(empty.points.len(), 0);
    assert!(empty.same_as(&Trajectory::new(field_pose(0, 0, UNIT, 0), field_pose(1, 1, UNIT, 0))));
}

#[test]
fn a_trajectory_whose_routine_is_gone_is_retired() {
    let list = four_point_list();
    let mut t = Trajectory::new(field_pose(0, 0, UNIT, 0), field_pose(1, 1, UNIT, 0));
    assert_eq!(trajectory_updater(&mut t, TrajectoryID(1), &list), TrajectoryChange::Despawn);
    assert_eq!(trajectory_updater(&mut t, TrajectoryID(usize::MAX), &list), TrajectoryChange::Despawn);
    assert!(t.same_as(&Trajectory::new(field_pose(0, 0, UNIT, 0), field_pose(1, 1, UNIT, 0))));
}

#[test]
fn a_trajectory_follows_its_routine() {
    let mut list = four_point_list();
    let mut t = Trajectory::new(field_pose(0, 0, UNIT, 0), field_pose(1, 1, UNIT, 0));
    assert_eq!(trajectory_updater(&mut t, TrajectoryID(0), &list), TrajectoryChange::Regenerated);
    assert!(t.same_as(&generate_trajectory(&list, 0)));
    assert_eq!(t.points, vec![at(3 * M, 2 * M), at(4 * M, M)]);
    assert_eq!(trajectory_updater(&mut t, TrajectoryID(0), &list), TrajectoryChange::Unchanged);
    assert_eq!(t.points, vec![at(3 * M, 2 * M), at(4 * M, M)]);

    list.set_slot(id(0, 1), translation(3 * M, 3 * M));
    assert_eq!(trajectory_updater(&mut t, TrajectoryID(0), &list), TrajectoryChange::Regenerated);
    assert_eq!(t.points, vec![at(3 * M, 3 * M), at(4 * M, M)]);

    assert!(list.remove_last_waypoint(0));
    assert_eq!(trajectory_updater(&mut t, TrajectoryID(0), &list), TrajectoryChange::Regenerated);
    assert_eq!(t.points, vec![at(3 * M, 3 * M)]);
    assert_eq!(t.end, field_pose(4 * M, M, UNIT, 0));
}

#[test]
fn a_trajectory_stays_while_its_routine_has_no_start_and_end() {
    let list = FieldWaypointList(vec![vec![Some(pose(1, 1, UNIT, 0)), None], vec![]], 0);
    let mut t = Trajectory::new(field_pose(5, 5, UNIT, 0), field_pose(6, 6, UNIT, 0));
    assert_eq!(trajectory_updater(&mut t, TrajectoryID(0), &list), TrajectoryChange::Unchanged);
    assert_eq!(trajectory_updater(&mut t, TrajectoryID(1), &list), TrajectoryChange::Unchanged);
    assert!(t.same_as(&Trajectory::new(field_pose(5, 5, UNIT, 0), field_pose(6, 6, UNIT, 0))));
}

#[test]
fn the_path_of_no_points_rests_at_the_origin() {
    assert_eq!(build_trajectory_path(&vec![], &field(), &layout()), vec![ScreenVec { x: 0, y: 0 }]);
}

#[test]
fn the_path_runs_through_every_point() {
    let path = build_trajectory_path(&vec![at(3 * M, 4 * M), at(0, 0), at(12_345, 19_999)], &field(), &layout());
    assert_eq!(
        path,
        vec![
            ScreenVec { x: -200, y: 150 },
            ScreenVec { x: -200, y: 150 },
            ScreenVec { x: -500, y: -250 },
            ScreenVec { x: -499, y: -249 },
        ]
    );
    let single = build_trajectory_path(&vec![at(10 * M, 5 * M)], &field(), &layout());
    assert_eq!(single, vec![ScreenVec { x: 500, y: 250 }, ScreenVec { x: 500, y: 250 }]);
}

#[test]
fn a_marker_without_a_slot_is_retired() {
    let list = four_point_list();
    let f = field();
    let l = layout();
    assert_eq!(waypoint_updater(id(1, 0), &f, &l, &list), MarkerUpdate::Despawn);
    assert_eq!(waypoint_updater(id(0, 4), &f, &l, &list), MarkerUpdate::Despawn);
    assert_eq!(rotation_anchor_updater(id(1, 0), &f, &l, &list), MarkerUpdate::Despawn);
    assert_eq!(rotation_anchor_updater(id(0, 4), &f, &l, &list), MarkerUpdate::Despawn);
    // A slot that is gone is retired even in a routine that is not active.
    let mut two = four_point_list();
    two.0.push(vec![]);
    two.1 = 1;
    assert_eq!(waypoint_updater(id(0, 4), &f, &l, &two), MarkerUpdate::Despawn);
    assert_eq!(rotation_anchor_updater(id(2, 0), &f, &l, &two), MarkerUpdate::Despawn);
}

#[test]
fn a_marker_outside_the_active_routine_is_hidden() {
    let mut list = four_point_list();
    list.0.push(vec![Some(pose(1, 1, UNIT, 0))]);
    list.1 = 1;
    let f = field();
    let l = layout();
    assert_eq!(waypoint_updater(id(0, 0), &f, &l, &list), MarkerUpdate::Hide);
    assert_eq!(rotation_anchor_updater(id(0, 0), &f, &l, &list), MarkerUpdate::Hide);
    assert_eq!(waypoint_updater(id(1, 0), &f, &l, &list), shown(-500, -250, UNIT, 0));
}

#[test]
fn a_marker_of_an_empty_slot_is_hidden() {
    let list = FieldWaypointList(vec![vec![None, Some(translation(M, M))]], 0);
    let f = field();
    let l = layout();
    assert_eq!(waypoint_updater(id(0, 0), &f, &l, &list), MarkerUpdate::Hide);
    assert_eq!(rotation_anchor_updater(id(0, 0), &f, &l, &list), MarkerUpdate::Hide);
}

#[test]
fn a_waypoint_marker_shows_at_its_waypoint() {
    let list = four_point_list();
    let f = field();
    let l = layout();
    assert_eq!(waypoint_updater(id(0, 0), &f, &l, &list), shown(-400, -150, 0, UNIT));
    assert_eq!(waypoint_updater(id(0, 1), &f, &l, &list), shown(-200, -50, UNIT, 0));
    assert_eq!(waypoint_updater(id(0, 3), &f, &l, &list), shown(100, -150, -UNIT, 0));
}

#[test]
fn an_anchor_marker_shows_off_its_pose_along_the_heading() {
    let list = FieldWaypointList(
        vec![vec![
            Some(pose(M, M, 0, UNIT)),
            Some(pose(M, M, 600_000, 800_000)),
            Some(pose(M, M, -600_000, -800_000)),
            Some(pose(M, M, UNIT, 0)),
            Some(pose(M, M, -1, 39_999)),
            Some(pose(M, M, i32::MIN, i32::MAX)),
        ]],
        0,
    );
    let f = field();
    let l = layout();
    assert_eq!(rotation_anchor_updater(id(0, 0), &f, &l, &list), shown(-400, -125, UNIT, 0));
    assert_eq!(rotation_anchor_updater(id(0, 1), &f, &l, &list), shown(-385, -130, UNIT, 0));
    assert_eq!(rotation_anchor_updater(id(0, 2), &f, &l, &list), shown(-415, -170, UNIT, 0));
    assert_eq!(rotation_anchor_updater(id(0, 3), &f, &l, &list), shown(-375, -150, UNIT, 0));
    assert_eq!(rotation_anchor_updater(id(0, 4), &f, &l, &list), shown(-400, -150, UNIT, 0));
    assert_eq!(rotation_anchor_updater(id(0, 5), &f, &l, &list), shown(-400 - 53_687, -150 + 53_687, UNIT, 0));
}

#[test]
fn a_bare_position_has_no_anchor_marker() {
    let list = four_point_list();
    assert_eq!(rotation_anchor_updater(id(0, 1), &field(), &layout(), &list), MarkerUpdate::Hide);
    assert_eq!(rotation_anchor_updater(id(0, 3), &field(), &layout(), &list), shown(75, -150, UNIT, 0));
}

#[test]
fn a_press_on_a_drawn_anchor_grabs_it() {
    let f = field();
    let l = layout();
    let centre = at(5 * M, 2 * M);
    for target in [at(6 * M, 2 * M), at(5 * M, 0), at(M, 5 * M), at(9 * M, 4 * M), at(4_999_999, 1_999_999), at(0, 0)] {
        let heading = Heading::toward(&centre, &target);
        let list = FieldWaypointList(vec![vec![Some(Waypoint::Pose(FieldPose::new(centre, heading)))]], 0);
        let marker = match rotation_anchor_updater(id(0, 0), &f, &l, &list) {
            MarkerUpdate::Show(pose) => pose.translation,
            other => panic!("the anchor is not shown: {:?}", other),
        };
        // The marker sits 25 pixels from the waypoint, give or take the rounding.
        let dx = marker.x - 0;
        let dy = marker.y - (-50);
        assert!(dx * dx + dy * dy <= 25 * 25 && dx * dx + dy * dy >= 23 * 23);
        let under_the_marker = f.to_field_position(&l, marker).unwrap();
        assert_eq!(hit_test(&list, under_the_marker, &f, &l), CursorGrabOption::Rotation(id(0, 0)));
    }
}
