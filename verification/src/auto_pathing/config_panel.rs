//! The commands of the configuration panel. Each button stands for one
//! operation of the waypoint store.

use vstd::prelude::*;
use crate::auto_pathing::trajectory::TrajectoryID;
use crate::auto_pathing::waypoints::{
    can_continue, cycled, padded_to, seeded_routine, waypoints, with_last_waypoint_removed,
    with_waypoint_added, CycleDirection, FieldWaypointID, FieldWaypointList, Waypoint,
};
use crate::field::{FieldPose, FieldPosition};
use crate::heading::Heading;

verus! {

/// Where a waypoint added from the panel lies, in micrometres.
pub const NEW_WAYPOINT_X: i32 = 1_000_000;

/// See `NEW_WAYPOINT_X`.
pub const NEW_WAYPOINT_Y: i32 = 1_000_000;

/// What a button of the panel does.
#[derive(Clone, Copy, Debug, PartialEq, Eq, Structural)]
pub enum ConfigButtonAction {
    AddWaypoint,
    RemoveWaypoint,
    IncrementPathIdx,
    DecrementPathIdx,
    AddPath,
}

/// What the surroundings have to make after a command: a marker pair for
/// each new slot, and a trajectory for a new routine.
#[derive(Clone, Debug)]
pub struct ButtonEffect {
    pub spawned: Vec<FieldWaypointID>,
    pub trajectory: Option<TrajectoryID>,
}

/// The waypoint that the panel adds: a pose of zero heading at a fixed place.
pub open spec fn new_waypoint() -> Waypoint {
    Waypoint::Pose(
        FieldPose {
            translation: FieldPosition { x: NEW_WAYPOINT_X, y: NEW_WAYPOINT_Y },
            rotation: Heading::spec_zero(),
        },
    )
}

/// The routines after a command, with `active` the index of the active
/// routine before it. Adding a waypoint to a store without routines makes
/// the first routine. Removing acts on the active routine, if there is one.
/// A routine is added only where there is one to continue.
pub open spec fn routines_after(routines: Seq<Seq<Option<Waypoint>>>, active: usize, action: ConfigButtonAction) -> Seq<
    Seq<Option<Waypoint>>,
> {
    match action {
        ConfigButtonAction::AddWaypoint => padded_to(routines, active as int).update(
            active as int,
            with_waypoint_added(padded_to(routines, active as int)[active as int], new_waypoint()),
        ),
        ConfigButtonAction::RemoveWaypoint => if active < routines.len() {
            routines.update(active as int, with_last_waypoint_removed(routines[active as int]))
        } else {
            routines
        },
        ConfigButtonAction::IncrementPathIdx => routines,
        ConfigButtonAction::DecrementPathIdx => routines,
        ConfigButtonAction::AddPath => if can_continue(routines) {
            routines.push(seeded_routine(waypoints(routines.last()).last().spec_position()))
        } else {
            routines
        },
    }
}

/// The index of the active routine after a command.
pub open spec fn active_after(routines: Seq<Seq<Option<Waypoint>>>, active: usize, action: ConfigButtonAction) -> int {
    match action {
        ConfigButtonAction::AddWaypoint => active as int,
        ConfigButtonAction::RemoveWaypoint => active as int,
        ConfigButtonAction::IncrementPathIdx => cycled(active as int, routines.len() as int, CycleDirection::Next),
        ConfigButtonAction::DecrementPathIdx => cycled(
            active as int,
            routines.len() as int,
            CycleDirection::Previous,
        ),
        ConfigButtonAction::AddPath => if can_continue(routines) {
            routines.len() as int
        } else {
            active as int
        },
    }
}

/// The slots that a command makes, in the order in which it fills them.
pub open spec fn slots_made(routines: Seq<Seq<Option<Waypoint>>>, active: usize, action: ConfigButtonAction) -> Seq<
    FieldWaypointID,
> {
    match action {
        ConfigButtonAction::AddWaypoint => seq![
            FieldWaypointID {
                path_id: active,
                idx: padded_to(routines, active as int)[active as int].len() as usize,
            },
        ],
        ConfigButtonAction::AddPath => if can_continue(routines) {
            seq![
                FieldWaypointID { path_id: routines.len() as usize, idx: 0 },
                FieldWaypointID { path_id: routines.len() as usize, idx: 1 },
            ]
        } else {
            Seq::empty()
        },
        _ => Seq::empty(),
    }
}

/// The routine that a command makes, which needs a trajectory of its own.
pub open spec fn routine_made(routines: Seq<Seq<Option<Waypoint>>>, active: usize, action: ConfigButtonAction) -> Option<
    TrajectoryID,
> {
    match action {
        ConfigButtonAction::AddWaypoint => if active >= routines.len() {
            Some(TrajectoryID(active))
        } else {
            None
        },
        ConfigButtonAction::AddPath => if can_continue(routines) {
            Some(TrajectoryID(routines.len() as usize))
        } else {
            None
        },
        _ => None,
    }
}

/// Carries out the command of a clicked button on the store.
pub fn button_system(action: ConfigButtonAction, waypoint_list: &mut FieldWaypointList) -> (effect: ButtonEffect)
    ensures
        final(waypoint_list)@ == routines_after(old(waypoint_list)@, old(waypoint_list).1, action),
        final(waypoint_list).1 == active_after(old(waypoint_list)@, old(waypoint_list).1, action),
        old(waypoint_list).well_formed() ==> final(waypoint_list).well_formed(),
        effect.spawned@ == slots_made(old(waypoint_list)@, old(waypoint_list).1, action),
        effect.trajectory == routine_made(old(waypoint_list)@, old(waypoint_list).1, action),
{
    let mut spawned: Vec<FieldWaypointID> = Vec::new();
    let mut trajectory: Option<TrajectoryID> = None;
    match action {
        ConfigButtonAction::AddWaypoint => {
            let path_idx: usize = waypoint_list.1;
            if path_idx >= waypoint_list.0.len() {
                trajectory = Some(TrajectoryID(path_idx));
            }
            let id: FieldWaypointID = waypoint_list.add_waypoint(
                Waypoint::Pose(
                    FieldPose {
                        translation: FieldPosition { x: NEW_WAYPOINT_X, y: NEW_WAYPOINT_Y },
                        rotation: Heading::zero(),
                    },
                ),
                path_idx,
            );
            spawned.push(id);
        },
        ConfigButtonAction::RemoveWaypoint => {
            let path_idx: usize = waypoint_list.1;
            if path_idx < waypoint_list.0.len() {
                waypoint_list.remove_last_waypoint(path_idx);
            }
        },
        ConfigButtonAction::IncrementPathIdx => {
            waypoint_list.cycle_active_routine(CycleDirection::Next);
        },
        ConfigButtonAction::DecrementPathIdx => {
            waypoint_list.cycle_active_routine(CycleDirection::Previous);
        },
        ConfigButtonAction::AddPath => {
            if waypoint_list.has_routine_to_continue() {
                let path_idx: usize = waypoint_list.add_routine();
                spawned.push(FieldWaypointID { path_id: path_idx, idx: 0 });
                spawned.push(FieldWaypointID { path_id: path_idx, idx: 1 });
                trajectory = Some(TrajectoryID(path_idx));
            }
        },
    }
    proof {
        assert(spawned@ =~= slots_made(old(waypoint_list)@, old(waypoint_list).1, action));
        assert(waypoint_list@ =~= routines_after(old(waypoint_list)@, old(waypoint_list).1, action));
    }
    ButtonEffect { spawned, trajectory }
}

} // verus!
