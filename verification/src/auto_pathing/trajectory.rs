//! The request that a routine makes of the trajectory service, and the path
//! drawn for the polyline that the service sends back.

use vstd::prelude::*;
use crate::auto_pathing::continuity::continuous;
use crate::auto_pathing::waypoints::{waypoints, FieldWaypointList, Waypoint};
use crate::field::{Field, FieldPose, FieldPosition, ScreenVec};
use crate::layout::Layout;

verus! {

/// What the trajectory service is asked to connect: a pose to start from,
/// positions to pass through in order, and a pose to end in.
#[derive(Clone, Debug)]
pub struct Trajectory {
    pub start: FieldPose,
    pub points: Vec<FieldPosition>,
    pub end: FieldPose,
}

/// Names the routine that a trajectory belongs to.
#[derive(Clone, Copy, Debug, PartialEq, Eq, Structural)]
pub struct TrajectoryID(pub usize);

/// A trajectory as plain values.
pub struct TrajectoryView {
    pub start: FieldPose,
    pub points: Seq<FieldPosition>,
    pub end: FieldPose,
}

impl View for Trajectory {
    type V = TrajectoryView;

    open spec fn view(&self) -> TrajectoryView {
        TrajectoryView { start: self.start, points: self.points@, end: self.end }
    }
}

/// The positions of the waypoints between the first and the last.
pub open spec fn interior_positions(w: Seq<Waypoint>) -> Seq<FieldPosition> {
    Seq::new((w.len() - 2) as nat, |k: int| w[k + 1].spec_position())
}

/// The trajectory of a routine of at least two waypoints: from its first
/// waypoint through the positions of those between to its last waypoint. An
/// end that is a bare position counts as a pose of zero heading.
pub open spec fn trajectory_of(r: Seq<Option<Waypoint>>) -> TrajectoryView
    recommends
        waypoints(r).len() >= 2,
{
    TrajectoryView {
        start: waypoints(r)[0].spec_as_pose(),
        points: interior_positions(waypoints(r)),
        end: waypoints(r).last().spec_as_pose(),
    }
}

/// The waypoints that a trajectory stands for: a pose, bare positions, a pose.
pub open spec fn waypoints_of(t: TrajectoryView) -> Seq<Waypoint> {
    Seq::new(
        t.points.len() + 2,
        |k: int|
            if k == 0 {
                Waypoint::Pose(t.start)
            } else if k == t.points.len() + 1 {
                Waypoint::Pose(t.end)
            } else {
                Waypoint::Translation(t.points[k - 1])
            },
    )
}

/// The trajectory of a routine that obeys the path rule stands for exactly
/// the routine's waypoints: the split into start, interior and end loses
/// nothing and adds no heading.
pub proof fn lemma_trajectory_keeps_waypoints(r: Seq<Option<Waypoint>>)
    requires
        continuous(r),
        waypoints(r).len() >= 2,
    ensures
        waypoints_of(trajectory_of(r)) == waypoints(r),
{
    let w = waypoints(r);
    let back = waypoints_of(trajectory_of(r));
    assert(back.len() == w.len());
    assert forall|k: int| 0 <= k < w.len() implies back[k] == w[k] by {
        assert(w[k] is Pose <==> (k == 0 || k == w.len() - 1));
    }
    assert(back =~= w);
}

/// The waypoints of `routine` in order.
pub fn collect_waypoints(routine: &Vec<Option<Waypoint>>) -> (found: Vec<Waypoint>)
    ensures
        found@ == waypoints(routine@),
{
    let mut found: Vec<Waypoint> = Vec::new();
    let mut i: usize = 0;
    while i < routine.len()
        invariant
            i <= routine.len(),
            found@ == waypoints(routine@.take(i as int)),
        decreases routine.len() - i,
    {
        proof {
            assert(routine@.take(i + 1).drop_last() == routine@.take(i as int));
        }
        match routine[i] {
            Some(w) => {
                found.push(w);
            },
            None => {},
        }
        i += 1;
    }
    proof {
        assert(routine@.take(i as int) == routine@);
    }
    found
}

impl Trajectory {
    /// A trajectory that passes through no point between its ends.
    pub fn new(start: FieldPose, end: FieldPose) -> (t: Trajectory)
        ensures
            t@ == (TrajectoryView { start, points: Seq::empty(), end }),
    {
        Trajectory { start, points: Vec::new(), end }
    }

    /// Whether two trajectories ask for the same thing.
    pub fn same_as(&self, other: &Trajectory) -> (same: bool)
        ensures
            same == (self@ == other@),
    {
        if self.start != other.start || self.end != other.end {
            return false;
        }
        if self.points.len() != other.points.len() {
            return false;
        }
        let mut i: usize = 0;
        while i < self.points.len()
            invariant
                i <= self.points.len(),
                self.points.len() == other.points.len(),
                forall|j: int| 0 <= j < i ==> self.points@[j] == other.points@[j],
            decreases self.points.len() - i,
        {
            if self.points[i] != other.points[i] {
                return false;
            }
            i += 1;
        }
        proof {
            assert(self.points@ =~= other.points@);
        }
        true
    }
}

/// Whether routine `path_id` of the store has a trajectory: the store has
/// the routine, and the routine has a start and an end.
pub open spec fn has_trajectory(routines: Seq<Seq<Option<Waypoint>>>, path_id: usize) -> bool {
    path_id < routines.len() && waypoints(routines[path_id as int]).len() >= 2
}

/// The trajectory of routine `path_id`.
pub fn generate_trajectory(waypoints: &FieldWaypointList, path_id: usize) -> (t: Trajectory)
    requires
        has_trajectory(waypoints@, path_id),
    ensures
        t@ == trajectory_of(waypoints@[path_id as int]),
{
    let found: Vec<Waypoint> = collect_waypoints(&waypoints.0[path_id]);
    let n: usize = found.len();
    let mut points: Vec<FieldPosition> = Vec::new();
    let mut i: usize = 1;
    while i < n - 1
        invariant
            n == found.len(),
            n >= 2,
            1 <= i <= n - 1,
            points@.len() == i - 1,
            forall|k: int| 0 <= k < i - 1 ==> points@[k] == (#[trigger] found@[k + 1]).spec_position(),
        decreases n - i,
    {
        points.push(found[i].position());
        i += 1;
    }
    proof {
        assert(points@ =~= interior_positions(found@));
    }
    Trajectory { start: found[0].as_pose(), points, end: found[n - 1].as_pose() }
}

/// What became of a trajectory when it was brought up to date.
#[derive(Clone, Copy, Debug, PartialEq, Eq, Structural)]
pub enum TrajectoryChange {
    /// Its routine is gone: the trajectory is to be retired.
    Despawn,
    /// It still fits its routine, or the routine has no start and end to
    /// connect: the last polyline stays.
    Unchanged,
    /// The routine has changed: a new polyline is to be asked for.
    Regenerated,
}

/// Which change `trajectory_updater` reports for a trajectory `t` of
/// routine `id`.
pub open spec fn trajectory_change(t: TrajectoryView, id: TrajectoryID, routines: Seq<Seq<Option<Waypoint>>>) -> TrajectoryChange {
    if id.0 >= routines.len() {
        TrajectoryChange::Despawn
    } else if !has_trajectory(routines, id.0) || trajectory_of(routines[id.0 as int]) == t {
        TrajectoryChange::Unchanged
    } else {
        TrajectoryChange::Regenerated
    }
}

/// A trajectory that was just brought up to date is next found unchanged,
/// as long as the store stays as it is: a routine asks for a new polyline
/// once per change.
pub proof fn lemma_regenerated_once(t: TrajectoryView, id: TrajectoryID, routines: Seq<Seq<Option<Waypoint>>>)
    requires
        trajectory_change(t, id, routines) is Regenerated,
    ensures
        trajectory_change(trajectory_of(routines[id.0 as int]), id, routines) is Unchanged,
{
}

/// Brings the trajectory of routine `id` up to date with the store, and
/// says what changed. Only a regenerated trajectory differs from the old one.
pub fn trajectory_updater(trajectory: &mut Trajectory, id: TrajectoryID, waypoints: &FieldWaypointList) -> (change:
    TrajectoryChange)
    ensures
        change == trajectory_change(old(trajectory)@, id, waypoints@),
        change is Regenerated ==> final(trajectory)@ == trajectory_of(waypoints@[id.0 as int]),
        !(change is Regenerated) ==> final(trajectory)@ == old(trajectory)@,
{
    if waypoints.0.len() <= id.0 {
        return TrajectoryChange::Despawn;
    }
    let found: usize = crate::auto_pathing::waypoints::count_waypoints(&waypoints.0[id.0]);
    if found < 2 {
        return TrajectoryChange::Unchanged;
    }
    let current: Trajectory = generate_trajectory(waypoints, id.0);
    if current.same_as(trajectory) {
        return TrajectoryChange::Unchanged;
    }
    *trajectory = current;
    TrajectoryChange::Regenerated
}

/// The path drawn for a polyline: the pen is put down on the first element
/// and drawn to each of the others in turn.
pub open spec fn path_matches(path: Seq<ScreenVec>, points: Seq<FieldPosition>, field: Field, layout: Layout) -> bool {
    if points.len() == 0 {
        path == seq![ScreenVec { x: 0, y: 0 }]
    } else {
        &&& path.len() == points.len() + 1
        &&& (path[0].x as int, path[0].y as int) == field.spec_to_screen_vec(&layout, &points[0])
        &&& forall|k: int|
            0 <= k < points.len() ==> ((#[trigger] path[k + 1]).x as int, path[k + 1].y as int)
                == field.spec_to_screen_vec(&layout, &points[k])
    }
}

/// The path on screen for the polyline `points` that the trajectory service
/// sent: it starts on the first point and runs through every point, the
/// first included, in order. Without points the pen rests at the origin.
pub fn build_trajectory_path(points: &Vec<FieldPosition>, field: &Field, layout: &Layout) -> (path: Vec<ScreenVec>)
    requires
        field.well_formed(),
    ensures
        path_matches(path@, points@, *field, *layout),
{
    let mut path: Vec<ScreenVec> = Vec::new();
    if points.len() == 0 {
        path.push(ScreenVec { x: 0, y: 0 });
        proof {
            assert(path@ =~= seq![ScreenVec { x: 0, y: 0 }]);
        }
        return path;
    }
    path.push(field.to_screen_vec(layout, &points[0]));
    let mut i: usize = 0;
    while i < points.len()
        invariant
            i <= points.len(),
            points.len() > 0,
            field.well_formed(),
            path@.len() == i + 1,
            (path@[0].x as int, path@[0].y as int) == field.spec_to_screen_vec(layout, &points@[0]),
            forall|k: int|
                0 <= k < i ==> ((#[trigger] path@[k + 1]).x as int, path@[k + 1].y as int)
                    == field.spec_to_screen_vec(layout, &points@[k]),
        decreases points.len() - i,
    {
        path.push(field.to_screen_vec(layout, &points[i]));
        i += 1;
    }
    path
}

} // verus!
