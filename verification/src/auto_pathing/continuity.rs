//! The path rule: of the waypoints of a routine, the first and the last are
//! poses and the ones between them are bare positions. The rule is what lets
//! a routine be split into a start, positions to pass through and an end
//! without looking at any waypoint's kind.

use vstd::prelude::*;
use crate::auto_pathing::waypoints::{
    lemma_waypoints_added, lemma_waypoints_of_full_routine, lemma_waypoints_removed, startup_routine,
    waypoints, with_last_waypoint_removed, with_waypoint_added, Waypoint,
};

verus! {

/// The path rule on a sequence of waypoints: the first and the last are
/// poses, and no other is.
pub open spec fn ends_are_poses(w: Seq<Waypoint>) -> bool {
    forall|k: int| 0 <= k < w.len() ==> ((#[trigger] w[k]) is Pose <==> (k == 0 || k == w.len() - 1))
}

/// The path rule on a routine: among its waypoints, the first and the last
/// are poses and the ones between them are bare positions.
pub open spec fn continuous(r: Seq<Option<Waypoint>>) -> bool {
    ends_are_poses(waypoints(r))
}

/// Adding a pose keeps the path rule, unless the routine has exactly one
/// waypoint: that one is the start as well as the end, and loses its heading.
pub proof fn lemma_add_keeps_continuity(r: Seq<Option<Waypoint>>, w: Waypoint)
    requires
        continuous(r),
        waypoints(r).len() != 1,
        w is Pose,
    ensures
        continuous(with_waypoint_added(r, w)),
        waypoints(with_waypoint_added(r, w)).len() == waypoints(r).len() + 1,
{
    lemma_waypoints_added(r, w);
}

/// Removing the last waypoint keeps the path rule, and leaves at least two
/// waypoints where there were at least two.
pub proof fn lemma_remove_keeps_continuity(r: Seq<Option<Waypoint>>)
    requires
        continuous(r),
    ensures
        continuous(with_last_waypoint_removed(r)),
        waypoints(r).len() > 2 ==> waypoints(with_last_waypoint_removed(r)).len() == waypoints(r).len() - 1,
        waypoints(r).len() <= 2 ==> with_last_waypoint_removed(r) == r,
{
    lemma_waypoints_removed(r);
}

/// One edit of a routine.
pub enum RoutineEdit {
    Add(Waypoint),
    RemoveLast,
}

/// The routine after a series of edits, applied in order.
pub open spec fn after_edits(r: Seq<Option<Waypoint>>, edits: Seq<RoutineEdit>) -> Seq<Option<Waypoint>>
    decreases edits.len(),
{
    if edits.len() == 0 {
        r
    } else {
        let before = after_edits(r, edits.drop_last());
        match edits.last() {
            RoutineEdit::Add(w) => with_waypoint_added(before, w),
            RoutineEdit::RemoveLast => with_last_waypoint_removed(before),
        }
    }
}

/// A routine with a start and an end that obeys the path rule still has
/// both and still obeys the rule after any series of edits that add poses
/// and remove the last waypoint.
pub proof fn lemma_edits_keep_continuity(r: Seq<Option<Waypoint>>, edits: Seq<RoutineEdit>)
    requires
        continuous(r),
        waypoints(r).len() >= 2,
        forall|k: int| 0 <= k < edits.len() ==> ((#[trigger] edits[k]) matches RoutineEdit::Add(w) ==> w is Pose),
    ensures
        continuous(after_edits(r, edits)),
        waypoints(after_edits(r, edits)).len() >= 2,
    decreases edits.len(),
{
    if edits.len() > 0 {
        let earlier = edits.drop_last();
        assert forall|k: int| 0 <= k < earlier.len() implies ((#[trigger] earlier[k]) matches RoutineEdit::Add(w)
            ==> w is Pose) by {
            assert(earlier[k] == edits[k]);
        }
        lemma_edits_keep_continuity(r, earlier);
        let before = after_edits(r, earlier);
        match edits.last() {
            RoutineEdit::Add(w) => {
                assert(edits[edits.len() - 1] matches RoutineEdit::Add(w) ==> w is Pose);
                lemma_add_keeps_continuity(before, w);
            },
            RoutineEdit::RemoveLast => {
                lemma_remove_keeps_continuity(before);
            },
        }
    }
}

/// The routines that the editor starts with obey the path rule.
pub proof fn lemma_startup_is_continuous()
    ensures
        continuous(startup_routine()),
        waypoints(startup_routine()).len() == 2,
{
    lemma_waypoints_of_full_routine(startup_routine());
}

/// Two routines hold waypoints in the same slots, and waypoints of the same
/// kind in each.
pub open spec fn same_shape(a: Seq<Option<Waypoint>>, b: Seq<Option<Waypoint>>) -> bool {
    &&& a.len() == b.len()
    &&& forall|i: int|
        0 <= i < a.len() ==> ((#[trigger] a[i]) is Some <==> (#[trigger] b[i]) is Some) && (a[i] is Some ==> (
        a[i]->Some_0 is Pose <==> b[i]->Some_0 is Pose))
}

/// Routines of the same shape have as many waypoints, of the same kinds in
/// the same order, so both obey the path rule or neither does.
pub proof fn lemma_same_shape_same_rule(a: Seq<Option<Waypoint>>, b: Seq<Option<Waypoint>>)
    requires
        same_shape(a, b),
    ensures
        waypoints(a).len() == waypoints(b).len(),
        forall|k: int|
            0 <= k < waypoints(a).len() ==> ((#[trigger] waypoints(a)[k]) is Pose <==> (#[trigger] waypoints(
                b,
            )[k]) is Pose),
        continuous(a) == continuous(b),
    decreases a.len(),
{
    if a.len() > 0 {
        let shorter_a = a.drop_last();
        let shorter_b = b.drop_last();
        assert forall|i: int| 0 <= i < shorter_a.len() implies ((#[trigger] shorter_a[i]) is Some <==> (
        #[trigger] shorter_b[i]) is Some) && (shorter_a[i] is Some ==> (shorter_a[i]->Some_0 is Pose
            <==> shorter_b[i]->Some_0 is Pose)) by {
            assert(a[i] == shorter_a[i]);
            assert(b[i] == shorter_b[i]);
        }
        lemma_same_shape_same_rule(shorter_a, shorter_b);
        assert(a[a.len() - 1] is Some <==> b[a.len() - 1] is Some);
    }
    let wa = waypoints(a);
    let wb = waypoints(b);
    if ends_are_poses(wa) {
        assert forall|k: int| 0 <= k < wb.len() implies ((#[trigger] wb[k]) is Pose <==> (k == 0 || k == wb.len()
            - 1)) by {
            assert(wa[k] is Pose <==> wb[k] is Pose);
        }
    }
    if ends_are_poses(wb) {
        assert forall|k: int| 0 <= k < wa.len() implies ((#[trigger] wa[k]) is Pose <==> (k == 0 || k == wa.len()
            - 1)) by {
            assert(wa[k] is Pose <==> wb[k] is Pose);
        }
    }
}

} // verus!
