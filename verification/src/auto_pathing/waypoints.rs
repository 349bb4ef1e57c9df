//! The waypoint store: routines of waypoint slots, the active routine, and
//! the operations that edit them. An operation that changes the number of
//! waypoints of a routine takes the heading from the waypoint that stops
//! being the routine's end, or gives one to the waypoint that becomes it.

use vstd::prelude::*;
use crate::auto_pathing::cursor::CursorState;
use crate::field::{FieldPose, FieldPosition};
use crate::heading::Heading;

verus! {

/// Where the routines that the editor starts with begin, in micrometres.
pub const STARTUP_START_X: i32 = 1_000_000;

/// See `STARTUP_START_X`.
pub const STARTUP_START_Y: i32 = 1_000_000;

/// Where the routines that the editor starts with end, in micrometres.
pub const STARTUP_END_X: i32 = 6_000_000;

/// See `STARTUP_END_X`.
pub const STARTUP_END_Y: i32 = 1_000_000;

/// Where the second waypoint of a new routine lies, in micrometres.
pub const SEED_END_X: i32 = 2_000_000;

/// See `SEED_END_X`.
pub const SEED_END_Y: i32 = 1_000_000;

/// A point of a routine: a bare position, or a position with a heading.
#[derive(Clone, Copy, Debug, PartialEq, Eq, Structural)]
pub enum Waypoint {
    Translation(FieldPosition),
    Pose(FieldPose),
}

/// Names a slot of the store by position: routine `path_id`, slot `idx`. An id
/// stays valid only as long as the store still has that slot.
#[derive(Clone, Copy, Debug, PartialEq, Eq, Structural)]
pub struct FieldWaypointID {
    pub path_id: usize,
    pub idx: usize,
}

/// The routines, each a list of slots that hold a waypoint or are empty, and
/// the index of the active routine.
#[derive(Clone, Debug)]
pub struct FieldWaypointList(pub Vec<Vec<Option<Waypoint>>>, pub usize);

impl View for FieldWaypointList {
    type V = Seq<Seq<Option<Waypoint>>>;

    /// The routines as sequences of slots.
    open spec fn view(&self) -> Seq<Seq<Option<Waypoint>>> {
        Seq::new(self.0@.len(), |i: int| self.0@[i]@)
    }
}

impl Waypoint {
    /// Where the waypoint lies.
    pub open spec fn spec_position(self) -> FieldPosition {
        match self {
            Waypoint::Translation(t) => t,
            Waypoint::Pose(p) => p.translation,
        }
    }

    /// The waypoint as a pose: a bare position gets the zero heading.
    pub open spec fn spec_as_pose(self) -> FieldPose {
        match self {
            Waypoint::Translation(t) => FieldPose { translation: t, rotation: Heading::spec_zero() },
            Waypoint::Pose(p) => p,
        }
    }

    /// The waypoint without its heading.
    pub open spec fn spec_demoted(self) -> Waypoint {
        Waypoint::Translation(self.spec_position())
    }

    /// The waypoint with a heading: its own, or the zero heading.
    pub open spec fn spec_promoted(self) -> Waypoint {
        Waypoint::Pose(self.spec_as_pose())
    }

    /// The same kind of waypoint at another position.
    pub open spec fn spec_moved_to(self, pos: FieldPosition) -> Waypoint {
        match self {
            Waypoint::Translation(_) => Waypoint::Translation(pos),
            Waypoint::Pose(p) => Waypoint::Pose(FieldPose { translation: pos, rotation: p.rotation }),
        }
    }

    /// A pose turned to face `target`; a bare position has no heading to turn.
    pub open spec fn spec_turned_toward(self, target: FieldPosition) -> Waypoint {
        match self {
            Waypoint::Translation(_) => self,
            Waypoint::Pose(p) => Waypoint::Pose(
                FieldPose { translation: p.translation, rotation: Heading::spec_toward(p.translation, target) },
            ),
        }
    }

    /// Where the waypoint lies.
    pub fn position(&self) -> (p: FieldPosition)
        ensures
            p == self.spec_position(),
    {
        match self {
            Waypoint::Translation(t) => *t,
            Waypoint::Pose(p) => p.translation,
        }
    }

    /// The waypoint as a pose: a bare position gets the zero heading.
    pub fn as_pose(&self) -> (p: FieldPose)
        ensures
            p == self.spec_as_pose(),
    {
        match self {
            Waypoint::Translation(t) => FieldPose { translation: *t, rotation: Heading::zero() },
            Waypoint::Pose(p) => *p,
        }
    }

    /// The waypoint without its heading.
    pub fn demoted(&self) -> (w: Waypoint)
        ensures
            w == self.spec_demoted(),
    {
        Waypoint::Translation(self.position())
    }

    /// The waypoint with a heading: its own, or the zero heading.
    pub fn promoted(&self) -> (w: Waypoint)
        ensures
            w == self.spec_promoted(),
    {
        Waypoint::Pose(self.as_pose())
    }

    /// A pose turned to face `target`; a bare position stays as it is.
    pub fn turned_toward(&self, target: FieldPosition) -> (w: Waypoint)
        ensures
            w == self.spec_turned_toward(target),
    {
        match self {
            Waypoint::Translation(t) => Waypoint::Translation(*t),
            Waypoint::Pose(p) => Waypoint::Pose(
                FieldPose { translation: p.translation, rotation: Heading::toward(&p.translation, &target) },
            ),
        }
    }

    /// The same kind of waypoint at another position.
    pub fn moved_to(&self, pos: FieldPosition) -> (w: Waypoint)
        ensures
            w == self.spec_moved_to(pos),
    {
        match self {
            Waypoint::Translation(_) => Waypoint::Translation(pos),
            Waypoint::Pose(p) => Waypoint::Pose(FieldPose { translation: pos, rotation: p.rotation }),
        }
    }
}

/// Index of the last slot that holds a waypoint, or -1 where none does.
pub open spec fn last_waypoint_index(r: Seq<Option<Waypoint>>) -> int
    decreases r.len(),
{
    if r.len() == 0 {
        -1
    } else if r.last() is Some {
        r.len() - 1
    } else {
        last_waypoint_index(r.drop_last())
    }
}

/// The waypoints of a routine in order: what its slots hold, empty slots
/// left out.
pub open spec fn waypoints(r: Seq<Option<Waypoint>>) -> Seq<Waypoint>
    decreases r.len(),
{
    if r.len() == 0 {
        Seq::empty()
    } else {
        match r.last() {
            Some(w) => waypoints(r.drop_last()).push(w),
            None => waypoints(r.drop_last()),
        }
    }
}

/// The routine with its last waypoint stripped of its heading.
pub open spec fn demote_last(r: Seq<Option<Waypoint>>) -> Seq<Option<Waypoint>> {
    let l = last_waypoint_index(r);
    if l >= 0 {
        r.update(l, Some(r[l]->Some_0.spec_demoted()))
    } else {
        r
    }
}

/// The routine with its last waypoint given a heading.
pub open spec fn promote_last(r: Seq<Option<Waypoint>>) -> Seq<Option<Waypoint>> {
    let l = last_waypoint_index(r);
    if l >= 0 {
        r.update(l, Some(r[l]->Some_0.spec_promoted()))
    } else {
        r
    }
}

/// The routine after a waypoint was added: the former end loses its heading,
/// and the new waypoint takes a new slot behind all others.
pub open spec fn with_waypoint_added(r: Seq<Option<Waypoint>>, w: Waypoint) -> Seq<Option<Waypoint>> {
    demote_last(r).push(Some(w))
}

/// The routine after its last waypoint was removed: it must keep a start and
/// an end, so a routine of two waypoints or fewer stays as it is. Otherwise
/// the slots from the last waypoint on are dropped, and the waypoint that is
/// then last becomes a pose.
pub open spec fn with_last_waypoint_removed(r: Seq<Option<Waypoint>>) -> Seq<Option<Waypoint>> {
    if waypoints(r).len() <= 2 {
        r
    } else {
        promote_last(r.take(last_waypoint_index(r)))
    }
}

/// The routines, with routines without slots added behind them until there
/// is a routine `k`.
pub open spec fn padded_to(routines: Seq<Seq<Option<Waypoint>>>, k: int) -> Seq<Seq<Option<Waypoint>>> {
    Seq::new(
        if k < routines.len() {
            routines.len()
        } else {
            (k + 1) as nat
        },
        |i: int|
            if i < routines.len() {
                routines[i]
            } else {
                Seq::empty()
            },
    )
}

/// Whether a routine can be added to `routines`: it starts where the last
/// routine ends, so there must be one, and it must hold a waypoint.
pub open spec fn can_continue(routines: Seq<Seq<Option<Waypoint>>>) -> bool {
    routines.len() > 0 && waypoints(routines.last()).len() > 0
}

/// The routine that `add_routine` makes: a pose at `start`, and a pose at the
/// fixed place where every new routine ends.
pub open spec fn seeded_routine(start: FieldPosition) -> Seq<Option<Waypoint>> {
    seq![
        Some(Waypoint::Pose(FieldPose { translation: start, rotation: Heading::spec_zero() })),
        Some(
            Waypoint::Pose(
                FieldPose {
                    translation: FieldPosition { x: SEED_END_X, y: SEED_END_Y },
                    rotation: Heading::spec_zero(),
                },
            ),
        ),
    ]
}

/// A routine that the editor starts with: two poses of zero heading.
pub open spec fn startup_routine() -> Seq<Option<Waypoint>> {
    seq![
        Some(
            Waypoint::Pose(
                FieldPose {
                    translation: FieldPosition { x: STARTUP_START_X, y: STARTUP_START_Y },
                    rotation: Heading::spec_zero(),
                },
            ),
        ),
        Some(
            Waypoint::Pose(
                FieldPose {
                    translation: FieldPosition { x: STARTUP_END_X, y: STARTUP_END_Y },
                    rotation: Heading::spec_zero(),
                },
            ),
        ),
    ]
}

/// What the slot `id` holds; nothing where the store has no such slot.
pub open spec fn slot_at(routines: Seq<Seq<Option<Waypoint>>>, id: FieldWaypointID) -> Option<Waypoint> {
    if id.path_id < routines.len() && id.idx < routines[id.path_id as int].len() {
        routines[id.path_id as int][id.idx as int]
    } else {
        None
    }
}

/// The routines with `w` in the slot `id`.
pub open spec fn with_slot(routines: Seq<Seq<Option<Waypoint>>>, id: FieldWaypointID, w: Waypoint) -> Seq<
    Seq<Option<Waypoint>>,
>
    recommends
        id.path_id < routines.len(),
        id.idx < routines[id.path_id as int].len(),
{
    routines.update(id.path_id as int, routines[id.path_id as int].update(id.idx as int, Some(w)))
}

/// The routine that pointer input acts on: the active one, or a routine
/// without slots where the active index names none.
pub open spec fn active_routine(routines: Seq<Seq<Option<Waypoint>>>, active: usize) -> Seq<Option<Waypoint>> {
    if active < routines.len() {
        routines[active as int]
    } else {
        Seq::empty()
    }
}

/// Which way `cycle_active_routine` steps.
#[derive(Clone, Copy, Debug, PartialEq, Eq, Structural)]
pub enum CycleDirection {
    Next,
    Previous,
}

/// The active index after one step among `count` routines, wrapping at both
/// ends; unchanged where there is no routine. An index beyond the routines
/// steps forward to the first routine and back to the last.
pub open spec fn cycled(active: int, count: int, direction: CycleDirection) -> int {
    if count <= 0 {
        active
    } else {
        match direction {
            CycleDirection::Next => if active + 1 >= count {
                0
            } else {
                active + 1
            },
            CycleDirection::Previous => if active == 0 || active >= count {
                count - 1
            } else {
                active - 1
            },
        }
    }
}

/// Index of the last slot of `routine` that holds a waypoint.
pub fn last_populated(routine: &Vec<Option<Waypoint>>) -> (l: Option<usize>)
    ensures
        match l {
            Some(i) => i == last_waypoint_index(routine@) && i < routine.len() && routine@[i as int] is Some,
            None => last_waypoint_index(routine@) == -1,
        },
{
    let mut i: usize = routine.len();
    while i > 0
        invariant
            i <= routine.len(),
            forall|j: int| i <= j < routine.len() ==> (#[trigger] routine@[j]) is None,
        decreases i,
    {
        i -= 1;
        if routine[i].is_some() {
            proof {
                lemma_last_waypoint_index_is(routine@, i as int);
            }
            return Some(i);
        }
    }
    proof {
        lemma_last_waypoint_index(routine@);
    }
    None
}

/// How many waypoints `routine` holds.
pub fn count_waypoints(routine: &Vec<Option<Waypoint>>) -> (n: usize)
    ensures
        n == waypoints(routine@).len(),
{
    let mut n: usize = 0;
    let mut i: usize = 0;
    while i < routine.len()
        invariant
            i <= routine.len(),
            n <= i,
            n == waypoints(routine@.take(i as int)).len(),
        decreases routine.len() - i,
    {
        proof {
            assert(routine@.take(i + 1).drop_last() == routine@.take(i as int));
        }
        if routine[i].is_some() {
            n += 1;
        }
        i += 1;
    }
    proof {
        assert(routine@.take(i as int) == routine@);
    }
    n
}

/// Whether `id` names a slot of the active routine.
pub fn is_active(id: FieldWaypointID, list: &FieldWaypointList) -> (b: bool)
    ensures
        b == (id.path_id == list.1),
{
    id.path_id == list.1
}

/// Stores `waypoint` as it is in a new slot at the end of routine
/// `routine_number`. Routines without slots are added as needed for the store
/// to have that routine. Returns the id of the new slot.
pub fn spawn_waypoint(waypoint: Waypoint, list: &mut FieldWaypointList, routine_number: usize) -> (id:
    FieldWaypointID)
    ensures
        final(list)@ == padded_to(old(list)@, routine_number as int).update(
            routine_number as int,
            padded_to(old(list)@, routine_number as int)[routine_number as int].push(Some(waypoint)),
        ),
        final(list).1 == old(list).1,
        id.path_id == routine_number,
        id.idx == padded_to(old(list)@, routine_number as int)[routine_number as int].len(),
        slot_at(final(list)@, id) == Some(waypoint),
        old(list).well_formed() ==> final(list).well_formed(),
{
    list.ensure_routine(routine_number);
    let idx: usize = list.0[routine_number].len();
    list.0[routine_number].push(Some(waypoint));
    proof {
        assert(list@ =~= padded_to(old(list)@, routine_number as int).update(
            routine_number as int,
            padded_to(old(list)@, routine_number as int)[routine_number as int].push(Some(waypoint)),
        ));
    }
    FieldWaypointID { path_id: routine_number, idx }
}

impl Default for FieldWaypointList {
    /// A store without routines.
    fn default() -> (list: FieldWaypointList)
        ensures
            list@.len() == 0,
            list.1 == 0,
            list.well_formed(),
    {
        FieldWaypointList(Vec::new(), 0)
    }
}

impl FieldWaypointList {
    /// The active index names a routine, or is zero where there is none.
    pub open spec fn well_formed(&self) -> bool {
        self.1 < self.0.len() || (self.0.len() == 0 && self.1 == 0)
    }

    /// Whether the active index names a routine, or is zero where there is
    /// none.
    pub fn is_well_formed(&self) -> (b: bool)
        ensures
            b == self.well_formed(),
    {
        self.1 < self.0.len() || (self.0.len() == 0 && self.1 == 0)
    }

    /// Whether a routine can be added to this store.
    pub open spec fn can_add_routine(&self) -> bool {
        can_continue(self@)
    }

    /// A store without routines.
    pub fn new() -> (list: FieldWaypointList)
        ensures
            list@.len() == 0,
            list.1 == 0,
            list.well_formed(),
    {
        FieldWaypointList(Vec::new(), 0)
    }

    /// What the slot `id` holds; nothing where the store has no such slot or
    /// the slot is empty.
    pub fn slot(&self, id: FieldWaypointID) -> (w: Option<Waypoint>)
        ensures
            w == slot_at(self@, id),
    {
        if id.path_id < self.0.len() && id.idx < self.0[id.path_id].len() {
            self.0[id.path_id][id.idx]
        } else {
            None
        }
    }

    /// Puts `waypoint` in the slot `id` in place of what it holds.
    pub fn set_slot(&mut self, id: FieldWaypointID, waypoint: Waypoint)
        requires
            id.path_id < old(self)@.len(),
            id.idx < old(self)@[id.path_id as int].len(),
        ensures
            final(self)@ == with_slot(old(self)@, id, waypoint),
            final(self).1 == old(self).1,
            final(self)@.len() == old(self)@.len(),
            old(self).well_formed() ==> final(self).well_formed(),
    {
        self.0[id.path_id][id.idx] = Some(waypoint);
        proof {
            assert(self@ =~= with_slot(old(self)@, id, waypoint));
        }
    }

    /// Adds routines without slots until there is a routine `k`.
    fn ensure_routine(&mut self, k: usize)
        ensures
            final(self)@ == padded_to(old(self)@, k as int),
            final(self).1 == old(self).1,
            k < final(self).0.len(),
            old(self).well_formed() ==> final(self).well_formed(),
    {
        while self.0.len() <= k
            invariant
                self.1 == old(self).1,
                old(self).0.len() <= self.0.len(),
                self.0.len() <= k + 1 || self.0.len() == old(self).0.len(),
                old(self).well_formed() ==> self.well_formed(),
                forall|i: int| 0 <= i < old(self).0.len() ==> self.0@[i] == old(self).0@[i],
                forall|i: int| old(self).0.len() <= i < self.0.len() ==> (#[trigger] self.0@[i])@.len() == 0,
            decreases k + 1 - self.0.len(),
        {
            self.0.push(Vec::new());
        }
        proof {
            assert forall|i: int| 0 <= i < self@.len() implies self@[i] == padded_to(old(self)@, k as int)[i] by {
                if i >= old(self).0.len() {
                    assert(self.0@[i]@ =~= Seq::empty());
                }
            }
            assert(self@ =~= padded_to(old(self)@, k as int));
        }
    }

    /// Adds a waypoint to routine `routine_index`; the routine is made where
    /// the store does not have it yet. The routine's former end loses its
    /// heading; the new waypoint is stored as it is. Returns the id of the new
    /// slot.
    pub fn add_waypoint(&mut self, waypoint: Waypoint, routine_index: usize) -> (id: FieldWaypointID)
        ensures
            final(self)@ == padded_to(old(self)@, routine_index as int).update(
                routine_index as int,
                with_waypoint_added(padded_to(old(self)@, routine_index as int)[routine_index as int], waypoint),
            ),
            final(self).1 == old(self).1,
            id.path_id == routine_index,
            id.idx == padded_to(old(self)@, routine_index as int)[routine_index as int].len(),
            slot_at(final(self)@, id) == Some(waypoint),
            old(self).well_formed() ==> final(self).well_formed(),
    {
        self.ensure_routine(routine_index);
        let ghost before = self.0@[routine_index as int]@;
        match last_populated(&self.0[routine_index]) {
            Some(l) => {
                let end: Option<Waypoint> = self.0[routine_index][l];
                match end {
                    Some(w) => {
                        self.0[routine_index][l] = Some(w.demoted());
                    },
                    None => {},
                }
            },
            None => {},
        }
        let idx: usize = self.0[routine_index].len();
        self.0[routine_index].push(Some(waypoint));
        proof {
            assert(self.0@[routine_index as int]@ == with_waypoint_added(before, waypoint));
            assert(self@ =~= padded_to(old(self)@, routine_index as int).update(
                routine_index as int,
                with_waypoint_added(padded_to(old(self)@, routine_index as int)[routine_index as int], waypoint),
            ));
        }
        FieldWaypointID { path_id: routine_index, idx }
    }

    /// Removes the last waypoint of routine `routine_index`, unless the
    /// routine has two waypoints or fewer: then nothing changes. The waypoint
    /// that becomes the last is made a pose. Says whether a waypoint was
    /// removed.
    pub fn remove_last_waypoint(&mut self, routine_index: usize) -> (removed: bool)
        requires
            routine_index < old(self).0.len(),
        ensures
            removed == (waypoints(old(self)@[routine_index as int]).len() > 2),
            final(self)@ == old(self)@.update(
                routine_index as int,
                with_last_waypoint_removed(old(self)@[routine_index as int]),
            ),
            !removed ==> final(self)@ == old(self)@,
            final(self).1 == old(self).1,
            old(self).well_formed() ==> final(self).well_formed(),
    {
        let ghost before = self.0@[routine_index as int]@;
        if count_waypoints(&self.0[routine_index]) <= 2 {
            proof {
                assert(self@ =~= old(self)@.update(routine_index as int, with_last_waypoint_removed(before)));
                assert(self@ =~= old(self)@);
            }
            return false;
        }
        proof {
            lemma_last_waypoint_index(before);
            lemma_waypoints_take_last(before);
        }
        match last_populated(&self.0[routine_index]) {
            Some(l) => {
                self.0[routine_index].truncate(l);
            },
            None => {},
        }
        proof {
            assert(self.0@[routine_index as int]@ == before.take(last_waypoint_index(before)));
            lemma_last_waypoint_index(before.take(last_waypoint_index(before)));
        }
        match last_populated(&self.0[routine_index]) {
            Some(l) => {
                let end: Option<Waypoint> = self.0[routine_index][l];
                match end {
                    Some(w) => {
                        self.0[routine_index][l] = Some(w.promoted());
                    },
                    None => {},
                }
            },
            None => {},
        }
        proof {
            assert(self.0@[routine_index as int]@ == with_last_waypoint_removed(before));
            assert(self@ =~= old(self)@.update(routine_index as int, with_last_waypoint_removed(before)));
        }
        true
    }

    /// Whether a routine can be added.
    pub fn has_routine_to_continue(&self) -> (b: bool)
        ensures
            b == self.can_add_routine(),
    {
        let n: usize = self.0.len();
        if n == 0 {
            return false;
        }
        proof {
            lemma_last_waypoint_index(self@.last());
        }
        last_populated(&self.0[n - 1]).is_some()
    }

    /// Adds a routine of two poses, the first where the last routine ends,
    /// and makes it the active routine. Returns its index.
    pub fn add_routine(&mut self) -> (path_idx: usize)
        requires
            old(self).can_add_routine(),
        ensures
            path_idx == old(self)@.len(),
            final(self)@ == old(self)@.push(
                seeded_routine(waypoints(old(self)@.last()).last().spec_position()),
            ),
            final(self).1 == path_idx,
            final(self).well_formed(),
    {
        let path_idx: usize = self.0.len();
        proof {
            lemma_last_waypoint_index(self@.last());
            lemma_waypoints_split_last(self@.last());
        }
        let start_pos: FieldPosition = match last_populated(&self.0[path_idx - 1]) {
            Some(l) => match self.0[path_idx - 1][l] {
                Some(w) => w.position(),
                None => FieldPosition { x: 0, y: 0 },
            },
            None => FieldPosition { x: 0, y: 0 },
        };
        let mut routine: Vec<Option<Waypoint>> = Vec::new();
        routine.push(Some(Waypoint::Pose(FieldPose { translation: start_pos, rotation: Heading::zero() })));
        routine.push(
            Some(
                Waypoint::Pose(
                    FieldPose {
                        translation: FieldPosition { x: SEED_END_X, y: SEED_END_Y },
                        rotation: Heading::zero(),
                    },
                ),
            ),
        );
        proof {
            assert(routine@ =~= seeded_routine(start_pos));
        }
        self.0.push(routine);
        self.1 = path_idx;
        proof {
            assert(self@ =~= old(self)@.push(seeded_routine(start_pos)));
        }
        path_idx
    }

    /// Makes the next or the previous routine the active one, wrapping at
    /// both ends. Without routines nothing changes.
    pub fn cycle_active_routine(&mut self, direction: CycleDirection)
        ensures
            final(self).1 == cycled(old(self).1 as int, old(self)@.len() as int, direction),
            final(self).0 == old(self).0,
            old(self)@.len() > 0 ==> final(self).1 < final(self)@.len(),
            old(self).well_formed() ==> final(self).well_formed(),
    {
        let count: usize = self.0.len();
        if count == 0 {
            return ;
        }
        match direction {
            CycleDirection::Next => {
                if self.1 >= count - 1 {
                    self.1 = 0;
                } else {
                    self.1 += 1;
                }
            },
            CycleDirection::Previous => {
                if self.1 == 0 || self.1 >= count {
                    self.1 = count - 1;
                } else {
                    self.1 -= 1;
                }
            },
        }
    }
}

/// What the editor starts with: the store, the cursor, and the slots that
/// need markers.
#[derive(Clone, Debug)]
pub struct Startup {
    pub list: FieldWaypointList,
    pub cursor: CursorState,
    pub spawned: Vec<FieldWaypointID>,
}

/// Sets the editor up: two routines of two poses each, the first of them
/// active, and a cursor that holds nothing.
pub fn setup() -> (startup: Startup)
    ensures
        startup.list@ == seq![startup_routine(), startup_routine()],
        startup.list.1 == 0,
        startup.list.well_formed(),
        startup.cursor == (CursorState { pos: None, grabbed: crate::auto_pathing::cursor::CursorGrabOption::Nothing }),
        startup.spawned@ == seq![
            FieldWaypointID { path_id: 0, idx: 0 },
            FieldWaypointID { path_id: 0, idx: 1 },
            FieldWaypointID { path_id: 1, idx: 0 },
            FieldWaypointID { path_id: 1, idx: 1 },
        ],
{
    let mut list: FieldWaypointList = FieldWaypointList::new();
    let wp1: Waypoint = Waypoint::Pose(
        FieldPose {
            translation: FieldPosition { x: STARTUP_START_X, y: STARTUP_START_Y },
            rotation: Heading::zero(),
        },
    );
    let wp4: Waypoint = Waypoint::Pose(
        FieldPose { translation: FieldPosition { x: STARTUP_END_X, y: STARTUP_END_Y }, rotation: Heading::zero() },
    );
    let mut spawned: Vec<FieldWaypointID> = Vec::new();
    let a: FieldWaypointID = spawn_waypoint(wp1, &mut list, 0);
    spawned.push(a);
    let b: FieldWaypointID = spawn_waypoint(wp4, &mut list, 0);
    spawned.push(b);
    let c: FieldWaypointID = spawn_waypoint(wp1, &mut list, 1);
    spawned.push(c);
    let d: FieldWaypointID = spawn_waypoint(wp4, &mut list, 1);
    spawned.push(d);
    proof {
        assert(list@.len() == 2);
        assert(list@[0] =~= startup_routine());
        assert(list@[1] =~= startup_routine());
        assert(list@ =~= seq![startup_routine(), startup_routine()]);
    }
    Startup { list, cursor: CursorState::default(), spawned }
}

/// What `last_waypoint_index` finds: a slot with a waypoint and only empty
/// slots behind it, or no waypoint at all.
pub proof fn lemma_last_waypoint_index(r: Seq<Option<Waypoint>>)
    ensures
        -1 <= last_waypoint_index(r) < r.len(),
        last_waypoint_index(r) >= 0 ==> r[last_waypoint_index(r)] is Some,
        forall|j: int| last_waypoint_index(r) < j < r.len() ==> (#[trigger] r[j]) is None,
        last_waypoint_index(r) >= 0 <==> waypoints(r).len() > 0,
    decreases r.len(),
{
    if r.len() > 0 {
        lemma_last_waypoint_index(r.drop_last());
        if r.last() is None {
            assert forall|j: int| last_waypoint_index(r) < j < r.len() implies (#[trigger] r[j]) is None by {
                if j < r.len() - 1 {
                    assert(r.drop_last()[j] is None);
                }
            }
        }
    }
}

/// A slot with a waypoint and only empty slots behind it is the one that
/// `last_waypoint_index` finds.
pub proof fn lemma_last_waypoint_index_is(r: Seq<Option<Waypoint>>, l: int)
    requires
        0 <= l < r.len(),
        r[l] is Some,
        forall|j: int| l < j < r.len() ==> (#[trigger] r[j]) is None,
    ensures
        last_waypoint_index(r) == l,
    decreases r.len(),
{
    if l < r.len() - 1 {
        assert(r[r.len() - 1] is None);
        let shorter = r.drop_last();
        assert forall|j: int| l < j < shorter.len() implies (#[trigger] shorter[j]) is None by {
            assert(r[j] is None);
        }
        lemma_last_waypoint_index_is(shorter, l);
    }
}

/// Empty slots at the end add no waypoint: the waypoints of a routine are
/// those before its last waypoint, and that one.
pub proof fn lemma_waypoints_split_last(r: Seq<Option<Waypoint>>)
    requires
        last_waypoint_index(r) >= 0,
    ensures
        waypoints(r) == waypoints(r.take(last_waypoint_index(r))).push(r[last_waypoint_index(r)]->Some_0),
    decreases r.len(),
{
    let l = last_waypoint_index(r);
    if r.last() is Some {
        assert(r.take(l) == r.drop_last());
    } else {
        lemma_waypoints_split_last(r.drop_last());
        lemma_last_waypoint_index(r.drop_last());
        assert(r.drop_last().take(l) == r.take(l));
    }
}

/// Replacing the last waypoint replaces the last element of `waypoints`.
pub proof fn lemma_waypoints_update_last(r: Seq<Option<Waypoint>>, w: Waypoint)
    requires
        last_waypoint_index(r) >= 0,
    ensures
        last_waypoint_index(r.update(last_waypoint_index(r), Some(w))) == last_waypoint_index(r),
        waypoints(r.update(last_waypoint_index(r), Some(w))) == waypoints(r).update(
            waypoints(r).len() - 1,
            w,
        ),
        waypoints(r).last() == r[last_waypoint_index(r)]->Some_0,
{
    let l = last_waypoint_index(r);
    let updated = r.update(l, Some(w));
    lemma_last_waypoint_index(r);
    lemma_last_waypoint_index_is(updated, l);
    lemma_waypoints_split_last(r);
    lemma_waypoints_split_last(updated);
    assert(updated.take(l) == r.take(l));
    assert(waypoints(r.take(l)).push(w) == waypoints(r).update(waypoints(r).len() - 1, w));
}

/// Dropping the slots from the last waypoint on drops the last element of
/// `waypoints`.
pub proof fn lemma_waypoints_take_last(r: Seq<Option<Waypoint>>)
    requires
        last_waypoint_index(r) >= 0,
    ensures
        waypoints(r.take(last_waypoint_index(r))) == waypoints(r).drop_last(),
{
    lemma_waypoints_split_last(r);
    let w = waypoints(r.take(last_waypoint_index(r)));
    assert(w.push(r[last_waypoint_index(r)]->Some_0).drop_last() == w);
}

/// Where every slot holds a waypoint, the routine has as many waypoints as
/// slots.
pub proof fn lemma_waypoints_of_full_routine(r: Seq<Option<Waypoint>>)
    requires
        forall|i: int| 0 <= i < r.len() ==> (#[trigger] r[i]) is Some,
    ensures
        waypoints(r).len() == r.len(),
        forall|i: int| 0 <= i < r.len() ==> (#[trigger] waypoints(r)[i]) == r[i]->Some_0,
    decreases r.len(),
{
    if r.len() > 0 {
        let shorter = r.drop_last();
        assert forall|i: int| 0 <= i < shorter.len() implies (#[trigger] shorter[i]) is Some by {
            assert(r[i] is Some);
        }
        lemma_waypoints_of_full_routine(shorter);
        assert(r[r.len() - 1] is Some);
        assert forall|i: int| 0 <= i < r.len() implies (#[trigger] waypoints(r)[i]) == r[i]->Some_0 by {
            if i < r.len() - 1 {
                assert(waypoints(shorter)[i] == shorter[i]->Some_0);
            }
        }
    }
}

/// What adding a waypoint does to the waypoints of a routine.
pub proof fn lemma_waypoints_added(r: Seq<Option<Waypoint>>, w: Waypoint)
    ensures
        waypoints(r).len() == 0 ==> waypoints(with_waypoint_added(r, w)) == waypoints(r).push(w),
        waypoints(r).len() > 0 ==> waypoints(with_waypoint_added(r, w)) == waypoints(r).update(
            waypoints(r).len() - 1,
            waypoints(r).last().spec_demoted(),
        ).push(w),
{
    lemma_last_waypoint_index(r);
    let demoted = demote_last(r);
    assert(demoted.push(Some(w)).drop_last() == demoted);
    if last_waypoint_index(r) >= 0 {
        lemma_waypoints_update_last(r, r[last_waypoint_index(r)]->Some_0.spec_demoted());
    }
}

/// What removing the last waypoint does to the waypoints of a routine.
pub proof fn lemma_waypoints_removed(r: Seq<Option<Waypoint>>)
    ensures
        waypoints(r).len() <= 2 ==> with_last_waypoint_removed(r) == r,
        waypoints(r).len() > 2 ==> waypoints(with_last_waypoint_removed(r)) == waypoints(
            r,
        ).drop_last().update(
            waypoints(r).len() - 2,
            waypoints(r)[waypoints(r).len() - 2].spec_promoted(),
        ),
{
    if waypoints(r).len() > 2 {
        lemma_last_waypoint_index(r);
        lemma_waypoints_take_last(r);
        let shorter = r.take(last_waypoint_index(r));
        lemma_last_waypoint_index(shorter);
        lemma_waypoints_update_last(shorter, shorter[last_waypoint_index(shorter)]->Some_0.spec_promoted());
    }
}

/// Adding to a routine without slots gives a routine whose one slot holds
/// exactly the waypoint that was passed in.
pub proof fn lemma_add_to_empty(w: Waypoint)
    ensures
        with_waypoint_added(Seq::empty(), w) == seq![Some(w)],
        waypoints(with_waypoint_added(Seq::empty(), w)) == seq![w],
{
    let r = Seq::<Option<Waypoint>>::empty();
    assert(with_waypoint_added(r, w) == seq![Some(w)]);
    lemma_waypoints_added(r, w);
}

/// Removing the last waypoint of a routine of exactly two changes nothing,
/// however often it is tried.
pub proof fn lemma_remove_at_two_changes_nothing(r: Seq<Option<Waypoint>>)
    requires
        waypoints(r).len() == 2,
    ensures
        with_last_waypoint_removed(r) == r,
        with_last_waypoint_removed(with_last_waypoint_removed(r)) == r,
{
}

/// Where every slot holds a waypoint, removing the last waypoint drops
/// exactly the last slot and promotes the slot before it.
pub proof fn lemma_remove_in_full_routine(r: Seq<Option<Waypoint>>)
    requires
        r.len() > 2,
        forall|i: int| 0 <= i < r.len() ==> (#[trigger] r[i]) is Some,
    ensures
        with_last_waypoint_removed(r) == r.drop_last().update(
            r.len() - 2,
            Some(r[r.len() - 2]->Some_0.spec_promoted()),
        ),
{
    lemma_waypoints_of_full_routine(r);
    lemma_last_waypoint_index_is(r, r.len() - 1);
    assert(r.take(r.len() - 1) == r.drop_last());
    lemma_last_waypoint_index_is(r.drop_last(), r.len() - 2);
}

/// Stepping forward from the last routine gives the first, and stepping
/// back from the first gives the last.
pub proof fn lemma_cycle_wraps(count: int)
    requires
        count > 0,
    ensures
        cycled(count - 1, count, CycleDirection::Next) == 0,
        cycled(0, count, CycleDirection::Previous) == count - 1,
{
}

/// A step forward and a step back, in either order, give the index that was
/// active, and every step gives the index of a routine.
pub proof fn lemma_cycle_inverse(active: int, count: int)
    requires
        0 <= active < count,
    ensures
        cycled(cycled(active, count, CycleDirection::Next), count, CycleDirection::Previous) == active,
        cycled(cycled(active, count, CycleDirection::Previous), count, CycleDirection::Next) == active,
        0 <= cycled(active, count, CycleDirection::Next) < count,
        0 <= cycled(active, count, CycleDirection::Previous) < count,
{
}

} // verus!
