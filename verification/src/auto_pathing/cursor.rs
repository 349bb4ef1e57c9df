//! The pointer interaction: which handle a press grabs, and what dragging a
//! grabbed handle does to the store.
//!
//! Every waypoint has a position handle, a circle around the waypoint. A pose
//! has a rotation anchor as well, a smaller circle that sits at a fixed
//! distance on screen from the waypoint, in the direction of its heading.

use vstd::prelude::*;
use crate::auto_pathing::continuity::{continuous, lemma_same_shape_same_rule, same_shape};
use crate::auto_pathing::waypoints::{
    active_routine, slot_at, with_slot, FieldWaypointID, FieldWaypointList, Waypoint,
};
use crate::field::{dist_squared, Field, FieldPose, FieldPosition, ScreenVec};
use crate::heading::HEADING_UNIT;
use crate::layout::{Layout, PixelVec};
use crate::math::{abs_i128, div_floor, div_toward_zero, div_trunc, magnitude};

verus! {

/// Radius of a waypoint's position handle, in pixels.
pub const WAYPOINT_RADIUS: i32 = 15;

/// Radius of a rotation anchor, in pixels.
pub const ROTATION_ANCHOR_POINT_RADIUS: i32 = 10;

/// Distance of a rotation anchor from its waypoint, in pixels.
pub const ROTATION_ANCHOR_REVOLUTION_RADIUS: i32 = 25;

/// What the pointer holds.
#[derive(Clone, Copy, Debug, PartialEq, Eq, Structural)]
pub enum CursorGrabOption {
    Position(FieldWaypointID),
    Rotation(FieldWaypointID),
    Nothing,
}

impl Default for CursorGrabOption {
    /// Nothing is held.
    fn default() -> (g: CursorGrabOption)
        ensures
            g == CursorGrabOption::Nothing,
    {
        CursorGrabOption::Nothing
    }
}

/// Where the pointer was last seen on the field, if it was on the field, and
/// what it holds.
#[derive(Clone, Copy, Debug, PartialEq, Eq, Structural)]
pub struct CursorState {
    pub pos: Option<FieldPosition>,
    pub grabbed: CursorGrabOption,
}

impl Default for CursorState {
    /// A pointer that has not been seen on the field and holds nothing.
    fn default() -> (s: CursorState)
        ensures
            s == (CursorState { pos: None, grabbed: CursorGrabOption::Nothing }),
    {
        CursorState { pos: None, grabbed: CursorGrabOption::Nothing }
    }
}

/// A button of the pointer.
#[derive(Clone, Copy, Debug, PartialEq, Eq, Structural)]
pub enum PointerButton {
    Primary,
    Other,
}

/// What happened to a button.
#[derive(Clone, Copy, Debug, PartialEq, Eq, Structural)]
pub enum ButtonState {
    Pressed,
    Released,
}

/// A press or a release of a pointer button.
#[derive(Clone, Copy, Debug, PartialEq, Eq, Structural)]
pub struct PointerButtonEvent {
    pub button: PointerButton,
    pub state: ButtonState,
}

/// Whether two field points lie at most `radius` pixels apart on a screen
/// that shows `field_w` micrometres on `layout_w` pixels.
pub open spec fn within_screen_radius(
    ax: int,
    ay: int,
    bx: int,
    by: int,
    radius: int,
    field_w: int,
    layout_w: int,
) -> bool {
    dist_squared(ax, ay, bx, by) * (layout_w * layout_w) <= (radius * radius) * (field_w * field_w)
}

/// Where the rotation anchor of `pose` lies on the field: off the pose's
/// position by the revolution radius along the heading, the radius taken
/// from pixels to micrometres by the scale of each axis, rounded toward the
/// pose.
pub open spec fn anchor_position(pose: FieldPose, field: Field, layout: Layout) -> (int, int) {
    (
        pose.translation.x + div_toward_zero(
            ROTATION_ANCHOR_REVOLUTION_RADIUS * field.size.x * pose.rotation.x,
            layout.field.size.x * HEADING_UNIT,
        ),
        pose.translation.y + div_toward_zero(
            ROTATION_ANCHOR_REVOLUTION_RADIUS * field.size.y * pose.rotation.y,
            layout.field.size.y * HEADING_UNIT,
        ),
    )
}

/// Whether the slot holds a pose whose rotation anchor is under the cursor.
pub open spec fn anchor_hit(slot: Option<Waypoint>, cursor: FieldPosition, field: Field, layout: Layout) -> bool {
    slot matches Some(Waypoint::Pose(pose)) && within_screen_radius(
        cursor.x as int,
        cursor.y as int,
        anchor_position(pose, field, layout).0,
        anchor_position(pose, field, layout).1,
        ROTATION_ANCHOR_POINT_RADIUS as int,
        field.size.x as int,
        layout.field.size.x as int,
    )
}

/// Whether the slot holds a waypoint whose position handle is under the cursor.
pub open spec fn position_hit(slot: Option<Waypoint>, cursor: FieldPosition, field: Field, layout: Layout) -> bool {
    slot matches Some(w) && within_screen_radius(
        cursor.x as int,
        cursor.y as int,
        w.spec_position().x as int,
        w.spec_position().y as int,
        WAYPOINT_RADIUS as int,
        field.size.x as int,
        layout.field.size.x as int,
    )
}

/// Index of the first slot of `r` whose rotation anchor is under the cursor,
/// or -1.
pub open spec fn first_anchor_hit(r: Seq<Option<Waypoint>>, cursor: FieldPosition, field: Field, layout: Layout) -> int
    decreases r.len(),
{
    if r.len() == 0 {
        -1
    } else {
        let earlier = first_anchor_hit(r.drop_last(), cursor, field, layout);
        if earlier >= 0 {
            earlier
        } else if anchor_hit(r.last(), cursor, field, layout) {
            r.len() - 1
        } else {
            -1
        }
    }
}

/// Index of the first slot of `r` whose position handle is under the cursor,
/// or -1.
pub open spec fn first_position_hit(r: Seq<Option<Waypoint>>, cursor: FieldPosition, field: Field, layout: Layout) -> int
    decreases r.len(),
{
    if r.len() == 0 {
        -1
    } else {
        let earlier = first_position_hit(r.drop_last(), cursor, field, layout);
        if earlier >= 0 {
            earlier
        } else if position_hit(r.last(), cursor, field, layout) {
            r.len() - 1
        } else {
            -1
        }
    }
}

/// What a press at `cursor` grabs in routine `r`, which is routine `path_id`
/// of the store: the first rotation anchor under the cursor, whatever
/// position handles lie under it as well; without such an anchor the first
/// position handle under the cursor; else nothing. While the field has no
/// area on screen, no handle can be grabbed.
pub open spec fn grab_target(
    r: Seq<Option<Waypoint>>,
    path_id: usize,
    cursor: FieldPosition,
    field: Field,
    layout: Layout,
) -> CursorGrabOption {
    if !layout.field.has_area() {
        CursorGrabOption::Nothing
    } else if first_anchor_hit(r, cursor, field, layout) >= 0 {
        CursorGrabOption::Rotation(
            FieldWaypointID { path_id, idx: first_anchor_hit(r, cursor, field, layout) as usize },
        )
    } else if first_position_hit(r, cursor, field, layout) >= 0 {
        CursorGrabOption::Position(
            FieldWaypointID { path_id, idx: first_position_hit(r, cursor, field, layout) as usize },
        )
    } else {
        CursorGrabOption::Nothing
    }
}

/// What `first_anchor_hit` finds: the lowest index with an anchor under the
/// cursor, or -1 where no slot has one.
pub proof fn lemma_first_anchor_hit(r: Seq<Option<Waypoint>>, cursor: FieldPosition, field: Field, layout: Layout)
    ensures
        -1 <= first_anchor_hit(r, cursor, field, layout) < r.len(),
        first_anchor_hit(r, cursor, field, layout) >= 0 ==> anchor_hit(
            r[first_anchor_hit(r, cursor, field, layout)],
            cursor,
            field,
            layout,
        ),
        forall|j: int|
            0 <= j < r.len() && (j < first_anchor_hit(r, cursor, field, layout) || first_anchor_hit(
                r,
                cursor,
                field,
                layout,
            ) < 0) ==> !anchor_hit(#[trigger] r[j], cursor, field, layout),
    decreases r.len(),
{
    if r.len() > 0 {
        let shorter = r.drop_last();
        lemma_first_anchor_hit(shorter, cursor, field, layout);
        assert forall|j: int|
            0 <= j < r.len() && (j < first_anchor_hit(r, cursor, field, layout) || first_anchor_hit(
                r,
                cursor,
                field,
                layout,
            ) < 0) implies !anchor_hit(#[trigger] r[j], cursor, field, layout) by {
            if j < r.len() - 1 {
                assert(shorter[j] == r[j]);
            }
        }
    }
}

/// What `first_position_hit` finds: the lowest index with a position handle
/// under the cursor, or -1 where no slot has one.
pub proof fn lemma_first_position_hit(r: Seq<Option<Waypoint>>, cursor: FieldPosition, field: Field, layout: Layout)
    ensures
        -1 <= first_position_hit(r, cursor, field, layout) < r.len(),
        first_position_hit(r, cursor, field, layout) >= 0 ==> position_hit(
            r[first_position_hit(r, cursor, field, layout)],
            cursor,
            field,
            layout,
        ),
        forall|j: int|
            0 <= j < r.len() && (j < first_position_hit(r, cursor, field, layout) || first_position_hit(
                r,
                cursor,
                field,
                layout,
            ) < 0) ==> !position_hit(#[trigger] r[j], cursor, field, layout),
    decreases r.len(),
{
    if r.len() > 0 {
        let shorter = r.drop_last();
        lemma_first_position_hit(shorter, cursor, field, layout);
        assert forall|j: int|
            0 <= j < r.len() && (j < first_position_hit(r, cursor, field, layout) || first_position_hit(
                r,
                cursor,
                field,
                layout,
            ) < 0) implies !position_hit(#[trigger] r[j], cursor, field, layout) by {
            if j < r.len() - 1 {
                assert(shorter[j] == r[j]);
            }
        }
    }
}

/// A rotation anchor under the cursor is grabbed before any position handle:
/// where the anchor of slot `a` is under the cursor, a press grabs the
/// rotation of `a` or of an earlier slot with an anchor under the cursor,
/// and never a position, wherever position handles lie.
pub proof fn lemma_anchor_takes_priority(
    r: Seq<Option<Waypoint>>,
    path_id: usize,
    cursor: FieldPosition,
    field: Field,
    layout: Layout,
    a: int,
)
    requires
        r.len() <= usize::MAX,
        layout.field.has_area(),
        0 <= a < r.len(),
        anchor_hit(r[a], cursor, field, layout),
    ensures
        grab_target(r, path_id, cursor, field, layout) matches CursorGrabOption::Rotation(id) && id.path_id
            == path_id && id.idx <= a && anchor_hit(r[id.idx as int], cursor, field, layout),
        (forall|j: int| 0 <= j < a ==> !anchor_hit(#[trigger] r[j], cursor, field, layout)) ==> grab_target(
            r,
            path_id,
            cursor,
            field,
            layout,
        ) == CursorGrabOption::Rotation(FieldWaypointID { path_id, idx: a as usize }),
{
    lemma_first_anchor_hit(r, cursor, field, layout);
}

/// A position handle is grabbed only where no rotation anchor of the routine
/// is under the cursor, and then it is the first one under the cursor.
pub proof fn lemma_position_grab(
    r: Seq<Option<Waypoint>>,
    path_id: usize,
    cursor: FieldPosition,
    field: Field,
    layout: Layout,
)
    requires
        r.len() <= usize::MAX,
    ensures
        grab_target(r, path_id, cursor, field, layout) matches CursorGrabOption::Position(id) ==> {
            &&& id.path_id == path_id
            &&& id.idx < r.len()
            &&& position_hit(r[id.idx as int], cursor, field, layout)
            &&& forall|j: int| 0 <= j < id.idx ==> !position_hit(#[trigger] r[j], cursor, field, layout)
            &&& forall|j: int| 0 <= j < r.len() ==> !anchor_hit(#[trigger] r[j], cursor, field, layout)
        },
        grab_target(r, path_id, cursor, field, layout) is Nothing && layout.field.has_area() ==> forall|j: int|
            0 <= j < r.len() ==> !anchor_hit(#[trigger] r[j], cursor, field, layout) && !position_hit(
                r[j],
                cursor,
                field,
                layout,
            ),
{
    lemma_first_anchor_hit(r, cursor, field, layout);
    lemma_first_position_hit(r, cursor, field, layout);
}

/// Bounds of the product and the quotient that place a rotation anchor.
proof fn lemma_anchor_offset_bounded(f: int, h: int, d: int)
    by (nonlinear_arith)
    requires
        -0x8000_0000 <= f < 0x8000_0000,
        -0x8000_0000 <= h < 0x8000_0000,
        d > 0,
    ensures
        -0x8_0000_0000_0000_0000 <= f * h <= 0x8_0000_0000_0000_0000,
        -0x8_0000_0000_0000_0000 <= 25 * f * h <= 0x8_0000_0000_0000_0000,
        -0x8_0000_0000_0000_0000 <= div_toward_zero(25 * f * h, d) <= 0x8_0000_0000_0000_0000,
{
}

/// Where the rotation anchor of `pose` lies on the field.
fn anchor_of(pose: &FieldPose, field: &Field, layout: &Layout) -> (a: (i128, i128))
    requires
        layout.field.has_area(),
    ensures
        (a.0 as int, a.1 as int) == anchor_position(*pose, *field, *layout),
        -0x10_0000_0000_0000_0000 <= a.0 <= 0x10_0000_0000_0000_0000,
        -0x10_0000_0000_0000_0000 <= a.1 <= 0x10_0000_0000_0000_0000,
{
    let unit: i128 = HEADING_UNIT as i128;
    let radius: i128 = ROTATION_ANCHOR_REVOLUTION_RADIUS as i128;
    let dx: i128 = layout.field.size.x as i128 * unit;
    let dy: i128 = layout.field.size.y as i128 * unit;
    proof {
        lemma_anchor_offset_bounded(field.size.x as int, pose.rotation.x as int, dx as int);
        lemma_anchor_offset_bounded(field.size.y as int, pose.rotation.y as int, dy as int);
    }
    let ox: i128 = div_trunc(radius * field.size.x as i128 * pose.rotation.x as i128, dx);
    let oy: i128 = div_trunc(radius * field.size.y as i128 * pose.rotation.y as i128, dy);
    (pose.translation.x as i128 + ox, pose.translation.y as i128 + oy)
}

/// The products that `shows_within` compares, from their factors.
proof fn lemma_screen_distance(dx: int, dy: int, l: int, r: int, f: int, a: int, b: int, t: int)
    by (nonlinear_arith)
    requires
        a == magnitude(dx) * l,
        b == magnitude(dy) * l,
        t == r * magnitude(f),
        l > 0,
        r >= 0,
    ensures
        a >= 0,
        b >= 0,
        t >= 0,
        a * a + b * b == (dx * dx + dy * dy) * (l * l),
        t * t == (r * r) * (f * f),
        a > t ==> a * a > t * t,
        b > t ==> b * b > t * t,
        a <= t ==> a * a <= t * t,
        b <= t ==> b * b <= t * t,
{
}

/// Bounds of the products that `shows_within` computes.
proof fn lemma_screen_distance_bounded(d: int, l: int, r: int, f: int)
    by (nonlinear_arith)
    requires
        0 <= d <= 0x40_0000_0000_0000_0000,
        0 < l < 0x8000_0000,
        0 <= r <= 1024,
        0 <= f <= 0x8000_0000,
    ensures
        0 <= d * l <= 0x40_0000_0000_0000_0000 * 0x8000_0000,
        0 <= r * f <= 1024 * 0x8000_0000,
        forall|t: int| 0 <= t <= r * f ==> 0 <= #[trigger] (t * t) <= (1024 * 0x8000_0000) * (1024 * 0x8000_0000),
{
    assert forall|t: int| 0 <= t <= r * f implies 0 <= #[trigger] (t * t) <= (1024 * 0x8000_0000) * (1024
        * 0x8000_0000) by {
        assert(t <= 1024 * 0x8000_0000);
        assert(t * t <= (1024 * 0x8000_0000) * (1024 * 0x8000_0000));
    }
}

/// Whether the field points `a` and `b` lie at most `radius` pixels apart on
/// screen.
fn shows_within(ax: i128, ay: i128, bx: i128, by: i128, radius: i32, field: &Field, layout: &Layout) -> (hit:
    bool)
    requires
        layout.field.size.x > 0,
        0 <= radius <= 1024,
        -0x10_0000_0000_0000_0000 <= ax <= 0x10_0000_0000_0000_0000,
        -0x10_0000_0000_0000_0000 <= ay <= 0x10_0000_0000_0000_0000,
        -0x10_0000_0000_0000_0000 <= bx <= 0x10_0000_0000_0000_0000,
        -0x10_0000_0000_0000_0000 <= by <= 0x10_0000_0000_0000_0000,
    ensures
        hit == within_screen_radius(
            ax as int,
            ay as int,
            bx as int,
            by as int,
            radius as int,
            field.size.x as int,
            layout.field.size.x as int,
        ),
{
    let dx: u128 = abs_i128(ax - bx);
    let dy: u128 = abs_i128(ay - by);
    let l: u128 = layout.field.size.x as u128;
    let f: u128 = abs_i128(field.size.x as i128);
    proof {
        lemma_screen_distance_bounded(dx as int, l as int, radius as int, f as int);
        lemma_screen_distance_bounded(dy as int, l as int, radius as int, f as int);
        lemma_screen_distance(
            ax - bx,
            ay - by,
            l as int,
            radius as int,
            field.size.x as int,
            dx * l,
            dy * l,
            radius * f,
        );
    }
    let a: u128 = dx * l;
    let b: u128 = dy * l;
    let t: u128 = radius as u128 * f;
    if a > t || b > t {
        return false;
    }
    proof {
        assert(0 <= a * a <= (1024 * 0x8000_0000) * (1024 * 0x8000_0000));
        assert(0 <= b * b <= (1024 * 0x8000_0000) * (1024 * 0x8000_0000));
        assert(0 <= t * t <= (1024 * 0x8000_0000) * (1024 * 0x8000_0000));
    }
    a * a + b * b <= t * t
}

/// Whether the rotation anchor of `pose` is under the cursor.
fn anchor_under(pose: &FieldPose, cursor: FieldPosition, field: &Field, layout: &Layout) -> (hit: bool)
    requires
        layout.field.has_area(),
    ensures
        hit == anchor_hit(Some(Waypoint::Pose(*pose)), cursor, *field, *layout),
{
    let anchor: (i128, i128) = anchor_of(pose, field, layout);
    shows_within(
        cursor.x as i128,
        cursor.y as i128,
        anchor.0,
        anchor.1,
        ROTATION_ANCHOR_POINT_RADIUS,
        field,
        layout,
    )
}

/// Whether the position handle of `waypoint` is under the cursor.
fn position_under(waypoint: &Waypoint, cursor: FieldPosition, field: &Field, layout: &Layout) -> (hit: bool)
    requires
        layout.field.has_area(),
    ensures
        hit == position_hit(Some(*waypoint), cursor, *field, *layout),
{
    let at: FieldPosition = waypoint.position();
    shows_within(cursor.x as i128, cursor.y as i128, at.x as i128, at.y as i128, WAYPOINT_RADIUS, field, layout)
}

/// What a press at `cursor` grabs: a handle of the active routine, a
/// rotation anchor before any position handle.
pub fn hit_test(waypoints: &FieldWaypointList, cursor: FieldPosition, field: &Field, layout: &Layout) -> (g:
    CursorGrabOption)
    ensures
        g == grab_target(active_routine(waypoints@, waypoints.1), waypoints.1, cursor, *field, *layout),
{
    let path_id: usize = waypoints.1;
    if !layout.field.is_usable() {
        return CursorGrabOption::Nothing;
    }
    if path_id >= waypoints.0.len() {
        return CursorGrabOption::Nothing;
    }
    let routine: &Vec<Option<Waypoint>> = &waypoints.0[path_id];
    // First pass: the rotation anchors of the whole routine.
    let mut i: usize = 0;
    while i < routine.len()
        invariant
            i <= routine.len(),
            layout.field.has_area(),
            path_id == waypoints.1,
            routine@ == active_routine(waypoints@, waypoints.1),
            forall|j: int| 0 <= j < i ==> !anchor_hit(#[trigger] routine@[j], cursor, *field, *layout),
        decreases routine.len() - i,
    {
        match routine[i] {
            Some(Waypoint::Pose(pose)) => {
                if anchor_under(&pose, cursor, field, layout) {
                    proof {
                        lemma_first_anchor_hit(routine@, cursor, *field, *layout);
                    }
                    return CursorGrabOption::Rotation(FieldWaypointID { path_id, idx: i });
                }
            },
            _ => {},
        }
        i += 1;
    }
    proof {
        lemma_first_anchor_hit(routine@, cursor, *field, *layout);
    }
    // Second pass, only where no anchor was hit: the position handles.
    let mut k: usize = 0;
    while k < routine.len()
        invariant
            k <= routine.len(),
            layout.field.has_area(),
            path_id == waypoints.1,
            routine@ == active_routine(waypoints@, waypoints.1),
            first_anchor_hit(routine@, cursor, *field, *layout) < 0,
            forall|j: int| 0 <= j < k ==> !position_hit(#[trigger] routine@[j], cursor, *field, *layout),
        decreases routine.len() - k,
    {
        match routine[k] {
            Some(w) => {
                if position_under(&w, cursor, field, layout) {
                    proof {
                        lemma_first_position_hit(routine@, cursor, *field, *layout);
                    }
                    return CursorGrabOption::Position(FieldWaypointID { path_id, idx: k });
                }
            },
            None => {},
        }
        k += 1;
    }
    proof {
        lemma_first_position_hit(routine@, cursor, *field, *layout);
    }
    CursorGrabOption::Nothing
}

/// The editor as the pointer sees it: the cursor, the routines and the index
/// of the active routine.
pub struct EditorState {
    pub cursor: CursorState,
    pub routines: Seq<Seq<Option<Waypoint>>>,
    pub active: usize,
}

/// The state that a cursor and a store make up.
pub open spec fn editor_state(cursor: CursorState, waypoints: FieldWaypointList) -> EditorState {
    EditorState { cursor, routines: waypoints@, active: waypoints.1 }
}

/// The pointer's position in screen coordinates: window coordinates count
/// from the window's lower left corner, screen coordinates from its centre.
pub open spec fn centered(layout: Layout, position: PixelVec) -> ScreenVec {
    ScreenVec {
        x: (position.x - layout.screen_size.x / 2) as i64,
        y: (position.y - layout.screen_size.y / 2) as i64,
    }
}

/// The routines after the grabbed handle was dragged to `cursor`. A grabbed
/// position moves its waypoint there, which keeps its kind and its heading.
/// A grabbed rotation turns its pose to face the cursor. A handle whose slot
/// is gone or empty, and a rotation whose slot holds no pose, drag nothing.
pub open spec fn dragged(
    routines: Seq<Seq<Option<Waypoint>>>,
    grabbed: CursorGrabOption,
    cursor: FieldPosition,
) -> Seq<Seq<Option<Waypoint>>> {
    match grabbed {
        CursorGrabOption::Position(id) => match slot_at(routines, id) {
            Some(w) => with_slot(routines, id, w.spec_moved_to(cursor)),
            None => routines,
        },
        CursorGrabOption::Rotation(id) => match slot_at(routines, id) {
            Some(w) => with_slot(routines, id, w.spec_turned_toward(cursor)),
            None => routines,
        },
        CursorGrabOption::Nothing => routines,
    }
}

/// The state after the pointer moved to the window position `position`:
/// the cursor is where the pointer is on the field, or nowhere if it is off
/// the field, and a pointer on the field drags what it holds.
pub open spec fn after_cursor_moved(s: EditorState, field: Field, layout: Layout, position: PixelVec) -> EditorState {
    let pos = field.spec_to_field_position(&layout, centered(layout, position));
    EditorState {
        cursor: CursorState { pos, grabbed: s.cursor.grabbed },
        routines: match pos {
            Some(cursor) => dragged(s.routines, s.cursor.grabbed, cursor),
            None => s.routines,
        },
        active: s.active,
    }
}

/// The state after a button event. Releasing the primary button lets go of
/// whatever is held. Pressing it with nothing held and the cursor on the
/// field grabs what `grab_target` finds in the active routine. Other buttons
/// do nothing.
pub open spec fn after_button(s: EditorState, field: Field, layout: Layout, event: PointerButtonEvent) -> EditorState {
    if event.button != PointerButton::Primary {
        s
    } else {
        match event.state {
            ButtonState::Released => EditorState {
                cursor: CursorState { pos: s.cursor.pos, grabbed: CursorGrabOption::Nothing },
                ..s
            },
            ButtonState::Pressed => if s.cursor.grabbed is Nothing && s.cursor.pos is Some {
                EditorState {
                    cursor: CursorState {
                        pos: s.cursor.pos,
                        grabbed: grab_target(
                            active_routine(s.routines, s.active),
                            s.active,
                            s.cursor.pos->Some_0,
                            field,
                            layout,
                        ),
                    },
                    ..s
                }
            } else {
                s
            },
        }
    }
}

/// The state after a batch of pointer moves, in the order received.
pub open spec fn after_moves(s: EditorState, field: Field, layout: Layout, moves: Seq<PixelVec>) -> EditorState
    decreases moves.len(),
{
    if moves.len() == 0 {
        s
    } else {
        after_cursor_moved(after_moves(s, field, layout, moves.drop_last()), field, layout, moves.last())
    }
}

/// The state after a batch of button events, in the order received.
pub open spec fn after_buttons(s: EditorState, field: Field, layout: Layout, events: Seq<PointerButtonEvent>) -> EditorState
    decreases events.len(),
{
    if events.len() == 0 {
        s
    } else {
        after_button(after_buttons(s, field, layout, events.drop_last()), field, layout, events.last())
    }
}

/// Takes one pointer move: records where the cursor is on the field and
/// drags what the pointer holds.
pub fn cursor_moved(
    position: PixelVec,
    cursor_state: &mut CursorState,
    layout: &Layout,
    field: &Field,
    waypoints: &mut FieldWaypointList,
)
    ensures
        editor_state(*final(cursor_state), *final(waypoints)) == after_cursor_moved(
            editor_state(*old(cursor_state), *old(waypoints)),
            *field,
            *layout,
            position,
        ),
        final(waypoints)@.len() == old(waypoints)@.len(),
        final(waypoints).1 == old(waypoints).1,
        old(waypoints).well_formed() ==> final(waypoints).well_formed(),
{
    let half_w: i128 = div_floor(layout.screen_size.x as i128, 2);
    let half_h: i128 = div_floor(layout.screen_size.y as i128, 2);
    let on_screen: ScreenVec = ScreenVec {
        x: (position.x as i128 - half_w) as i64,
        y: (position.y as i128 - half_h) as i64,
    };
    assert(on_screen == centered(*layout, position));
    cursor_state.pos = field.to_field_position(layout, on_screen);
    let new_cursor_pos: FieldPosition = match cursor_state.pos {
        Some(p) => p,
        None => {
            return ;
        },
    };
    match cursor_state.grabbed {
        CursorGrabOption::Position(id) => {
            match waypoints.slot(id) {
                Some(w) => {
                    waypoints.set_slot(id, w.moved_to(new_cursor_pos));
                },
                None => {},
            }
        },
        CursorGrabOption::Rotation(id) => {
            match waypoints.slot(id) {
                Some(w) => {
                    waypoints.set_slot(id, w.turned_toward(new_cursor_pos));
                },
                None => {},
            }
        },
        CursorGrabOption::Nothing => {},
    }
}

/// Takes one button event: a press may grab a handle, a release lets go.
pub fn button_changed(
    event: PointerButtonEvent,
    cursor_state: &mut CursorState,
    layout: &Layout,
    field: &Field,
    waypoints: &FieldWaypointList,
)
    ensures
        editor_state(*final(cursor_state), *waypoints) == after_button(
            editor_state(*old(cursor_state), *waypoints),
            *field,
            *layout,
            event,
        ),
{
    match event.button {
        PointerButton::Primary => {
            match event.state {
                ButtonState::Pressed => {
                    match cursor_state.grabbed {
                        CursorGrabOption::Nothing => {
                            match cursor_state.pos {
                                Some(mouse_pos) => {
                                    cursor_state.grabbed = hit_test(waypoints, mouse_pos, field, layout);
                                },
                                None => {},
                            }
                        },
                        _ => {},
                    }
                },
                ButtonState::Released => {
                    cursor_state.grabbed = CursorGrabOption::Nothing;
                },
            }
        },
        PointerButton::Other => {},
    }
}

/// Takes the pointer input of one frame: first the moves, then the button
/// events, each batch in the order received.
pub fn waypoint_grab_system(
    mouse_button_input_events: &Vec<PointerButtonEvent>,
    cursor_moved_events: &Vec<PixelVec>,
    cursor_state: &mut CursorState,
    layout: &Layout,
    field: &Field,
    waypoints: &mut FieldWaypointList,
)
    ensures
        editor_state(*final(cursor_state), *final(waypoints)) == after_buttons(
            after_moves(
                editor_state(*old(cursor_state), *old(waypoints)),
                *field,
                *layout,
                cursor_moved_events@,
            ),
            *field,
            *layout,
            mouse_button_input_events@,
        ),
        final(waypoints)@.len() == old(waypoints)@.len(),
        final(waypoints).1 == old(waypoints).1,
        old(waypoints).well_formed() ==> final(waypoints).well_formed(),
{
    let ghost start = editor_state(*cursor_state, *waypoints);
    let mut i: usize = 0;
    while i < cursor_moved_events.len()
        invariant
            i <= cursor_moved_events.len(),
            editor_state(*cursor_state, *waypoints) == after_moves(
                start,
                *field,
                *layout,
                cursor_moved_events@.take(i as int),
            ),
            waypoints@.len() == old(waypoints)@.len(),
            waypoints.1 == old(waypoints).1,
            old(waypoints).well_formed() ==> waypoints.well_formed(),
        decreases cursor_moved_events.len() - i,
    {
        proof {
            assert(cursor_moved_events@.take(i + 1).drop_last() == cursor_moved_events@.take(i as int));
        }
        cursor_moved(cursor_moved_events[i], cursor_state, layout, field, waypoints);
        i += 1;
    }
    proof {
        assert(cursor_moved_events@.take(i as int) == cursor_moved_events@);
    }
    let ghost moved = editor_state(*cursor_state, *waypoints);
    let mut k: usize = 0;
    while k < mouse_button_input_events.len()
        invariant
            k <= mouse_button_input_events.len(),
            editor_state(*cursor_state, *waypoints) == after_buttons(
                moved,
                *field,
                *layout,
                mouse_button_input_events@.take(k as int),
            ),
        decreases mouse_button_input_events.len() - k,
    {
        proof {
            assert(mouse_button_input_events@.take(k + 1).drop_last() == mouse_button_input_events@.take(
                k as int,
            ));
        }
        button_changed(mouse_button_input_events[k], cursor_state, layout, field, waypoints);
        k += 1;
    }
    proof {
        assert(mouse_button_input_events@.take(k as int) == mouse_button_input_events@);
    }
}

/// Dragging changes neither the number of routines, nor which slots hold a
/// waypoint, nor the kind of any waypoint: a routine that obeys the path rule
/// obeys it after any drag.
pub proof fn lemma_drag_keeps_continuity(
    routines: Seq<Seq<Option<Waypoint>>>,
    grabbed: CursorGrabOption,
    cursor: FieldPosition,
    k: int,
)
    requires
        0 <= k < routines.len(),
    ensures
        dragged(routines, grabbed, cursor).len() == routines.len(),
        same_shape(routines[k], dragged(routines, grabbed, cursor)[k]),
        continuous(dragged(routines, grabbed, cursor)[k]) == continuous(routines[k]),
{
    lemma_same_shape_same_rule(routines[k], dragged(routines, grabbed, cursor)[k]);
}

/// While nothing is held, moving the pointer changes no routine; and
/// whatever is held, a release of the primary button lets go of it and
/// changes no routine.
pub proof fn lemma_idle_pointer_changes_nothing(s: EditorState, field: Field, layout: Layout, position: PixelVec)
    ensures
        s.cursor.grabbed is Nothing ==> after_cursor_moved(s, field, layout, position).routines == s.routines,
        after_button(
            s,
            field,
            layout,
            PointerButtonEvent { button: PointerButton::Primary, state: ButtonState::Released },
        ).cursor.grabbed is Nothing,
        after_button(
            s,
            field,
            layout,
            PointerButtonEvent { button: PointerButton::Primary, state: ButtonState::Released },
        ).routines == s.routines,
{
}

/// No button event changes a routine, and no pointer input changes which
/// routine is active.
pub proof fn lemma_buttons_change_no_routine(
    s: EditorState,
    field: Field,
    layout: Layout,
    event: PointerButtonEvent,
    position: PixelVec,
)
    ensures
        after_button(s, field, layout, event).routines == s.routines,
        after_button(s, field, layout, event).active == s.active,
        after_cursor_moved(s, field, layout, position).active == s.active,
{
}

/// A press grabs only what is there: a grabbed rotation names a slot of the
/// active routine that holds a pose, a grabbed position one that holds a
/// waypoint.
pub proof fn lemma_grab_names_a_waypoint(
    routines: Seq<Seq<Option<Waypoint>>>,
    active: usize,
    cursor: FieldPosition,
    field: Field,
    layout: Layout,
)
    requires
        active_routine(routines, active).len() <= usize::MAX,
    ensures
        match grab_target(active_routine(routines, active), active, cursor, field, layout) {
            CursorGrabOption::Rotation(id) => id.path_id == active && slot_at(routines, id) is Some && slot_at(
                routines,
                id,
            )->Some_0 is Pose,
            CursorGrabOption::Position(id) => id.path_id == active && slot_at(routines, id) is Some,
            CursorGrabOption::Nothing => true,
        },
{
    lemma_first_anchor_hit(active_routine(routines, active), cursor, field, layout);
    lemma_first_position_hit(active_routine(routines, active), cursor, field, layout);
}

/// A drag changes at most the slot of the handle that is held: every other
/// slot holds what it held.
pub proof fn lemma_drag_changes_one_slot(
    routines: Seq<Seq<Option<Waypoint>>>,
    grabbed: CursorGrabOption,
    cursor: FieldPosition,
    other: FieldWaypointID,
)
    requires
        match grabbed {
            CursorGrabOption::Position(id) => id != other,
            CursorGrabOption::Rotation(id) => id != other,
            CursorGrabOption::Nothing => true,
        },
    ensures
        slot_at(dragged(routines, grabbed, cursor), other) == slot_at(routines, other),
{
}

/// What a drag does to the slot that is held: a held position moves the
/// waypoint to the cursor and keeps its kind and heading; a held rotation
/// keeps the position and, on a pose, turns the heading toward the cursor.
pub proof fn lemma_drag_of_the_held_slot(
    routines: Seq<Seq<Option<Waypoint>>>,
    id: FieldWaypointID,
    cursor: FieldPosition,
)
    ensures
        slot_at(routines, id) matches Some(w) ==> {
            &&& slot_at(dragged(routines, CursorGrabOption::Position(id), cursor), id) == Some(
                w.spec_moved_to(cursor),
            )
            &&& w.spec_moved_to(cursor).spec_position() == cursor
            &&& (w is Pose <==> w.spec_moved_to(cursor) is Pose)
            &&& w.spec_moved_to(cursor).spec_as_pose().rotation == w.spec_as_pose().rotation
            &&& slot_at(dragged(routines, CursorGrabOption::Rotation(id), cursor), id) == Some(
                w.spec_turned_toward(cursor),
            )
            &&& w.spec_turned_toward(cursor).spec_position() == w.spec_position()
        },
        slot_at(routines, id) is None ==> dragged(routines, CursorGrabOption::Position(id), cursor) == routines
            && dragged(routines, CursorGrabOption::Rotation(id), cursor) == routines,
{
}

} // verus!
