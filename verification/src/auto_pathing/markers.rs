//! The markers drawn for waypoints and rotation anchors. A marker knows its
//! slot only by id, so each frame it is checked against the store: a marker
//! whose slot is gone is retired, one that has nothing to show is hidden.

use vstd::prelude::*;
use crate::auto_pathing::cursor::{anchor_position, ROTATION_ANCHOR_REVOLUTION_RADIUS};
use crate::auto_pathing::waypoints::{
    last_waypoint_index, lemma_last_waypoint_index, waypoints, with_last_waypoint_removed, FieldWaypointID,
    FieldWaypointList, Waypoint,
};
use crate::field::{Field, FieldPose, ScreenPose, ScreenVec};
use crate::heading::{Heading, HEADING_UNIT};
use crate::layout::Layout;
use crate::math::{div_toward_zero, div_trunc};

verus! {

/// What is to be done with a marker.
#[derive(Clone, Copy, Debug, PartialEq, Eq, Structural)]
pub enum MarkerUpdate {
    /// The store has no such slot any more: retire the marker.
    Despawn,
    /// The slot is empty, or not in the active routine, or has no such
    /// handle: keep the marker out of sight.
    Hide,
    /// Show the marker here.
    Show(ScreenPose),
}

/// Whether the store still has the slot `id`.
pub open spec fn slot_exists(routines: Seq<Seq<Option<Waypoint>>>, id: FieldWaypointID) -> bool {
    id.path_id < routines.len() && id.idx < routines[id.path_id as int].len()
}

/// Where `pose` shows on screen, as a pose.
pub open spec fn screen_pose(pose: FieldPose, field: Field, layout: Layout) -> ScreenPose {
    ScreenPose {
        translation: ScreenVec {
            x: field.spec_to_screen_vec(&layout, &pose.translation).0 as i64,
            y: field.spec_to_screen_vec(&layout, &pose.translation).1 as i64,
        },
        rotation: pose.rotation,
    }
}

/// Where the rotation anchor of `pose` shows on screen: off the pose by the
/// revolution radius along its heading, each coordinate rounded toward the
/// pose. The anchor itself is drawn unrotated.
pub open spec fn anchor_screen_pose(pose: FieldPose, field: Field, layout: Layout) -> ScreenPose {
    ScreenPose {
        translation: ScreenVec {
            x: (field.spec_to_screen_vec(&layout, &pose.translation).0 + div_toward_zero(
                ROTATION_ANCHOR_REVOLUTION_RADIUS * pose.rotation.x,
                HEADING_UNIT as int,
            )) as i64,
            y: (field.spec_to_screen_vec(&layout, &pose.translation).1 + div_toward_zero(
                ROTATION_ANCHOR_REVOLUTION_RADIUS * pose.rotation.y,
                HEADING_UNIT as int,
            )) as i64,
        },
        rotation: Heading::spec_zero(),
    }
}

/// What is to be done with the marker of the waypoint in slot `id`.
pub open spec fn waypoint_marker(
    id: FieldWaypointID,
    routines: Seq<Seq<Option<Waypoint>>>,
    active: usize,
    field: Field,
    layout: Layout,
) -> MarkerUpdate {
    if !slot_exists(routines, id) {
        MarkerUpdate::Despawn
    } else if id.path_id != active {
        MarkerUpdate::Hide
    } else {
        match routines[id.path_id as int][id.idx as int] {
            None => MarkerUpdate::Hide,
            Some(w) => MarkerUpdate::Show(screen_pose(w.spec_as_pose(), field, layout)),
        }
    }
}

/// What is to be done with the marker of the rotation anchor of slot `id`.
/// Only a pose has an anchor.
pub open spec fn rotation_anchor_marker(
    id: FieldWaypointID,
    routines: Seq<Seq<Option<Waypoint>>>,
    active: usize,
    field: Field,
    layout: Layout,
) -> MarkerUpdate {
    if !slot_exists(routines, id) {
        MarkerUpdate::Despawn
    } else if id.path_id != active {
        MarkerUpdate::Hide
    } else {
        match routines[id.path_id as int][id.idx as int] {
            Some(Waypoint::Pose(pose)) => MarkerUpdate::Show(anchor_screen_pose(pose, field, layout)),
            _ => MarkerUpdate::Hide,
        }
    }
}

/// Decides what to do with the marker of the waypoint in slot `marker`.
pub fn waypoint_updater(marker: FieldWaypointID, field: &Field, layout: &Layout, waypoints: &FieldWaypointList) -> (update:
    MarkerUpdate)
    requires
        field.well_formed(),
    ensures
        update == waypoint_marker(marker, waypoints@, waypoints.1, *field, *layout),
{
    if marker.path_id >= waypoints.0.len() {
        return MarkerUpdate::Despawn;
    }
    if marker.idx >= waypoints.0[marker.path_id].len() {
        return MarkerUpdate::Despawn;
    }
    if marker.path_id != waypoints.1 {
        return MarkerUpdate::Hide;
    }
    match waypoints.0[marker.path_id][marker.idx] {
        None => MarkerUpdate::Hide,
        Some(w) => {
            let pose: FieldPose = w.as_pose();
            MarkerUpdate::Show(field.to_screen_transform(layout, &pose))
        },
    }
}

/// Bounds of an anchor's offset on screen.
proof fn lemma_anchor_pixels_bounded(h: int)
    by (nonlinear_arith)
    requires
        -0x8000_0000 <= h < 0x8000_0000,
    ensures
        -0x20_0000_0000 <= 25 * h <= 0x20_0000_0000,
        -0x20_0000_0000 <= div_toward_zero(25 * h, 1_000_000) <= 0x20_0000_0000,
{
}

/// Decides what to do with the marker of the rotation anchor of slot
/// `marker`.
pub fn rotation_anchor_updater(
    marker: FieldWaypointID,
    field: &Field,
    layout: &Layout,
    waypoints: &FieldWaypointList,
) -> (update: MarkerUpdate)
    requires
        field.well_formed(),
    ensures
        update == rotation_anchor_marker(marker, waypoints@, waypoints.1, *field, *layout),
{
    if marker.path_id >= waypoints.0.len() {
        return MarkerUpdate::Despawn;
    }
    if marker.idx >= waypoints.0[marker.path_id].len() {
        return MarkerUpdate::Despawn;
    }
    if marker.path_id != waypoints.1 {
        return MarkerUpdate::Hide;
    }
    match waypoints.0[marker.path_id][marker.idx] {
        Some(Waypoint::Pose(pose)) => {
            let center: ScreenVec = field.to_screen_vec(layout, &pose.translation);
            proof {
                lemma_anchor_pixels_bounded(pose.rotation.x as int);
                lemma_anchor_pixels_bounded(pose.rotation.y as int);
                lemma_screen_vec_bounded(*field, *layout, pose);
            }
            let radius: i128 = ROTATION_ANCHOR_REVOLUTION_RADIUS as i128;
            let ox: i128 = div_trunc(radius * pose.rotation.x as i128, HEADING_UNIT as i128);
            let oy: i128 = div_trunc(radius * pose.rotation.y as i128, HEADING_UNIT as i128);
            MarkerUpdate::Show(
                ScreenPose {
                    translation: ScreenVec { x: (center.x as i128 + ox) as i64, y: (center.y as i128 + oy) as i64 },
                    rotation: Heading::zero(),
                },
            )
        },
        _ => MarkerUpdate::Hide,
    }
}

/// A projected position leaves room in 64 bits for an anchor's offset.
proof fn lemma_screen_vec_bounded(field: Field, layout: Layout, pose: FieldPose)
    requires
        field.well_formed(),
    ensures
        -0x4000_0000_8000_0000 <= field.spec_to_screen_vec(&layout, &pose.translation).0 <= 0x4000_0000_8000_0000,
        -0x4000_0000_8000_0000 <= field.spec_to_screen_vec(&layout, &pose.translation).1 <= 0x4000_0000_8000_0000,
{
    crate::field::lemma_scaled_quotient_bounded(
        layout.field.size.x as int,
        pose.translation.x as int,
        field.size.x as int,
    );
    crate::field::lemma_scaled_quotient_bounded(
        layout.field.size.y as int,
        pose.translation.y as int,
        field.size.y as int,
    );
}

/// After the last waypoint of routine `path` was removed, the markers of its
/// slot and of every slot behind it are retired, and the markers of the slots
/// before it are not.
pub proof fn lemma_markers_of_removed_slots_are_retired(
    routines: Seq<Seq<Option<Waypoint>>>,
    active: usize,
    field: Field,
    layout: Layout,
    id: FieldWaypointID,
)
    requires
        id.path_id < routines.len(),
        waypoints(routines[id.path_id as int]).len() > 2,
    ensures
        ({
            let after = routines.update(id.path_id as int, with_last_waypoint_removed(routines[id.path_id as int]));
            let removed_at = last_waypoint_index(routines[id.path_id as int]);
            &&& 0 <= removed_at < routines[id.path_id as int].len()
            &&& id.idx >= removed_at ==> waypoint_marker(id, after, active, field, layout) is Despawn
                && rotation_anchor_marker(id, after, active, field, layout) is Despawn
            &&& id.idx < removed_at ==> !(waypoint_marker(id, after, active, field, layout) is Despawn) && !(
            rotation_anchor_marker(id, after, active, field, layout) is Despawn)
        }),
{
    let r = routines[id.path_id as int];
    lemma_last_waypoint_index(r);
    lemma_last_waypoint_index(r.take(last_waypoint_index(r)));
}

/// A rotation anchor is drawn where it can be grabbed: where a pixel spans
/// at least a micrometre in both directions, the place on the field that a
/// press is tested against shows on screen within a pixel of the anchor's
/// marker.
pub proof fn lemma_anchor_marker_is_on_its_anchor(pose: FieldPose, field: Field, layout: Layout)
    requires
        field.well_formed(),
        layout.field.has_area(),
        layout.field.size.x <= field.size.x,
        layout.field.size.y <= field.size.y,
    ensures
        ({
            let anchor = anchor_position(pose, field, layout);
            let marker = anchor_screen_pose(pose, field, layout).translation;
            let shown_x = layout.field.pos.x + (layout.field.size.x * anchor.0) / (field.size.x as int);
            let shown_y = layout.field.pos.y + (layout.field.size.y * anchor.1) / (field.size.y as int);
            &&& -1 <= shown_x - marker.x <= 1
            &&& -1 <= shown_y - marker.y <= 1
        }),
{
    lemma_screen_vec_bounded(field, layout, pose);
    lemma_anchor_pixels_bounded(pose.rotation.x as int);
    lemma_anchor_pixels_bounded(pose.rotation.y as int);
    lemma_anchor_axis(
        pose.translation.x as int,
        pose.rotation.x as int,
        layout.field.size.x as int,
        field.size.x as int,
    );
    lemma_anchor_axis(
        pose.translation.y as int,
        pose.rotation.y as int,
        layout.field.size.y as int,
        field.size.y as int,
    );
}

/// One axis of `lemma_anchor_marker_is_on_its_anchor`: a coordinate `p` with
/// heading component `h`, on a field of extent `f` shown on `l` pixels.
proof fn lemma_anchor_axis(p: int, h: int, l: int, f: int)
    requires
        0 < l <= f,
    ensures
        ({
            let offset = div_toward_zero(25 * f * h, l * 1_000_000);
            let pixels = div_toward_zero(25 * h, 1_000_000);
            -1 <= (l * (p + offset)) / f - (l * p) / f - pixels <= 1
        }),
{
    let t = 25 * h;
    let offset = div_toward_zero(25 * f * h, l * 1_000_000);
    let pixels = div_toward_zero(25 * h, 1_000_000);
    let before = (l * p) / f;
    let after = (l * (p + offset)) / f;
    assert(25 * f * h == f * t) by (nonlinear_arith)
        requires
            t == 25 * h,
    ;
    assert((t >= 0 ==> f * t >= 0) && (t <= 0 ==> f * t <= 0)) by (nonlinear_arith)
        requires
            f > 0,
    ;
    lemma_truncated_quotient(f * t, l * 1_000_000, offset);
    lemma_truncated_quotient(t, 1_000_000, pixels);
    lemma_floor_quotient(l * p, f, before);
    lemma_floor_quotient(l * (p + offset), f, after);
    assert(l * (p + offset) == l * p + l * offset) by (nonlinear_arith);
    let step = after - before;
    assert((step - 1) * f < l * offset < (step + 1) * f) by (nonlinear_arith)
        requires
            step == after - before,
            before * f <= l * p < before * f + f,
            after * f <= l * p + l * offset < after * f + f,
    ;
    lemma_anchor_axis_bounds(t, l, f, offset, pixels, l * offset, after - before);
}

/// A quotient rounded toward zero lies within one of the exact quotient, on
/// the side of zero.
proof fn lemma_truncated_quotient(n: int, d: int, q: int)
    by (nonlinear_arith)
    requires
        d > 0,
        q == div_toward_zero(n, d),
    ensures
        n >= 0 ==> q * d <= n < q * d + d,
        n <= 0 ==> q * d - d < n <= q * d,
{
}

/// A quotient rounded down lies within one below the exact quotient.
proof fn lemma_floor_quotient(n: int, d: int, q: int)
    by (nonlinear_arith)
    requires
        d > 0,
        q == n / d,
    ensures
        q * d <= n < q * d + d,
{
}

/// The arithmetic of `lemma_anchor_axis`, on the quotients' bounds: `t` is
/// the offset in millionths of a pixel, `offset` the offset on the field and
/// `b` its width on screen as a multiple of `1 / f`, `pixels` the offset in
/// whole pixels, and `step` the difference that the offset makes on screen.
proof fn lemma_anchor_axis_bounds(t: int, l: int, f: int, offset: int, pixels: int, b: int, step: int)
    by (nonlinear_arith)
    requires
        0 < l <= f,
        b == l * offset,
        t >= 0 ==> offset * (l * 1_000_000) <= f * t < offset * (l * 1_000_000) + l * 1_000_000,
        t <= 0 ==> offset * (l * 1_000_000) - l * 1_000_000 < f * t <= offset * (l * 1_000_000),
        t >= 0 ==> pixels * 1_000_000 <= t < pixels * 1_000_000 + 1_000_000,
        t <= 0 ==> pixels * 1_000_000 - 1_000_000 < t <= pixels * 1_000_000,
        (step - 1) * f < b < (step + 1) * f,
    ensures
        -1 <= step - pixels <= 1,
{
    assert(offset * (l * 1_000_000) == b * 1_000_000);
    if t >= 0 {
        // b * 10^6 <= f * t < f * (pixels + 1) * 10^6, and
        // b * 10^6 > f * t - f * 10^6 >= f * (pixels - 1) * 10^6.
        assert(f * t < f * (pixels * 1_000_000 + 1_000_000));
        assert(f * (pixels * 1_000_000) <= f * t);
        assert(b * 1_000_000 < (f * (pixels + 1)) * 1_000_000);
        assert(b * 1_000_000 > (f * (pixels - 1)) * 1_000_000) by {
            assert(l * 1_000_000 <= f * 1_000_000);
        }
        assert(b < f * (pixels + 1));
        assert(b > f * (pixels - 1));
    } else {
        assert(f * t > f * (pixels * 1_000_000 - 1_000_000));
        assert(f * (pixels * 1_000_000) >= f * t);
        assert(b * 1_000_000 > (f * (pixels - 1)) * 1_000_000);
        assert(b * 1_000_000 < (f * (pixels + 1)) * 1_000_000) by {
            assert(l * 1_000_000 <= f * 1_000_000);
        }
        assert(b < f * (pixels + 1));
        assert(b > f * (pixels - 1));
    }
    assert((step - 1) * f < f * (pixels + 1));
    assert(f * (pixels - 1) < (step + 1) * f);
    assert(step - 1 < pixels + 1);
    assert(pixels - 1 < step + 1);
}

} // verus!
