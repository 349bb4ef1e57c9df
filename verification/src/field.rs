//! The playing field and the mapping between field and screen coordinates.
//!
//! Field coordinates are whole micrometres from the field's lower left
//! corner. Projections round down, so that a position that goes to the
//! screen and back never moves away from the corner.

use vstd::prelude::*;
use crate::layout::Layout;
use crate::heading::Heading;
use crate::math::{abs_i64, div_floor, floor_sqrt, isqrt, magnitude};

verus! {

/// Width of the field, in micrometres.
pub const FIELD_WIDTH: i32 = 16_459_200;

/// Height of the field, in micrometres.
pub const FIELD_HEIGHT: i32 = 8_229_600;

/// Width of the field over its height.
pub const FIELD_WH_RATIO: i32 = 2;

/// A position on the field, in micrometres.
#[derive(Clone, Copy, Debug, PartialEq, Eq, Structural)]
pub struct FieldPosition {
    pub x: i32,
    pub y: i32,
}

/// A position together with a heading.
#[derive(Clone, Copy, Debug, PartialEq, Eq, Structural)]
pub struct FieldPose {
    pub translation: FieldPosition,
    pub rotation: Heading,
}

/// A point on screen, in pixels from the window's centre. Unlike a `PixelVec`
/// it may lie far outside the window.
#[derive(Clone, Copy, Debug, PartialEq, Eq, Structural)]
pub struct ScreenVec {
    pub x: i64,
    pub y: i64,
}

/// Where on screen something is drawn, and which way it points.
#[derive(Clone, Copy, Debug, PartialEq, Eq, Structural)]
pub struct ScreenPose {
    pub translation: ScreenVec,
    pub rotation: Heading,
}

/// The field's physical size.
#[derive(Clone, Copy, Debug, PartialEq, Eq, Structural)]
pub struct Field {
    pub size: FieldPosition,
}

/// The square of the distance between two points.
pub open spec fn dist_squared(ax: int, ay: int, bx: int, by: int) -> int {
    (ax - bx) * (ax - bx) + (ay - by) * (ay - by)
}

impl FieldPosition {
    /// The position `(x, y)`, in micrometres.
    pub fn new(x: i32, y: i32) -> (p: FieldPosition)
        ensures
            p == (FieldPosition { x, y }),
    {
        FieldPosition { x, y }
    }

    /// The square of the distance to `other`.
    pub fn dist_squared(&self, other: &FieldPosition) -> (d: u128)
        ensures
            d == dist_squared(self.x as int, self.y as int, other.x as int, other.y as int),
            d < 0x2_0000_0000_0000_0000,
    {
        let dx: u64 = abs_i64(self.x as i64 - other.x as i64);
        let dy: u64 = abs_i64(self.y as i64 - other.y as i64);
        proof {
            lemma_square_of_difference(self.x as int, other.x as int, dx as int);
            lemma_square_of_difference(self.y as int, other.y as int, dy as int);
        }
        (dx as u128) * (dx as u128) + (dy as u128) * (dy as u128)
    }

    /// The distance to `other`, rounded down to whole micrometres.
    pub fn dist(&self, other: &FieldPosition) -> (d: u64)
        ensures
            d == floor_sqrt(dist_squared(self.x as int, self.y as int, other.x as int, other.y as int)),
    {
        isqrt(self.dist_squared(other))
    }
}

/// The square of a difference of two 32-bit values, from its magnitude.
proof fn lemma_square_of_difference(a: int, b: int, m: int)
    by (nonlinear_arith)
    requires
        -0x8000_0000 <= a < 0x8000_0000,
        -0x8000_0000 <= b < 0x8000_0000,
        m == magnitude(a - b),
    ensures
        m * m == (a - b) * (a - b),
        0 <= m * m < 0x1_0000_0000_0000_0000,
{
}

impl FieldPose {
    /// The pose at `pos` that points along `rotation`.
    pub fn new(pos: FieldPosition, rotation: Heading) -> (p: FieldPose)
        ensures
            p == (FieldPose { translation: pos, rotation }),
    {
        FieldPose { translation: pos, rotation }
    }
}

impl Default for Field {
    /// The field at its real size.
    fn default() -> (f: Field)
        ensures
            f.size == (FieldPosition { x: FIELD_WIDTH, y: FIELD_HEIGHT }),
            f.well_formed(),
    {
        Field { size: FieldPosition { x: FIELD_WIDTH, y: FIELD_HEIGHT } }
    }
}

impl Field {
    /// The field has an extent in both directions.
    pub open spec fn well_formed(&self) -> bool {
        self.size.x > 0 && self.size.y > 0
    }

    /// Whether the field has an extent in both directions.
    pub fn is_valid(&self) -> (b: bool)
        ensures
            b == self.well_formed(),
    {
        self.size.x > 0 && self.size.y > 0
    }

    /// Whether `pos` lies on the field, edges included.
    pub open spec fn contains(&self, pos: FieldPosition) -> bool {
        0 <= pos.x <= self.size.x && 0 <= pos.y <= self.size.y
    }

    /// Where a field position lies on screen: the field's extent is scaled to
    /// the layout's field rectangle, each coordinate rounded down.
    pub open spec fn spec_to_screen_vec(&self, layout: &Layout, pos: &FieldPosition) -> (int, int) {
        (
            layout.field.pos.x + (layout.field.size.x * pos.x) / (self.size.x as int),
            layout.field.pos.y + (layout.field.size.y * pos.y) / (self.size.y as int),
        )
    }

    /// Whether a screen point lies in the layout's field rectangle, edges
    /// included. A rectangle without area holds no point.
    pub open spec fn on_screen_field(layout: &Layout, pos: ScreenVec) -> bool {
        &&& layout.field.has_area()
        &&& layout.field.pos.x <= pos.x <= layout.field.pos.x + layout.field.size.x
        &&& layout.field.pos.y <= pos.y <= layout.field.pos.y + layout.field.size.y
    }

    /// One coordinate of the field position under a screen point: the part
    /// `offset` of the rectangle's `extent`, applied to the field's `size`,
    /// rounded down.
    pub open spec fn field_coordinate(size: int, offset: int, extent: int) -> int {
        (size * offset) / extent
    }

    /// The field position under a screen point; none for a point outside the
    /// layout's field rectangle.
    pub open spec fn spec_to_field_position(&self, layout: &Layout, pos: ScreenVec) -> Option<FieldPosition> {
        if Self::on_screen_field(layout, pos) {
            Some(
                FieldPosition {
                    x: Self::field_coordinate(
                        self.size.x as int,
                        pos.x - layout.field.pos.x,
                        layout.field.size.x as int,
                    ) as i32,
                    y: Self::field_coordinate(
                        self.size.y as int,
                        pos.y - layout.field.pos.y,
                        layout.field.size.y as int,
                    ) as i32,
                },
            )
        } else {
            None
        }
    }

    /// Maps a field position to the screen.
    pub fn to_screen_vec(&self, layout: &Layout, pos: &FieldPosition) -> (v: ScreenVec)
        requires
            self.well_formed(),
        ensures
            (v.x as int, v.y as int) == self.spec_to_screen_vec(layout, pos),
    {
        proof {
            lemma_scaled_quotient_bounded(layout.field.size.x as int, pos.x as int, self.size.x as int);
            lemma_scaled_quotient_bounded(layout.field.size.y as int, pos.y as int, self.size.y as int);
        }
        let x: i128 = div_floor(layout.field.size.x as i128 * pos.x as i128, self.size.x as i128);
        let y: i128 = div_floor(layout.field.size.y as i128 * pos.y as i128, self.size.y as i128);
        ScreenVec { x: (layout.field.pos.x as i128 + x) as i64, y: (layout.field.pos.y as i128 + y) as i64 }
    }

    /// How many pixels a length on the field spans on screen, by the
    /// horizontal scale, rounded down.
    pub fn to_screen_length(&self, layout: &Layout, length: i32) -> (pixels: i64)
        requires
            self.well_formed(),
        ensures
            pixels == (layout.field.size.x * length) / (self.size.x as int),
    {
        proof {
            lemma_scaled_quotient_bounded(layout.field.size.x as int, length as int, self.size.x as int);
        }
        div_floor(layout.field.size.x as i128 * length as i128, self.size.x as i128) as i64
    }

    /// Maps a pose to the screen: its position is projected, its heading kept.
    pub fn to_screen_transform(&self, layout: &Layout, pose: &FieldPose) -> (t: ScreenPose)
        requires
            self.well_formed(),
        ensures
            (t.translation.x as int, t.translation.y as int) == self.spec_to_screen_vec(
                layout,
                &pose.translation,
            ),
            t.rotation == pose.rotation,
    {
        ScreenPose { translation: self.to_screen_vec(layout, &pose.translation), rotation: pose.rotation }
    }

    /// Maps a screen point back to the field. There is no field position for a
    /// point outside the layout's field rectangle.
    pub fn to_field_position(&self, layout: &Layout, pos: ScreenVec) -> (p: Option<FieldPosition>)
        ensures
            p == self.spec_to_field_position(layout, pos),
            p is Some <==> Self::on_screen_field(layout, pos),
            p matches Some(q) ==> {
                &&& q.x == Self::field_coordinate(
                    self.size.x as int,
                    pos.x - layout.field.pos.x,
                    layout.field.size.x as int,
                )
                &&& q.y == Self::field_coordinate(
                    self.size.y as int,
                    pos.y - layout.field.pos.y,
                    layout.field.size.y as int,
                )
                &&& self.well_formed() ==> self.contains(q)
            },
    {
        if !layout.field.is_usable() {
            return None;
        }
        let left: i64 = layout.field.pos.x as i64;
        let bottom: i64 = layout.field.pos.y as i64;
        let width: i64 = layout.field.size.x as i64;
        let height: i64 = layout.field.size.y as i64;
        if pos.x < left || pos.y < bottom || pos.x > left + width || pos.y > bottom + height {
            return None;
        }
        proof {
            lemma_proportion_bounded(self.size.x as int, pos.x - left, width as int);
            lemma_proportion_bounded(self.size.y as int, pos.y - bottom, height as int);
        }
        let x: i128 = div_floor(self.size.x as i128 * (pos.x - left) as i128, width as i128);
        let y: i128 = div_floor(self.size.y as i128 * (pos.y - bottom) as i128, height as i128);
        Some(FieldPosition { x: x as i32, y: y as i32 })
    }

    /// A position on the field, projected to the screen and back, comes back
    /// to itself up to the rounding of the two projections: it is never
    /// beyond the position, and short of it by at most one micrometre more
    /// than a pixel spans.
    pub proof fn lemma_screen_round_trip(&self, layout: &Layout, pos: FieldPosition)
        requires
            self.well_formed(),
            layout.field.has_area(),
            self.contains(pos),
        ensures
            ({
                let s = self.spec_to_screen_vec(layout, &pos);
                let v = ScreenVec { x: s.0 as i64, y: s.1 as i64 };
                &&& v.x == s.0 && v.y == s.1
                &&& self.spec_to_field_position(layout, v) matches Some(back)
                &&& pos.x - self.size.x / layout.field.size.x - 1 <= back.x <= pos.x
                &&& pos.y - self.size.y / layout.field.size.y - 1 <= back.y <= pos.y
            }),
    {
        lemma_round_trip_axis(self.size.x as int, layout.field.size.x as int, pos.x as int);
        lemma_round_trip_axis(self.size.y as int, layout.field.size.y as int, pos.y as int);
    }

    /// No screen point outside the layout's field rectangle has a field
    /// position.
    pub proof fn lemma_outside_has_no_field_position(&self, layout: &Layout, pos: ScreenVec)
        requires
            pos.x < layout.field.pos.x || pos.x > layout.field.pos.x + layout.field.size.x || pos.y
                < layout.field.pos.y || pos.y > layout.field.pos.y + layout.field.size.y,
        ensures
            self.spec_to_field_position(layout, pos) is None,
    {
    }
}

/// `a * b / c` is no larger in magnitude than `a * b`.
pub proof fn lemma_scaled_quotient_bounded(a: int, b: int, c: int)
    by (nonlinear_arith)
    requires
        -0x8000_0000 <= a < 0x8000_0000,
        -0x8000_0000 <= b < 0x8000_0000,
        c > 0,
    ensures
        -0x4000_0000_0000_0000 <= a * b <= 0x4000_0000_0000_0000,
        -0x4000_0000_0000_0000 <= (a * b) / c <= 0x4000_0000_0000_0000,
{
}

/// A part `t` of a whole `w`, applied to a length `f`, lies between zero and `f`.
proof fn lemma_proportion_bounded(f: int, t: int, w: int)
    by (nonlinear_arith)
    requires
        -0x8000_0000 <= f < 0x8000_0000,
        0 <= t <= w,
        0 < w < 0x8000_0000,
    ensures
        -0x4000_0000_0000_0000 <= f * t <= 0x4000_0000_0000_0000,
        f >= 0 ==> 0 <= (f * t) / w <= f,
        f < 0 ==> f <= (f * t) / w <= 0,
{
}

/// One axis of the round trip: with a field extent `f` shown on `l` pixels,
/// a coordinate `p` goes to the pixel `s` and comes back as `q`.
proof fn lemma_round_trip_axis(f: int, l: int, p: int)
    by (nonlinear_arith)
    requires
        f > 0,
        l > 0,
        0 <= p <= f,
    ensures
        0 <= (l * p) / f <= l,
        p - f / l - 1 <= (f * ((l * p) / f)) / l <= p,
{
}

} // verus!
