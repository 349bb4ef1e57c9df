//! The window layout: where the field, the configuration panel and the console
//! sit on screen. Screen coordinates are whole pixels with the origin at the
//! centre of the window, `x` to the right and `y` up.

use vstd::prelude::*;
use crate::field::FIELD_WH_RATIO;
use crate::math::div_floor;

verus! {

/// A point of the window, or the extent of a rectangle in it, in whole pixels.
#[derive(Clone, Copy, Debug, PartialEq, Eq, Structural)]
pub struct PixelVec {
    pub x: i32,
    pub y: i32,
}

impl PixelVec {
    /// The pixel `(x, y)`.
    pub fn new(x: i32, y: i32) -> (v: PixelVec)
        ensures
            v == (PixelVec { x, y }),
    {
        PixelVec { x, y }
    }
}

/// Spacing that the layout keeps around and inside its panels, in pixels.
#[derive(Clone, Copy, Debug, PartialEq, Eq, Structural)]
pub struct LayoutSettings {
    pub margin: u16,
    pub border_size: u16,
}

impl Default for LayoutSettings {
    /// A margin of 20 pixels and borders of 15.
    fn default() -> (s: LayoutSettings)
        ensures
            s == (LayoutSettings { margin: 20, border_size: 15 }),
    {
        LayoutSettings { margin: 20, border_size: 15 }
    }
}

/// The inside of a bordered panel: `pos` is its lower left corner, `size` its
/// extent, `border_size` the width of the border drawn around it.
#[derive(Clone, Copy, Debug, PartialEq, Eq, Structural)]
pub struct LayoutRect {
    pub pos: PixelVec,
    pub size: PixelVec,
    pub border_size: i32,
}

/// What `LayoutRect::new` makes of an outer rectangle and a border width.
pub open spec fn inset_rect(x: int, y: int, w: int, h: int, border_size: int) -> (int, int, int, int) {
    (x + border_size, y + border_size, w - 2 * border_size, h - 2 * border_size)
}

impl LayoutRect {
    /// The inside of the panel whose outer rectangle has the lower left corner
    /// `(x, y)` and the extent `(w, h)`.
    fn new(x: i32, y: i32, w: i32, h: i32, border_size: u16) -> (r: LayoutRect)
        requires
            -0x10_0000 <= x <= 0x10_0000,
            -0x10_0000 <= y <= 0x10_0000,
            -0x10_0000 <= w <= 0x10_0000,
            -0x10_0000 <= h <= 0x10_0000,
        ensures
            (r.pos.x as int, r.pos.y as int, r.size.x as int, r.size.y as int) == inset_rect(
                x as int,
                y as int,
                w as int,
                h as int,
                border_size as int,
            ),
            r.border_size == border_size,
    {
        let b: i32 = border_size as i32;
        LayoutRect {
            pos: PixelVec { x: x + b, y: y + b },
            size: PixelVec { x: w - 2 * b, y: h - 2 * b },
            border_size: b,
        }
    }

    /// The rectangle has an area, so that points can be mapped into it.
    pub open spec fn has_area(&self) -> bool {
        self.size.x > 0 && self.size.y > 0
    }

    /// Whether the rectangle has an area.
    pub fn is_usable(&self) -> (b: bool)
        ensures
            b == self.has_area(),
    {
        self.size.x > 0 && self.size.y > 0
    }
}

impl Default for LayoutRect {
    /// A rectangle without area at the origin.
    fn default() -> (r: LayoutRect)
        ensures
            r == (LayoutRect { pos: PixelVec { x: 0, y: 0 }, size: PixelVec { x: 0, y: 0 }, border_size: 0 }),
            !r.has_area(),
    {
        LayoutRect { pos: PixelVec { x: 0, y: 0 }, size: PixelVec { x: 0, y: 0 }, border_size: 0 }
    }
}

/// The panels of the window and the window's size.
#[derive(Clone, Copy, Debug, PartialEq, Eq, Structural)]
pub struct Layout {
    pub field: LayoutRect,
    pub auto_cfg: LayoutRect,
    pub console: LayoutRect,
    pub screen_size: PixelVec,
}

/// The smaller of two integers.
pub open spec fn min_of(a: int, b: int) -> int {
    if a <= b {
        a
    } else {
        b
    }
}

/// Width of the field panel's outer rectangle for a usable area of
/// `usable_w` by `usable_h` pixels: as wide as the area allows, but no more
/// than seven tenths of the area's width, nor than what keeps the panel's
/// height, at the field's proportions, within seven tenths of the area's height.
pub open spec fn field_panel_width(usable_w: int, usable_h: int) -> int {
    min_of(min_of(usable_w, (7 * usable_h / 10) * (FIELD_WH_RATIO as int)), 7 * usable_w / 10)
}

impl Layout {
    /// The layout that `build` computes, panel by panel.
    pub open spec fn spec_build(settings: LayoutSettings, width: u16, height: u16) -> (
        (int, int, int, int),
        (int, int, int, int),
        (int, int, int, int),
    ) {
        let margin = settings.margin as int;
        let border = settings.border_size as int;
        let left = -(width as int / 2);
        let bottom = -(height as int / 2);
        let usable_w = width - 2 * margin;
        let usable_h = height - 2 * margin;
        let field_w = field_panel_width(usable_w, usable_h);
        let field_h = field_w / (FIELD_WH_RATIO as int);
        (
            inset_rect(left + margin, bottom + margin + (usable_h - field_h), field_w, field_h, border),
            inset_rect(
                left + margin + field_w + margin,
                bottom + margin + (usable_h - field_h),
                usable_w - field_w - margin,
                field_h,
                border,
            ),
            inset_rect(left + margin, bottom + margin, usable_w, usable_h - field_h - margin, border),
        )
    }

    /// Lays the panels out in a window of `width` by `height` pixels: the field
    /// in the upper left, the configuration panel to its right, the console
    /// below both.
    pub fn build(settings: &LayoutSettings, width: u16, height: u16) -> (l: Layout)
        ensures
            rect_values(l.field) == Self::spec_build(*settings, width, height).0,
            rect_values(l.auto_cfg) == Self::spec_build(*settings, width, height).1,
            rect_values(l.console) == Self::spec_build(*settings, width, height).2,
            l.field.border_size == settings.border_size,
            l.auto_cfg.border_size == settings.border_size,
            l.console.border_size == settings.border_size,
            l.screen_size == (PixelVec { x: width as i32, y: height as i32 }),
    {
        let margin: i32 = settings.margin as i32;
        let left: i32 = -(width as i32 / 2);
        let bottom: i32 = -(height as i32 / 2);
        let total_usable_w: i32 = width as i32 - 2 * margin;
        let total_usable_h: i32 = height as i32 - 2 * margin;
        let by_height: i32 = (div_floor(7 * total_usable_h as i128, 10) as i32) * FIELD_WH_RATIO;
        let by_width: i32 = div_floor(7 * total_usable_w as i128, 10) as i32;
        let mut field_w: i32 = total_usable_w;
        if by_height < field_w {
            field_w = by_height;
        }
        if by_width < field_w {
            field_w = by_width;
        }
        let field_h: i32 = div_floor(field_w as i128, FIELD_WH_RATIO as i128) as i32;
        Layout {
            field: LayoutRect::new(
                left + margin,
                bottom + margin + (total_usable_h - field_h),
                field_w,
                field_h,
                settings.border_size,
            ),
            auto_cfg: LayoutRect::new(
                left + margin + field_w + margin,
                bottom + margin + (total_usable_h - field_h),
                total_usable_w - field_w - margin,
                field_h,
                settings.border_size,
            ),
            console: LayoutRect::new(
                left + margin,
                bottom + margin,
                total_usable_w,
                total_usable_h - field_h - margin,
                settings.border_size,
            ),
            screen_size: PixelVec { x: width as i32, y: height as i32 },
        }
    }
}

/// Corner and extent of a rectangle as integers.
pub open spec fn rect_values(r: LayoutRect) -> (int, int, int, int) {
    (r.pos.x as int, r.pos.y as int, r.size.x as int, r.size.y as int)
}

impl Default for Layout {
    /// The layout before the window's size is known: no panel has an area.
    fn default() -> (l: Layout)
        ensures
            !l.field.has_area(),
            l.screen_size == (PixelVec { x: 0, y: 0 }),
    {
        Layout {
            field: LayoutRect::default(),
            auto_cfg: LayoutRect::default(),
            console: LayoutRect::default(),
            screen_size: PixelVec { x: 0, y: 0 },
        }
    }
}

} // verus!
