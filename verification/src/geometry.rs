//! Lengths, rectangles and the anchored-resize rule.
//!
//! Every length is a whole number of canvas units, either absolute or a
//! percentage of some container extent. Intermediate results are computed in
//! a wider integer and brought back into the stored range by saturation, so
//! no operation here can overflow.

use vstd::prelude::*;

verus! {

/// The smallest width or height an interactive resize may leave behind.
pub const MIN_NODE_SIZE: i32 = 1;

/// A length or coordinate: absolute units, or a percentage of a container.
#[derive(Clone, Copy, Debug, PartialEq, Eq, Structural)]
pub enum Val {
    Px(i32),
    Percent(i32),
}

/// The four corner handles of a node.
#[derive(Clone, Copy, Debug, PartialEq, Eq, Structural)]
pub enum ResizeMarker {
    TopLeft,
    TopRight,
    BottomLeft,
    BottomRight,
}

/// Position and size of a node. `bottom` grows upwards, pointer motion `dy`
/// grows downwards.
#[derive(Clone, Copy, Debug, PartialEq, Eq, Structural)]
pub struct Rect {
    pub left: Val,
    pub bottom: Val,
    pub width: Val,
    pub height: Val,
}

/// `v` saturated to the range of a stored length.
pub open spec fn clamp_unit(v: int) -> int {
    if v < i32::MIN {
        i32::MIN as int
    } else if v > i32::MAX {
        i32::MAX as int
    } else {
        v
    }
}

/// `p` percent of `extent`, rounded towards zero.
pub open spec fn percent_of(p: int, extent: int) -> int {
    if p >= 0 {
        (p * extent) / 100
    } else {
        -(((-p) * extent) / 100)
    }
}

/// The absolute length that `value` stands for inside a container of the
/// given extent.
pub open spec fn to_absolute_spec(value: Val, reference_extent: int) -> int {
    match value {
        Val::Px(v) => v as int,
        Val::Percent(p) => percent_of(p as int, reference_extent),
    }
}

/// Half of `v`, rounded towards zero.
pub open spec fn half(v: int) -> int {
    if v >= 0 {
        v / 2
    } else {
        -((-v) / 2)
    }
}

/// Where a dragged rectangle goes: centred on the pointer, whose horizontal
/// position is counted from the window's edge while the canvas begins
/// `panel` units further in. A rectangle whose size is not absolute stays.
pub open spec fn dragged_to(rect: Rect, x: int, y: int, panel: int) -> Rect {
    match (rect.width, rect.height) {
        (Val::Px(w), Val::Px(h)) => Rect {
            left: Val::Px(clamp_unit(x - panel - half(w as int)) as i32),
            bottom: Val::Px(clamp_unit(y - half(h as int)) as i32),
            ..rect
        },
        _ => rect,
    }
}

/// Change of the width for a horizontal pointer motion `dx`: the right-hand
/// corners grow with the pointer, the left-hand ones against it.
pub open spec fn width_change(corner: ResizeMarker, dx: int) -> int {
    match corner {
        ResizeMarker::TopLeft | ResizeMarker::BottomLeft => -dx,
        ResizeMarker::TopRight | ResizeMarker::BottomRight => dx,
    }
}

/// Change of the height for a vertical pointer motion `dy`.
pub open spec fn height_change(corner: ResizeMarker, dy: int) -> int {
    match corner {
        ResizeMarker::TopLeft | ResizeMarker::TopRight => -dy,
        ResizeMarker::BottomLeft | ResizeMarker::BottomRight => dy,
    }
}

/// Change of `left` for a horizontal pointer motion `dx`.
pub open spec fn left_change(corner: ResizeMarker, dx: int) -> int {
    match corner {
        ResizeMarker::TopLeft | ResizeMarker::BottomLeft => dx,
        ResizeMarker::TopRight | ResizeMarker::BottomRight => 0,
    }
}

/// Change of `bottom` for a vertical pointer motion `dy`.
pub open spec fn bottom_change(corner: ResizeMarker, dy: int) -> int {
    match corner {
        ResizeMarker::TopLeft | ResizeMarker::TopRight => 0,
        ResizeMarker::BottomLeft | ResizeMarker::BottomRight => -dy,
    }
}

/// A size after it changed by `change`: absolute sizes never drop below
/// `MIN_NODE_SIZE`, percentage sizes are left alone.
pub open spec fn resized(size: Val, change: int) -> Val {
    match size {
        Val::Px(s) => Val::Px(
            if s + change < MIN_NODE_SIZE {
                MIN_NODE_SIZE
            } else {
                clamp_unit(s + change) as i32
            },
        ),
        Val::Percent(_) => size,
    }
}

/// A coordinate after it moved by `change`; percentage coordinates stay.
pub open spec fn shifted(pos: Val, change: int) -> Val {
    match pos {
        Val::Px(p) => Val::Px(clamp_unit(p + change) as i32),
        Val::Percent(_) => pos,
    }
}

/// The anchored-resize rule: the rectangle after the handle `corner` followed
/// a pointer motion of `(dx, dy)`.
pub open spec fn apply_resize_spec(corner: ResizeMarker, dx: int, dy: int, rect: Rect) -> Rect {
    Rect {
        left: shifted(rect.left, left_change(corner, dx)),
        bottom: shifted(rect.bottom, bottom_change(corner, dy)),
        width: resized(rect.width, width_change(corner, dx)),
        height: resized(rect.height, height_change(corner, dy)),
    }
}

/// All four fields are absolute and the resize neither hits the minimum size
/// nor leaves the stored range.
pub open spec fn resize_is_exact(corner: ResizeMarker, dx: int, dy: int, rect: Rect) -> bool {
    &&& rect.left is Px
    &&& rect.bottom is Px
    &&& rect.width is Px
    &&& rect.height is Px
    &&& MIN_NODE_SIZE <= rect.width->Px_0 + width_change(corner, dx) <= i32::MAX
    &&& MIN_NODE_SIZE <= rect.height->Px_0 + height_change(corner, dy) <= i32::MAX
    &&& i32::MIN <= rect.left->Px_0 + left_change(corner, dx) <= i32::MAX
    &&& i32::MIN <= rect.bottom->Px_0 + bottom_change(corner, dy) <= i32::MAX
}

/// Horizontal position of the corner opposite to `corner`.
pub open spec fn opposite_x(corner: ResizeMarker, rect: Rect) -> int
    recommends
        rect.left is Px,
        rect.width is Px,
{
    match corner {
        ResizeMarker::TopLeft | ResizeMarker::BottomLeft => rect.left->Px_0 + rect.width->Px_0,
        ResizeMarker::TopRight | ResizeMarker::BottomRight => rect.left->Px_0 as int,
    }
}

/// Vertical position of the corner opposite to `corner`.
pub open spec fn opposite_y(corner: ResizeMarker, rect: Rect) -> int
    recommends
        rect.bottom is Px,
        rect.height is Px,
{
    match corner {
        ResizeMarker::TopLeft | ResizeMarker::TopRight => rect.bottom->Px_0 as int,
        ResizeMarker::BottomLeft | ResizeMarker::BottomRight => rect.bottom->Px_0
            + rect.height->Px_0,
    }
}

/// Brings a wide intermediate result back into the range of a stored length.
pub fn clamp_to_unit(v: i64) -> (r: i32)
    ensures
        r == clamp_unit(v as int),
{
    if v < -2147483648i64 {
        -2147483648i32
    } else if v > 2147483647i64 {
        2147483647i32
    } else {
        v as i32
    }
}

/// Converts a length to absolute units, given the extent of the container
/// that percentages refer to.
pub fn to_absolute(value: Val, reference_extent: u32) -> (r: i64)
    ensures
        r == to_absolute_spec(value, reference_extent as int),
        -0x4000_0000_0000_0000 <= r <= 0x4000_0000_0000_0000,
{
    match value {
        Val::Px(v) => v as i64,
        Val::Percent(p) => {
            let e: i64 = reference_extent as i64;
            if p >= 0 {
                let q: i64 = p as i64;
                assert(0 <= q * e <= 0x7fff_ffff * 0xffff_ffff) by (nonlinear_arith)
                    requires
                        0 <= q <= 0x7fff_ffff,
                        0 <= e <= 0xffff_ffff,
                ;
                (q * e) / 100
            } else {
                let q: i64 = -(p as i64);
                assert(0 <= q * e <= 0x8000_0000 * 0xffff_ffff) by (nonlinear_arith)
                    requires
                        0 <= q <= 0x8000_0000,
                        0 <= e <= 0xffff_ffff,
                ;
                -((q * e) / 100)
            }
        },
    }
}

/// Half of a stored length, rounded towards zero.
pub fn half_of(v: i32) -> (r: i64)
    ensures
        r == half(v as int),
{
    let wide: i64 = v as i64;
    if wide >= 0 {
        wide / 2
    } else {
        -((-wide) / 2)
    }
}

/// Moves `rect` so that it is centred on the pointer at `(x, y)`; `panel` is
/// the width of what lies between the window's edge and the canvas, as a
/// share of `window_width` or in absolute units.
pub fn drag_to(rect: Rect, x: i32, y: i32, panel: Val, window_width: u32) -> (r: Rect)
    ensures
        r == dragged_to(rect, x as int, y as int, to_absolute_spec(panel, window_width as int)),
{
    match (rect.width, rect.height) {
        (Val::Px(w), Val::Px(h)) => {
            let offset: i64 = to_absolute(panel, window_width);
            let left: i64 = x as i64 - offset - half_of(w);
            let bottom: i64 = y as i64 - half_of(h);
            Rect {
                left: Val::Px(clamp_to_unit(left)),
                bottom: Val::Px(clamp_to_unit(bottom)),
                width: rect.width,
                height: rect.height,
            }
        },
        _ => rect,
    }
}

/// A size after it changed by `change`, kept at or above `MIN_NODE_SIZE`.
fn resize_val(size: Val, change: i64) -> (r: Val)
    requires
        -0x1_0000_0000 <= change <= 0x1_0000_0000,
    ensures
        r == resized(size, change as int),
{
    match size {
        Val::Px(s) => {
            let wide: i64 = s as i64 + change;
            if wide < MIN_NODE_SIZE as i64 {
                Val::Px(MIN_NODE_SIZE)
            } else {
                Val::Px(clamp_to_unit(wide))
            }
        },
        Val::Percent(_) => size,
    }
}

/// A coordinate after it moved by `change`.
fn shift_val(pos: Val, change: i64) -> (r: Val)
    requires
        -0x1_0000_0000 <= change <= 0x1_0000_0000,
    ensures
        r == shifted(pos, change as int),
{
    match pos {
        Val::Px(p) => Val::Px(clamp_to_unit(p as i64 + change)),
        Val::Percent(_) => pos,
    }
}

/// Applies the anchored-resize rule for one pointer motion `(dx, dy)` at the
/// handle `corner`.
pub fn apply_resize(corner: ResizeMarker, dx: i32, dy: i32, rect: Rect) -> (r: Rect)
    ensures
        r == apply_resize_spec(corner, dx as int, dy as int, rect),
{
    let x: i64 = dx as i64;
    let y: i64 = dy as i64;
    match corner {
        ResizeMarker::TopLeft => Rect {
            left: shift_val(rect.left, x),
            bottom: shift_val(rect.bottom, 0),
            width: resize_val(rect.width, -x),
            height: resize_val(rect.height, -y),
        },
        ResizeMarker::TopRight => Rect {
            left: shift_val(rect.left, 0),
            bottom: shift_val(rect.bottom, 0),
            width: resize_val(rect.width, x),
            height: resize_val(rect.height, -y),
        },
        ResizeMarker::BottomLeft => Rect {
            left: shift_val(rect.left, x),
            bottom: shift_val(rect.bottom, -y),
            width: resize_val(rect.width, -x),
            height: resize_val(rect.height, y),
        },
        ResizeMarker::BottomRight => Rect {
            left: shift_val(rect.left, 0),
            bottom: shift_val(rect.bottom, -y),
            width: resize_val(rect.width, x),
            height: resize_val(rect.height, y),
        },
    }
}

/// An absolute size never ends below `MIN_NODE_SIZE`, whatever the motion.
pub proof fn lemma_resize_keeps_minimum(corner: ResizeMarker, dx: int, dy: int, rect: Rect)
    ensures
        apply_resize_spec(corner, dx, dy, rect).width is Px ==> apply_resize_spec(
            corner,
            dx,
            dy,
            rect,
        ).width->Px_0 >= MIN_NODE_SIZE,
        apply_resize_spec(corner, dx, dy, rect).height is Px ==> apply_resize_spec(
            corner,
            dx,
            dy,
            rect,
        ).height->Px_0 >= MIN_NODE_SIZE,
{
}

/// Percentage-sized rectangles are not interactively resizable: their size
/// is the same after any motion at any handle.
pub proof fn lemma_percent_size_is_fixed(corner: ResizeMarker, dx: int, dy: int, rect: Rect)
    ensures
        rect.width is Percent ==> apply_resize_spec(corner, dx, dy, rect).width == rect.width,
        rect.height is Percent ==> apply_resize_spec(corner, dx, dy, rect).height == rect.height,
{
}

/// Resizing at the right-hand handles never changes `left`, and resizing at
/// the top handles never changes `bottom`.
pub proof fn lemma_resize_is_corner_local(corner: ResizeMarker, dx: int, dy: int, rect: Rect)
    ensures
        (corner == ResizeMarker::TopRight || corner == ResizeMarker::BottomRight)
            ==> apply_resize_spec(corner, dx, dy, rect).left == rect.left,
        (corner == ResizeMarker::TopLeft || corner == ResizeMarker::TopRight)
            ==> apply_resize_spec(corner, dx, dy, rect).bottom == rect.bottom,
{
}

/// A purely horizontal motion at the bottom-right handle changes neither
/// `left` nor `bottom`.
pub proof fn lemma_bottom_right_horizontal(dx: int, rect: Rect)
    ensures
        apply_resize_spec(ResizeMarker::BottomRight, dx, 0, rect).left == rect.left,
        apply_resize_spec(ResizeMarker::BottomRight, dx, 0, rect).bottom == rect.bottom,
{
}

/// While a resize stays clear of the minimum size and of the stored range,
/// each size changes by exactly the signed motion and the corner opposite to
/// the dragged handle does not move.
pub proof fn lemma_resize_fixes_opposite_corner(
    corner: ResizeMarker,
    dx: int,
    dy: int,
    rect: Rect,
)
    requires
        resize_is_exact(corner, dx, dy, rect),
    ensures
        apply_resize_spec(corner, dx, dy, rect).width == Val::Px(
            (rect.width->Px_0 + width_change(corner, dx)) as i32,
        ),
        apply_resize_spec(corner, dx, dy, rect).height == Val::Px(
            (rect.height->Px_0 + height_change(corner, dy)) as i32,
        ),
        opposite_x(corner, apply_resize_spec(corner, dx, dy, rect)) == opposite_x(corner, rect),
        opposite_y(corner, apply_resize_spec(corner, dx, dy, rect)) == opposite_y(corner, rect),
{
}

} // verus!
