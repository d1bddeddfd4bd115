//! Corner-handle resizing: picking the handle, and following the pointer.

use crate::app_state::{AppState, AppView};
use crate::checkpoint::{Edit, EditView};
use crate::geometry::{apply_resize, apply_resize_spec, Rect, ResizeMarker};
use crate::interaction::{resize_cursor, CursorHint, Interaction, UiState};
use vstd::prelude::*;

verus! {

/// The cursor to show after the pointer did `interaction` to a corner
/// handle: a click leaves the cursor alone, hovering shows the diagonal of
/// the handle, leaving brings back the normal cursor.
pub open spec fn resize_start_cursor(interaction: Interaction, marker: ResizeMarker) -> Option<
    CursorHint,
> {
    match interaction {
        Interaction::Clicked => None,
        Interaction::Hovered => Some(resize_cursor(marker)),
        Interaction::Out => Some(CursorHint::Normal),
    }
}

/// The node that a pointer motion resizes: the resize target, if it is on
/// the live canvas.
pub open spec fn resize_subject(app: AppView, ui: UiState) -> Option<(u64, ResizeMarker)> {
    match ui.entity_to_resize {
        Some((id, marker)) => if app.live().has_node(id) {
            Some((id, marker))
        } else {
            None
        },
        None => None,
    }
}

/// The rectangle that the resized node gets for a pointer motion of
/// `(dx, dy)`.
pub open spec fn resized_rect(app: AppView, ui: UiState, dx: int, dy: int) -> Rect
    recommends
        resize_subject(app, ui) is Some,
{
    let (id, marker) = resize_subject(app, ui)->0;
    apply_resize_spec(marker, dx, dy, app.live().node(id).rect)
}

/// The state after a pointer motion of `(dx, dy)`: with a resize target on
/// the canvas, that node is resized by the anchored-resize rule; otherwise
/// the motion is ignored.
pub open spec fn after_resize_motion(app: AppView, ui: UiState, dx: int, dy: int) -> AppView {
    match resize_subject(app, ui) {
        Some((id, _)) => app.edited(EditView::SetRect(id, resized_rect(app, ui, dx, dy))),
        None => app,
    }
}

fn cursor_of(marker: ResizeMarker) -> (cursor: CursorHint)
    ensures
        cursor == resize_cursor(marker),
{
    match marker {
        ResizeMarker::TopLeft => CursorHint::NwseResize,
        ResizeMarker::TopRight => CursorHint::NeswResize,
        ResizeMarker::BottomLeft => CursorHint::NeswResize,
        ResizeMarker::BottomRight => CursorHint::NwseResize,
    }
}

/// Takes up what the pointer did to the corner handle `marker` of `node`: a
/// click makes it the resize target. Returns the cursor to show, if it is to
/// change.
pub fn resize_entity_start(
    ui: &mut UiState,
    interaction: Interaction,
    node: u64,
    marker: ResizeMarker,
) -> (cursor: Option<CursorHint>)
    ensures
        *final(ui) == old(ui).after_resize_start(interaction, node, marker),
        cursor == resize_start_cursor(interaction, marker),
{
    match interaction {
        Interaction::Clicked => {
            ui.entity_to_resize = Some((node, marker));
            None
        },
        Interaction::Hovered => Some(cursor_of(marker)),
        Interaction::Out => Some(CursorHint::Normal),
    }
}

/// Takes up a pointer motion of `(dx, dy)` while a resize may be active.
/// Returns the resized node and its new rectangle, so that its arrows can be
/// redrawn and its text be wrapped to the new size; `None` when there was
/// nothing to resize.
pub fn resize_entity_end(app: &mut AppState, ui: &UiState, dx: i32, dy: i32) -> (redraw: Option<
    (u64, Rect),
>)
    requires
        old(app)@.wf(),
    ensures
        final(app)@.wf(),
        final(app)@ == after_resize_motion(old(app)@, *ui, dx as int, dy as int),
        match resize_subject(old(app)@, *ui) {
            Some((id, _)) => redraw == Some((id, resized_rect(old(app)@, *ui, dx as int, dy as int))),
            None => redraw is None,
        },
{
    match ui.entity_to_resize {
        Some((id, marker)) => {
            let rect = match app.live().node(id) {
                Some(node) => node.rect(),
                None => {
                    return None;
                },
            };
            let next = apply_resize(marker, dx, dy, rect);
            let _ = app.edit_live(Edit::SetRect(id, next));
            Some((id, next))
        },
        None => None,
    }
}

} // verus!
