//! What happens on the live canvas: new nodes, pasted images, dragging,
//! typing and connecting.

use crate::app_state::{AppState, AppView};
use crate::checkpoint::{touches, Checkpoint, Edit, EditView, ModelError};
use crate::geometry::{drag_to, dragged_to, half, half_of, to_absolute_spec, Rect, Val};
use crate::interaction::UiState;
use crate::node::{
    image_fits, image_rect, Arrow, ArrowConnectPos, ArrowEnd, ImageData, ImageView, Node, NodeView,
};
use crate::text::Key;
use vstd::prelude::*;

verus! {

/// Width and height of a new rectangle.
pub const DEFAULT_NODE_SIZE: i32 = 100;

/// The rectangle of a new node: at the origin, `DEFAULT_NODE_SIZE` wide and
/// high.
pub open spec fn default_rect() -> Rect {
    Rect {
        left: Val::Px(0),
        bottom: Val::Px(0),
        width: Val::Px(DEFAULT_NODE_SIZE),
        height: Val::Px(DEFAULT_NODE_SIZE),
    }
}

/// The id that the next node or arrow gets.
pub open spec fn next_id(app: AppView) -> u64
    recommends
        app.entity_counter < u64::MAX,
{
    (app.entity_counter + 1) as u64
}

/// What placing a new node answers: its id, unless the counter is at its
/// end or the id is already on the canvas.
pub open spec fn new_node_outcome(app: AppView) -> Result<u64, ModelError> {
    if app.entity_counter == u64::MAX {
        Err(ModelError::IdsExhausted)
    } else if app.live().has_node(next_id(app)) {
        Err(ModelError::DuplicateId)
    } else {
        Ok(next_id(app))
    }
}

/// The state after placing the new node `node`: the counter has moved on
/// (unless it was at its end) and the node is on the live canvas (unless its
/// id was taken).
pub open spec fn after_new_node(app: AppView, node: NodeView) -> AppView {
    if app.entity_counter == u64::MAX {
        app
    } else {
        app.with_counter(next_id(app)).edited(EditView::AddNode(node))
    }
}

/// The node that a paste of `width` by `height` pixels creates.
pub open spec fn pasted_node(id: u64, width: u32, height: u32, rgba: Seq<u8>) -> NodeView {
    NodeView {
        image: Some(ImageView { width, height, rgba }),
        ..NodeView::plain(id, image_rect(width, height))
    }
}

/// Whether raw clipboard pixels make up an image: both dimensions fit 32
/// bits and the bytes cover them.
pub open spec fn paste_is_valid(width: usize, height: usize, len: nat) -> bool {
    &&& width <= u32::MAX
    &&& height <= u32::MAX
    &&& image_fits(width as u32, height as u32, len)
}

/// The node that follows the pointer, if it is on the live canvas.
pub open spec fn drag_subject(app: AppView, ui: UiState) -> Option<u64> {
    match ui.hold_entity {
        Some(id) => if app.live().has_node(id) {
            Some(id)
        } else {
            None
        },
        None => None,
    }
}

/// The state after the pointer moved to `(x, y)`: a dragged node is centred
/// on the pointer; without one the motion is ignored.
pub open spec fn after_drag_motion(app: AppView, ui: UiState, x: int, y: int, panel: int) -> AppView {
    match drag_subject(app, ui) {
        Some(id) => app.edited(
            EditView::SetRect(id, dragged_to(app.live().node(id).rect, x, y, panel)),
        ),
        None => app,
    }
}

/// The node that takes the keystrokes, if it is on the live canvas.
pub open spec fn typing_subject(app: AppView, ui: UiState) -> Option<u64> {
    match ui.entity_to_edit {
        Some(id) => if app.live().has_node(id) {
            Some(id)
        } else {
            None
        },
        None => None,
    }
}

/// The state after a keystroke: it goes to the edited node and to no other.
pub open spec fn after_typing(app: AppView, ui: UiState, key: Key) -> AppView {
    match typing_subject(app, ui) {
        Some(id) => app.edited(EditView::TypeKey(id, key)),
        None => app,
    }
}

/// The arrow that a click on the connect marker `end` completes, if any:
/// there is a pending start, it is another marker, and the counter can name
/// the arrow.
pub open spec fn completed_arrow(app: AppView, ui: UiState, end: ArrowEnd) -> Option<Arrow> {
    match ui.arrow_to_draw_start {
        Some(start) => if start == end || app.entity_counter == u64::MAX {
            None
        } else {
            Some(Arrow { id: next_id(app), from: start, to: end, arrow_type: ui.arrow_type })
        },
        None => None,
    }
}

/// The interaction state after a click on the connect marker `end`: the
/// first click notes the start, the second ends the construction, be it by
/// an arrow or, on the same marker, by cancelling.
pub open spec fn ui_after_connect(ui: UiState, end: ArrowEnd) -> UiState {
    match ui.arrow_to_draw_start {
        Some(_) => UiState { arrow_to_draw_start: None, ..ui },
        None => UiState { arrow_to_draw_start: Some(end), ..ui },
    }
}

/// The state after a click on the connect marker `end`: a completed arrow
/// takes an id and goes onto the live canvas, if the canvas accepts it.
pub open spec fn app_after_connect(app: AppView, ui: UiState, end: ArrowEnd) -> AppView {
    match completed_arrow(app, ui, end) {
        Some(arrow) => app.with_counter(arrow.id).edited(EditView::AddArrow(arrow)),
        None => app,
    }
}

/// A point of the canvas, in canvas units.
#[derive(Clone, Copy, Debug, PartialEq, Eq, Structural)]
pub struct Point {
    pub x: i64,
    pub y: i64,
}

/// The arrows that start or end at the node `id`.
pub open spec fn touching(id: u64) -> spec_fn(Arrow) -> bool {
    |a: Arrow| touches(a, id)
}

/// The point where an arrow meets the side `pos` of a rectangle: the middle
/// of that side, in the units and axes of the rectangle. A rectangle with a
/// percentage among its fields has no such point.
pub open spec fn anchor_of(rect: Rect, pos: ArrowConnectPos) -> Option<(int, int)> {
    match (rect.left, rect.bottom, rect.width, rect.height) {
        (Val::Px(l), Val::Px(b), Val::Px(w), Val::Px(h)) => Some(
            match pos {
                ArrowConnectPos::Top => (l + half(w as int), b + h),
                ArrowConnectPos::Bottom => (l + half(w as int), b as int),
                ArrowConnectPos::Left => (l as int, b + half(h as int)),
                ArrowConnectPos::Right => (l + w, b + half(h as int)),
            },
        ),
        _ => None,
    }
}

/// The point where an arrow meets the side `pos` of `rect`.
pub fn anchor_point(rect: Rect, pos: ArrowConnectPos) -> (r: Option<Point>)
    ensures
        match r {
            Some(p) => anchor_of(rect, pos) == Some((p.x as int, p.y as int)),
            None => anchor_of(rect, pos) is None,
        },
{
    match (rect.left, rect.bottom, rect.width, rect.height) {
        (Val::Px(l), Val::Px(b), Val::Px(w), Val::Px(h)) => {
            let left: i64 = l as i64;
            let bottom: i64 = b as i64;
            Some(
                match pos {
                    ArrowConnectPos::Top => Point { x: left + half_of(w), y: bottom + h as i64 },
                    ArrowConnectPos::Bottom => Point { x: left + half_of(w), y: bottom },
                    ArrowConnectPos::Left => Point { x: left, y: bottom + half_of(h) },
                    ArrowConnectPos::Right => Point { x: left + w as i64, y: bottom + half_of(h) },
                },
            )
        },
        _ => None,
    }
}

/// The arrows of `canvas` that have to be drawn anew when the node `id`
/// moved or changed its size: those that start or end there, in insertion
/// order.
pub fn arrows_to_redraw(canvas: &Checkpoint, id: u64) -> (arrows: Vec<Arrow>)
    ensures
        arrows@ == canvas@.arrows.filter(touching(id)),
{
    let mut arrows: Vec<Arrow> = Vec::new();
    let n: usize = canvas.arrow_count();
    let mut i: usize = 0;
    while i < n
        invariant
            i <= n,
            n == canvas@.arrows.len(),
            arrows@ == canvas@.arrows.subrange(0, i as int).filter(touching(id)),
        decreases n - i,
    {
        let a = canvas.arrow_at(i);
        proof {
            let prefix = canvas@.arrows.subrange(0, i as int);
            assert(canvas@.arrows.subrange(0, i as int + 1) =~= prefix.push(a));
            prefix.lemma_filter_push(a, touching(id));
        }
        if a.from.node == id || a.to.node == id {
            arrows.push(a);
        }
        i += 1;
    }
    assert(canvas@.arrows.subrange(0, n as int) =~= canvas@.arrows);
    arrows
}

/// Puts a new rectangle of the default size on the live canvas and returns
/// its id.
pub fn create_new_rectangle(app: &mut AppState) -> (r: Result<u64, ModelError>)
    requires
        old(app)@.wf(),
    ensures
        final(app)@.wf(),
        r == new_node_outcome(old(app)@),
        final(app)@ == after_new_node(
            old(app)@,
            NodeView::plain(next_id(old(app)@), default_rect()),
        ),
{
    let id = match app.next_id() {
        Ok(id) => id,
        Err(e) => {
            return Err(e);
        },
    };
    let rect = Rect {
        left: Val::Px(0),
        bottom: Val::Px(0),
        width: Val::Px(DEFAULT_NODE_SIZE),
        height: Val::Px(DEFAULT_NODE_SIZE),
    };
    match app.edit_live(Edit::AddNode(Node::new(id, rect))) {
        Ok(_) => Ok(id),
        Err(e) => Err(e),
    }
}

/// Turns raw clipboard pixels into a new node that shows them at their
/// natural size, and returns its id. Pixels that do not make up an image of
/// the stated dimensions are declined before anything changes.
pub fn insert_image_from_clipboard(
    app: &mut AppState,
    width: usize,
    height: usize,
    bytes: Vec<u8>,
) -> (r: Result<u64, ModelError>)
    requires
        old(app)@.wf(),
    ensures
        final(app)@.wf(),
        !paste_is_valid(width, height, bytes@.len()) ==> r == Err::<u64, ModelError>(
            ModelError::InvalidImage,
        ) && final(app)@ == old(app)@,
        paste_is_valid(width, height, bytes@.len()) ==> r == new_node_outcome(old(app)@)
            && final(app)@ == after_new_node(
            old(app)@,
            pasted_node(next_id(old(app)@), width as u32, height as u32, bytes@),
        ),
{
    if width > 0xffff_ffff || height > 0xffff_ffff {
        return Err(ModelError::InvalidImage);
    }
    let image = match ImageData::from_raw(width as u32, height as u32, bytes) {
        Some(image) => image,
        None => {
            return Err(ModelError::InvalidImage);
        },
    };
    let id = match app.next_id() {
        Ok(id) => id,
        Err(e) => {
            return Err(e);
        },
    };
    match app.edit_live(Edit::AddNode(Node::with_image(id, image))) {
        Ok(_) => Ok(id),
        Err(e) => Err(e),
    }
}

/// Takes up that the pointer moved to `(x, y)`, counted from the lower left
/// corner of the window. `panel` is the width of the side panel between the
/// window's edge and the canvas. Returns the dragged node, whose arrows are
/// to be redrawn; `None` when nothing is dragged.
pub fn update_rectangle_pos(
    app: &mut AppState,
    ui: &UiState,
    x: i32,
    y: i32,
    panel: Val,
    window_width: u32,
) -> (redraw: Option<u64>)
    requires
        old(app)@.wf(),
    ensures
        final(app)@.wf(),
        final(app)@ == after_drag_motion(
            old(app)@,
            *ui,
            x as int,
            y as int,
            to_absolute_spec(panel, window_width as int),
        ),
        redraw == drag_subject(old(app)@, *ui),
{
    match ui.hold_entity {
        Some(id) => {
            let rect = match app.live().node(id) {
                Some(node) => node.rect(),
                None => {
                    return None;
                },
            };
            let next = drag_to(rect, x, y, panel, window_width);
            let _ = app.edit_live(Edit::SetRect(id, next));
            Some(id)
        },
        None => None,
    }
}

/// Takes up one keystroke: it changes the text of the node being edited.
/// Returns that node; `None` when no node is being edited and the keystroke
/// is ignored.
pub fn update_text_on_typing(app: &mut AppState, ui: &UiState, key: Key) -> (edited: Option<u64>)
    requires
        old(app)@.wf(),
    ensures
        final(app)@.wf(),
        final(app)@ == after_typing(old(app)@, *ui, key),
        edited == typing_subject(old(app)@, *ui),
{
    match ui.entity_to_edit {
        Some(id) => {
            if app.live().find_node(id).is_none() {
                return None;
            }
            let _ = app.edit_live(Edit::TypeKey(id, key));
            Some(id)
        },
        None => None,
    }
}

/// The state after the node being edited was deleted.
pub open spec fn after_delete(app: AppView, ui: UiState) -> AppView {
    match typing_subject(app, ui) {
        Some(id) => app.edited(EditView::DeleteNode(id)),
        None => app,
    }
}

/// Deletes the node being edited, and with it the arrows that touch it; the
/// pointers of the interaction state, which may name the node, are cleared.
/// Returns the deleted node; `None` when no node is being edited and nothing
/// changes.
pub fn delete_edited_node(app: &mut AppState, ui: &mut UiState) -> (deleted: Option<u64>)
    requires
        old(app)@.wf(),
    ensures
        final(app)@.wf(),
        deleted == typing_subject(old(app)@, *old(ui)),
        final(app)@ == after_delete(old(app)@, *old(ui)),
        *final(ui) == if deleted is Some {
            old(ui).cleared()
        } else {
            *old(ui)
        },
{
    match ui.entity_to_edit {
        Some(id) => {
            match app.edit_live(Edit::DeleteNode(id)) {
                Ok(_) => {
                    ui.clear();
                    Some(id)
                },
                Err(_) => None,
            }
        },
        None => None,
    }
}

/// Takes up a click on the connect marker at side `pos` of `node`. The
/// first click notes where the arrow starts. A second click on another
/// marker creates the arrow in the current style; on the same marker it
/// cancels. Returns the arrow that now is on the canvas, if one was created.
pub fn connect_rectangles(app: &mut AppState, ui: &mut UiState, node: u64, pos: ArrowConnectPos) -> (created:
    Option<Arrow>)
    requires
        old(app)@.wf(),
    ensures
        final(app)@.wf(),
        *final(ui) == ui_after_connect(*old(ui), ArrowEnd { node, pos }),
        final(app)@ == app_after_connect(old(app)@, *old(ui), ArrowEnd { node, pos }),
        match completed_arrow(old(app)@, *old(ui), ArrowEnd { node, pos }) {
            Some(arrow) => created == if old(app)@.live().outcome(EditView::AddArrow(arrow)) is Ok {
                Some(arrow)
            } else {
                None
            },
            None => created is None,
        },
{
    let end = ArrowEnd { node, pos };
    match ui.arrow_to_draw_start {
        None => {
            ui.arrow_to_draw_start = Some(end);
            None
        },
        Some(start) => {
            ui.arrow_to_draw_start = None;
            if start.node == end.node && start.pos == end.pos {
                return None;
            }
            let id = match app.next_id() {
                Ok(id) => id,
                Err(_) => {
                    return None;
                },
            };
            let arrow = Arrow { id, from: start, to: end, arrow_type: ui.arrow_type };
            proof {
                old(app)@.lemma_current_wf();
            }
            match app.edit_live(Edit::AddArrow(arrow)) {
                Ok(_) => Some(arrow),
                Err(_) => None,
            }
        },
    }
}

} // verus!
