//! The transient interaction state and the pointer transitions that touch
//! nothing else.
//!
//! The state is a handful of optional pointers, as the handlers write them.
//! `UiState::mode` reads the one pointer mode off them. Every transition is
//! total: an event that does not apply leaves the state alone.

use crate::geometry::ResizeMarker;
use crate::node::{ArrowConnectPos, ArrowEnd, ArrowType};
use vstd::prelude::*;

verus! {

/// How long the button has to stay down before a click turns into a drag.
pub const HOLD_THRESHOLD_MS: u64 = 150;

/// The longest gap between the two clicks of a double click.
pub const DOUBLE_CLICK_MS: u64 = 500;

/// What the pointer does to a widget.
#[derive(Clone, Copy, Debug, PartialEq, Eq, Structural)]
pub enum Interaction {
    /// The button went down on the widget.
    Clicked,
    /// The pointer is over the widget.
    Hovered,
    /// The pointer is elsewhere.
    Out,
}

/// The cursor shape to show.
#[derive(Clone, Copy, Debug, PartialEq, Eq, Structural)]
pub enum CursorHint {
    Normal,
    Text,
    Move,
    /// The diagonal from top-left to bottom-right.
    NwseResize,
    /// The diagonal from top-right to bottom-left.
    NeswResize,
}

/// What a confirmation dialog is about.
#[derive(Clone, Copy, Debug, PartialEq, Eq, Structural)]
pub enum ModalEntity {
    Tab,
    Document,
}

/// An open confirmation dialog.
#[derive(Clone, Copy, Debug, PartialEq, Eq, Structural)]
pub struct Modal {
    pub id: u128,
    pub entity: ModalEntity,
}

/// A button that went down on a node and has not come up yet.
#[derive(Clone, Copy, Debug, PartialEq, Eq, Structural)]
pub struct Hold {
    pub node: u64,
    pub since_ms: u64,
}

/// A click on a label.
#[derive(Clone, Copy, Debug, PartialEq, Eq, Structural)]
pub struct LabelClick {
    pub id: u128,
    pub at_ms: u64,
}

/// The pointer mode, one at a time.
#[derive(Clone, Copy, Debug, PartialEq, Eq, Structural)]
pub enum PointerMode {
    Idle,
    Hovered(u64),
    Editing(u64),
    /// Button down on a node since the given time, drag not yet confirmed.
    PendingDrag(u64, u64),
    Dragging(u64),
    Resizing(u64, ResizeMarker),
    ConnectingArrow(u64, ArrowConnectPos),
}

/// The transient interaction state. Nothing of it is persisted.
#[derive(Clone, Copy, Debug, PartialEq, Eq)]
pub struct UiState {
    /// The node under the pointer.
    pub hovered: Option<u64>,
    /// The node whose text takes the keystrokes.
    pub entity_to_edit: Option<u64>,
    /// The node the button went down on, and when.
    pub holding: Option<Hold>,
    /// The node that follows the pointer.
    pub hold_entity: Option<u64>,
    /// The node being resized, and the handle in use.
    pub entity_to_resize: Option<(u64, ResizeMarker)>,
    /// Where the arrow under construction starts.
    pub arrow_to_draw_start: Option<ArrowEnd>,
    /// The style that new arrows get.
    pub arrow_type: ArrowType,
    /// The tab whose label is being renamed.
    pub tab_to_edit: Option<u128>,
    /// The document whose label is being renamed.
    pub doc_to_edit: Option<u128>,
    /// The open confirmation dialog.
    pub modal: Option<Modal>,
}

/// Whether `now` lies at or after `since` and less than `limit` later. A
/// clock that ran backwards is never within a limit.
pub open spec fn within(now: u64, since: u64, limit: u64) -> bool {
    now >= since && now - since < limit
}

/// Whether `now` lies more than `limit` after `since`. A clock that ran
/// backwards never exceeds a limit.
pub open spec fn exceeds(now: u64, since: u64, limit: u64) -> bool {
    now >= since && now - since > limit
}

/// The cursor that belongs to a corner handle: opposite corners share a
/// diagonal.
pub open spec fn resize_cursor(marker: ResizeMarker) -> CursorHint {
    match marker {
        ResizeMarker::TopLeft | ResizeMarker::BottomRight => CursorHint::NwseResize,
        ResizeMarker::TopRight | ResizeMarker::BottomLeft => CursorHint::NeswResize,
    }
}

impl UiState {
    /// Nothing hovered, held, edited, resized, connected, renamed or asked,
    /// and the plain line as arrow style.
    pub open spec fn idle() -> UiState {
        UiState {
            hovered: None,
            entity_to_edit: None,
            holding: None,
            hold_entity: None,
            entity_to_resize: None,
            arrow_to_draw_start: None,
            arrow_type: ArrowType::Line,
            tab_to_edit: None,
            doc_to_edit: None,
            modal: None,
        }
    }

    /// All pointers cleared; the arrow style, which points at nothing, stays.
    pub open spec fn cleared(self) -> UiState {
        UiState { arrow_type: self.arrow_type, ..Self::idle() }
    }

    /// The pointer mode. Where several pointers are set, the one that the
    /// pointer device is busy with wins: resizing, dragging, a pending drag,
    /// an arrow under construction, editing, hovering.
    pub open spec fn mode(self) -> PointerMode {
        if let Some((node, marker)) = self.entity_to_resize {
            PointerMode::Resizing(node, marker)
        } else if let Some(node) = self.hold_entity {
            PointerMode::Dragging(node)
        } else if let Some(hold) = self.holding {
            PointerMode::PendingDrag(hold.node, hold.since_ms)
        } else if let Some(start) = self.arrow_to_draw_start {
            PointerMode::ConnectingArrow(start.node, start.pos)
        } else if let Some(node) = self.entity_to_edit {
            PointerMode::Editing(node)
        } else if let Some(node) = self.hovered {
            PointerMode::Hovered(node)
        } else {
            PointerMode::Idle
        }
    }

    /// The state after the pointer did `interaction` to the body of `node`
    /// at time `now_ms`.
    ///
    /// A click clears every pointer, makes `node` the edited node and notes
    /// the time the button went down. Hovering records the node under the
    /// pointer. Leaving forgets it, if it was this node.
    pub open spec fn after_focus(self, interaction: Interaction, node: u64, now_ms: u64) -> UiState {
        match interaction {
            Interaction::Clicked => UiState {
                entity_to_edit: Some(node),
                holding: Some(Hold { node, since_ms: now_ms }),
                ..self.cleared()
            },
            Interaction::Hovered => UiState { hovered: Some(node), ..self },
            Interaction::Out => if self.hovered == Some(node) {
                UiState { hovered: None, ..self }
            } else {
                self
            },
        }
    }

    /// The cursor to show after the pointer did `interaction` to the body of
    /// a node: the text cursor on a click and wherever a text is being
    /// edited, the move cursor while a node is dragged along, the normal one
    /// otherwise.
    pub open spec fn focus_cursor(self, interaction: Interaction) -> CursorHint {
        match interaction {
            Interaction::Clicked => CursorHint::Text,
            _ => if self.entity_to_edit is Some {
                CursorHint::Text
            } else if self.hold_entity is Some {
                CursorHint::Move
            } else {
                CursorHint::Normal
            },
        }
    }

    /// Whether the held click has lasted long enough at `now_ms` to become a
    /// drag: the button went down more than `HOLD_THRESHOLD_MS` ago, no drag
    /// is under way yet and no resize is active.
    pub open spec fn hold_is_due(self, now_ms: u64) -> bool {
        &&& self.holding is Some
        &&& self.hold_entity is None
        &&& self.entity_to_resize is None
        &&& exceeds(now_ms, self.holding->0.since_ms, HOLD_THRESHOLD_MS)
    }

    /// The state at time `now_ms` while the button is down: a hold that is
    /// due turns the held node into the dragged node and ends its editing.
    pub open spec fn after_hold(self, now_ms: u64) -> UiState {
        if self.hold_is_due(now_ms) {
            UiState { hold_entity: Some(self.holding->0.node), entity_to_edit: None, ..self }
        } else {
            self
        }
    }

    /// The state after the button went up: no hold, no drag, no resize.
    pub open spec fn released(self) -> UiState {
        UiState { holding: None, hold_entity: None, entity_to_resize: None, ..self }
    }

    /// The state after the pointer did `interaction` to the corner handle
    /// `marker` of `node`: a click makes it the resize target.
    pub open spec fn after_resize_start(
        self,
        interaction: Interaction,
        node: u64,
        marker: ResizeMarker,
    ) -> UiState {
        match interaction {
            Interaction::Clicked => UiState { entity_to_resize: Some((node, marker)), ..self },
            _ => self,
        }
    }

    /// The state with nothing set.
    pub fn new() -> (r: UiState)
        ensures
            r == UiState::idle(),
    {
        UiState {
            hovered: None,
            entity_to_edit: None,
            holding: None,
            hold_entity: None,
            entity_to_resize: None,
            arrow_to_draw_start: None,
            arrow_type: ArrowType::Line,
            tab_to_edit: None,
            doc_to_edit: None,
            modal: None,
        }
    }

    /// Clears every pointer and keeps the arrow style.
    pub fn clear(&mut self)
        ensures
            *final(self) == old(self).cleared(),
    {
        let arrow_type = self.arrow_type;
        *self = UiState::new();
        self.arrow_type = arrow_type;
    }

    /// The pointer mode.
    pub fn pointer_mode(&self) -> (m: PointerMode)
        ensures
            m == self.mode(),
    {
        if let Some((node, marker)) = self.entity_to_resize {
            PointerMode::Resizing(node, marker)
        } else if let Some(node) = self.hold_entity {
            PointerMode::Dragging(node)
        } else if let Some(hold) = self.holding {
            PointerMode::PendingDrag(hold.node, hold.since_ms)
        } else if let Some(start) = self.arrow_to_draw_start {
            PointerMode::ConnectingArrow(start.node, start.pos)
        } else if let Some(node) = self.entity_to_edit {
            PointerMode::Editing(node)
        } else if let Some(node) = self.hovered {
            PointerMode::Hovered(node)
        } else {
            PointerMode::Idle
        }
    }
}

impl Default for UiState {
    fn default() -> (r: UiState)
        ensures
            r == UiState::idle(),
    {
        UiState::new()
    }
}

/// Takes up what the pointer did to the body of `node` at time `now_ms` and
/// returns the cursor to show.
pub fn set_focused_entity(ui: &mut UiState, interaction: Interaction, node: u64, now_ms: u64) -> (cursor:
    CursorHint)
    ensures
        *final(ui) == old(ui).after_focus(interaction, node, now_ms),
        cursor == old(ui).focus_cursor(interaction),
{
    match interaction {
        Interaction::Clicked => {
            ui.clear();
            ui.entity_to_edit = Some(node);
            ui.holding = Some(Hold { node, since_ms: now_ms });
            CursorHint::Text
        },
        Interaction::Hovered => {
            ui.hovered = Some(node);
            idle_cursor(ui)
        },
        Interaction::Out => {
            match ui.hovered {
                Some(h) => {
                    if h == node {
                        ui.hovered = None;
                    }
                },
                None => {},
            }
            idle_cursor(ui)
        },
    }
}

fn idle_cursor(ui: &UiState) -> (cursor: CursorHint)
    ensures
        cursor == ui.focus_cursor(Interaction::Hovered),
        cursor == ui.focus_cursor(Interaction::Out),
{
    if ui.entity_to_edit.is_some() {
        CursorHint::Text
    } else if ui.hold_entity.is_some() {
        CursorHint::Move
    } else {
        CursorHint::Normal
    }
}

/// Looks at the clock while the button is down. When the hold is due, the
/// held node becomes the dragged node and the move cursor is to be shown.
pub fn promote_hold(ui: &mut UiState, now_ms: u64) -> (cursor: Option<CursorHint>)
    ensures
        *final(ui) == old(ui).after_hold(now_ms),
        cursor == if old(ui).hold_is_due(now_ms) {
            Some(CursorHint::Move)
        } else {
            None
        },
{
    match ui.holding {
        Some(hold) => {
            if ui.hold_entity.is_none() && ui.entity_to_resize.is_none() && now_ms
                >= hold.since_ms && now_ms - hold.since_ms > HOLD_THRESHOLD_MS {
                ui.hold_entity = Some(hold.node);
                ui.entity_to_edit = None;
                Some(CursorHint::Move)
            } else {
                None
            }
        },
        None => None,
    }
}

/// Takes up that the button went up: hold, drag and resize end, whatever
/// the state was.
pub fn release_pointer(ui: &mut UiState)
    ensures
        *final(ui) == old(ui).released(),
{
    ui.holding = None;
    ui.hold_entity = None;
    ui.entity_to_resize = None;
}

/// After the button went up nothing is held, dragged or resized. If no text
/// is being edited and no arrow is under construction, the pointer is back
/// to hovering over the node under it, or to idle.
pub proof fn lemma_release_ends_drag(ui: UiState)
    ensures
        !(ui.released().mode() is Dragging),
        !(ui.released().mode() is Resizing),
        !(ui.released().mode() is PendingDrag),
        ui.entity_to_edit is None && ui.arrow_to_draw_start is None ==> ui.released().mode()
            == match ui.hovered {
            Some(node) => PointerMode::Hovered(node),
            None => PointerMode::Idle,
        },
{
}

/// A click that is released before the hold is due is a click to edit: the
/// clicked node is being edited, and nothing is dragged.
pub proof fn lemma_short_click_edits(ui: UiState, node: u64, down_ms: u64, up_ms: u64)
    requires
        !exceeds(up_ms, down_ms, HOLD_THRESHOLD_MS),
    ensures
        ui.after_focus(Interaction::Clicked, node, down_ms).after_hold(up_ms).released().mode()
            == PointerMode::Editing(node),
{
}

/// A click that is held beyond the threshold becomes a drag of the clicked
/// node, and releasing the button ends it without leaving the node in
/// editing.
pub proof fn lemma_long_hold_drags(ui: UiState, node: u64, down_ms: u64, now_ms: u64)
    requires
        exceeds(now_ms, down_ms, HOLD_THRESHOLD_MS),
    ensures
        ui.after_focus(Interaction::Clicked, node, down_ms).mode() == PointerMode::PendingDrag(
            node,
            down_ms,
        ),
        ui.after_focus(Interaction::Clicked, node, down_ms).after_hold(now_ms).mode()
            == PointerMode::Dragging(node),
        ui.after_focus(Interaction::Clicked, node, down_ms).after_hold(now_ms).released().mode()
            == PointerMode::Idle,
{
}

/// Remembers the last click on a label, to tell a double click.
#[derive(Clone, Copy, Debug, PartialEq, Eq)]
pub struct DoubleClick {
    /// The label clicked last and the time of that click.
    pub last: Option<LabelClick>,
}

impl DoubleClick {
    /// Whether a click on `id` at `now_ms` completes a double click: the
    /// click before was on the same label, less than `DOUBLE_CLICK_MS` ago.
    pub open spec fn completes(self, id: u128, now_ms: u64) -> bool {
        &&& self.last is Some
        &&& self.last->0.id == id
        &&& within(now_ms, self.last->0.at_ms, DOUBLE_CLICK_MS)
    }

    /// The memory after a click on `id` at `now_ms`: empty after a double
    /// click, this click otherwise.
    pub open spec fn after_click(self, id: u128, now_ms: u64) -> DoubleClick {
        if self.completes(id, now_ms) {
            DoubleClick { last: None }
        } else {
            DoubleClick { last: Some(LabelClick { id, at_ms: now_ms }) }
        }
    }

    /// No click remembered.
    pub fn new() -> (r: DoubleClick)
        ensures
            r.last is None,
    {
        DoubleClick { last: None }
    }

    /// Takes up a click on the label `id` at time `now_ms` and says whether
    /// it completed a double click.
    pub fn register(&mut self, id: u128, now_ms: u64) -> (double: bool)
        ensures
            double == old(self).completes(id, now_ms),
            *final(self) == old(self).after_click(id, now_ms),
    {
        let double = match self.last {
            Some(click) => click.id == id && now_ms >= click.at_ms && now_ms - click.at_ms
                < DOUBLE_CLICK_MS,
            None => false,
        };
        if double {
            self.last = None;
        } else {
            self.last = Some(LabelClick { id, at_ms: now_ms });
        }
        double
    }
}

/// Two clicks on the same label make a double click exactly when the second
/// comes less than `DOUBLE_CLICK_MS` after the first, whatever was clicked
/// before; a third click then starts afresh.
pub proof fn lemma_double_click(before: DoubleClick, id: u128, first_ms: u64, second_ms: u64)
    requires
        !before.completes(id, first_ms),
    ensures
        before.after_click(id, first_ms).completes(id, second_ms) == within(
            second_ms,
            first_ms,
            DOUBLE_CLICK_MS,
        ),
        within(second_ms, first_ms, DOUBLE_CLICK_MS) ==> before.after_click(id, first_ms).after_click(
            id,
            second_ms,
        ).last is None,
{
}

} // verus!
