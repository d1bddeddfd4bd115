use chart_engine::app_state::AppState;
use chart_engine::canvas::{
    anchor_point, arrows_to_redraw, connect_rectangles, create_new_rectangle, delete_edited_node,
    insert_image_from_clipboard, update_rectangle_pos, update_text_on_typing, Point,
};
use chart_engine::checkpoint::{Edit, ModelError};
use chart_engine::document::DocOp;
use chart_engine::geometry::{Rect, ResizeMarker, Val};
use chart_engine::interaction::{
    promote_hold, release_pointer, set_focused_entity, CursorHint, DoubleClick, Interaction,
    PointerMode, UiState,
};
use chart_engine::node::{ArrowConnectPos, ArrowType, Node};
use chart_engine::requests::{
    begin_load, begin_save, finish_load, finish_save, IoError, LoadRequest, Mailbox, PersistError,
    SaveRequest,
};
use chart_engine::resize::{resize_entity_end, resize_entity_start};
use chart_engine::tabs::{
    add_tab, add_tab_handler, cancel_modal, confirm_modal, delete_tab_handler, rename_tab_handler,
    selected_tab_handler,
};
use chart_engine::text::Key;

const DOC: u128 = 1000;
const TAB: u128 = 2000;

fn new_app() -> AppState {
    AppState::new(DOC, String::from("Untitled"), TAB)
}

fn px(left: i32, bottom: i32, width: i32, height: i32) -> Rect {
    Rect {
        left: Val::Px(left),
        bottom: Val::Px(bottom),
        width: Val::Px(width),
        height: Val::Px(height),
    }
}

fn rect_of(app: &AppState, id: u64) -> Rect {
    app.live().node(id).expect("node on the live canvas").rect()
}

#[test]
fn resize_then_undo_restores_the_node() {
    let mut app = new_app();
    assert_eq!(app.current().tab_count(), 1);
    assert_eq!(app.current().active_tab().history_len(), 1);
    assert_eq!(app.live().node_count(), 0);

    let n1 = create_new_rectangle(&mut app).unwrap();
    assert_eq!(rect_of(&app, n1), px(0, 0, 100, 100));

    app.apply(DOC, DocOp::CommitTab(TAB)).unwrap();
    assert_eq!(app.current().active_tab().history_len(), 2);

    let mut ui = UiState::new();
    resize_entity_start(&mut ui, Interaction::Clicked, n1, ResizeMarker::BottomRight);
    let redraw = resize_entity_end(&mut app, &ui, 20, 30);
    assert_eq!(redraw, Some((n1, px(0, -30, 120, 130))));
    assert_eq!(rect_of(&app, n1), px(0, -30, 120, 130));

    app.apply(DOC, DocOp::UndoTab(TAB)).unwrap();
    assert_eq!(app.current().active_tab().history_len(), 1);
    assert_eq!(rect_of(&app, n1), px(0, 0, 100, 100));
}

#[test]
fn double_click_within_400_ms_renames() {
    let app = new_app();
    let mut ui = UiState::new();
    let mut clicks = DoubleClick::new();
    assert!(!rename_tab_handler(&app, &mut ui, &mut clicks, Interaction::Clicked, TAB, 10_000));
    assert_eq!(ui.tab_to_edit, None);
    assert!(rename_tab_handler(&app, &mut ui, &mut clicks, Interaction::Clicked, TAB, 10_400));
    assert_eq!(ui.tab_to_edit, Some(TAB));
    assert_eq!(clicks.last, None);
}

#[test]
fn double_click_with_600_ms_gap_does_not_rename() {
    let app = new_app();
    let mut ui = UiState::new();
    let mut clicks = DoubleClick::new();
    assert!(!rename_tab_handler(&app, &mut ui, &mut clicks, Interaction::Clicked, TAB, 10_000));
    assert!(!rename_tab_handler(&app, &mut ui, &mut clicks, Interaction::Clicked, TAB, 10_600));
    assert_eq!(ui.tab_to_edit, None);
    // the late click counts as a first click again
    assert!(rename_tab_handler(&app, &mut ui, &mut clicks, Interaction::Clicked, TAB, 10_900));
    assert_eq!(ui.tab_to_edit, Some(TAB));
}

#[test]
fn double_click_limit_is_exclusive_and_needs_the_same_label() {
    let mut clicks = DoubleClick::new();
    assert!(!clicks.register(7, 100));
    assert!(!clicks.register(7, 600));
    assert!(clicks.register(7, 1099));
    assert!(!clicks.register(7, 1100));
    assert!(!clicks.register(8, 1101));
    // a clock that runs backwards never completes a double click
    assert!(!clicks.register(8, 1000));
}

#[test]
fn hovering_and_leaving_ignore_the_click_memory() {
    let app = new_app();
    let mut ui = UiState::new();
    let mut clicks = DoubleClick::new();
    assert!(!rename_tab_handler(&app, &mut ui, &mut clicks, Interaction::Clicked, TAB, 100));
    assert!(!rename_tab_handler(&app, &mut ui, &mut clicks, Interaction::Hovered, TAB, 150));
    assert!(!rename_tab_handler(&app, &mut ui, &mut clicks, Interaction::Out, TAB, 160));
    assert!(rename_tab_handler(&app, &mut ui, &mut clicks, Interaction::Clicked, TAB, 200));
}

#[test]
fn double_click_on_a_missing_tab_is_ignored() {
    let app = new_app();
    let mut ui = UiState::new();
    ui.arrow_type = ArrowType::DoubleArrow;
    let mut clicks = DoubleClick::new();
    assert!(!rename_tab_handler(&app, &mut ui, &mut clicks, Interaction::Clicked, 77, 100));
    assert!(!rename_tab_handler(&app, &mut ui, &mut clicks, Interaction::Clicked, 77, 200));
    assert_eq!(ui.tab_to_edit, None);
    assert_eq!(ui.arrow_type, ArrowType::DoubleArrow);
}

#[test]
fn history_never_exceeds_seven_checkpoints() {
    let mut app = new_app();
    for round in 0..20 {
        let id = create_new_rectangle(&mut app).unwrap();
        assert_eq!(id, round + 1);
        app.apply(DOC, DocOp::CommitTab(TAB)).unwrap();
        let len = app.current().active_tab().history_len();
        assert!(len <= 7);
        assert_eq!(len, std::cmp::min(round as usize + 2, 7));
    }
    // the oldest checkpoints were evicted: the oldest one left holds 15 nodes
    let tab = app.current().active_tab();
    assert_eq!(tab.checkpoint_at(0).node_count(), 15);
    assert_eq!(tab.checkpoint_at(6).node_count(), 20);
}

#[test]
fn undo_is_last_in_first_out() {
    let mut app = new_app();
    let a = create_new_rectangle(&mut app).unwrap();
    app.apply(DOC, DocOp::CommitTab(TAB)).unwrap();
    let b = create_new_rectangle(&mut app).unwrap();
    app.apply(DOC, DocOp::CommitTab(TAB)).unwrap();
    let c = create_new_rectangle(&mut app).unwrap();
    assert_eq!(app.live().node_count(), 3);

    app.apply(DOC, DocOp::UndoTab(TAB)).unwrap();
    assert_eq!(app.live().node_count(), 2);
    assert!(app.live().node(a).is_some());
    assert!(app.live().node(b).is_some());
    assert!(app.live().node(c).is_none());

    app.apply(DOC, DocOp::UndoTab(TAB)).unwrap();
    assert_eq!(app.live().node_count(), 1);
    assert!(app.live().node(b).is_none());
}

#[test]
fn undo_with_one_checkpoint_is_a_no_op() {
    let mut app = new_app();
    let a = create_new_rectangle(&mut app).unwrap();
    assert_eq!(app.current().active_tab().history_len(), 1);
    assert_eq!(app.apply(DOC, DocOp::UndoTab(TAB)), Ok(()));
    assert_eq!(app.current().active_tab().history_len(), 1);
    assert_eq!(rect_of(&app, a), px(0, 0, 100, 100));
}

#[test]
fn editing_the_live_canvas_leaves_past_checkpoints_alone() {
    let mut app = new_app();
    let a = create_new_rectangle(&mut app).unwrap();
    app.apply(DOC, DocOp::CommitTab(TAB)).unwrap();
    app.edit_live(Edit::SetRect(a, px(5, 6, 7, 8))).unwrap();
    app.edit_live(Edit::TypeKey(a, Key::Char('x'))).unwrap();
    let tab = app.current().active_tab();
    assert_eq!(tab.checkpoint_at(0).node(a).unwrap().rect(), px(0, 0, 100, 100));
    assert_eq!(tab.checkpoint_at(0).node(a).unwrap().text(), "");
    assert_eq!(tab.checkpoint_at(1).node(a).unwrap().rect(), px(5, 6, 7, 8));
    assert_eq!(tab.checkpoint_at(1).node(a).unwrap().text(), "x");
}

fn active_count(app: &AppState) -> usize {
    let doc = app.current();
    (0..doc.tab_count()).filter(|i| doc.tab_at(*i).is_active()).count()
}

#[test]
fn exactly_one_tab_is_active_after_any_sequence() {
    let mut app = new_app();
    let mut ui = UiState::new();
    let mut mailbox = Mailbox::new();
    assert_eq!(active_count(&app), 1);
    assert!(add_tab(&mut app, &mut ui, &mut mailbox, 2001));
    assert_eq!(active_count(&app), 1);
    assert_eq!(app.active_tab_id(), 2001);
    assert!(add_tab(&mut app, &mut ui, &mut mailbox, 2002));
    assert_eq!(active_count(&app), 1);
    assert!(!add_tab(&mut app, &mut ui, &mut mailbox, 2001));
    assert_eq!(active_count(&app), 1);
    assert!(selected_tab_handler(&mut app, &mut ui, &mut mailbox, Interaction::Clicked, TAB));
    assert_eq!(active_count(&app), 1);
    assert_eq!(app.active_tab_id(), TAB);
    // deleting the active tab hands the flag to the last remaining tab
    assert_eq!(app.apply(DOC, DocOp::DeleteTab(TAB)), Ok(()));
    assert_eq!(active_count(&app), 1);
    assert_eq!(app.active_tab_id(), 2002);
    // deleting an inactive tab leaves the active one alone
    assert_eq!(app.apply(DOC, DocOp::DeleteTab(2001)), Ok(()));
    assert_eq!(active_count(&app), 1);
    assert_eq!(app.active_tab_id(), 2002);
    assert_eq!(app.current().tab_count(), 1);
}

#[test]
fn the_last_tab_cannot_be_deleted() {
    let mut app = new_app();
    assert_eq!(app.apply(DOC, DocOp::DeleteTab(TAB)), Err(ModelError::LastTabProtected));
    assert_eq!(app.current().tab_count(), 1);
    assert_eq!(app.apply(DOC, DocOp::DeleteTab(99)), Err(ModelError::LastTabProtected));
    assert_eq!(app.current().tab_count(), 1);
    assert!(app.current().tab_at(0).is_active());

    // the handler declines without opening a dialog
    let mut ui = UiState::new();
    ui.entity_to_edit = Some(3);
    assert_eq!(delete_tab_handler(&app, &mut ui, Interaction::Clicked), None);
    assert_eq!(ui, UiState::new());
    assert_eq!(app.current().tab_count(), 1);
}

#[test]
fn deleting_a_tab_goes_through_the_dialog() {
    let mut app = new_app();
    let mut ui = UiState::new();
    let mut mailbox = Mailbox::new();
    assert!(add_tab(&mut app, &mut ui, &mut mailbox, 2001));
    let mut mailbox = Mailbox::new();

    assert_eq!(delete_tab_handler(&app, &mut ui, Interaction::Hovered), None);
    let modal = delete_tab_handler(&app, &mut ui, Interaction::Clicked).expect("dialog opens");
    assert_eq!(ui.modal.map(|m| m.id), Some(modal));
    assert_eq!(app.current().tab_count(), 2);

    cancel_modal(&mut ui);
    assert_eq!(ui.modal, None);
    assert_eq!(confirm_modal(&mut app, &mut ui, &mut mailbox), None);
    assert_eq!(app.current().tab_count(), 2);
    assert_eq!(mailbox, Mailbox::new());

    delete_tab_handler(&app, &mut ui, Interaction::Clicked).expect("dialog opens");
    assert!(confirm_modal(&mut app, &mut ui, &mut mailbox).is_some());
    assert_eq!(ui.modal, None);
    assert_eq!(app.current().tab_count(), 1);
    assert_eq!(app.active_tab_id(), TAB);
    assert_eq!(
        mailbox.load,
        Some(LoadRequest { doc_id: None, drop_last_checkpoint: false })
    );
}

#[test]
fn save_requests_coalesce() {
    let mut app = new_app();
    let mut ui = UiState::new();
    let mut mailbox = Mailbox::new();
    assert!(add_tab(&mut app, &mut ui, &mut mailbox, 2001));
    let on_b = create_new_rectangle(&mut app).unwrap();

    let mut mailbox = Mailbox::new();
    mailbox.post_save(SaveRequest { doc_id: None, tab_id: Some(TAB) });
    mailbox.post_save(SaveRequest { doc_id: None, tab_id: Some(2001) });

    let job = begin_save(&app, &mut mailbox).expect("one save");
    assert_eq!(job.doc_id, DOC);
    assert_eq!(job.tab_id, 2001);
    assert!(job.checkpoint.node(on_b).is_some());
    assert_eq!(mailbox.save, None);
    assert!(begin_save(&app, &mut mailbox).is_none());
}

#[test]
fn a_stored_save_commits_and_a_failed_one_does_not() {
    let mut app = new_app();
    let mut mailbox = Mailbox::new();
    create_new_rectangle(&mut app).unwrap();
    mailbox.post_save(SaveRequest { doc_id: None, tab_id: None });
    let job = begin_save(&app, &mut mailbox).unwrap();
    assert_eq!((job.doc_id, job.tab_id), (DOC, TAB));
    assert_eq!(job.checkpoint.node_count(), 1);

    let failed = finish_save(
        &mut app,
        job.doc_id,
        job.tab_id,
        Err(IoError { message: String::from("disk full") }),
    );
    match failed {
        Err(PersistError::Io(e)) => assert_eq!(e.message, "disk full"),
        other => panic!("unexpected {:?}", other),
    }
    assert_eq!(app.current().active_tab().history_len(), 1);

    assert!(finish_save(&mut app, job.doc_id, job.tab_id, Ok(())).is_ok());
    assert_eq!(app.current().active_tab().history_len(), 2);

    match finish_save(&mut app, job.doc_id, 42, Ok(())) {
        Err(PersistError::Model(ModelError::NotFound)) => {}
        other => panic!("unexpected {:?}", other),
    }
}

#[test]
fn save_requests_for_missing_targets_are_dropped() {
    let app = new_app();
    let mut mailbox = Mailbox::new();
    mailbox.post_save(SaveRequest { doc_id: Some(5), tab_id: None });
    assert!(begin_save(&app, &mut mailbox).is_none());
    assert_eq!(mailbox.save, None);
    mailbox.post_save(SaveRequest { doc_id: Some(DOC), tab_id: Some(5) });
    assert!(begin_save(&app, &mut mailbox).is_none());
    assert_eq!(mailbox.save, None);
}

#[test]
fn load_replaces_the_whole_history() {
    let mut app = new_app();
    let mut mailbox = Mailbox::new();
    create_new_rectangle(&mut app).unwrap();
    app.apply(DOC, DocOp::CommitTab(TAB)).unwrap();
    app.apply(DOC, DocOp::CommitTab(TAB)).unwrap();
    assert_eq!(app.current().active_tab().history_len(), 3);

    mailbox.post_load(LoadRequest { doc_id: None, drop_last_checkpoint: true });
    mailbox.post_load(LoadRequest { doc_id: None, drop_last_checkpoint: false });
    let job = begin_load(&mut app, &mut mailbox).expect("one load");
    assert_eq!((job.doc_id, job.tab_id, job.from_storage), (DOC, TAB, true));
    assert_eq!(mailbox.load, None);
    assert_eq!(app.current().active_tab().history_len(), 3);

    let failed = finish_load(
        &mut app,
        job.doc_id,
        job.tab_id,
        Err(IoError { message: String::from("no such file") }),
    );
    assert!(matches!(failed, Err(PersistError::Io(_))));
    assert_eq!(app.current().active_tab().history_len(), 3);
    assert_eq!(app.live().node_count(), 1);

    let mut stored = chart_engine::checkpoint::Checkpoint::new();
    stored.add_node(Node::new(40, px(1, 2, 3, 4))).unwrap();
    stored.add_node(Node::new(41, px(5, 6, 7, 8))).unwrap();
    assert!(finish_load(&mut app, job.doc_id, job.tab_id, Ok(stored)).is_ok());
    assert_eq!(app.current().active_tab().history_len(), 1);
    assert_eq!(app.live().node_count(), 2);
    assert_eq!(rect_of(&app, 41), px(5, 6, 7, 8));
}

#[test]
fn a_load_that_drops_the_last_checkpoint_steps_back() {
    let mut app = new_app();
    let mut mailbox = Mailbox::new();
    let a = create_new_rectangle(&mut app).unwrap();
    app.apply(DOC, DocOp::CommitTab(TAB)).unwrap();
    app.edit_live(Edit::SetRect(a, px(9, 9, 9, 9))).unwrap();

    mailbox.post_load(LoadRequest { doc_id: Some(DOC), drop_last_checkpoint: true });
    let job = begin_load(&mut app, &mut mailbox).unwrap();
    assert!(!job.from_storage);
    assert_eq!(app.current().active_tab().history_len(), 1);
    assert_eq!(rect_of(&app, a), px(0, 0, 100, 100));

    mailbox.post_load(LoadRequest { doc_id: Some(77), drop_last_checkpoint: true });
    assert!(begin_load(&mut app, &mut mailbox).is_none());
    assert_eq!(mailbox.load, None);
}

#[test]
fn switching_tabs_posts_save_and_load_and_resets_the_interaction() {
    let mut app = new_app();
    let mut ui = UiState::new();
    let mut mailbox = Mailbox::new();
    assert!(add_tab(&mut app, &mut ui, &mut mailbox, 2001));
    assert_eq!(mailbox.save, Some(SaveRequest { doc_id: None, tab_id: Some(TAB) }));
    assert_eq!(mailbox.load, Some(LoadRequest { doc_id: None, drop_last_checkpoint: false }));
    assert_eq!(app.current().tab_at(1).name(), "Tab 2");
    assert_eq!(app.current().tab_at(1).history_len(), 1);
    assert_eq!(app.current().tab_at(1).live().node_count(), 0);

    let mut mailbox = Mailbox::new();
    ui.entity_to_edit = Some(4);
    ui.arrow_type = ArrowType::Arrow;
    // hovering, or clicking the active tab, changes nothing
    assert!(!selected_tab_handler(&mut app, &mut ui, &mut mailbox, Interaction::Hovered, TAB));
    assert!(!selected_tab_handler(&mut app, &mut ui, &mut mailbox, Interaction::Clicked, 2001));
    assert!(!selected_tab_handler(&mut app, &mut ui, &mut mailbox, Interaction::Clicked, 555));
    assert_eq!(mailbox, Mailbox::new());
    assert_eq!(ui.entity_to_edit, Some(4));

    assert!(selected_tab_handler(&mut app, &mut ui, &mut mailbox, Interaction::Clicked, TAB));
    assert_eq!(mailbox.save, Some(SaveRequest { doc_id: None, tab_id: Some(2001) }));
    assert_eq!(mailbox.load, Some(LoadRequest { doc_id: None, drop_last_checkpoint: false }));
    assert_eq!(ui, UiState::new());
    assert!(app.current().tab_at(0).is_active());
    assert!(!app.current().tab_at(1).is_active());
}

#[test]
fn the_add_tab_button_draws_a_random_id() {
    let mut app = new_app();
    let mut ui = UiState::new();
    let mut mailbox = Mailbox::new();
    assert_eq!(add_tab_handler(&mut app, &mut ui, &mut mailbox, Interaction::Hovered), None);
    assert_eq!(app.current().tab_count(), 1);
    let first = add_tab_handler(&mut app, &mut ui, &mut mailbox, Interaction::Clicked).unwrap();
    let second = add_tab_handler(&mut app, &mut ui, &mut mailbox, Interaction::Clicked).unwrap();
    assert_ne!(first, second);
    for id in [first, second] {
        // version 4, RFC variant
        assert_eq!((id >> 76) & 0xf, 4);
        assert_eq!((id >> 62) & 0x3, 2);
        assert!(app.current().tab(id).is_some());
    }
    assert_eq!(app.active_tab_id(), second);
    assert_eq!(app.current().tab_count(), 3);
    assert_eq!(app.current().tab_at(2).name(), "Tab 3");
}

#[test]
fn a_click_edits_and_a_long_hold_drags() {
    let mut ui = UiState::new();
    ui.arrow_type = ArrowType::ParallelArrow;
    ui.hovered = Some(9);
    assert_eq!(ui.pointer_mode(), PointerMode::Hovered(9));

    let cursor = set_focused_entity(&mut ui, Interaction::Clicked, 3, 1_000);
    assert_eq!(cursor, CursorHint::Text);
    assert_eq!(ui.entity_to_edit, Some(3));
    assert_eq!(ui.hovered, None);
    assert_eq!(ui.arrow_type, ArrowType::ParallelArrow);
    assert_eq!(ui.pointer_mode(), PointerMode::PendingDrag(3, 1_000));

    // not yet due at exactly the threshold
    assert_eq!(promote_hold(&mut ui, 1_150), None);
    assert_eq!(ui.hold_entity, None);
    assert_eq!(promote_hold(&mut ui, 1_151), Some(CursorHint::Move));
    assert_eq!(ui.pointer_mode(), PointerMode::Dragging(3));
    assert_eq!(promote_hold(&mut ui, 1_300), None);

    assert_eq!(set_focused_entity(&mut ui, Interaction::Hovered, 3, 1_310), CursorHint::Move);
    release_pointer(&mut ui);
    assert_eq!(ui.pointer_mode(), PointerMode::Hovered(3));
    assert_eq!(set_focused_entity(&mut ui, Interaction::Out, 3, 1_320), CursorHint::Normal);
    assert_eq!(ui.pointer_mode(), PointerMode::Idle);
}

#[test]
fn a_short_click_stays_in_editing() {
    let mut ui = UiState::new();
    set_focused_entity(&mut ui, Interaction::Clicked, 3, 1_000);
    assert_eq!(promote_hold(&mut ui, 1_100), None);
    release_pointer(&mut ui);
    assert_eq!(ui.pointer_mode(), PointerMode::Editing(3));
    // hovering another node keeps the edit and shows the text cursor
    assert_eq!(set_focused_entity(&mut ui, Interaction::Hovered, 4, 1_200), CursorHint::Text);
    assert_eq!(ui.pointer_mode(), PointerMode::Editing(3));
    assert_eq!(ui.hovered, Some(4));
    // leaving a node that is not the hovered one changes nothing
    set_focused_entity(&mut ui, Interaction::Out, 5, 1_210);
    assert_eq!(ui.hovered, Some(4));
    // no promotion after the release, however late
    assert_eq!(promote_hold(&mut ui, 9_000), None);
}

#[test]
fn no_drag_starts_while_resizing() {
    let mut ui = UiState::new();
    set_focused_entity(&mut ui, Interaction::Clicked, 3, 1_000);
    assert_eq!(
        resize_entity_start(&mut ui, Interaction::Clicked, 3, ResizeMarker::TopLeft),
        None
    );
    assert_eq!(ui.pointer_mode(), PointerMode::Resizing(3, ResizeMarker::TopLeft));
    assert_eq!(promote_hold(&mut ui, 5_000), None);
    release_pointer(&mut ui);
    assert_eq!(ui.entity_to_resize, None);
    assert_eq!(ui.holding, None);
    assert_eq!(ui.pointer_mode(), PointerMode::Editing(3));
}

#[test]
fn resize_handles_show_their_diagonal() {
    let mut ui = UiState::new();
    let hover = |ui: &mut UiState, m| resize_entity_start(ui, Interaction::Hovered, 1, m);
    assert_eq!(hover(&mut ui, ResizeMarker::TopLeft), Some(CursorHint::NwseResize));
    assert_eq!(hover(&mut ui, ResizeMarker::BottomRight), Some(CursorHint::NwseResize));
    assert_eq!(hover(&mut ui, ResizeMarker::TopRight), Some(CursorHint::NeswResize));
    assert_eq!(hover(&mut ui, ResizeMarker::BottomLeft), Some(CursorHint::NeswResize));
    assert_eq!(
        resize_entity_start(&mut ui, Interaction::Out, 1, ResizeMarker::TopLeft),
        Some(CursorHint::Normal)
    );
    assert_eq!(ui, UiState::new());
}

#[test]
fn motion_without_a_resize_target_is_ignored() {
    let mut app = new_app();
    let a = create_new_rectangle(&mut app).unwrap();
    let mut ui = UiState::new();
    assert_eq!(resize_entity_end(&mut app, &ui, 10, 10), None);
    ui.entity_to_resize = Some((a + 1, ResizeMarker::TopLeft));
    assert_eq!(resize_entity_end(&mut app, &ui, 10, 10), None);
    assert_eq!(rect_of(&app, a), px(0, 0, 100, 100));
    assert_eq!(update_rectangle_pos(&mut app, &ui, 5, 5, Val::Px(0), 800), None);
    assert_eq!(update_text_on_typing(&mut app, &ui, Key::Char('a')), None);
    assert_eq!(rect_of(&app, a), px(0, 0, 100, 100));
    assert_eq!(app.live().node(a).unwrap().text(), "");
}

#[test]
fn dragging_centres_the_node_on_the_pointer() {
    let mut app = new_app();
    let a = create_new_rectangle(&mut app).unwrap();
    let mut ui = UiState::new();
    ui.hold_entity = Some(a);
    // side panel of 15 percent of an 800 wide window: 120 units
    let redraw = update_rectangle_pos(&mut app, &ui, 500, 300, Val::Percent(15), 800);
    assert_eq!(redraw, Some(a));
    assert_eq!(rect_of(&app, a), px(500 - 120 - 50, 300 - 50, 100, 100));

    // a percentage-sized node is not moved
    app.edit_live(Edit::SetRect(
        a,
        Rect {
            left: Val::Px(1),
            bottom: Val::Px(2),
            width: Val::Percent(50),
            height: Val::Px(10),
        },
    ))
    .unwrap();
    assert_eq!(update_rectangle_pos(&mut app, &ui, 500, 300, Val::Px(0), 800), Some(a));
    assert_eq!(rect_of(&app, a).left, Val::Px(1));
    assert_eq!(rect_of(&app, a).bottom, Val::Px(2));
}

#[test]
fn typing_goes_to_the_edited_node_only() {
    let mut app = new_app();
    let a = create_new_rectangle(&mut app).unwrap();
    let b = create_new_rectangle(&mut app).unwrap();
    let mut ui = UiState::new();
    set_focused_entity(&mut ui, Interaction::Clicked, a, 0);
    for c in "héllo".chars() {
        assert_eq!(update_text_on_typing(&mut app, &ui, Key::Char(c)), Some(a));
    }
    assert_eq!(app.live().node(a).unwrap().text(), "héllo");
    assert_eq!(app.live().node(b).unwrap().text(), "");
    assert_eq!(update_text_on_typing(&mut app, &ui, Key::Backspace), Some(a));
    assert_eq!(app.live().node(a).unwrap().text(), "héll");
    for _ in 0..6 {
        update_text_on_typing(&mut app, &ui, Key::Backspace);
    }
    assert_eq!(app.live().node(a).unwrap().text(), "");
}

#[test]
fn two_clicks_on_connect_markers_make_an_arrow() {
    let mut app = new_app();
    let a = create_new_rectangle(&mut app).unwrap();
    let b = create_new_rectangle(&mut app).unwrap();
    let mut ui = UiState::new();
    ui.arrow_type = ArrowType::DoubleArrow;

    assert_eq!(connect_rectangles(&mut app, &mut ui, a, ArrowConnectPos::Right), None);
    assert_eq!(ui.pointer_mode(), PointerMode::ConnectingArrow(a, ArrowConnectPos::Right));
    let arrow = connect_rectangles(&mut app, &mut ui, b, ArrowConnectPos::Left).expect("arrow");
    assert_eq!(ui.arrow_to_draw_start, None);
    assert_eq!(arrow.id, 3);
    assert_eq!((arrow.from.node, arrow.from.pos), (a, ArrowConnectPos::Right));
    assert_eq!((arrow.to.node, arrow.to.pos), (b, ArrowConnectPos::Left));
    assert_eq!(arrow.arrow_type, ArrowType::DoubleArrow);
    assert_eq!(app.live().arrow_count(), 1);
    assert_eq!(app.live().arrow_at(0), arrow);

    // the same marker twice cancels
    assert_eq!(connect_rectangles(&mut app, &mut ui, a, ArrowConnectPos::Top), None);
    assert_eq!(connect_rectangles(&mut app, &mut ui, a, ArrowConnectPos::Top), None);
    assert_eq!(ui.arrow_to_draw_start, None);
    assert_eq!(app.live().arrow_count(), 1);
    assert_eq!(app.entity_counter(), 3);

    // the same node at another side connects
    connect_rectangles(&mut app, &mut ui, a, ArrowConnectPos::Top);
    assert!(connect_rectangles(&mut app, &mut ui, a, ArrowConnectPos::Bottom).is_some());
    assert_eq!(app.live().arrow_count(), 2);

    // an end that is not on the canvas gives no arrow, and the construction ends
    connect_rectangles(&mut app, &mut ui, a, ArrowConnectPos::Top);
    assert_eq!(connect_rectangles(&mut app, &mut ui, 99, ArrowConnectPos::Top), None);
    assert_eq!(ui.arrow_to_draw_start, None);
    assert_eq!(app.live().arrow_count(), 2);
}

#[test]
fn deleting_a_node_removes_its_arrows() {
    let mut app = new_app();
    let a = create_new_rectangle(&mut app).unwrap();
    let b = create_new_rectangle(&mut app).unwrap();
    let c = create_new_rectangle(&mut app).unwrap();
    let mut ui = UiState::new();
    for (from, to) in [(a, b), (b, c), (c, a)] {
        connect_rectangles(&mut app, &mut ui, from, ArrowConnectPos::Right);
        connect_rectangles(&mut app, &mut ui, to, ArrowConnectPos::Left).unwrap();
    }
    assert_eq!(app.live().arrow_count(), 3);
    app.edit_live(Edit::DeleteNode(b)).unwrap();
    assert_eq!(app.live().node_count(), 2);
    assert_eq!(app.live().arrow_count(), 1);
    let left = app.live().arrow_at(0);
    assert_eq!((left.from.node, left.to.node), (c, a));
    assert_eq!(app.edit_live(Edit::DeleteNode(b)), Err(ModelError::NotFound));
}

#[test]
fn a_pasted_image_becomes_a_node_of_its_size() {
    let mut app = new_app();
    let pixels: Vec<u8> = (0..24).collect();
    let id = insert_image_from_clipboard(&mut app, 3, 2, pixels.clone()).unwrap();
    assert_eq!(id, 1);
    let node = app.live().node(id).unwrap();
    assert_eq!(node.rect(), px(0, 0, 3, 2));
    let image = node.image().as_ref().expect("image");
    assert_eq!((image.width(), image.height()), (3, 2));
    assert_eq!(image.pixels(), &pixels);
}

#[test]
fn a_truncated_image_is_declined() {
    let mut app = new_app();
    let short: Vec<u8> = vec![0; 23];
    assert_eq!(
        insert_image_from_clipboard(&mut app, 3, 2, short),
        Err(ModelError::InvalidImage)
    );
    assert_eq!(
        insert_image_from_clipboard(&mut app, usize::MAX, 1, vec![0; 8]),
        Err(ModelError::InvalidImage)
    );
    assert_eq!(
        insert_image_from_clipboard(&mut app, 1, usize::MAX, vec![0; 8]),
        Err(ModelError::InvalidImage)
    );
    assert_eq!(
        insert_image_from_clipboard(&mut app, 0xffff_ffff, 0xffff_ffff, vec![0; 8]),
        Err(ModelError::InvalidImage)
    );
    assert_eq!(app.live().node_count(), 0);
    assert_eq!(app.entity_counter(), 0);
    // an empty image is an image, and spare bytes are kept
    assert_eq!(insert_image_from_clipboard(&mut app, 0, 5, vec![1, 2, 3]), Ok(1));
    let node = app.live().node(1).unwrap();
    assert_eq!(node.image().as_ref().unwrap().pixels(), &vec![1u8, 2, 3]);
}

#[test]
fn the_id_counter_ends() {
    let mut app = new_app();
    app.raise_entity_counter(u64::MAX - 1);
    app.raise_entity_counter(5);
    assert_eq!(app.entity_counter(), u64::MAX - 1);
    assert_eq!(create_new_rectangle(&mut app), Ok(u64::MAX));
    assert_eq!(create_new_rectangle(&mut app), Err(ModelError::IdsExhausted));
    assert_eq!(
        insert_image_from_clipboard(&mut app, 1, 1, vec![0; 4]),
        Err(ModelError::IdsExhausted)
    );
    assert_eq!(app.live().node_count(), 1);
    let mut ui = UiState::new();
    connect_rectangles(&mut app, &mut ui, u64::MAX, ArrowConnectPos::Top);
    assert_eq!(connect_rectangles(&mut app, &mut ui, u64::MAX, ArrowConnectPos::Left), None);
}

#[test]
fn a_taken_id_is_not_handed_out_twice() {
    let mut app = new_app();
    app.edit_live(Edit::AddNode(Node::new(1, px(0, 0, 1, 1)))).unwrap();
    assert_eq!(create_new_rectangle(&mut app), Err(ModelError::DuplicateId));
    assert_eq!(app.entity_counter(), 1);
    assert_eq!(create_new_rectangle(&mut app), Ok(2));
}

#[test]
fn arrows_meet_the_middle_of_a_side() {
    let r = px(10, 20, 100, 61);
    assert_eq!(anchor_point(r, ArrowConnectPos::Top), Some(Point { x: 60, y: 81 }));
    assert_eq!(anchor_point(r, ArrowConnectPos::Bottom), Some(Point { x: 60, y: 20 }));
    assert_eq!(anchor_point(r, ArrowConnectPos::Left), Some(Point { x: 10, y: 50 }));
    assert_eq!(anchor_point(r, ArrowConnectPos::Right), Some(Point { x: 110, y: 50 }));
    let percent = Rect { width: Val::Percent(50), ..r };
    assert_eq!(anchor_point(percent, ArrowConnectPos::Top), None);
    let far = px(i32::MAX, i32::MAX, i32::MAX, i32::MAX);
    assert_eq!(
        anchor_point(far, ArrowConnectPos::Right),
        Some(Point { x: 2 * (i32::MAX as i64), y: i32::MAX as i64 + (i32::MAX / 2) as i64 })
    );

    let mut app = new_app();
    let a = create_new_rectangle(&mut app).unwrap();
    let b = create_new_rectangle(&mut app).unwrap();
    let c = create_new_rectangle(&mut app).unwrap();
    let mut ui = UiState::new();
    for (from, to) in [(a, b), (b, c), (c, a)] {
        connect_rectangles(&mut app, &mut ui, from, ArrowConnectPos::Right);
        connect_rectangles(&mut app, &mut ui, to, ArrowConnectPos::Left).unwrap();
    }
    let ids = |node| -> Vec<u64> {
        arrows_to_redraw(app.live(), node).iter().map(|arrow| arrow.id).collect()
    };
    assert_eq!(ids(a), vec![4, 6]);
    assert_eq!(ids(b), vec![4, 5]);
    assert_eq!(ids(99), Vec::<u64>::new());

    // deleting the edited node takes its arrows along and clears the pointers
    assert_eq!(delete_edited_node(&mut app, &mut ui), None);
    set_focused_entity(&mut ui, Interaction::Clicked, a, 0);
    ui.arrow_type = ArrowType::Arrow;
    assert_eq!(delete_edited_node(&mut app, &mut ui), Some(a));
    assert_eq!(ui.entity_to_edit, None);
    assert_eq!(ui.holding, None);
    assert_eq!(ui.arrow_type, ArrowType::Arrow);
    assert_eq!(app.live().node_count(), 2);
    assert_eq!(app.live().arrow_count(), 1);
    ui.entity_to_edit = Some(a);
    assert_eq!(delete_edited_node(&mut app, &mut ui), None);
    assert_eq!(ui.entity_to_edit, Some(a));
}
