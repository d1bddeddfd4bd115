use chart_engine::app_state::AppState;
use chart_engine::checkpoint::{Checkpoint, Edit, ModelError};
use chart_engine::document::{make_tab_label, DocOp, Document};
use chart_engine::geometry::{Rect, Val};
use chart_engine::history::{Tab, MAX_CHECKPOINTS};
use chart_engine::interaction::{DoubleClick, ModalEntity, UiState};
use chart_engine::node::{
    Arrow, ArrowConnectPos, ArrowEnd, ArrowType, ImageData, Node, Rgba, TextPos,
};
use chart_engine::requests::{LoadRequest, Mailbox, SaveRequest};
use chart_engine::stacking::stacking_order;
use chart_engine::tabs::{
    add_document, confirm_modal, finish_rename, rename_document_click, request_document_delete,
    select_document,
};
use chart_engine::text::{apply_key, push_decimal, Key};

fn px(left: i32, bottom: i32, width: i32, height: i32) -> Rect {
    Rect {
        left: Val::Px(left),
        bottom: Val::Px(bottom),
        width: Val::Px(width),
        height: Val::Px(height),
    }
}

fn arrow(id: u64, from: u64, to: u64) -> Arrow {
    Arrow {
        id,
        from: ArrowEnd { node: from, pos: ArrowConnectPos::Right },
        to: ArrowEnd { node: to, pos: ArrowConnectPos::Left },
        arrow_type: ArrowType::Arrow,
    }
}

#[test]
fn decimal_digits() {
    let render = |n: u128| {
        let mut s = String::from("#");
        push_decimal(&mut s, n);
        s
    };
    assert_eq!(render(0), "#0");
    assert_eq!(render(7), "#7");
    assert_eq!(render(10), "#10");
    assert_eq!(render(1234567890), "#1234567890");
    assert_eq!(render(u128::MAX), format!("#{}", u128::MAX));
}

#[test]
fn tab_labels() {
    assert_eq!(make_tab_label(1), "Tab 1");
    assert_eq!(make_tab_label(12), "Tab 12");
    assert_eq!(make_tab_label(100), "Tab 100");
}

#[test]
fn keys_edit_text() {
    let mut s = String::new();
    apply_key(&mut s, Key::Backspace);
    assert_eq!(s, "");
    apply_key(&mut s, Key::Char('a'));
    apply_key(&mut s, Key::Char('ß'));
    apply_key(&mut s, Key::Char('c'));
    assert_eq!(s, "aßc");
    apply_key(&mut s, Key::Backspace);
    apply_key(&mut s, Key::Backspace);
    assert_eq!(s, "a");
}

#[test]
fn a_new_node_is_plain() {
    let n = Node::new(4, px(1, 2, 3, 4));
    assert_eq!(n.id(), 4);
    assert_eq!(n.rect(), px(1, 2, 3, 4));
    assert!(n.image().is_none());
    assert_eq!(n.text(), "");
    assert_eq!(n.text_pos(), TextPos::Center);
    assert_eq!(n.bg_color(), Rgba { r: 255, g: 255, b: 255, a: 255 });
    assert!(n.tags().is_empty());
    assert_eq!(n.z_index(), 0);
}

#[test]
fn node_setters_change_one_field() {
    let mut n = Node::new(4, px(1, 2, 3, 4));
    n.set_rect(px(9, 8, 7, 6));
    n.set_text(String::from("hi"));
    n.set_text_pos(TextPos::TopLeft);
    n.set_bg_color(Rgba { r: 1, g: 2, b: 3, a: 4 });
    n.set_z_index(-3);
    n.type_key(Key::Char('!'));
    assert_eq!(n.id(), 4);
    assert_eq!(n.rect(), px(9, 8, 7, 6));
    assert_eq!(n.text(), "hi!");
    assert_eq!(n.text_pos(), TextPos::TopLeft);
    assert_eq!(n.bg_color(), Rgba { r: 1, g: 2, b: 3, a: 4 });
    assert_eq!(n.z_index(), -3);
    let copy = n.clone();
    assert_eq!(copy.text(), "hi!");
    assert_eq!(copy.rect(), n.rect());
}

#[test]
fn tags_are_an_ordered_set() {
    let mut n = Node::new(1, px(0, 0, 1, 1));
    assert!(n.add_tag(String::from("b")));
    assert!(n.add_tag(String::from("a")));
    assert!(!n.add_tag(String::from("b")));
    assert!(n.add_tag(String::from("c")));
    assert_eq!(n.tags(), &vec![String::from("b"), String::from("a"), String::from("c")]);
    assert!(n.has_tag(&String::from("a")));
    assert!(!n.has_tag(&String::from("z")));
    assert!(n.remove_tag(&String::from("a")));
    assert!(!n.remove_tag(&String::from("a")));
    assert_eq!(n.tags(), &vec![String::from("b"), String::from("c")]);
    assert_eq!(n.clone().tags(), n.tags());
}

#[test]
fn images_need_four_bytes_per_pixel() {
    assert!(ImageData::from_raw(2, 2, vec![0; 15]).is_none());
    let exact = ImageData::from_raw(2, 2, vec![7; 16]).unwrap();
    assert_eq!((exact.width(), exact.height()), (2, 2));
    assert_eq!(exact.pixels(), &vec![7u8; 16]);
    assert!(ImageData::from_raw(2, 2, vec![0; 17]).is_some());
    assert!(ImageData::from_raw(0, 0, Vec::new()).is_some());
    assert!(ImageData::from_raw(u32::MAX, u32::MAX, vec![0; 64]).is_none());
    let node = Node::with_image(9, exact.clone());
    assert_eq!(node.rect(), px(0, 0, 2, 2));
    assert_eq!(node.image().as_ref().unwrap().pixels(), exact.pixels());
}

#[test]
fn node_ids_are_unique_in_a_checkpoint() {
    let mut cp = Checkpoint::new();
    assert_eq!(cp.add_node(Node::new(1, px(0, 0, 1, 1))), Ok(()));
    assert_eq!(cp.add_node(Node::new(2, px(0, 0, 2, 2))), Ok(()));
    assert_eq!(cp.add_node(Node::new(1, px(0, 0, 3, 3))), Err(ModelError::DuplicateId));
    assert_eq!(cp.node_count(), 2);
    assert_eq!(cp.node(1).unwrap().rect(), px(0, 0, 1, 1));
    assert_eq!(cp.find_node(2), Some(1));
    assert_eq!(cp.find_node(3), None);
    // insertion order is kept
    assert_eq!(cp.node_at(0).id(), 1);
    assert_eq!(cp.node_at(1).id(), 2);
}

#[test]
fn nodes_are_updated_in_place() {
    let mut cp = Checkpoint::new();
    cp.add_node(Node::new(1, px(0, 0, 1, 1))).unwrap();
    cp.add_node(Node::new(2, px(0, 0, 2, 2))).unwrap();
    let mut changed = Node::new(1, px(5, 5, 5, 5));
    changed.set_z_index(8);
    assert_eq!(cp.update_node(changed), Ok(()));
    assert_eq!(cp.node_at(0).z_index(), 8);
    assert_eq!(cp.node_at(0).rect(), px(5, 5, 5, 5));
    assert_eq!(cp.node_at(1).rect(), px(0, 0, 2, 2));
    assert_eq!(cp.update_node(Node::new(3, px(0, 0, 1, 1))), Err(ModelError::NotFound));
    assert_eq!(cp.set_node_rect(3, px(0, 0, 1, 1)), Err(ModelError::NotFound));
    assert_eq!(cp.type_into_node(3, Key::Char('x')), Err(ModelError::NotFound));
    assert_eq!(cp.set_node_rect(2, px(4, 4, 4, 4)), Ok(()));
    assert_eq!(cp.node(2).unwrap().rect(), px(4, 4, 4, 4));
}

#[test]
fn arrows_need_both_ends() {
    let mut cp = Checkpoint::new();
    cp.add_node(Node::new(1, px(0, 0, 1, 1))).unwrap();
    cp.add_node(Node::new(2, px(0, 0, 1, 1))).unwrap();
    assert_eq!(cp.add_arrow(arrow(10, 1, 3)), Err(ModelError::NotFound));
    assert_eq!(cp.add_arrow(arrow(10, 3, 1)), Err(ModelError::NotFound));
    assert_eq!(cp.add_arrow(arrow(10, 1, 2)), Ok(()));
    assert_eq!(cp.add_arrow(arrow(10, 2, 1)), Err(ModelError::DuplicateId));
    // a taken id is reported before a missing end
    assert_eq!(cp.add_arrow(arrow(10, 1, 3)), Err(ModelError::DuplicateId));
    assert_eq!(cp.add_arrow(arrow(11, 2, 1)), Ok(()));
    assert_eq!(cp.arrow_count(), 2);
    assert_eq!(cp.find_arrow(11), Some(1));
    assert_eq!(cp.delete_arrow(12), Err(ModelError::NotFound));
    assert_eq!(cp.delete_arrow(10), Ok(()));
    assert_eq!(cp.arrow_count(), 1);
    assert_eq!(cp.arrow_at(0), arrow(11, 2, 1));
}

#[test]
fn no_arrow_is_left_dangling() {
    let mut cp = Checkpoint::new();
    for id in 1..=4 {
        cp.add_node(Node::new(id, px(0, 0, 1, 1))).unwrap();
    }
    cp.add_arrow(arrow(10, 1, 2)).unwrap();
    cp.add_arrow(arrow(11, 2, 3)).unwrap();
    cp.add_arrow(arrow(12, 3, 4)).unwrap();
    cp.add_arrow(arrow(13, 4, 2)).unwrap();
    cp.add_arrow(arrow(14, 2, 2)).unwrap();
    assert_eq!(cp.delete_node(2), Ok(()));
    assert_eq!(cp.node_count(), 3);
    assert_eq!(cp.arrow_count(), 1);
    assert_eq!(cp.arrow_at(0), arrow(12, 3, 4));
    assert_eq!(cp.delete_node(2), Err(ModelError::NotFound));
    let copy = cp.clone();
    assert_eq!(copy.node_count(), 3);
    assert_eq!(copy.arrow_at(0), arrow(12, 3, 4));
}

#[test]
fn edits_say_whether_they_were_accepted() {
    let mut cp = Checkpoint::new();
    assert_eq!(cp.apply(Edit::AddNode(Node::new(1, px(0, 0, 1, 1)))), Ok(()));
    assert_eq!(
        cp.apply(Edit::AddNode(Node::new(1, px(0, 0, 1, 1)))),
        Err(ModelError::DuplicateId)
    );
    assert_eq!(cp.apply(Edit::SetRect(1, px(2, 2, 2, 2))), Ok(()));
    assert_eq!(cp.apply(Edit::TypeKey(1, Key::Char('q'))), Ok(()));
    assert_eq!(cp.apply(Edit::AddArrow(arrow(5, 1, 1))), Ok(()));
    assert_eq!(cp.apply(Edit::DeleteArrow(6)), Err(ModelError::NotFound));
    assert_eq!(cp.apply(Edit::DeleteArrow(5)), Ok(()));
    assert_eq!(cp.apply(Edit::UpdateNode(Node::new(2, px(0, 0, 1, 1)))), Err(ModelError::NotFound));
    assert_eq!(cp.apply(Edit::DeleteNode(1)), Ok(()));
    assert_eq!(cp.node_count(), 0);
}

#[test]
fn a_new_tab_has_one_empty_checkpoint() {
    let tab = Tab::new(5, String::from("T"), false);
    assert_eq!(tab.id(), 5);
    assert_eq!(tab.name(), "T");
    assert!(!tab.is_active());
    assert_eq!(tab.history_len(), 1);
    assert_eq!(tab.live().node_count(), 0);
    assert_eq!(tab.live().arrow_count(), 0);
}

#[test]
fn commit_evicts_the_oldest_checkpoint() {
    assert_eq!(MAX_CHECKPOINTS, 7);
    let mut tab = Tab::new(5, String::from("T"), true);
    for id in 1..=9u64 {
        tab.edit(Edit::AddNode(Node::new(id, px(0, 0, 1, 1)))).unwrap();
        tab.commit();
        assert!(tab.history_len() <= MAX_CHECKPOINTS);
        assert_eq!(tab.live().node_count(), id as usize);
    }
    assert_eq!(tab.history_len(), 7);
    // the live copy and the six snapshots before it
    let counts: Vec<usize> = (0..7).map(|i| tab.checkpoint_at(i).node_count()).collect();
    assert_eq!(counts, vec![4, 5, 6, 7, 8, 9, 9]);
}

#[test]
fn undo_pops_until_one_checkpoint_is_left() {
    let mut tab = Tab::new(5, String::from("T"), true);
    tab.edit(Edit::AddNode(Node::new(1, px(0, 0, 1, 1)))).unwrap();
    tab.commit();
    tab.edit(Edit::SetRect(1, px(3, 3, 3, 3))).unwrap();
    tab.commit();
    tab.edit(Edit::DeleteNode(1)).unwrap();
    assert_eq!(tab.history_len(), 3);
    assert!(tab.undo());
    assert_eq!(tab.live().node(1).unwrap().rect(), px(3, 3, 3, 3));
    assert!(tab.undo());
    assert_eq!(tab.live().node(1).unwrap().rect(), px(0, 0, 1, 1));
    assert!(!tab.undo());
    assert_eq!(tab.history_len(), 1);
    assert_eq!(tab.live().node(1).unwrap().rect(), px(0, 0, 1, 1));
}

#[test]
fn load_drops_the_undo_depth() {
    let mut tab = Tab::new(5, String::from("T"), true);
    tab.commit();
    tab.commit();
    let mut cp = Checkpoint::new();
    cp.add_node(Node::new(8, px(0, 0, 1, 1))).unwrap();
    tab.load(cp);
    assert_eq!(tab.history_len(), 1);
    assert!(tab.live().node(8).is_some());
    assert!(!tab.undo());
    tab.rename(String::from("renamed"));
    assert_eq!(tab.name(), "renamed");
}

#[test]
fn a_new_document_has_one_active_tab() {
    let doc = Document::new(1, String::from("D"), 2);
    assert_eq!(doc.id(), 1);
    assert_eq!(doc.name(), "D");
    assert_eq!(doc.tab_count(), 1);
    assert_eq!(doc.active_index(), 0);
    assert_eq!(doc.active_tab().id(), 2);
    assert_eq!(doc.tab_at(0).name(), "Tab 1");
    assert_eq!(doc.tab_at(0).history_len(), 1);
    assert_eq!(doc.find_tab(2), Some(0));
    assert_eq!(doc.find_tab(3), None);
    assert!(doc.tab(3).is_none());
}

#[test]
fn document_operations() {
    let mut doc = Document::new(1, String::from("D"), 2);
    assert_eq!(doc.apply(DocOp::AddTab(3)), Ok(()));
    assert_eq!(doc.apply(DocOp::AddTab(3)), Err(ModelError::DuplicateId));
    assert_eq!(doc.apply(DocOp::AddTab(4)), Ok(()));
    assert_eq!(doc.active_tab().id(), 4);
    assert_eq!(doc.tab_at(2).name(), "Tab 3");
    assert_eq!(doc.apply(DocOp::SelectTab(9)), Err(ModelError::NotFound));
    assert_eq!(doc.active_tab().id(), 4);
    assert_eq!(doc.apply(DocOp::SelectTab(3)), Ok(()));
    assert_eq!(doc.active_index(), 1);
    assert_eq!(doc.apply(DocOp::RenameTab(3, String::from("middle"))), Ok(()));
    assert_eq!(doc.apply(DocOp::RenameTab(9, String::from("x"))), Err(ModelError::NotFound));
    assert_eq!(doc.tab(3).unwrap().name(), "middle");
    assert_eq!(doc.apply(DocOp::Rename(String::from("E"))), Ok(()));
    assert_eq!(doc.name(), "E");
    assert_eq!(doc.apply(DocOp::DeleteTab(9)), Err(ModelError::NotFound));
    assert_eq!(doc.apply(DocOp::CommitTab(9)), Err(ModelError::NotFound));
    assert_eq!(doc.apply(DocOp::UndoTab(9)), Err(ModelError::NotFound));
    assert_eq!(doc.apply(DocOp::LoadTab(9, Checkpoint::new())), Err(ModelError::NotFound));
    assert_eq!(
        doc.apply(DocOp::EditTab(9, Edit::DeleteNode(1))),
        Err(ModelError::NotFound)
    );
    // edits go to the named tab, active or not
    assert_eq!(doc.apply(DocOp::EditTab(2, Edit::AddNode(Node::new(1, px(0, 0, 1, 1))))), Ok(()));
    assert_eq!(doc.tab(2).unwrap().live().node_count(), 1);
    assert_eq!(doc.tab(3).unwrap().live().node_count(), 0);
    assert_eq!(doc.apply(DocOp::CommitTab(2)), Ok(()));
    assert_eq!(doc.tab(2).unwrap().history_len(), 2);
    assert_eq!(doc.undo_tab(2), Ok(true));
    assert_eq!(doc.undo_tab(2), Ok(false));
    assert_eq!(doc.apply(DocOp::DeleteTab(3)), Ok(()));
    assert_eq!(doc.tab_count(), 2);
    assert_eq!(doc.active_tab().id(), 4);
}

#[test]
fn documents_are_created_selected_and_deleted() {
    let mut app = AppState::new(1, String::from("first"), 10);
    assert_eq!(app.doc_count(), 1);
    assert_eq!(app.current_document(), 1);
    assert_eq!(app.delete_document(1), Ok(false));
    assert_eq!(app.delete_document(2), Err(ModelError::NotFound));
    assert_eq!(app.doc_count(), 1);

    assert_eq!(app.create_document(2, String::from("second"), 20), Ok(()));
    assert_eq!(app.create_document(2, String::from("again"), 21), Err(ModelError::DuplicateId));
    assert_eq!(app.create_document(3, String::from("third"), 30), Ok(()));
    assert_eq!(app.current_document(), 3);
    assert_eq!(app.doc_at(1).name(), "second");
    assert_eq!(app.doc(2).unwrap().active_tab().id(), 20);
    assert_eq!(app.find_doc(3), Some(2));

    assert_eq!(app.select_document(9), Err(ModelError::NotFound));
    assert_eq!(app.select_document(1), Ok(()));
    assert_eq!(app.current().id(), 1);
    // deleting another document keeps the current one
    assert_eq!(app.delete_document(2), Ok(true));
    assert_eq!(app.current_document(), 1);
    // deleting the current one hands over to the last remaining
    assert_eq!(app.delete_document(1), Ok(true));
    assert_eq!(app.current_document(), 3);
    assert_eq!(app.delete_document(3), Ok(false));
    assert_eq!(app.doc_count(), 1);
    assert_eq!(app.apply(1, DocOp::AddTab(5)), Err(ModelError::NotFound));
}

#[test]
fn the_document_list_posts_requests() {
    let mut app = AppState::new(1, String::from("first"), 10);
    let mut ui = UiState::new();
    let mut mailbox = Mailbox::new();
    ui.hovered = Some(3);
    assert!(add_document(&mut app, &mut ui, &mut mailbox, 2, String::from("second"), 20));
    assert_eq!(mailbox.save, Some(SaveRequest { doc_id: Some(1), tab_id: Some(10) }));
    assert_eq!(mailbox.load, Some(LoadRequest { doc_id: None, drop_last_checkpoint: false }));
    assert_eq!(ui, UiState::new());
    assert!(!add_document(&mut app, &mut ui, &mut mailbox, 2, String::from("x"), 21));

    let mut mailbox = Mailbox::new();
    assert!(!select_document(&mut app, &mut ui, &mut mailbox, 2));
    assert!(!select_document(&mut app, &mut ui, &mut mailbox, 7));
    assert_eq!(mailbox, Mailbox::new());
    assert!(select_document(&mut app, &mut ui, &mut mailbox, 1));
    assert_eq!(app.current_document(), 1);
    assert_eq!(mailbox.save, Some(SaveRequest { doc_id: Some(2), tab_id: Some(20) }));
}

#[test]
fn labels_are_renamed_after_a_double_click() {
    let mut app = AppState::new(1, String::from("first"), 10);
    let mut ui = UiState::new();
    let mut clicks = DoubleClick::new();
    assert!(!rename_document_click(&app, &mut ui, &mut clicks, 1, 50));
    assert!(rename_document_click(&app, &mut ui, &mut clicks, 1, 549));
    assert_eq!(ui.doc_to_edit, Some(1));
    assert_eq!(finish_rename(&mut app, &mut ui, String::from("renamed")), Ok(()));
    assert_eq!(ui.doc_to_edit, None);
    assert_eq!(app.current().name(), "renamed");
    assert_eq!(
        finish_rename(&mut app, &mut ui, String::from("nothing")),
        Err(ModelError::NotFound)
    );
    ui.tab_to_edit = Some(10);
    assert_eq!(finish_rename(&mut app, &mut ui, String::from("canvas")), Ok(()));
    assert_eq!(app.current().active_tab().name(), "canvas");
    assert_eq!(ui.tab_to_edit, None);
}

#[test]
fn the_last_document_is_protected() {
    let mut app = AppState::new(1, String::from("first"), 10);
    let mut ui = UiState::new();
    let mut mailbox = Mailbox::new();
    assert!(!request_document_delete(&app, &mut ui, 500));
    assert_eq!(ui.modal, None);
    app.create_document(2, String::from("second"), 20).unwrap();
    assert!(request_document_delete(&app, &mut ui, 500));
    assert_eq!(ui.modal.map(|m| (m.id, m.entity)), Some((500, ModalEntity::Document)));
    assert_eq!(confirm_modal(&mut app, &mut ui, &mut mailbox), Some(ModalEntity::Document));
    assert_eq!(app.doc_count(), 1);
    assert_eq!(app.current_document(), 1);
    assert_eq!(mailbox.load, Some(LoadRequest { doc_id: None, drop_last_checkpoint: false }));
}

#[test]
fn arrows_are_updated_in_place() {
    let mut cp = Checkpoint::new();
    for id in 1..=3 {
        cp.add_node(Node::new(id, px(0, 0, 1, 1))).unwrap();
    }
    cp.add_arrow(arrow(10, 1, 2)).unwrap();
    cp.add_arrow(arrow(11, 2, 3)).unwrap();
    assert_eq!(cp.update_arrow(arrow(12, 1, 2)), Err(ModelError::NotFound));
    assert_eq!(cp.update_arrow(arrow(10, 1, 9)), Err(ModelError::NotFound));
    assert_eq!(cp.update_arrow(arrow(10, 9, 1)), Err(ModelError::NotFound));
    assert_eq!(cp.arrow_at(0), arrow(10, 1, 2));
    let mut turned = arrow(10, 3, 1);
    turned.arrow_type = ArrowType::ParallelLine;
    assert_eq!(cp.apply(Edit::UpdateArrow(turned)), Ok(()));
    assert_eq!(cp.arrow_at(0), turned);
    assert_eq!(cp.arrow_at(1), arrow(11, 2, 3));
    assert_eq!(cp.arrow_count(), 2);
}

#[test]
fn higher_z_index_is_drawn_on_top() {
    let mut cp = Checkpoint::new();
    assert_eq!(stacking_order(&cp), Vec::<usize>::new());
    for (id, z) in [(10u64, 0), (11, 5), (12, 0), (13, -2), (14, 5), (15, 0)] {
        let mut node = Node::new(id, px(0, 0, 1, 1));
        node.set_z_index(z);
        cp.add_node(node).unwrap();
    }
    // ties keep the order in which the nodes came onto the canvas
    assert_eq!(stacking_order(&cp), vec![3, 0, 2, 5, 1, 4]);
    let ids: Vec<u64> = stacking_order(&cp).iter().map(|p| cp.node_at(*p).id()).collect();
    assert_eq!(ids, vec![13, 10, 12, 15, 11, 14]);
    cp.delete_node(12).unwrap();
    assert_eq!(stacking_order(&cp), vec![2, 0, 4, 1, 3]);
}
