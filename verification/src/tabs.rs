//! The tab bar and the document list: selecting, adding, renaming and
//! deleting tabs and documents, and the save and load requests that go with
//! them.

use crate::app_state::{AppState, AppView};
use crate::checkpoint::ModelError;
use crate::document::{DocOp, DocOpView};
use crate::ident::{is_random_id, random_id};
use crate::interaction::{DoubleClick, Interaction, Modal, ModalEntity, UiState};
use crate::requests::{LoadRequest, Mailbox, SaveRequest};
use vstd::prelude::*;

verus! {

/// The request to save the tab `tab_id` of the current document.
pub open spec fn save_of(tab_id: u128) -> SaveRequest {
    SaveRequest { doc_id: None, tab_id: Some(tab_id) }
}

/// The request to load the active tab of the current document from storage.
pub open spec fn plain_load() -> LoadRequest {
    LoadRequest { doc_id: None, drop_last_checkpoint: false }
}

/// The mailbox after a switch away from the tab `left`: that tab is to be
/// saved, and the tab that is active now is to be loaded.
pub open spec fn after_switch(mailbox: Mailbox, left: u128) -> Mailbox {
    mailbox.with_save(save_of(left)).with_load(plain_load())
}

/// Whether selecting `tab_id` switches tabs: it is a tab of the current
/// document and not the active one.
pub open spec fn selects_other_tab(app: AppView, tab_id: u128) -> bool {
    app.current().has_tab(tab_id) && app.active_tab().id != tab_id
}

/// The interaction state in which the label of the tab `tab_id` is being
/// renamed and nothing else goes on.
pub open spec fn renaming_tab(tab_id: u128) -> UiState {
    UiState { tab_to_edit: Some(tab_id), ..UiState::idle() }
}

/// The interaction state in which the label of the document `doc_id` is
/// being renamed and nothing else goes on.
pub open spec fn renaming_doc(doc_id: u128) -> UiState {
    UiState { doc_to_edit: Some(doc_id), ..UiState::idle() }
}

/// The interaction state in which the dialog `modal` is open and nothing
/// else goes on.
pub open spec fn asking(modal: Modal) -> UiState {
    UiState { modal: Some(modal), ..UiState::idle() }
}

/// Makes `tab_id` the active tab of the current document, if it is one of
/// its tabs and not active already. The tab that was active is posted for
/// saving, the new one for loading, and the interaction state starts afresh.
/// Returns whether the tabs were switched.
pub fn select_tab(app: &mut AppState, ui: &mut UiState, mailbox: &mut Mailbox, tab_id: u128) -> (switched:
    bool)
    requires
        old(app)@.wf(),
    ensures
        final(app)@.wf(),
        switched == selects_other_tab(old(app)@, tab_id),
        switched ==> {
            &&& final(app)@ == old(app)@.after(
                old(app)@.current_document,
                DocOpView::SelectTab(tab_id),
            )
            &&& *final(mailbox) == after_switch(*old(mailbox), old(app)@.active_tab().id)
            &&& *final(ui) == UiState::idle()
        },
        !switched ==> final(app)@ == old(app)@ && *final(mailbox) == *old(mailbox) && *final(ui)
            == *old(ui),
{
    proof {
        app@.lemma_current_wf();
    }
    let active = app.active_tab_id();
    if active == tab_id || app.current().find_tab(tab_id).is_none() {
        return false;
    }
    let doc_id = app.current_document();
    let _ = app.apply(doc_id, DocOp::SelectTab(tab_id));
    mailbox.post_save(SaveRequest { doc_id: None, tab_id: Some(active) });
    mailbox.post_load(LoadRequest { doc_id: None, drop_last_checkpoint: false });
    *ui = UiState::new();
    true
}

/// Takes up what the pointer did to the label of the tab `tab_id`: a click
/// selects the tab.
pub fn selected_tab_handler(
    app: &mut AppState,
    ui: &mut UiState,
    mailbox: &mut Mailbox,
    interaction: Interaction,
    tab_id: u128,
) -> (switched: bool)
    requires
        old(app)@.wf(),
    ensures
        final(app)@.wf(),
        switched == (interaction == Interaction::Clicked && selects_other_tab(old(app)@, tab_id)),
        switched ==> {
            &&& final(app)@ == old(app)@.after(
                old(app)@.current_document,
                DocOpView::SelectTab(tab_id),
            )
            &&& *final(mailbox) == after_switch(*old(mailbox), old(app)@.active_tab().id)
            &&& *final(ui) == UiState::idle()
        },
        !switched ==> final(app)@ == old(app)@ && *final(mailbox) == *old(mailbox) && *final(ui)
            == *old(ui),
{
    match interaction {
        Interaction::Clicked => select_tab(app, ui, mailbox, tab_id),
        _ => false,
    }
}

/// Appends a tab with the id `tab_id` to the current document and makes it
/// the active one, unless the id is taken. The tab that was active is posted
/// for saving, the new one for loading, and the interaction state starts
/// afresh. Returns whether the tab was added.
pub fn add_tab(app: &mut AppState, ui: &mut UiState, mailbox: &mut Mailbox, tab_id: u128) -> (added:
    bool)
    requires
        old(app)@.wf(),
    ensures
        final(app)@.wf(),
        added == !old(app)@.current().has_tab(tab_id),
        added ==> {
            &&& final(app)@ == old(app)@.after(
                old(app)@.current_document,
                DocOpView::AddTab(tab_id),
            )
            &&& *final(mailbox) == after_switch(*old(mailbox), old(app)@.active_tab().id)
            &&& *final(ui) == UiState::idle()
        },
        !added ==> final(app)@ == old(app)@ && *final(mailbox) == *old(mailbox) && *final(ui)
            == *old(ui),
{
    proof {
        app@.lemma_current_wf();
    }
    let active = app.active_tab_id();
    if app.current().find_tab(tab_id).is_some() {
        return false;
    }
    let doc_id = app.current_document();
    let _ = app.apply(doc_id, DocOp::AddTab(tab_id));
    mailbox.post_save(SaveRequest { doc_id: None, tab_id: Some(active) });
    mailbox.post_load(LoadRequest { doc_id: None, drop_last_checkpoint: false });
    *ui = UiState::new();
    true
}

/// Takes up what the pointer did to the "new tab" button: a click adds a tab
/// under a random id. Returns the id of the new tab; `None` when nothing was
/// added, be it that the button was not clicked or that the id drawn was
/// taken. A click therefore adds a tab whenever no tab of the current
/// document carries an id of the random kind.
pub fn add_tab_handler(
    app: &mut AppState,
    ui: &mut UiState,
    mailbox: &mut Mailbox,
    interaction: Interaction,
) -> (added: Option<u128>)
    requires
        old(app)@.wf(),
    ensures
        final(app)@.wf(),
        added is Some ==> interaction == Interaction::Clicked,
        interaction == Interaction::Clicked && added is None ==> random_id_is_taken(old(app)@),
        match added {
            Some(tab_id) => {
                &&& is_random_id(tab_id)
                &&& !old(app)@.current().has_tab(tab_id)
                &&& final(app)@ == old(app)@.after(
                    old(app)@.current_document,
                    DocOpView::AddTab(tab_id),
                )
                &&& *final(mailbox) == after_switch(*old(mailbox), old(app)@.active_tab().id)
                &&& *final(ui) == UiState::idle()
            },
            None => final(app)@ == old(app)@ && *final(mailbox) == *old(mailbox) && *final(ui)
                == *old(ui),
        },
{
    match interaction {
        Interaction::Clicked => {
            let tab_id = random_id();
            if add_tab(app, ui, mailbox, tab_id) {
                Some(tab_id)
            } else {
                None
            }
        },
        _ => None,
    }
}

/// Whether some tab of the current document carries an id of the random
/// kind, so that a newly drawn id may meet it.
pub open spec fn random_id_is_taken(app: AppView) -> bool {
    exists|id: u128| is_random_id(id) && #[trigger] app.current().has_tab(id)
}

/// Takes up what the pointer did to the label of the tab `tab_id` at time
/// `now_ms`: the second click of a double click opens the label for
/// renaming, if the tab belongs to the current document. Returns whether it
/// did.
pub fn rename_tab_handler(
    app: &AppState,
    ui: &mut UiState,
    clicks: &mut DoubleClick,
    interaction: Interaction,
    tab_id: u128,
    now_ms: u64,
) -> (renaming: bool)
    requires
        app@.wf(),
    ensures
        interaction == Interaction::Clicked ==> *final(clicks) == old(clicks).after_click(
            tab_id,
            now_ms,
        ),
        interaction != Interaction::Clicked ==> *final(clicks) == *old(clicks),
        renaming == (interaction == Interaction::Clicked && old(clicks).completes(tab_id, now_ms)
            && app@.current().has_tab(tab_id)),
        renaming ==> *final(ui) == renaming_tab(tab_id),
        !renaming ==> *final(ui) == *old(ui),
{
    match interaction {
        Interaction::Clicked => {
            if clicks.register(tab_id, now_ms) && app.current().find_tab(tab_id).is_some() {
                *ui = UiState::new();
                ui.tab_to_edit = Some(tab_id);
                true
            } else {
                false
            }
        },
        _ => false,
    }
}

/// Asks for the deletion of the active tab: the interaction state starts
/// afresh, and unless the tab is the only one of the current document, a
/// confirmation dialog with the id `modal_id` opens. The tab itself stays
/// until the dialog is confirmed. Returns whether the dialog opened.
pub fn request_tab_delete(app: &AppState, ui: &mut UiState, modal_id: u128) -> (asked: bool)
    requires
        app@.wf(),
    ensures
        asked == (app@.current().tabs.len() >= 2),
        asked ==> *final(ui) == asking(Modal { id: modal_id, entity: ModalEntity::Tab }),
        !asked ==> *final(ui) == UiState::idle(),
{
    *ui = UiState::new();
    if app.current().tab_count() < 2 {
        false
    } else {
        ui.modal = Some(Modal { id: modal_id, entity: ModalEntity::Tab });
        true
    }
}

/// Takes up what the pointer did to the "delete tab" button: a click asks
/// for the deletion of the active tab. Returns the id of the confirmation
/// dialog that opened; `None` when none did, be it that the button was not
/// clicked or that the tab is the only one and therefore stays.
pub fn delete_tab_handler(app: &AppState, ui: &mut UiState, interaction: Interaction) -> (modal_id:
    Option<u128>)
    requires
        app@.wf(),
    ensures
        modal_id is Some <==> interaction == Interaction::Clicked && app@.current().tabs.len() >= 2,
        interaction != Interaction::Clicked ==> *final(ui) == *old(ui),
        interaction == Interaction::Clicked && modal_id is None ==> *final(ui) == UiState::idle(),
        modal_id is Some ==> *final(ui) == asking(
            Modal { id: modal_id->0, entity: ModalEntity::Tab },
        ),
{
    match interaction {
        Interaction::Clicked => {
            let id = random_id();
            if request_tab_delete(app, ui, id) {
                Some(id)
            } else {
                None
            }
        },
        _ => None,
    }
}

/// What confirming the open dialog deletes, if anything: the active tab,
/// unless it is the only one, or the current document, unless it is the only
/// one.
pub open spec fn confirmed_deletion(app: AppView, ui: UiState) -> Option<ModalEntity> {
    match ui.modal {
        Some(modal) => match modal.entity {
            ModalEntity::Tab => if app.current().tabs.len() >= 2 {
                Some(ModalEntity::Tab)
            } else {
                None
            },
            ModalEntity::Document => if app.docs.len() >= 2 {
                Some(ModalEntity::Document)
            } else {
                None
            },
        },
        None => None,
    }
}

/// The state after the open dialog was confirmed.
pub open spec fn after_confirmation(app: AppView, ui: UiState) -> AppView {
    match confirmed_deletion(app, ui) {
        Some(ModalEntity::Tab) => app.after(
            app.current_document,
            DocOpView::DeleteTab(app.active_tab().id),
        ),
        Some(ModalEntity::Document) => app.without_document(app.current_document),
        None => app,
    }
}

/// Confirms the open dialog: what it asked about is deleted, the dialog
/// closes, and what is active afterwards is posted for loading. The last
/// tab of a document and the last document are not deleted. Returns what was
/// deleted.
pub fn confirm_modal(app: &mut AppState, ui: &mut UiState, mailbox: &mut Mailbox) -> (deleted:
    Option<ModalEntity>)
    requires
        old(app)@.wf(),
    ensures
        final(app)@.wf(),
        deleted == confirmed_deletion(old(app)@, *old(ui)),
        final(app)@ == after_confirmation(old(app)@, *old(ui)),
        *final(ui) == (UiState { modal: None, ..*old(ui) }),
        deleted is Some ==> *final(mailbox) == old(mailbox).with_load(plain_load()),
        deleted is None ==> *final(mailbox) == *old(mailbox),
{
    let modal = match ui.modal {
        Some(modal) => modal,
        None => {
            return None;
        },
    };
    ui.modal = None;
    proof {
        app@.lemma_current_wf();
    }
    let doc_id = app.current_document();
    let deleted = match modal.entity {
        ModalEntity::Tab => {
            let tab_id = app.active_tab_id();
            match app.apply(doc_id, DocOp::DeleteTab(tab_id)) {
                Ok(_) => Some(ModalEntity::Tab),
                Err(_) => None,
            }
        },
        ModalEntity::Document => {
            match app.delete_document(doc_id) {
                Ok(gone) => if gone {
                    Some(ModalEntity::Document)
                } else {
                    None
                },
                Err(_) => None,
            }
        },
    };
    if deleted.is_some() {
        mailbox.post_load(LoadRequest { doc_id: None, drop_last_checkpoint: false });
    }
    deleted
}

/// Dismisses the open dialog; nothing is deleted.
pub fn cancel_modal(ui: &mut UiState)
    ensures
        *final(ui) == (UiState { modal: None, ..*old(ui) }),
{
    ui.modal = None;
}

/// Adds a document with the id `doc_id`, whose default tab gets the id
/// `tab_id`, and makes it the current document, unless the id is taken. The
/// tab that was active is posted for saving, the new one for loading, and
/// the interaction state starts afresh. Returns whether the document was
/// added.
pub fn add_document(
    app: &mut AppState,
    ui: &mut UiState,
    mailbox: &mut Mailbox,
    doc_id: u128,
    name: String,
    tab_id: u128,
) -> (added: bool)
    requires
        old(app)@.wf(),
    ensures
        final(app)@.wf(),
        added == !old(app)@.has_doc(doc_id),
        added ==> {
            &&& final(app)@ == old(app)@.with_document_added(doc_id, name@, tab_id)
            &&& *final(mailbox) == old(mailbox).with_save(
                SaveRequest {
                    doc_id: Some(old(app)@.current_document),
                    tab_id: Some(old(app)@.active_tab().id),
                },
            ).with_load(plain_load())
            &&& *final(ui) == UiState::idle()
        },
        !added ==> final(app)@ == old(app)@ && *final(mailbox) == *old(mailbox) && *final(ui)
            == *old(ui),
{
    let left_doc = app.current_document();
    let left_tab = app.active_tab_id();
    match app.create_document(doc_id, name, tab_id) {
        Ok(_) => {
            mailbox.post_save(SaveRequest { doc_id: Some(left_doc), tab_id: Some(left_tab) });
            mailbox.post_load(LoadRequest { doc_id: None, drop_last_checkpoint: false });
            *ui = UiState::new();
            true
        },
        Err(_) => false,
    }
}

/// Whether selecting `doc_id` switches documents: it exists and is not the
/// current one.
pub open spec fn selects_other_doc(app: AppView, doc_id: u128) -> bool {
    app.has_doc(doc_id) && app.current_document != doc_id
}

/// Makes `doc_id` the current document, if it exists and is not current
/// already. The tab that was active is posted for saving, the active tab of
/// the new current document for loading, and the interaction state starts
/// afresh. Returns whether the documents were switched.
pub fn select_document(
    app: &mut AppState,
    ui: &mut UiState,
    mailbox: &mut Mailbox,
    doc_id: u128,
) -> (switched: bool)
    requires
        old(app)@.wf(),
    ensures
        final(app)@.wf(),
        switched == selects_other_doc(old(app)@, doc_id),
        switched ==> {
            &&& final(app)@ == old(app)@.with_current(doc_id)
            &&& *final(mailbox) == old(mailbox).with_save(
                SaveRequest {
                    doc_id: Some(old(app)@.current_document),
                    tab_id: Some(old(app)@.active_tab().id),
                },
            ).with_load(plain_load())
            &&& *final(ui) == UiState::idle()
        },
        !switched ==> final(app)@ == old(app)@ && *final(mailbox) == *old(mailbox) && *final(ui)
            == *old(ui),
{
    let left_doc = app.current_document();
    if left_doc == doc_id {
        return false;
    }
    let left_tab = app.active_tab_id();
    match app.select_document(doc_id) {
        Ok(_) => {
            mailbox.post_save(SaveRequest { doc_id: Some(left_doc), tab_id: Some(left_tab) });
            mailbox.post_load(LoadRequest { doc_id: None, drop_last_checkpoint: false });
            *ui = UiState::new();
            true
        },
        Err(_) => false,
    }
}

/// Takes up a click on the label of the document `doc_id` at time `now_ms`:
/// the second click of a double click opens the label for renaming, if the
/// document exists. Returns whether it did.
pub fn rename_document_click(
    app: &AppState,
    ui: &mut UiState,
    clicks: &mut DoubleClick,
    doc_id: u128,
    now_ms: u64,
) -> (renaming: bool)
    ensures
        *final(clicks) == old(clicks).after_click(doc_id, now_ms),
        renaming == (old(clicks).completes(doc_id, now_ms) && app@.has_doc(doc_id)),
        renaming ==> *final(ui) == renaming_doc(doc_id),
        !renaming ==> *final(ui) == *old(ui),
{
    if clicks.register(doc_id, now_ms) && app.find_doc(doc_id).is_some() {
        *ui = UiState::new();
        ui.doc_to_edit = Some(doc_id);
        true
    } else {
        false
    }
}

/// Asks for the deletion of the current document: the interaction state
/// starts afresh, and unless the document is the only one, a confirmation
/// dialog with the id `modal_id` opens. Returns whether the dialog opened.
pub fn request_document_delete(app: &AppState, ui: &mut UiState, modal_id: u128) -> (asked: bool)
    ensures
        asked == (app@.docs.len() >= 2),
        asked ==> *final(ui) == asking(Modal { id: modal_id, entity: ModalEntity::Document }),
        !asked ==> *final(ui) == UiState::idle(),
{
    *ui = UiState::new();
    if app.doc_count() < 2 {
        false
    } else {
        ui.modal = Some(Modal { id: modal_id, entity: ModalEntity::Document });
        true
    }
}

/// Ends the renaming of a tab or document label: the label under renaming
/// takes `name`, and the renaming is over. Returns whether a label was
/// renamed.
pub fn finish_rename(app: &mut AppState, ui: &mut UiState, name: String) -> (r: Result<
    (),
    ModelError,
>)
    requires
        old(app)@.wf(),
    ensures
        final(app)@.wf(),
        *final(ui) == (UiState { tab_to_edit: None, doc_to_edit: None, ..*old(ui) }),
        final(app)@ == rename_target(old(app)@, *old(ui), name@).0,
        r == rename_target(old(app)@, *old(ui), name@).1,
{
    let tab = ui.tab_to_edit;
    let doc = ui.doc_to_edit;
    ui.tab_to_edit = None;
    ui.doc_to_edit = None;
    let current = app.current_document();
    match tab {
        Some(tab_id) => app.apply(current, DocOp::RenameTab(tab_id, name)),
        None => match doc {
            Some(doc_id) => app.apply(doc_id, DocOp::Rename(name)),
            None => Err(ModelError::NotFound),
        },
    }
}

/// What the end of a renaming does: a tab label under renaming goes first,
/// then a document label; without either nothing is found to rename.
pub open spec fn rename_target(app: AppView, ui: UiState, name: Seq<char>) -> (
    AppView,
    Result<(), ModelError>,
) {
    match ui.tab_to_edit {
        Some(tab_id) => (
            app.after(app.current_document, DocOpView::RenameTab(tab_id, name)),
            app.outcome(app.current_document, DocOpView::RenameTab(tab_id, name)),
        ),
        None => match ui.doc_to_edit {
            Some(doc_id) => (
                app.after(doc_id, DocOpView::Rename(name)),
                app.outcome(doc_id, DocOpView::Rename(name)),
            ),
            None => (app, Err(ModelError::NotFound)),
        },
    }
}

} // verus!
