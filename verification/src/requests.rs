//! Save and load requests.
//!
//! Anything that wants the canvas saved or loaded posts a request into a
//! single-slot mailbox. A later request of the same kind overwrites an
//! earlier one. Once per tick the slot is read and cleared, the caller does
//! the storage work, and the outcome is handed back here.

use crate::app_state::{AppState, AppView};
use crate::checkpoint::{Checkpoint, CheckpointView, ModelError};
use crate::document::{DocOp, DocOpView};
use vstd::prelude::*;

verus! {

/// A request to save a tab. An absent document means the current document,
/// an absent tab the active tab of that document.
#[derive(Clone, Copy, Debug, PartialEq, Eq)]
pub struct SaveRequest {
    pub doc_id: Option<u128>,
    pub tab_id: Option<u128>,
}

/// A request to load the active tab of a document. An absent document means
/// the current document. With `drop_last_checkpoint` the tab steps back to
/// the checkpoint below the newest one instead of reading storage.
#[derive(Clone, Copy, Debug, PartialEq, Eq)]
pub struct LoadRequest {
    pub doc_id: Option<u128>,
    pub drop_last_checkpoint: bool,
}

/// The two request slots.
#[derive(Clone, Copy, Debug, PartialEq, Eq)]
pub struct Mailbox {
    pub save: Option<SaveRequest>,
    pub load: Option<LoadRequest>,
}

impl Mailbox {
    pub open spec fn empty() -> Mailbox {
        Mailbox { save: None, load: None }
    }

    pub open spec fn with_save(self, request: SaveRequest) -> Mailbox {
        Mailbox { save: Some(request), ..self }
    }

    pub open spec fn with_load(self, request: LoadRequest) -> Mailbox {
        Mailbox { load: Some(request), ..self }
    }

    pub open spec fn without_save(self) -> Mailbox {
        Mailbox { save: None, ..self }
    }

    pub open spec fn without_load(self) -> Mailbox {
        Mailbox { load: None, ..self }
    }

    /// A mailbox with both slots empty.
    pub fn new() -> (r: Mailbox)
        ensures
            r == Mailbox::empty(),
    {
        Mailbox { save: None, load: None }
    }

    /// Posts a save request; a pending one is overwritten.
    pub fn post_save(&mut self, request: SaveRequest)
        ensures
            *final(self) == old(self).with_save(request),
    {
        self.save = Some(request);
    }

    /// Posts a load request; a pending one is overwritten.
    pub fn post_load(&mut self, request: LoadRequest)
        ensures
            *final(self) == old(self).with_load(request),
    {
        self.load = Some(request);
    }

    /// Reads and clears the save slot.
    pub fn take_save(&mut self) -> (r: Option<SaveRequest>)
        ensures
            r == old(self).save,
            *final(self) == old(self).without_save(),
    {
        let r = self.save;
        self.save = None;
        r
    }

    /// Reads and clears the load slot.
    pub fn take_load(&mut self) -> (r: Option<LoadRequest>)
        ensures
            r == old(self).load,
            *final(self) == old(self).without_load(),
    {
        let r = self.load;
        self.load = None;
        r
    }
}

/// Requests coalesce: of two save requests posted before the slot is read,
/// only the second is ever seen, and after one read the slot is empty.
pub proof fn lemma_save_requests_coalesce(m: Mailbox, first: SaveRequest, second: SaveRequest)
    ensures
        m.with_save(first).with_save(second).save == Some(second),
        m.with_save(first).with_save(second) == m.with_save(second),
        m.with_save(first).with_save(second).without_save().save == None::<SaveRequest>,
        m.with_save(first).with_save(second).load == m.load,
{
}

/// Load requests coalesce in the same way, and the two slots do not disturb
/// each other.
pub proof fn lemma_load_requests_coalesce(m: Mailbox, first: LoadRequest, second: LoadRequest)
    ensures
        m.with_load(first).with_load(second).load == Some(second),
        m.with_load(first).with_load(second) == m.with_load(second),
        m.with_load(first).with_load(second).without_load().load == None::<LoadRequest>,
        m.with_load(first).with_load(second).save == m.save,
{
}

/// A failure of the storage behind the application.
#[derive(Debug)]
pub struct IoError {
    pub message: String,
}

/// Why a save or a load did not go through.
#[derive(Debug)]
pub enum PersistError {
    /// Storage failed; the state in memory is as it was.
    Io(IoError),
    /// The document or tab of the job is no longer there.
    Model(ModelError),
}

/// What a save has to write: the live canvas of one tab.
#[derive(Debug)]
pub struct SaveJob {
    pub doc_id: u128,
    pub tab_id: u128,
    pub checkpoint: Checkpoint,
}

/// What a load has to do for one tab.
#[derive(Clone, Copy, Debug, PartialEq, Eq)]
pub struct LoadJob {
    pub doc_id: u128,
    pub tab_id: u128,
    /// Whether the tab's checkpoint has to be read from storage. When it is
    /// `false` the tab has already stepped back in memory and only needs to
    /// be shown again.
    pub from_storage: bool,
}

/// The document that a request names, or the current one.
pub open spec fn target_doc(app: AppView, doc_id: Option<u128>) -> u128 {
    match doc_id {
        Some(id) => id,
        None => app.current_document,
    }
}

/// The document and tab that a save request is about, if they exist.
pub open spec fn save_target(app: AppView, request: SaveRequest) -> Option<(u128, u128)> {
    let doc_id = target_doc(app, request.doc_id);
    if !app.has_doc(doc_id) {
        None
    } else {
        let tab_id = match request.tab_id {
            Some(id) => id,
            None => app.doc(doc_id).active_tab().id,
        };
        if app.doc(doc_id).has_tab(tab_id) {
            Some((doc_id, tab_id))
        } else {
            None
        }
    }
}

/// The document and tab that a load request is about, if the document
/// exists: always its active tab.
pub open spec fn load_target(app: AppView, request: LoadRequest) -> Option<(u128, u128)> {
    let doc_id = target_doc(app, request.doc_id);
    if !app.has_doc(doc_id) {
        None
    } else {
        Some((doc_id, app.doc(doc_id).active_tab().id))
    }
}

/// The state after a load request was taken up: a request that asks to drop
/// the last checkpoint makes its tab step back, any other leaves the state
/// alone until storage has answered.
pub open spec fn after_begin_load(app: AppView, request: Option<LoadRequest>) -> AppView {
    match request {
        Some(req) => match load_target(app, req) {
            Some((doc_id, tab_id)) => if req.drop_last_checkpoint {
                app.after(doc_id, DocOpView::UndoTab(tab_id))
            } else {
                app
            },
            None => app,
        },
        None => app,
    }
}

/// The state after storage answered a save: a stored canvas is committed
/// to its tab's history, a failed save changes nothing.
pub open spec fn after_save(app: AppView, doc_id: u128, tab_id: u128, stored: bool) -> AppView {
    if stored {
        app.after(doc_id, DocOpView::CommitTab(tab_id))
    } else {
        app
    }
}

/// The state after storage answered a load: a loaded checkpoint replaces
/// the whole history of its tab, a failed load changes nothing.
pub open spec fn after_load(
    app: AppView,
    doc_id: u128,
    tab_id: u128,
    loaded: Option<CheckpointView>,
) -> AppView {
    match loaded {
        Some(cp) => app.after(doc_id, DocOpView::LoadTab(tab_id, cp)),
        None => app,
    }
}

/// Reads and clears the save slot and, if there is a request whose document
/// and tab exist, hands out a copy of that tab's live canvas to be stored.
pub fn begin_save(app: &AppState, mailbox: &mut Mailbox) -> (job: Option<SaveJob>)
    requires
        app@.wf(),
    ensures
        *final(mailbox) == old(mailbox).without_save(),
        job is Some <==> old(mailbox).save is Some && save_target(app@, old(mailbox).save->0)
            is Some,
        job is Some ==> {
            let target = save_target(app@, old(mailbox).save->0)->0;
            &&& job->0.doc_id == target.0
            &&& job->0.tab_id == target.1
            &&& job->0.checkpoint@ == app@.doc(target.0).tab(target.1).live()
            &&& job->0.checkpoint@.wf()
        },
{
    let request = match mailbox.take_save() {
        Some(request) => request,
        None => {
            return None;
        },
    };
    let doc_id = match request.doc_id {
        Some(id) => id,
        None => app.current_document(),
    };
    let doc = match app.doc(doc_id) {
        Some(doc) => doc,
        None => {
            return None;
        },
    };
    proof {
        let p = app@.doc_position(doc_id);
        assert(app@.docs[p].wf());
        doc@.lemma_active_exists();
    }
    let tab_id = match request.tab_id {
        Some(id) => id,
        None => doc.active_tab().id(),
    };
    match doc.tab(tab_id) {
        Some(tab) => {
            proof {
                let q = doc@.tab_position(tab_id);
                assert(doc@.tabs[q].wf());
                assert(tab@.history[tab@.history.len() - 1].wf());
            }
            Some(SaveJob { doc_id, tab_id, checkpoint: tab.live().clone() })
        },
        None => None,
    }
}

/// Takes up the outcome of a save: a stored canvas is committed to the
/// history of its tab, a failed save leaves the state as it was and is
/// handed back to be reported.
pub fn finish_save(app: &mut AppState, doc_id: u128, tab_id: u128, stored: Result<(), IoError>) -> (r:
    Result<(), PersistError>)
    requires
        old(app)@.wf(),
    ensures
        final(app)@.wf(),
        final(app)@ == after_save(old(app)@, doc_id, tab_id, stored is Ok),
        stored is Err ==> r == Err::<(), PersistError>(PersistError::Io(stored->Err_0)),
        stored is Ok ==> match old(app)@.outcome(doc_id, DocOpView::CommitTab(tab_id)) {
            Ok(_) => r is Ok,
            Err(e) => r == Err::<(), PersistError>(PersistError::Model(e)),
        },
{
    match stored {
        Err(e) => Err(PersistError::Io(e)),
        Ok(_) => match app.apply(doc_id, DocOp::CommitTab(tab_id)) {
            Ok(_) => Ok(()),
            Err(e) => Err(PersistError::Model(e)),
        },
    }
}

/// Reads and clears the load slot and says what is to be loaded, if the
/// request's document exists. A request that asks to drop the last
/// checkpoint is served from memory at once: its tab steps back by one
/// checkpoint (or stays, if it has only one).
pub fn begin_load(app: &mut AppState, mailbox: &mut Mailbox) -> (job: Option<LoadJob>)
    requires
        old(app)@.wf(),
    ensures
        final(app)@.wf(),
        *final(mailbox) == old(mailbox).without_load(),
        final(app)@ == after_begin_load(old(app)@, old(mailbox).load),
        job is Some <==> old(mailbox).load is Some && load_target(old(app)@, old(mailbox).load->0)
            is Some,
        job is Some ==> {
            let target = load_target(old(app)@, old(mailbox).load->0)->0;
            &&& job->0.doc_id == target.0
            &&& job->0.tab_id == target.1
            &&& job->0.from_storage == !old(mailbox).load->0.drop_last_checkpoint
        },
{
    let request = match mailbox.take_load() {
        Some(request) => request,
        None => {
            return None;
        },
    };
    let doc_id = match request.doc_id {
        Some(id) => id,
        None => app.current_document(),
    };
    let tab_id = match app.doc(doc_id) {
        Some(doc) => {
            proof {
                let p = app@.doc_position(doc_id);
                assert(app@.docs[p].wf());
            }
            doc.active_tab().id()
        },
        None => {
            return None;
        },
    };
    if request.drop_last_checkpoint {
        let _ = app.apply(doc_id, DocOp::UndoTab(tab_id));
    }
    Some(LoadJob { doc_id, tab_id, from_storage: !request.drop_last_checkpoint })
}

/// Takes up the outcome of a load: a loaded checkpoint replaces the whole
/// history of its tab, a failed load leaves the state as it was and is
/// handed back to be reported.
pub fn finish_load(
    app: &mut AppState,
    doc_id: u128,
    tab_id: u128,
    loaded: Result<Checkpoint, IoError>,
) -> (r: Result<(), PersistError>)
    requires
        old(app)@.wf(),
        loaded is Ok ==> loaded->Ok_0@.wf(),
    ensures
        final(app)@.wf(),
        final(app)@ == after_load(
            old(app)@,
            doc_id,
            tab_id,
            match loaded {
                Ok(cp) => Some(cp@),
                Err(_) => None,
            },
        ),
        loaded is Err ==> r == Err::<(), PersistError>(PersistError::Io(loaded->Err_0)),
        loaded is Ok ==> match old(app)@.outcome(
            doc_id,
            DocOpView::LoadTab(tab_id, loaded->Ok_0@),
        ) {
            Ok(_) => r is Ok,
            Err(e) => r == Err::<(), PersistError>(PersistError::Model(e)),
        },
{
    match loaded {
        Err(e) => Err(PersistError::Io(e)),
        Ok(cp) => match app.apply(doc_id, DocOp::LoadTab(tab_id, cp)) {
            Ok(_) => Ok(()),
            Err(e) => Err(PersistError::Model(e)),
        },
    }
}

} // verus!
