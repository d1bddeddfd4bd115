//! The application state: every document, the current one, and the counter
//! that names new nodes and arrows.

use crate::checkpoint::{Checkpoint, CheckpointView, Edit, EditView, ModelError};
use crate::document::{one_active, DocOp, DocOpView, Document, DocumentView};
use crate::history::TabView;
use crate::seq_util::pairwise;
use vstd::prelude::*;

verus! {

/// Two documents with different ids.
pub open spec fn docs_differ() -> spec_fn(DocumentView, DocumentView) -> bool {
    |a: DocumentView, b: DocumentView| a.id != b.id
}

/// Mathematical model of the application state.
pub struct AppView {
    pub docs: Seq<DocumentView>,
    pub current_document: u128,
    pub entity_counter: u64,
}

impl AppView {
    pub open spec fn has_doc(self, id: u128) -> bool {
        exists|i: int| 0 <= i < self.docs.len() && (#[trigger] self.docs[i]).id == id
    }

    /// Where the document `id` stands in the document list.
    pub open spec fn doc_position(self, id: u128) -> int {
        choose|i: int| 0 <= i < self.docs.len() && (#[trigger] self.docs[i]).id == id
    }

    /// The document called `id`.
    pub open spec fn doc(self, id: u128) -> DocumentView
        recommends
            self.has_doc(id),
    {
        self.docs[self.doc_position(id)]
    }

    /// The current document.
    pub open spec fn current(self) -> DocumentView {
        self.doc(self.current_document)
    }

    /// The active tab of the current document.
    pub open spec fn active_tab(self) -> TabView {
        self.current().active_tab()
    }

    /// The live canvas of the active tab of the current document.
    pub open spec fn live(self) -> CheckpointView {
        self.active_tab().live()
    }

    /// There is at least one document, the documents are well-formed and
    /// have different ids, and the current document is one of them.
    pub open spec fn wf(self) -> bool {
        &&& self.docs.len() >= 1
        &&& forall|i: int| 0 <= i < self.docs.len() ==> (#[trigger] self.docs[i]).wf()
        &&& pairwise(self.docs, docs_differ())
        &&& self.has_doc(self.current_document)
    }

    /// The state at start: one new document, which is current.
    pub open spec fn fresh(doc_id: u128, name: Seq<char>, tab_id: u128) -> AppView {
        AppView {
            docs: seq![DocumentView::fresh(doc_id, name, tab_id)],
            current_document: doc_id,
            entity_counter: 0,
        }
    }

    /// The state with a new document at the end of the list, which becomes
    /// the current one.
    pub open spec fn with_document_added(
        self,
        doc_id: u128,
        name: Seq<char>,
        tab_id: u128,
    ) -> AppView {
        AppView {
            docs: self.docs.push(DocumentView::fresh(doc_id, name, tab_id)),
            current_document: doc_id,
            ..self
        }
    }

    /// The state without the document `id`; if that was the current one,
    /// the last of the remaining documents takes over.
    pub open spec fn without_document(self, id: u128) -> AppView {
        let rest = self.docs.remove(self.doc_position(id));
        AppView {
            docs: rest,
            current_document: if self.current_document == id {
                rest.last().id
            } else {
                self.current_document
            },
            ..self
        }
    }

    /// What deleting the document `id` answers: an error when there is no
    /// such document, `false` when it is the only one and therefore stays,
    /// `true` when it goes.
    pub open spec fn delete_document_outcome(self, id: u128) -> Result<bool, ModelError> {
        if !self.has_doc(id) {
            Err(ModelError::NotFound)
        } else {
            Ok(self.docs.len() >= 2)
        }
    }

    /// The state with the document that shares `doc`'s id replaced by it.
    pub open spec fn with_doc_replaced(self, doc: DocumentView) -> AppView {
        AppView { docs: self.docs.update(self.doc_position(doc.id), doc), ..self }
    }

    pub open spec fn with_current(self, id: u128) -> AppView {
        AppView { current_document: id, ..self }
    }

    pub open spec fn with_counter(self, entity_counter: u64) -> AppView {
        AppView { entity_counter, ..self }
    }

    /// Whether `op` on the document `doc_id` is accepted, and if not, why.
    pub open spec fn outcome(self, doc_id: u128, op: DocOpView) -> Result<(), ModelError> {
        if self.has_doc(doc_id) {
            self.doc(doc_id).outcome(op)
        } else {
            Err(ModelError::NotFound)
        }
    }

    /// The state after `op` on the document `doc_id`; a declined operation
    /// changes nothing.
    pub open spec fn after(self, doc_id: u128, op: DocOpView) -> AppView {
        if self.outcome(doc_id, op) is Err {
            self
        } else {
            self.with_doc_replaced(self.doc(doc_id).after(op))
        }
    }

    /// Every operation on any document, accepted or declined, leaves a
    /// well-formed state well-formed: every document still has at least one
    /// tab and exactly one active tab, and no history exceeds its bound.
    pub proof fn lemma_after_wf(self, doc_id: u128, op: DocOpView)
        requires
            self.wf(),
            op.wf(),
        ensures
            self.after(doc_id, op).wf(),
            self.after(doc_id, op).docs.len() == self.docs.len(),
            self.after(doc_id, op).current_document == self.current_document,
            forall|i: int|
                0 <= i < self.after(doc_id, op).docs.len() ==> one_active(
                    (#[trigger] self.after(doc_id, op).docs[i]).tabs,
                ),
    {
        if self.outcome(doc_id, op) is Ok {
            let p = self.doc_position(doc_id);
            assert(self.docs[p].wf());
            self.doc(doc_id).lemma_after_wf(op);
            self.lemma_with_doc_replaced_wf(self.doc(doc_id).after(op));
        }
        let out = self.after(doc_id, op);
        assert forall|i: int| 0 <= i < out.docs.len() implies one_active(
            (#[trigger] out.docs[i]).tabs,
        ) by {
            assert(out.docs[i].wf());
        }
    }

    /// The state after an edit of the live canvas.
    pub open spec fn edited(self, edit: EditView) -> AppView {
        self.after(self.current_document, DocOpView::EditTab(self.active_tab().id, edit))
    }

    /// An edit of the live canvas changes that canvas as the edit says and
    /// nothing else: not the current document, not the active tab, not the
    /// counter, not the checkpoints below the live one.
    pub proof fn lemma_edited(self, edit: EditView)
        requires
            self.wf(),
            edit.wf(),
        ensures
            self.edited(edit).wf(),
            self.edited(edit).live() == self.live().after(edit),
            self.edited(edit).current_document == self.current_document,
            self.edited(edit).entity_counter == self.entity_counter,
            self.edited(edit).active_tab().id == self.active_tab().id,
            self.edited(edit).active_tab().history.len() == self.active_tab().history.len(),
            self.edited(edit).active_tab().history.drop_last()
                == self.active_tab().history.drop_last(),
            self.edited(edit).docs.len() == self.docs.len(),
            self.edited(edit).current().tabs.len() == self.current().tabs.len(),
    {
        self.lemma_current_wf();
        let d = self.current();
        let t = self.active_tab();
        let op = DocOpView::EditTab(t.id, edit);
        if self.outcome(self.current_document, op) is Ok {
            d.lemma_after_wf(op);
            t.lemma_ops_wf(edit, CheckpointView::empty(), t.name, true);
            d.lemma_with_tab_replaced_wf(t.edited(edit));
            self.lemma_with_doc_replaced_wf(d.after(op));
            let out = self.edited(edit);
            let d2 = d.after(op);
            assert(out.current() == d2);
            d2.lemma_active_exists();
            d2.lemma_tab_position_unique(d2.active_position());
            assert(d2.active_tab() == t.edited(edit));
            assert(t.edited(edit).history.drop_last() =~= t.history.drop_last());
        } else {
            assert(t.live().after(edit) == t.live());
        }
    }

    /// In a well-formed state a document id names one position only.
    pub proof fn lemma_doc_position_unique(self, i: int)
        requires
            self.wf(),
            0 <= i < self.docs.len(),
        ensures
            self.has_doc(self.docs[i].id),
            self.doc_position(self.docs[i].id) == i,
            self.doc(self.docs[i].id) == self.docs[i],
    {
        let p = self.doc_position(self.docs[i].id);
        if p < i {
            assert(docs_differ()(self.docs[p], self.docs[i]));
        } else if i < p {
            assert(docs_differ()(self.docs[i], self.docs[p]));
        }
    }

    /// The current document of a well-formed state is well-formed, and so
    /// are its active tab and that tab's live canvas.
    pub proof fn lemma_current_wf(self)
        requires
            self.wf(),
        ensures
            self.current().wf(),
            self.current().id == self.current_document,
            self.active_tab().wf(),
            self.active_tab().is_active,
            self.current().has_tab(self.active_tab().id),
            self.current().tab(self.active_tab().id) == self.active_tab(),
            self.live().wf(),
    {
        let d = self.current();
        d.lemma_active_exists();
        let t = d.active_tab();
        assert(d.tabs[d.active_position()].wf());
        assert(t.history[t.history.len() - 1].wf());
    }

    /// The start state is well-formed.
    pub proof fn lemma_fresh_wf(doc_id: u128, name: Seq<char>, tab_id: u128)
        ensures
            Self::fresh(doc_id, name, tab_id).wf(),
    {
        let s = Self::fresh(doc_id, name, tab_id);
        DocumentView::lemma_fresh_wf(doc_id, name, tab_id);
        assert(s.docs[0].id == doc_id);
    }

    /// Adding a document with a fresh id keeps the state well-formed.
    pub proof fn lemma_with_document_added_wf(self, doc_id: u128, name: Seq<char>, tab_id: u128)
        requires
            self.wf(),
            !self.has_doc(doc_id),
        ensures
            self.with_document_added(doc_id, name, tab_id).wf(),
            self.with_document_added(doc_id, name, tab_id).docs.len() == self.docs.len() + 1,
    {
        let out = self.with_document_added(doc_id, name, tab_id);
        let last = self.docs.len() as int;
        DocumentView::lemma_fresh_wf(doc_id, name, tab_id);
        assert(out.docs[last].id == doc_id);
        assert forall|i: int, j: int| 0 <= i < j < out.docs.len() implies docs_differ()(
            #[trigger] out.docs[i],
            #[trigger] out.docs[j],
        ) by {
            if j < last {
                assert(docs_differ()(self.docs[i], self.docs[j]));
            } else {
                assert(self.docs[i].id != doc_id);
            }
        }
        assert forall|i: int| 0 <= i < out.docs.len() implies (#[trigger] out.docs[i]).wf() by {
            if i < last {
                assert(self.docs[i].wf());
            }
        }
    }

    /// Deleting one of several documents keeps the state well-formed, with
    /// one document fewer.
    pub proof fn lemma_without_document_wf(self, id: u128)
        requires
            self.wf(),
            self.docs.len() >= 2,
            self.has_doc(id),
        ensures
            self.without_document(id).wf(),
            self.without_document(id).docs.len() == self.docs.len() - 1,
            !self.without_document(id).has_doc(id),
    {
        let out = self.without_document(id);
        let p = self.doc_position(id);
        self.lemma_doc_position_unique(p);
        assert forall|i: int| 0 <= i < out.docs.len() implies (#[trigger] out.docs[i]).wf() by {
            let s = if i < p {
                i
            } else {
                i + 1
            };
            assert(self.docs[s].wf());
        }
        assert forall|i: int, j: int| 0 <= i < j < out.docs.len() implies docs_differ()(
            #[trigger] out.docs[i],
            #[trigger] out.docs[j],
        ) by {
            let si = if i < p {
                i
            } else {
                i + 1
            };
            let sj = if j < p {
                j
            } else {
                j + 1
            };
            assert(docs_differ()(self.docs[si], self.docs[sj]));
        }
        if self.current_document == id {
            assert(out.docs[out.docs.len() - 1].id == out.current_document);
        } else {
            let c = self.doc_position(self.current_document);
            let t = if c < p {
                c
            } else {
                c - 1
            };
            assert(out.docs[t].id == self.current_document);
        }
        if out.has_doc(id) {
            let k = out.doc_position(id);
            let s = if k < p {
                k
            } else {
                k + 1
            };
            self.lemma_doc_position_unique(s);
        }
    }

    /// Replacing a document by a well-formed one of the same id keeps the
    /// state well-formed.
    pub proof fn lemma_with_doc_replaced_wf(self, doc: DocumentView)
        requires
            self.wf(),
            self.has_doc(doc.id),
            doc.wf(),
        ensures
            self.with_doc_replaced(doc).wf(),
            self.with_doc_replaced(doc).docs.len() == self.docs.len(),
            self.with_doc_replaced(doc).has_doc(doc.id),
            self.with_doc_replaced(doc).doc(doc.id) == doc,
            forall|id: u128| self.has_doc(id) <==> self.with_doc_replaced(doc).has_doc(id),
            forall|id: u128|
                self.has_doc(id) && id != doc.id ==> self.with_doc_replaced(doc).doc(id)
                    == self.doc(id),
    {
        let out = self.with_doc_replaced(doc);
        let p = self.doc_position(doc.id);
        assert(out.docs[p] == doc);
        assert forall|i: int, j: int| 0 <= i < j < out.docs.len() implies docs_differ()(
            #[trigger] out.docs[i],
            #[trigger] out.docs[j],
        ) by {
            assert(docs_differ()(self.docs[i], self.docs[j]));
        }
        assert forall|i: int| 0 <= i < out.docs.len() implies (#[trigger] out.docs[i]).wf() by {
            assert(self.docs[i].wf());
        }
        assert forall|id: u128| self.has_doc(id) <==> out.has_doc(id) by {
            if self.has_doc(id) {
                let k = self.doc_position(id);
                assert(out.docs[k].id == id);
            }
            if out.has_doc(id) {
                let k = out.doc_position(id);
                assert(self.docs[k].id == id);
            }
        }
        out.lemma_doc_position_unique(p);
        assert forall|id: u128| self.has_doc(id) && id != doc.id implies out.doc(id) == self.doc(
            id,
        ) by {
            let k = self.doc_position(id);
            assert(out.docs[k] == self.docs[k]);
            out.lemma_doc_position_unique(k);
        }
    }
}

/// The views of a sequence of documents.
pub open spec fn docs_view(v: Seq<Document>) -> Seq<DocumentView> {
    v.map_values(|d: Document| d@)
}

/// Everything the application keeps between ticks, apart from the
/// transient interaction state.
#[derive(Debug)]
pub struct AppState {
    docs: Vec<Document>,
    current_document: u128,
    entity_counter: u64,
}

impl View for AppState {
    type V = AppView;

    closed spec fn view(&self) -> AppView {
        AppView {
            docs: docs_view(self.docs@),
            current_document: self.current_document,
            entity_counter: self.entity_counter,
        }
    }
}

impl AppState {
    /// The state at start: one new document with one default tab.
    pub fn new(doc_id: u128, name: String, tab_id: u128) -> (r: AppState)
        ensures
            r@ == AppView::fresh(doc_id, name@, tab_id),
            r@.wf(),
    {
        let mut docs: Vec<Document> = Vec::new();
        docs.push(Document::new(doc_id, name, tab_id));
        let r = AppState { docs, current_document: doc_id, entity_counter: 0 };
        proof {
            assert(r@.docs =~= seq![DocumentView::fresh(doc_id, name@, tab_id)]);
            AppView::lemma_fresh_wf(doc_id, name@, tab_id);
        }
        r
    }

    pub fn doc_count(&self) -> (r: usize)
        ensures
            r == self@.docs.len(),
    {
        self.docs.len()
    }

    /// The document at position `i` of the document list.
    pub fn doc_at(&self, i: usize) -> (r: &Document)
        requires
            i < self@.docs.len(),
        ensures
            r@ == self@.docs[i as int],
    {
        &self.docs[i]
    }

    /// The id of the current document.
    pub fn current_document(&self) -> (r: u128)
        ensures
            r == self@.current_document,
    {
        self.current_document
    }

    /// The counter that names nodes and arrows: the id handed out last.
    pub fn entity_counter(&self) -> (r: u64)
        ensures
            r == self@.entity_counter,
    {
        self.entity_counter
    }

    /// The position of the document called `id`, if there is one.
    pub fn find_doc(&self, id: u128) -> (r: Option<usize>)
        ensures
            r is Some <==> self@.has_doc(id),
            r is Some ==> r->0 < self@.docs.len() && self@.docs[r->0 as int].id == id,
            r is Some && self@.wf() ==> r->0 == self@.doc_position(id),
    {
        let mut i: usize = 0;
        while i < self.docs.len()
            invariant
                i <= self.docs@.len(),
                forall|k: int| 0 <= k < i ==> (#[trigger] self@.docs[k]).id != id,
            decreases self.docs@.len() - i,
        {
            if self.docs[i].id() == id {
                proof {
                    assert(self@.docs[i as int].id == id);
                    if self@.wf() {
                        self@.lemma_doc_position_unique(i as int);
                    }
                }
                return Some(i);
            }
            i += 1;
        }
        None
    }

    /// The document called `id`, if there is one.
    pub fn doc(&self, id: u128) -> (r: Option<&Document>)
        requires
            self@.wf(),
        ensures
            r is Some <==> self@.has_doc(id),
            r is Some ==> r->0@ == self@.doc(id),
    {
        match self.find_doc(id) {
            Some(i) => Some(&self.docs[i]),
            None => None,
        }
    }

    /// The current document.
    pub fn current(&self) -> (r: &Document)
        requires
            self@.wf(),
        ensures
            r@ == self@.current(),
            r@.wf(),
    {
        proof {
            self@.lemma_current_wf();
        }
        let i = self.find_doc(self.current_document).unwrap();
        &self.docs[i]
    }

    /// Hands out the next id for a node or an arrow: one more than the last.
    /// Declined when the counter has reached its end.
    pub fn next_id(&mut self) -> (r: Result<u64, ModelError>)
        ensures
            old(self)@.entity_counter == u64::MAX ==> r == Err::<u64, ModelError>(
                ModelError::IdsExhausted,
            ) && final(self)@ == old(self)@,
            old(self)@.entity_counter < u64::MAX ==> r == Ok::<u64, ModelError>(
                (old(self)@.entity_counter + 1) as u64,
            ) && final(self)@ == old(self)@.with_counter((old(self)@.entity_counter + 1) as u64),
    {
        if self.entity_counter == u64::MAX {
            Err(ModelError::IdsExhausted)
        } else {
            self.entity_counter = self.entity_counter + 1;
            Ok(self.entity_counter)
        }
    }

    /// Moves the counter up to `at_least`, so that ids up to there are not
    /// handed out again; the counter never moves down.
    pub fn raise_entity_counter(&mut self, at_least: u64)
        ensures
            final(self)@ == old(self)@.with_counter(
                if at_least > old(self)@.entity_counter {
                    at_least
                } else {
                    old(self)@.entity_counter
                },
            ),
    {
        if at_least > self.entity_counter {
            self.entity_counter = at_least;
        }
    }

    /// Adds a new document with one default tab and makes it the current
    /// one; declined when the id is taken.
    pub fn create_document(&mut self, doc_id: u128, name: String, tab_id: u128) -> (r: Result<
        (),
        ModelError,
    >)
        requires
            old(self)@.wf(),
        ensures
            final(self)@.wf(),
            old(self)@.has_doc(doc_id) ==> r == Err::<(), ModelError>(ModelError::DuplicateId)
                && final(self)@ == old(self)@,
            !old(self)@.has_doc(doc_id) ==> r == Ok::<(), ModelError>(()) && final(self)@
                == old(self)@.with_document_added(doc_id, name@, tab_id),
    {
        if self.find_doc(doc_id).is_some() {
            return Err(ModelError::DuplicateId);
        }
        proof {
            old(self)@.lemma_with_document_added_wf(doc_id, name@, tab_id);
        }
        let doc = Document::new(doc_id, name, tab_id);
        self.docs.push(doc);
        self.current_document = doc_id;
        assert(self@.docs =~= old(self)@.docs.push(DocumentView::fresh(doc_id, name@, tab_id)));
        Ok(())
    }

    /// Deletes the document `id`. Fails when there is no such document;
    /// answers `false` and changes nothing when it is the only document;
    /// otherwise answers `true`, and if the current document went, the last
    /// remaining one becomes current.
    pub fn delete_document(&mut self, id: u128) -> (r: Result<bool, ModelError>)
        requires
            old(self)@.wf(),
        ensures
            final(self)@.wf(),
            r == old(self)@.delete_document_outcome(id),
            r == Ok::<bool, ModelError>(true) ==> final(self)@ == old(self)@.without_document(id),
            r != Ok::<bool, ModelError>(true) ==> final(self)@ == old(self)@,
    {
        match self.find_doc(id) {
            None => Err(ModelError::NotFound),
            Some(p) => {
                if self.docs.len() < 2 {
                    return Ok(false);
                }
                proof {
                    old(self)@.lemma_without_document_wf(id);
                }
                let _ = self.docs.remove(p);
                assert(docs_view(self.docs@) =~= old(self)@.docs.remove(p as int));
                if self.current_document == id {
                    let last: usize = self.docs.len() - 1;
                    self.current_document = self.docs[last].id();
                }
                Ok(true)
            },
        }
    }

    /// Makes the document `id` the current one; declined when there is no
    /// such document.
    pub fn select_document(&mut self, id: u128) -> (r: Result<(), ModelError>)
        requires
            old(self)@.wf(),
        ensures
            final(self)@.wf(),
            !old(self)@.has_doc(id) ==> r == Err::<(), ModelError>(ModelError::NotFound)
                && final(self)@ == old(self)@,
            old(self)@.has_doc(id) ==> r == Ok::<(), ModelError>(()) && final(self)@
                == old(self)@.with_current(id),
    {
        if self.find_doc(id).is_none() {
            return Err(ModelError::NotFound);
        }
        self.current_document = id;
        Ok(())
    }

    /// The id of the active tab of the current document.
    pub fn active_tab_id(&self) -> (r: u128)
        requires
            self@.wf(),
        ensures
            r == self@.active_tab().id,
    {
        self.current().active_tab().id()
    }

    /// The live canvas: the newest checkpoint of the active tab of the
    /// current document.
    pub fn live(&self) -> (r: &Checkpoint)
        requires
            self@.wf(),
        ensures
            r@ == self@.live(),
            r@.wf(),
    {
        proof {
            self@.lemma_current_wf();
        }
        self.current().active_tab().live()
    }

    /// Applies one edit to the live canvas and says whether it was
    /// accepted.
    pub fn edit_live(&mut self, edit: Edit) -> (r: Result<(), ModelError>)
        requires
            old(self)@.wf(),
            edit@.wf(),
        ensures
            r == old(self)@.live().outcome(edit@),
            final(self)@ == old(self)@.edited(edit@),
            final(self)@.wf(),
    {
        proof {
            self@.lemma_current_wf();
        }
        let tab_id = self.active_tab_id();
        let doc_id = self.current_document;
        self.apply(doc_id, DocOp::EditTab(tab_id, edit))
    }

    /// Applies one operation to the document `doc_id` and says whether it
    /// was accepted.
    pub fn apply(&mut self, doc_id: u128, op: DocOp) -> (r: Result<(), ModelError>)
        requires
            old(self)@.wf(),
            op@.wf(),
        ensures
            r == old(self)@.outcome(doc_id, op@),
            final(self)@ == old(self)@.after(doc_id, op@),
            final(self)@.wf(),
    {
        match self.find_doc(doc_id) {
            None => Err(ModelError::NotFound),
            Some(p) => {
                proof {
                    old(self)@.lemma_doc_position_unique(p as int);
                }
                let ghost v = op@;
                let r = self.docs[p].apply(op);
                proof {
                    let d = old(self)@.doc(doc_id);
                    assert(docs_view(self.docs@) =~= old(self)@.docs.update(p as int, d.after(v)));
                    old(self)@.lemma_with_doc_replaced_wf(d.after(v));
                    if r is Err {
                        assert(old(self)@.docs.update(p as int, d) =~= old(self)@.docs);
                    }
                }
                r
            },
        }
    }
}

} // verus!
