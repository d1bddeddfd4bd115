//! Documents: a named, ordered list of tabs, exactly one of them active.

use crate::checkpoint::{Checkpoint, CheckpointView, Edit, EditView, ModelError};
use crate::history::{Tab, TabView};
use crate::seq_util::pairwise;
use crate::text::{decimal, push_decimal};
use vstd::prelude::*;

verus! {

/// The default name of the `n`-th tab of a document.
pub open spec fn tab_label(n: nat) -> Seq<char> {
    seq!['T', 'a', 'b', ' '] + decimal(n)
}

/// Two tabs with different ids.
pub open spec fn tabs_differ() -> spec_fn(TabView, TabView) -> bool {
    |a: TabView, b: TabView| a.id != b.id
}

/// Exactly one of `tabs` is active.
pub open spec fn one_active(tabs: Seq<TabView>) -> bool {
    exists|i: int|
        0 <= i < tabs.len() && (#[trigger] tabs[i]).is_active && forall|j: int|
            0 <= j < tabs.len() && (#[trigger] tabs[j]).is_active ==> j == i
}

/// Every tab inactive.
pub open spec fn all_inactive(tabs: Seq<TabView>) -> Seq<TabView> {
    tabs.map_values(|t: TabView| t.activated(false))
}

/// The tab called `id` active, every other one inactive.
pub open spec fn only_active(tabs: Seq<TabView>, id: u128) -> Seq<TabView> {
    tabs.map_values(|t: TabView| t.activated(t.id == id))
}

/// Mathematical model of a document.
pub struct DocumentView {
    pub id: u128,
    pub name: Seq<char>,
    pub tabs: Seq<TabView>,
}

impl DocumentView {
    pub open spec fn has_tab(self, id: u128) -> bool {
        exists|i: int| 0 <= i < self.tabs.len() && (#[trigger] self.tabs[i]).id == id
    }

    /// Where the tab `id` stands in the tab bar.
    pub open spec fn tab_position(self, id: u128) -> int {
        choose|i: int| 0 <= i < self.tabs.len() && (#[trigger] self.tabs[i]).id == id
    }

    /// The tab called `id`.
    pub open spec fn tab(self, id: u128) -> TabView
        recommends
            self.has_tab(id),
    {
        self.tabs[self.tab_position(id)]
    }

    /// Where the active tab stands in the tab bar.
    pub open spec fn active_position(self) -> int {
        choose|i: int| 0 <= i < self.tabs.len() && (#[trigger] self.tabs[i]).is_active
    }

    /// The active tab.
    pub open spec fn active_tab(self) -> TabView {
        self.tabs[self.active_position()]
    }

    /// A document keeps at least one tab, its tabs are well-formed and have
    /// different ids, and exactly one of them is active.
    pub open spec fn wf(self) -> bool {
        &&& self.tabs.len() >= 1
        &&& forall|i: int| 0 <= i < self.tabs.len() ==> (#[trigger] self.tabs[i]).wf()
        &&& pairwise(self.tabs, tabs_differ())
        &&& one_active(self.tabs)
    }

    /// A new document: one default tab, active, with an empty canvas.
    pub open spec fn fresh(id: u128, name: Seq<char>, tab_id: u128) -> DocumentView {
        DocumentView { id, name, tabs: seq![TabView::fresh(tab_id, tab_label(1), true)] }
    }

    pub open spec fn renamed(self, name: Seq<char>) -> DocumentView {
        DocumentView { name, ..self }
    }

    /// The document with a new, active tab at the end of the tab bar and
    /// every other tab inactive.
    pub open spec fn with_tab_added(self, tab_id: u128) -> DocumentView {
        DocumentView {
            tabs: all_inactive(self.tabs).push(
                TabView::fresh(tab_id, tab_label(self.tabs.len() + 1), true),
            ),
            ..self
        }
    }

    /// The document with the tab `tab_id` active and every other one
    /// inactive.
    pub open spec fn with_tab_selected(self, tab_id: u128) -> DocumentView {
        DocumentView { tabs: only_active(self.tabs, tab_id), ..self }
    }

    /// The document without the tab `tab_id`; if that was the active tab,
    /// the last of the remaining ones takes over.
    pub open spec fn without_tab(self, tab_id: u128) -> DocumentView {
        let p = self.tab_position(tab_id);
        let rest = self.tabs.remove(p);
        DocumentView {
            tabs: if self.tabs[p].is_active {
                rest.update(rest.len() - 1, rest.last().activated(true))
            } else {
                rest
            },
            ..self
        }
    }

    /// The document with the tab that shares `tab`'s id replaced by it.
    pub open spec fn with_tab_replaced(self, tab: TabView) -> DocumentView {
        DocumentView { tabs: self.tabs.update(self.tab_position(tab.id), tab), ..self }
    }

    /// What deleting the tab `tab_id` answers: the last tab is protected,
    /// and a tab that is not there cannot be deleted.
    pub open spec fn delete_tab_outcome(self, tab_id: u128) -> Result<(), ModelError> {
        if self.tabs.len() < 2 {
            Err(ModelError::LastTabProtected)
        } else if !self.has_tab(tab_id) {
            Err(ModelError::NotFound)
        } else {
            Ok(())
        }
    }

    /// In a well-formed document a tab id names one position only.
    pub proof fn lemma_tab_position_unique(self, i: int)
        requires
            self.wf(),
            0 <= i < self.tabs.len(),
        ensures
            self.has_tab(self.tabs[i].id),
            self.tab_position(self.tabs[i].id) == i,
            self.tab(self.tabs[i].id) == self.tabs[i],
    {
        let p = self.tab_position(self.tabs[i].id);
        if p < i {
            assert(tabs_differ()(self.tabs[p], self.tabs[i]));
        } else if i < p {
            assert(tabs_differ()(self.tabs[i], self.tabs[p]));
        }
    }

    /// In a well-formed document the active tab is the only active one.
    pub proof fn lemma_active_unique(self, i: int)
        requires
            self.wf(),
            0 <= i < self.tabs.len(),
            self.tabs[i].is_active,
        ensures
            self.active_position() == i,
            self.active_tab() == self.tabs[i],
    {
    }

    /// The active tab of a well-formed document exists and is active.
    pub proof fn lemma_active_exists(self)
        requires
            self.wf(),
        ensures
            0 <= self.active_position() < self.tabs.len(),
            self.active_tab().is_active,
            self.has_tab(self.active_tab().id),
            self.tab(self.active_tab().id) == self.active_tab(),
    {
        self.lemma_tab_position_unique(self.active_position());
    }

    /// A new document is well-formed.
    pub proof fn lemma_fresh_wf(id: u128, name: Seq<char>, tab_id: u128)
        ensures
            Self::fresh(id, name, tab_id).wf(),
            Self::fresh(id, name, tab_id).tabs.len() == 1,
    {
        let d = Self::fresh(id, name, tab_id);
        assert(d.tabs[0].is_active);
        assert(d.tabs[0].history[0].wf());
    }

    /// Adding a tab with a fresh id keeps the document well-formed; the new
    /// tab is the one active tab.
    pub proof fn lemma_with_tab_added_wf(self, tab_id: u128)
        requires
            self.wf(),
            !self.has_tab(tab_id),
        ensures
            self.with_tab_added(tab_id).wf(),
            self.with_tab_added(tab_id).tabs.len() == self.tabs.len() + 1,
            self.with_tab_added(tab_id).active_tab().id == tab_id,
    {
        let out = self.with_tab_added(tab_id);
        let last = self.tabs.len() as int;
        assert(out.tabs[last].is_active);
        assert(out.tabs[last].history[0].wf());
        assert forall|i: int, j: int| 0 <= i < j < out.tabs.len() implies tabs_differ()(
            #[trigger] out.tabs[i],
            #[trigger] out.tabs[j],
        ) by {
            if j < last {
                assert(tabs_differ()(self.tabs[i], self.tabs[j]));
            } else {
                assert(self.tabs[i].id != tab_id);
            }
        }
        assert forall|i: int| 0 <= i < out.tabs.len() implies (#[trigger] out.tabs[i]).wf() by {
            if i < last {
                assert(self.tabs[i].wf());
            }
        }
        out.lemma_active_unique(last);
    }

    /// Selecting an existing tab keeps the document well-formed; the
    /// selected tab is the one active tab.
    pub proof fn lemma_with_tab_selected_wf(self, tab_id: u128)
        requires
            self.wf(),
            self.has_tab(tab_id),
        ensures
            self.with_tab_selected(tab_id).wf(),
            self.with_tab_selected(tab_id).tabs.len() == self.tabs.len(),
            self.with_tab_selected(tab_id).active_tab().id == tab_id,
    {
        let out = self.with_tab_selected(tab_id);
        let p = self.tab_position(tab_id);
        self.lemma_tab_position_unique(p);
        assert(out.tabs[p].is_active);
        assert forall|j: int| 0 <= j < out.tabs.len() && (#[trigger] out.tabs[j]).is_active implies j
            == p by {
            self.lemma_tab_position_unique(j);
        }
        assert forall|i: int, j: int| 0 <= i < j < out.tabs.len() implies tabs_differ()(
            #[trigger] out.tabs[i],
            #[trigger] out.tabs[j],
        ) by {
            assert(tabs_differ()(self.tabs[i], self.tabs[j]));
        }
        assert forall|i: int| 0 <= i < out.tabs.len() implies (#[trigger] out.tabs[i]).wf() by {
            assert(self.tabs[i].wf());
        }
        out.lemma_active_unique(p);
    }

    /// Deleting one of several tabs keeps the document well-formed, with one
    /// tab fewer and still exactly one active.
    pub proof fn lemma_without_tab_wf(self, tab_id: u128)
        requires
            self.wf(),
            self.tabs.len() >= 2,
            self.has_tab(tab_id),
        ensures
            self.without_tab(tab_id).wf(),
            self.without_tab(tab_id).tabs.len() == self.tabs.len() - 1,
            !self.without_tab(tab_id).has_tab(tab_id),
    {
        let out = self.without_tab(tab_id);
        let p = self.tab_position(tab_id);
        let rest = self.tabs.remove(p);
        self.lemma_tab_position_unique(p);
        assert forall|i: int| 0 <= i < out.tabs.len() implies (#[trigger] out.tabs[i]).id
            == self.tabs[if i < p {
            i
        } else {
            i + 1
        }].id && out.tabs[i].wf() by {
            let s = if i < p {
                i
            } else {
                i + 1
            };
            assert(self.tabs[s].wf());
        }
        assert forall|i: int, j: int| 0 <= i < j < out.tabs.len() implies tabs_differ()(
            #[trigger] out.tabs[i],
            #[trigger] out.tabs[j],
        ) by {
            let si = if i < p {
                i
            } else {
                i + 1
            };
            let sj = if j < p {
                j
            } else {
                j + 1
            };
            assert(tabs_differ()(self.tabs[si], self.tabs[sj]));
        }
        if self.tabs[p].is_active {
            self.lemma_active_unique(p);
            let last = rest.len() - 1;
            assert(out.tabs[last].is_active);
            assert forall|j: int| 0 <= j < out.tabs.len() && (#[trigger] out.tabs[j]).is_active
                implies j == last by {
                if j != last {
                    let s = if j < p {
                        j
                    } else {
                        j + 1
                    };
                    assert(self.tabs[s].is_active);
                }
            }
        } else {
            let a = self.active_position();
            self.lemma_active_exists();
            let t = if a < p {
                a
            } else {
                a - 1
            };
            assert(out.tabs[t].is_active);
            assert forall|j: int| 0 <= j < out.tabs.len() && (#[trigger] out.tabs[j]).is_active
                implies j == t by {
                let s = if j < p {
                    j
                } else {
                    j + 1
                };
                assert(self.tabs[s].is_active);
            }
        }
        if out.has_tab(tab_id) {
            let k = out.tab_position(tab_id);
            let s = if k < p {
                k
            } else {
                k + 1
            };
            self.lemma_tab_position_unique(s);
        }
    }

    /// Replacing a tab by a well-formed one with the same id and the same
    /// active flag keeps the document well-formed.
    pub proof fn lemma_with_tab_replaced_wf(self, tab: TabView)
        requires
            self.wf(),
            self.has_tab(tab.id),
            tab.wf(),
            tab.is_active == self.tab(tab.id).is_active,
        ensures
            self.with_tab_replaced(tab).wf(),
            self.with_tab_replaced(tab).tabs.len() == self.tabs.len(),
            self.with_tab_replaced(tab).has_tab(tab.id),
            self.with_tab_replaced(tab).tab(tab.id) == tab,
            self.with_tab_replaced(tab).active_tab().id == self.active_tab().id,
    {
        let out = self.with_tab_replaced(tab);
        let p = self.tab_position(tab.id);
        assert(out.tabs[p] == tab);
        assert forall|i: int, j: int| 0 <= i < j < out.tabs.len() implies tabs_differ()(
            #[trigger] out.tabs[i],
            #[trigger] out.tabs[j],
        ) by {
            assert(tabs_differ()(self.tabs[i], self.tabs[j]));
        }
        assert forall|i: int| 0 <= i < out.tabs.len() implies (#[trigger] out.tabs[i]).wf() by {
            assert(self.tabs[i].wf());
        }
        let a = self.active_position();
        self.lemma_active_exists();
        assert(out.tabs[a].is_active);
        assert forall|j: int| 0 <= j < out.tabs.len() && (#[trigger] out.tabs[j]).is_active implies j
            == a by {
            assert(self.tabs[j].is_active);
        }
        out.lemma_tab_position_unique(p);
        out.lemma_active_unique(a);
    }
}

/// The views of a sequence of tabs.
pub open spec fn tabs_view(v: Seq<Tab>) -> Seq<TabView> {
    v.map_values(|t: Tab| t@)
}

/// A named collection of tabs.
#[derive(Debug)]
pub struct Document {
    id: u128,
    name: String,
    tabs: Vec<Tab>,
}

impl View for Document {
    type V = DocumentView;

    closed spec fn view(&self) -> DocumentView {
        DocumentView { id: self.id, name: self.name@, tabs: tabs_view(self.tabs@) }
    }
}

/// The default name of the `n`-th tab.
pub fn make_tab_label(n: u128) -> (r: String)
    ensures
        r@ == tab_label(n as nat),
{
    let mut label = String::new();
    label.push('T');
    label.push('a');
    label.push('b');
    label.push(' ');
    assert(label@ =~= seq!['T', 'a', 'b', ' ']);
    push_decimal(&mut label, n);
    label
}

impl Document {
    /// A new document with one default tab, which is active and holds one
    /// empty checkpoint.
    pub fn new(id: u128, name: String, tab_id: u128) -> (r: Document)
        ensures
            r@ == DocumentView::fresh(id, name@, tab_id),
            r@.wf(),
    {
        let mut tabs: Vec<Tab> = Vec::new();
        tabs.push(Tab::new(tab_id, make_tab_label(1), true));
        let r = Document { id, name, tabs };
        proof {
            assert(r@.tabs =~= seq![TabView::fresh(tab_id, tab_label(1), true)]);
            DocumentView::lemma_fresh_wf(id, name@, tab_id);
        }
        r
    }

    pub fn id(&self) -> (r: u128)
        ensures
            r == self@.id,
    {
        self.id
    }

    pub fn name(&self) -> (r: &String)
        ensures
            r@ == self@.name,
    {
        &self.name
    }

    pub fn tab_count(&self) -> (r: usize)
        ensures
            r == self@.tabs.len(),
    {
        self.tabs.len()
    }

    /// The tab at position `i` of the tab bar.
    pub fn tab_at(&self, i: usize) -> (r: &Tab)
        requires
            i < self@.tabs.len(),
        ensures
            r@ == self@.tabs[i as int],
    {
        &self.tabs[i]
    }

    /// The position of the tab called `id`, if there is one.
    pub fn find_tab(&self, id: u128) -> (r: Option<usize>)
        ensures
            r is Some <==> self@.has_tab(id),
            r is Some ==> r->0 < self@.tabs.len() && self@.tabs[r->0 as int].id == id,
            r is Some && self@.wf() ==> r->0 == self@.tab_position(id),
    {
        let mut i: usize = 0;
        while i < self.tabs.len()
            invariant
                i <= self.tabs@.len(),
                forall|k: int| 0 <= k < i ==> (#[trigger] self@.tabs[k]).id != id,
            decreases self.tabs@.len() - i,
        {
            if self.tabs[i].id() == id {
                proof {
                    assert(self@.tabs[i as int].id == id);
                    if self@.wf() {
                        self@.lemma_tab_position_unique(i as int);
                    }
                }
                return Some(i);
            }
            i += 1;
        }
        None
    }

    /// The tab called `id`, if there is one.
    pub fn tab(&self, id: u128) -> (r: Option<&Tab>)
        requires
            self@.wf(),
        ensures
            r is Some <==> self@.has_tab(id),
            r is Some ==> r->0@ == self@.tab(id),
    {
        match self.find_tab(id) {
            Some(i) => Some(&self.tabs[i]),
            None => None,
        }
    }

    /// The position of the active tab.
    pub fn active_index(&self) -> (r: usize)
        requires
            self@.wf(),
        ensures
            r == self@.active_position(),
            r < self@.tabs.len(),
            self@.tabs[r as int].is_active,
    {
        proof {
            self@.lemma_active_exists();
        }
        let n: usize = self.tabs.len();
        let mut i: usize = 0;
        while !self.tabs[i].is_active()
            invariant
                self@.wf(),
                n == self.tabs@.len(),
                i <= self@.active_position() < n,
                self@.active_tab().is_active,
            decreases n - i,
        {
            assert(!self@.tabs[i as int].is_active);
            i += 1;
        }
        proof {
            assert(self@.tabs[i as int].is_active);
            self@.lemma_active_unique(i as int);
        }
        i
    }

    /// The active tab.
    pub fn active_tab(&self) -> (r: &Tab)
        requires
            self@.wf(),
        ensures
            r@ == self@.active_tab(),
            r@.is_active,
    {
        let i = self.active_index();
        &self.tabs[i]
    }

    pub fn rename(&mut self, name: String)
        ensures
            final(self)@ == old(self)@.renamed(name@),
    {
        self.name = name;
    }

    /// Appends a new tab with one empty checkpoint, makes it the active tab
    /// and every sibling inactive; declined when the id is taken.
    pub fn add_tab(&mut self, tab_id: u128) -> (r: Result<(), ModelError>)
        requires
            old(self)@.wf(),
        ensures
            final(self)@.wf(),
            old(self)@.has_tab(tab_id) ==> r == Err::<(), ModelError>(ModelError::DuplicateId)
                && final(self)@ == old(self)@,
            !old(self)@.has_tab(tab_id) ==> r == Ok::<(), ModelError>(()) && final(self)@
                == old(self)@.with_tab_added(tab_id),
    {
        if self.find_tab(tab_id).is_some() {
            return Err(ModelError::DuplicateId);
        }
        proof {
            old(self)@.lemma_with_tab_added_wf(tab_id);
        }
        let n: usize = self.tabs.len();
        let mut i: usize = 0;
        while i < n
            invariant
                i <= n,
                n == self.tabs@.len(),
                n == old(self).tabs@.len(),
                self.id == old(self).id,
                self.name == old(self).name,
                forall|k: int| 0 <= k < i ==> (#[trigger] self.tabs@[k])@ == old(self).tabs@[k]@.activated(false),
                forall|k: int| i <= k < n ==> (#[trigger] self.tabs@[k])@ == old(self).tabs@[k]@,
            decreases n - i,
        {
            self.tabs[i].set_active(false);
            i += 1;
        }
        assert(tabs_view(self.tabs@) =~= all_inactive(old(self)@.tabs));
        let tab = Tab::new(tab_id, make_tab_label(n as u128 + 1), true);
        self.tabs.push(tab);
        assert(tabs_view(self.tabs@) =~= all_inactive(old(self)@.tabs).push(tab@));
        Ok(())
    }

    /// Makes the tab `tab_id` the active one; declined when there is no such
    /// tab.
    pub fn select_tab(&mut self, tab_id: u128) -> (r: Result<(), ModelError>)
        requires
            old(self)@.wf(),
        ensures
            final(self)@.wf(),
            !old(self)@.has_tab(tab_id) ==> r == Err::<(), ModelError>(ModelError::NotFound)
                && final(self)@ == old(self)@,
            old(self)@.has_tab(tab_id) ==> r == Ok::<(), ModelError>(()) && final(self)@
                == old(self)@.with_tab_selected(tab_id),
    {
        if self.find_tab(tab_id).is_none() {
            return Err(ModelError::NotFound);
        }
        proof {
            old(self)@.lemma_with_tab_selected_wf(tab_id);
        }
        let n: usize = self.tabs.len();
        let mut i: usize = 0;
        while i < n
            invariant
                i <= n,
                n == self.tabs@.len(),
                n == old(self).tabs@.len(),
                self.id == old(self).id,
                self.name == old(self).name,
                forall|k: int| 0 <= k < i ==> (#[trigger] self.tabs@[k])@ == old(self).tabs@[k]@.activated(
                    old(self).tabs@[k]@.id == tab_id,
                ),
                forall|k: int| i <= k < n ==> (#[trigger] self.tabs@[k])@ == old(self).tabs@[k]@,
            decreases n - i,
        {
            let on = self.tabs[i].id() == tab_id;
            self.tabs[i].set_active(on);
            i += 1;
        }
        assert(tabs_view(self.tabs@) =~= only_active(old(self)@.tabs, tab_id));
        Ok(())
    }

    /// Removes the tab `tab_id`. The only tab of a document is protected;
    /// if the active tab goes, the last remaining tab becomes active.
    pub fn delete_tab(&mut self, tab_id: u128) -> (r: Result<(), ModelError>)
        requires
            old(self)@.wf(),
        ensures
            final(self)@.wf(),
            r == old(self)@.delete_tab_outcome(tab_id),
            r is Ok ==> final(self)@ == old(self)@.without_tab(tab_id),
            r is Err ==> final(self)@ == old(self)@,
    {
        if self.tabs.len() < 2 {
            return Err(ModelError::LastTabProtected);
        }
        match self.find_tab(tab_id) {
            None => Err(ModelError::NotFound),
            Some(p) => {
                proof {
                    old(self)@.lemma_without_tab_wf(tab_id);
                }
                let gone = self.tabs.remove(p);
                assert(tabs_view(self.tabs@) =~= old(self)@.tabs.remove(p as int));
                if gone.is_active() {
                    let last: usize = self.tabs.len() - 1;
                    let ghost rest = tabs_view(self.tabs@);
                    self.tabs[last].set_active(true);
                    assert(tabs_view(self.tabs@) =~= rest.update(
                        last as int,
                        rest.last().activated(true),
                    ));
                }
                Ok(())
            },
        }
    }

    /// Gives the tab `tab_id` a new name; declined when there is no such
    /// tab.
    pub fn rename_tab(&mut self, tab_id: u128, name: String) -> (r: Result<(), ModelError>)
        requires
            old(self)@.wf(),
        ensures
            final(self)@.wf(),
            !old(self)@.has_tab(tab_id) ==> r == Err::<(), ModelError>(ModelError::NotFound)
                && final(self)@ == old(self)@,
            old(self)@.has_tab(tab_id) ==> r == Ok::<(), ModelError>(()) && final(self)@
                == old(self)@.with_tab_replaced(old(self)@.tab(tab_id).renamed(name@)),
    {
        match self.find_tab(tab_id) {
            None => Err(ModelError::NotFound),
            Some(p) => {
                proof {
                    old(self)@.lemma_tab_position_unique(p as int);
                    old(self)@.lemma_with_tab_replaced_wf(old(self)@.tab(tab_id).renamed(name@));
                }
                self.tabs[p].rename(name);
                assert(tabs_view(self.tabs@) =~= old(self)@.tabs.update(
                    p as int,
                    old(self)@.tab(tab_id).renamed(name@),
                ));
                Ok(())
            },
        }
    }

    /// Applies one edit to the live canvas of the tab `tab_id`; declined
    /// with `NotFound` when there is no such tab, and otherwise as the canvas
    /// decides.
    pub fn edit_tab(&mut self, tab_id: u128, edit: Edit) -> (r: Result<(), ModelError>)
        requires
            old(self)@.wf(),
            edit@.wf(),
        ensures
            final(self)@.wf(),
            !old(self)@.has_tab(tab_id) ==> r == Err::<(), ModelError>(ModelError::NotFound)
                && final(self)@ == old(self)@,
            old(self)@.has_tab(tab_id) ==> r == old(self)@.tab(tab_id).live().outcome(edit@)
                && final(self)@ == old(self)@.with_tab_replaced(
                old(self)@.tab(tab_id).edited(edit@),
            ),
    {
        match self.find_tab(tab_id) {
            None => Err(ModelError::NotFound),
            Some(p) => {
                proof {
                    old(self)@.lemma_tab_position_unique(p as int);
                }
                let r = self.tabs[p].edit(edit);
                proof {
                    old(self)@.lemma_with_tab_replaced_wf(old(self)@.tab(tab_id).edited(edit@));
                    assert(tabs_view(self.tabs@) =~= old(self)@.tabs.update(
                        p as int,
                        old(self)@.tab(tab_id).edited(edit@),
                    ));
                }
                r
            },
        }
    }

    /// Commits the tab `tab_id`; declined when there is no such tab.
    pub fn commit_tab(&mut self, tab_id: u128) -> (r: Result<(), ModelError>)
        requires
            old(self)@.wf(),
        ensures
            final(self)@.wf(),
            !old(self)@.has_tab(tab_id) ==> r == Err::<(), ModelError>(ModelError::NotFound)
                && final(self)@ == old(self)@,
            old(self)@.has_tab(tab_id) ==> r == Ok::<(), ModelError>(()) && final(self)@
                == old(self)@.with_tab_replaced(old(self)@.tab(tab_id).committed()),
    {
        match self.find_tab(tab_id) {
            None => Err(ModelError::NotFound),
            Some(p) => {
                proof {
                    old(self)@.lemma_tab_position_unique(p as int);
                }
                self.tabs[p].commit();
                proof {
                    old(self)@.lemma_with_tab_replaced_wf(old(self)@.tab(tab_id).committed());
                    assert(tabs_view(self.tabs@) =~= old(self)@.tabs.update(
                        p as int,
                        old(self)@.tab(tab_id).committed(),
                    ));
                }
                Ok(())
            },
        }
    }

    /// Undoes the last commit of the tab `tab_id` and says whether there was
    /// one to undo; declined when there is no such tab.
    pub fn undo_tab(&mut self, tab_id: u128) -> (r: Result<bool, ModelError>)
        requires
            old(self)@.wf(),
        ensures
            final(self)@.wf(),
            !old(self)@.has_tab(tab_id) ==> r == Err::<bool, ModelError>(ModelError::NotFound)
                && final(self)@ == old(self)@,
            old(self)@.has_tab(tab_id) ==> r == Ok::<bool, ModelError>(
                old(self)@.tab(tab_id).history.len() > 1,
            ) && final(self)@ == old(self)@.with_tab_replaced(old(self)@.tab(tab_id).undone()),
    {
        match self.find_tab(tab_id) {
            None => Err(ModelError::NotFound),
            Some(p) => {
                proof {
                    old(self)@.lemma_tab_position_unique(p as int);
                }
                let undone = self.tabs[p].undo();
                proof {
                    old(self)@.lemma_with_tab_replaced_wf(old(self)@.tab(tab_id).undone());
                    assert(tabs_view(self.tabs@) =~= old(self)@.tabs.update(
                        p as int,
                        old(self)@.tab(tab_id).undone(),
                    ));
                }
                Ok(undone)
            },
        }
    }

    /// Replaces the whole history of the tab `tab_id` by the checkpoint
    /// `cp`; declined when there is no such tab.
    pub fn load_tab(&mut self, tab_id: u128, cp: Checkpoint) -> (r: Result<(), ModelError>)
        requires
            old(self)@.wf(),
            cp@.wf(),
        ensures
            final(self)@.wf(),
            !old(self)@.has_tab(tab_id) ==> r == Err::<(), ModelError>(ModelError::NotFound)
                && final(self)@ == old(self)@,
            old(self)@.has_tab(tab_id) ==> r == Ok::<(), ModelError>(()) && final(self)@
                == old(self)@.with_tab_replaced(old(self)@.tab(tab_id).loaded(cp@)),
    {
        match self.find_tab(tab_id) {
            None => Err(ModelError::NotFound),
            Some(p) => {
                proof {
                    old(self)@.lemma_tab_position_unique(p as int);
                }
                let ghost v = cp@;
                self.tabs[p].load(cp);
                proof {
                    old(self)@.lemma_with_tab_replaced_wf(old(self)@.tab(tab_id).loaded(v));
                    assert(tabs_view(self.tabs@) =~= old(self)@.tabs.update(
                        p as int,
                        old(self)@.tab(tab_id).loaded(v),
                    ));
                }
                Ok(())
            },
        }
    }
}

/// One operation on a document and its tabs.
#[derive(Debug)]
pub enum DocOp {
    /// Give the document a new name.
    Rename(String),
    /// Append a new tab with the given id and make it the active one.
    AddTab(u128),
    /// Make a tab the active one.
    SelectTab(u128),
    /// Remove a tab.
    DeleteTab(u128),
    /// Give a tab a new name.
    RenameTab(u128, String),
    /// Apply an edit to a tab's live canvas.
    EditTab(u128, Edit),
    /// Put a copy of a tab's live canvas on top of its history.
    CommitTab(u128),
    /// Drop the newest checkpoint of a tab, if it is not the only one.
    UndoTab(u128),
    /// Replace a tab's whole history by one checkpoint.
    LoadTab(u128, Checkpoint),
}

/// Mathematical model of a document operation.
pub enum DocOpView {
    Rename(Seq<char>),
    AddTab(u128),
    SelectTab(u128),
    DeleteTab(u128),
    RenameTab(u128, Seq<char>),
    EditTab(u128, EditView),
    CommitTab(u128),
    UndoTab(u128),
    LoadTab(u128, CheckpointView),
}

impl View for DocOp {
    type V = DocOpView;

    open spec fn view(&self) -> DocOpView {
        match self {
            DocOp::Rename(name) => DocOpView::Rename(name@),
            DocOp::AddTab(id) => DocOpView::AddTab(*id),
            DocOp::SelectTab(id) => DocOpView::SelectTab(*id),
            DocOp::DeleteTab(id) => DocOpView::DeleteTab(*id),
            DocOp::RenameTab(id, name) => DocOpView::RenameTab(*id, name@),
            DocOp::EditTab(id, edit) => DocOpView::EditTab(*id, edit@),
            DocOp::CommitTab(id) => DocOpView::CommitTab(*id),
            DocOp::UndoTab(id) => DocOpView::UndoTab(*id),
            DocOp::LoadTab(id, cp) => DocOpView::LoadTab(*id, cp@),
        }
    }
}

impl DocOpView {
    /// What an operation brings along is well-formed.
    pub open spec fn wf(self) -> bool {
        match self {
            DocOpView::EditTab(_, edit) => edit.wf(),
            DocOpView::LoadTab(_, cp) => cp.wf(),
            _ => true,
        }
    }
}

impl DocumentView {
    /// Whether `op` is accepted, and if not, why.
    pub open spec fn outcome(self, op: DocOpView) -> Result<(), ModelError> {
        match op {
            DocOpView::Rename(_) => Ok(()),
            DocOpView::AddTab(id) => if self.has_tab(id) {
                Err(ModelError::DuplicateId)
            } else {
                Ok(())
            },
            DocOpView::DeleteTab(id) => self.delete_tab_outcome(id),
            DocOpView::EditTab(id, edit) => if self.has_tab(id) {
                self.tab(id).live().outcome(edit)
            } else {
                Err(ModelError::NotFound)
            },
            DocOpView::SelectTab(id)
            | DocOpView::RenameTab(id, _)
            | DocOpView::CommitTab(id)
            | DocOpView::UndoTab(id)
            | DocOpView::LoadTab(id, _) => if self.has_tab(id) {
                Ok(())
            } else {
                Err(ModelError::NotFound)
            },
        }
    }

    /// The document after `op`. A declined operation changes nothing. (An
    /// edit that its canvas declines is declined as a whole.)
    pub open spec fn after(self, op: DocOpView) -> DocumentView {
        if self.outcome(op) is Err {
            self
        } else {
            match op {
                DocOpView::Rename(name) => self.renamed(name),
                DocOpView::AddTab(id) => self.with_tab_added(id),
                DocOpView::SelectTab(id) => self.with_tab_selected(id),
                DocOpView::DeleteTab(id) => self.without_tab(id),
                DocOpView::RenameTab(id, name) => self.with_tab_replaced(
                    self.tab(id).renamed(name),
                ),
                DocOpView::EditTab(id, edit) => self.with_tab_replaced(self.tab(id).edited(edit)),
                DocOpView::CommitTab(id) => self.with_tab_replaced(self.tab(id).committed()),
                DocOpView::UndoTab(id) => self.with_tab_replaced(self.tab(id).undone()),
                DocOpView::LoadTab(id, cp) => self.with_tab_replaced(self.tab(id).loaded(cp)),
            }
        }
    }
}

impl Document {
    /// Applies one operation to the document and says whether it was
    /// accepted.
    pub fn apply(&mut self, op: DocOp) -> (r: Result<(), ModelError>)
        requires
            old(self)@.wf(),
            op@.wf(),
        ensures
            r == old(self)@.outcome(op@),
            final(self)@ == old(self)@.after(op@),
            final(self)@.wf(),
            final(self)@.id == old(self)@.id,
    {
        match op {
            DocOp::Rename(name) => {
                self.rename(name);
                Ok(())
            },
            DocOp::AddTab(id) => self.add_tab(id),
            DocOp::SelectTab(id) => self.select_tab(id),
            DocOp::DeleteTab(id) => self.delete_tab(id),
            DocOp::RenameTab(id, name) => self.rename_tab(id, name),
            DocOp::EditTab(id, edit) => {
                proof {
                    if self@.has_tab(id) {
                        let t = self@.tab(id);
                        assert(t.live().outcome(edit@) is Err ==> t.live().after(edit@)
                            == t.live());
                        assert(t.live().outcome(edit@) is Err ==> t.edited(edit@).history
                            =~= t.history);
                        assert(t.live().outcome(edit@) is Err ==> self@.with_tab_replaced(
                            t.edited(edit@),
                        ).tabs =~= self@.tabs);
                    }
                }
                self.edit_tab(id, edit)
            },
            DocOp::CommitTab(id) => self.commit_tab(id),
            DocOp::UndoTab(id) => match self.undo_tab(id) {
                Ok(_) => Ok(()),
                Err(e) => Err(e),
            },
            DocOp::LoadTab(id, cp) => self.load_tab(id, cp),
        }
    }
}

/// The document after the operations `ops`, applied in order.
pub open spec fn after_all(doc: DocumentView, ops: Seq<DocOpView>) -> DocumentView
    decreases ops.len(),
{
    if ops.len() == 0 {
        doc
    } else {
        after_all(doc, ops.drop_last()).after(ops.last())
    }
}

impl DocumentView {
    /// Every operation, accepted or declined, leaves a well-formed document
    /// well-formed; in particular it still has at least one tab and exactly
    /// one active tab.
    pub proof fn lemma_after_wf(self, op: DocOpView)
        requires
            self.wf(),
            op.wf(),
        ensures
            self.after(op).wf(),
            self.after(op).id == self.id,
            self.after(op).tabs.len() >= 1,
            one_active(self.after(op).tabs),
    {
        if self.outcome(op) is Ok {
            match op {
                DocOpView::Rename(_) => {},
                DocOpView::AddTab(id) => {
                    self.lemma_with_tab_added_wf(id);
                },
                DocOpView::SelectTab(id) => {
                    self.lemma_with_tab_selected_wf(id);
                },
                DocOpView::DeleteTab(id) => {
                    self.lemma_without_tab_wf(id);
                },
                DocOpView::RenameTab(id, name) => {
                    let t = self.tab(id);
                    self.lemma_tab_position_unique(self.tab_position(id));
                    t.lemma_ops_wf(EditView::DeleteNode(0), CheckpointView::empty(), name, true);
                    self.lemma_with_tab_replaced_wf(t.renamed(name));
                },
                DocOpView::EditTab(id, edit) => {
                    let t = self.tab(id);
                    self.lemma_tab_position_unique(self.tab_position(id));
                    t.lemma_ops_wf(edit, CheckpointView::empty(), t.name, true);
                    self.lemma_with_tab_replaced_wf(t.edited(edit));
                },
                DocOpView::CommitTab(id) => {
                    let t = self.tab(id);
                    self.lemma_tab_position_unique(self.tab_position(id));
                    t.lemma_ops_wf(EditView::DeleteNode(0), CheckpointView::empty(), t.name, true);
                    self.lemma_with_tab_replaced_wf(t.committed());
                },
                DocOpView::UndoTab(id) => {
                    let t = self.tab(id);
                    self.lemma_tab_position_unique(self.tab_position(id));
                    t.lemma_ops_wf(EditView::DeleteNode(0), CheckpointView::empty(), t.name, true);
                    self.lemma_with_tab_replaced_wf(t.undone());
                },
                DocOpView::LoadTab(id, cp) => {
                    let t = self.tab(id);
                    self.lemma_tab_position_unique(self.tab_position(id));
                    t.lemma_ops_wf(EditView::DeleteNode(0), cp, t.name, true);
                    self.lemma_with_tab_replaced_wf(t.loaded(cp));
                },
            }
        }
    }

    /// Deleting the only tab of a document is declined, and the document is
    /// afterwards what it was before, with its one tab.
    pub proof fn lemma_last_tab_protected(self, tab_id: u128)
        requires
            self.wf(),
            self.tabs.len() == 1,
        ensures
            self.outcome(DocOpView::DeleteTab(tab_id)) == Err::<(), ModelError>(
                ModelError::LastTabProtected,
            ),
            self.after(DocOpView::DeleteTab(tab_id)) == self,
            self.after(DocOpView::DeleteTab(tab_id)).tabs.len() == 1,
    {
    }
}

/// After any sequence of operations on a well-formed document (creating,
/// selecting, deleting tabs and all the others) exactly one tab is active.
pub proof fn lemma_always_one_active(doc: DocumentView, ops: Seq<DocOpView>)
    requires
        doc.wf(),
        forall|i: int| 0 <= i < ops.len() ==> (#[trigger] ops[i]).wf(),
    ensures
        after_all(doc, ops).wf(),
        one_active(after_all(doc, ops).tabs),
        after_all(doc, ops).tabs.len() >= 1,
    decreases ops.len(),
{
    if ops.len() > 0 {
        let rest = ops.drop_last();
        assert forall|i: int| 0 <= i < rest.len() implies (#[trigger] rest[i]).wf() by {
            assert(ops[i].wf());
        }
        lemma_always_one_active(doc, rest);
        assert(ops[ops.len() - 1].wf());
        after_all(doc, rest).lemma_after_wf(ops.last());
    }
}

} // verus!
