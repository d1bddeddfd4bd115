//! Tabs and their bounded undo history.
//!
//! A tab keeps between one and `MAX_CHECKPOINTS` checkpoints, oldest first.
//! The newest one is the live canvas: edits change it in place, a commit
//! puts a copy of it on top, and undo drops it again.

use crate::checkpoint::{Checkpoint, CheckpointView, Edit, EditView, ModelError};
use std::collections::VecDeque;
use vstd::prelude::*;

verus! {

/// The largest number of checkpoints a tab keeps.
pub const MAX_CHECKPOINTS: usize = 7;

/// The history after a commit: a copy of the live canvas on top, and the
/// oldest checkpoint gone if that made one too many.
pub open spec fn commit_history(h: Seq<CheckpointView>) -> Seq<CheckpointView>
    recommends
        h.len() > 0,
{
    let grown = h.push(h.last());
    if grown.len() > MAX_CHECKPOINTS {
        grown.subrange(1, grown.len() as int)
    } else {
        grown
    }
}

/// The history after an undo: the newest checkpoint gone, unless it is the
/// only one.
pub open spec fn undo_history(h: Seq<CheckpointView>) -> Seq<CheckpointView> {
    if h.len() > 1 {
        h.drop_last()
    } else {
        h
    }
}

/// The history after `n` commits in a row.
pub open spec fn commit_times(h: Seq<CheckpointView>, n: nat) -> Seq<CheckpointView>
    decreases n,
{
    if n == 0 {
        h
    } else {
        commit_history(commit_times(h, (n - 1) as nat))
    }
}

/// The history with the live canvas replaced.
pub open spec fn with_live(h: Seq<CheckpointView>, cp: CheckpointView) -> Seq<CheckpointView>
    recommends
        h.len() > 0,
{
    h.update(h.len() - 1, cp)
}

/// A history holds between one and `MAX_CHECKPOINTS` well-formed
/// checkpoints.
pub open spec fn history_wf(h: Seq<CheckpointView>) -> bool {
    &&& 1 <= h.len() <= MAX_CHECKPOINTS
    &&& forall|i: int| 0 <= i < h.len() ==> (#[trigger] h[i]).wf()
}

/// A commit never lets the history grow beyond `MAX_CHECKPOINTS`, keeps it
/// well-formed, and leaves the live canvas as it was.
pub proof fn lemma_commit_bounded(h: Seq<CheckpointView>)
    requires
        history_wf(h),
    ensures
        history_wf(commit_history(h)),
        commit_history(h).len() <= MAX_CHECKPOINTS,
        commit_history(h).len() == if h.len() < MAX_CHECKPOINTS {
            h.len() + 1
        } else {
            h.len()
        },
        commit_history(h).last() == h.last(),
{
}

/// The bound holds after any number of commits.
pub proof fn lemma_commits_bounded(h: Seq<CheckpointView>, n: nat)
    requires
        history_wf(h),
    ensures
        history_wf(commit_times(h, n)),
        commit_times(h, n).len() <= MAX_CHECKPOINTS,
        commit_times(h, n).last() == h.last(),
    decreases n,
{
    if n > 0 {
        lemma_commits_bounded(h, (n - 1) as nat);
        lemma_commit_bounded(commit_times(h, (n - 1) as nat));
    }
}

/// Undo keeps a history well-formed, and on a history of one checkpoint it
/// changes nothing.
pub proof fn lemma_undo_wf(h: Seq<CheckpointView>)
    requires
        history_wf(h),
    ensures
        history_wf(undo_history(h)),
        h.len() == 1 ==> undo_history(h) == h,
        h.len() > 1 ==> undo_history(h).len() == h.len() - 1 && undo_history(h).last() == h[h.len()
            - 2],
{
}

/// Undo is last in, first out: whatever became of the live canvas after a
/// commit, one undo brings back the canvas as it was when that commit was
/// made, and below it the history that the commit left.
pub proof fn lemma_undo_restores(h: Seq<CheckpointView>, edited: CheckpointView)
    requires
        history_wf(h),
    ensures
        undo_history(with_live(commit_history(h), edited)).last() == h.last(),
        undo_history(with_live(commit_history(h), edited)) == commit_history(h).drop_last(),
        h.len() < MAX_CHECKPOINTS ==> undo_history(with_live(commit_history(h), edited)) == h,
{
    let c = commit_history(h);
    assert(with_live(c, edited).drop_last() =~= c.drop_last());
    if h.len() < MAX_CHECKPOINTS {
        assert(c.drop_last() =~= h);
    }
}

/// After `n` commits in a row, `n` at least one, an undo leaves the canvas
/// that was live before the last of them.
pub proof fn lemma_undo_after_commits(h: Seq<CheckpointView>, n: nat)
    requires
        history_wf(h),
        n >= 1,
    ensures
        undo_history(commit_times(h, n)).last() == commit_times(h, (n - 1) as nat).last(),
{
    let before = commit_times(h, (n - 1) as nat);
    lemma_commits_bounded(h, (n - 1) as nat);
    lemma_commit_bounded(before);
    let after = commit_history(before);
    assert(after.drop_last().last() == before.last());
}

/// Mathematical model of a tab.
pub struct TabView {
    pub id: u128,
    pub name: Seq<char>,
    pub is_active: bool,
    pub history: Seq<CheckpointView>,
}

impl TabView {
    pub open spec fn wf(self) -> bool {
        history_wf(self.history)
    }

    /// The live canvas: the newest checkpoint.
    pub open spec fn live(self) -> CheckpointView
        recommends
            self.history.len() > 0,
    {
        self.history.last()
    }

    /// A new tab: one empty checkpoint.
    pub open spec fn fresh(id: u128, name: Seq<char>, is_active: bool) -> TabView {
        TabView { id, name, is_active, history: seq![CheckpointView::empty()] }
    }

    pub open spec fn committed(self) -> TabView {
        TabView { history: commit_history(self.history), ..self }
    }

    pub open spec fn undone(self) -> TabView {
        TabView { history: undo_history(self.history), ..self }
    }

    /// The tab after a load: the whole history replaced by one checkpoint.
    pub open spec fn loaded(self, cp: CheckpointView) -> TabView {
        TabView { history: seq![cp], ..self }
    }

    /// The tab after an edit of its live canvas.
    pub open spec fn edited(self, edit: EditView) -> TabView {
        TabView { history: with_live(self.history, self.live().after(edit)), ..self }
    }

    pub open spec fn renamed(self, name: Seq<char>) -> TabView {
        TabView { name, ..self }
    }

    pub open spec fn activated(self, is_active: bool) -> TabView {
        TabView { is_active, ..self }
    }
}

impl TabView {
    /// Commit, undo, load, edit, rename and (de)activation each leave a
    /// well-formed tab well-formed.
    pub proof fn lemma_ops_wf(self, edit: EditView, cp: CheckpointView, name: Seq<char>, on: bool)
        requires
            self.wf(),
            edit.wf(),
            cp.wf(),
        ensures
            self.committed().wf(),
            self.undone().wf(),
            self.loaded(cp).wf(),
            self.edited(edit).wf(),
            self.renamed(name).wf(),
            self.activated(on).wf(),
    {
        lemma_commit_bounded(self.history);
        lemma_undo_wf(self.history);
        assert(self.loaded(cp).history[0] == cp);
        self.live().lemma_after_wf(edit);
    }
}

/// The views of a sequence of checkpoints.
pub open spec fn checkpoints_view(v: Seq<Checkpoint>) -> Seq<CheckpointView> {
    v.map_values(|c: Checkpoint| c@)
}

/// A named canvas with its own undo history.
#[derive(Debug)]
pub struct Tab {
    id: u128,
    name: String,
    is_active: bool,
    checkpoints: VecDeque<Checkpoint>,
}

impl View for Tab {
    type V = TabView;

    closed spec fn view(&self) -> TabView {
        TabView {
            id: self.id,
            name: self.name@,
            is_active: self.is_active,
            history: checkpoints_view(self.checkpoints@),
        }
    }
}

impl Tab {
    /// A new tab with one empty checkpoint.
    pub fn new(id: u128, name: String, is_active: bool) -> (r: Tab)
        ensures
            r@ == TabView::fresh(id, name@, is_active),
            r@.wf(),
    {
        let mut checkpoints: VecDeque<Checkpoint> = VecDeque::new();
        checkpoints.push_back(Checkpoint::new());
        let r = Tab { id, name, is_active, checkpoints };
        assert(r@.history =~= seq![CheckpointView::empty()]);
        r
    }

    pub fn id(&self) -> (r: u128)
        ensures
            r == self@.id,
    {
        self.id
    }

    pub fn name(&self) -> (r: &String)
        ensures
            r@ == self@.name,
    {
        &self.name
    }

    pub fn is_active(&self) -> (r: bool)
        ensures
            r == self@.is_active,
    {
        self.is_active
    }

    /// The number of checkpoints in the history.
    pub fn history_len(&self) -> (r: usize)
        ensures
            r == self@.history.len(),
    {
        self.checkpoints.len()
    }

    /// The checkpoint at position `i`, oldest first.
    pub fn checkpoint_at(&self, i: usize) -> (r: &Checkpoint)
        requires
            i < self@.history.len(),
        ensures
            r@ == self@.history[i as int],
    {
        &self.checkpoints[i]
    }

    /// The live canvas.
    pub fn live(&self) -> (r: &Checkpoint)
        requires
            self@.wf(),
        ensures
            r@ == self@.live(),
    {
        &self.checkpoints[self.checkpoints.len() - 1]
    }

    pub fn rename(&mut self, name: String)
        ensures
            final(self)@ == old(self)@.renamed(name@),
    {
        self.name = name;
    }

    pub fn set_active(&mut self, is_active: bool)
        ensures
            final(self)@ == old(self)@.activated(is_active),
    {
        self.is_active = is_active;
    }

    /// Puts a copy of the live canvas on top of the history and evicts the
    /// oldest checkpoint if the history would otherwise exceed
    /// `MAX_CHECKPOINTS`.
    pub fn commit(&mut self)
        requires
            old(self)@.wf(),
        ensures
            final(self)@ == old(self)@.committed(),
            final(self)@.wf(),
            final(self)@.history.len() <= MAX_CHECKPOINTS,
            final(self)@.live() == old(self)@.live(),
    {
        let copy = self.checkpoints[self.checkpoints.len() - 1].clone();
        self.checkpoints.push_back(copy);
        assert(checkpoints_view(self.checkpoints@) =~= old(self)@.history.push(
            old(self)@.history.last(),
        ));
        if self.checkpoints.len() > MAX_CHECKPOINTS {
            let ghost grown = self.checkpoints@;
            let _ = self.checkpoints.pop_front();
            assert(checkpoints_view(self.checkpoints@) =~= checkpoints_view(grown).subrange(
                1,
                grown.len() as int,
            ));
        }
        proof {
            lemma_commit_bounded(old(self)@.history);
        }
    }

    /// Drops the newest checkpoint, so that the one below becomes the live
    /// canvas; with a single checkpoint nothing happens. Returns whether a
    /// checkpoint was dropped.
    pub fn undo(&mut self) -> (undone: bool)
        requires
            old(self)@.wf(),
        ensures
            final(self)@ == old(self)@.undone(),
            final(self)@.wf(),
            undone == (old(self)@.history.len() > 1),
    {
        if self.checkpoints.len() > 1 {
            let _ = self.checkpoints.pop_back();
            assert(checkpoints_view(self.checkpoints@) =~= old(self)@.history.drop_last());
            true
        } else {
            false
        }
    }

    /// Replaces the whole history by the single checkpoint `cp`.
    pub fn load(&mut self, cp: Checkpoint)
        requires
            cp@.wf(),
        ensures
            final(self)@ == old(self)@.loaded(cp@),
            final(self)@.wf(),
    {
        let mut checkpoints: VecDeque<Checkpoint> = VecDeque::new();
        checkpoints.push_back(cp);
        self.checkpoints = checkpoints;
        assert(self@.history =~= seq![cp@]);
    }

    /// Applies one edit to the live canvas, in place; the checkpoints below
    /// are not touched.
    pub fn edit(&mut self, edit: Edit) -> (r: Result<(), ModelError>)
        requires
            old(self)@.wf(),
            edit@.wf(),
        ensures
            r == old(self)@.live().outcome(edit@),
            final(self)@ == old(self)@.edited(edit@),
            final(self)@.wf(),
    {
        let mut live = self.checkpoints.pop_back().unwrap();
        let r = live.apply(edit);
        self.checkpoints.push_back(live);
        assert(checkpoints_view(self.checkpoints@) =~= with_live(old(self)@.history, live@));
        r
    }
}

} // verus!
